use hermes_core::form_view::FormData;
use hermes_core::form_view::FormEvolucao;

#[test]
fn form_fields_come_from_the_record() {
    let data = FormData {
        date_created: "2024-05-01T09:30".to_string(),
        my_text: Some("nota clinica".to_string()),
    };
    let form = FormEvolucao(&data, true, false);
    assert_eq!(form.date_created_value, "2024-05-01T09:30");
    assert_eq!(form.my_text_value, "nota clinica");
    assert!(form.auto_submit);
    assert!(!form.new_form);
}

#[test]
fn absent_text_defaults_to_empty() {
    let data = FormData {
        date_created: "2024-05-01T09:30".to_string(),
        my_text: None,
    };
    let form = FormEvolucao(&data, false, true);
    assert_eq!(form.my_text_value, "");
    assert!(!form.auto_submit);
    assert!(form.new_form);
}
