//! The patient-record form: the computed part of the form view.
//!
//! The surrounding page reads the record from a reactive source and
//! reconciles it through the signal-result aggregator; once the record is
//! available, this module computes the initial value of every field the
//! form shows. The markup, styling and submission wiring around these
//! values are presentation concerns and stay outside the library.

use vstd::prelude::*;

verus! {

/// A patient-record entry, as the form edits it: the creation instant
/// already rendered in the browser's local datetime text form, and the
/// free-text body, absent when nothing was written yet.
#[derive(Debug, Clone)]
pub struct FormData {
    /// The creation instant, in browser-local datetime text form.
    pub date_created: String,
    /// The free-text body of the record, if any.
    pub my_text: Option<String>,
}

/// The computed state of the record form: one initial value per field,
/// and the submission flags handed through.
#[derive(Debug)]
pub struct EvolucaoForm {
    /// Initial value of the creation-instant field.
    pub date_created_value: String,
    /// Initial value of the free-text field; empty when the record holds
    /// no text yet.
    pub my_text_value: String,
    /// Whether the form submits itself on change.
    pub auto_submit: bool,
    /// Whether the form creates a new record rather than editing one.
    pub new_form: bool,
}

/// Computes the record form's initial field values: the creation instant
/// verbatim, the free text defaulted to empty when absent, and the
/// submission flags handed through unchanged.
#[allow(non_snake_case)]
pub fn FormEvolucao(form_data: &FormData, auto_submit: bool, new_form: bool) -> (r: EvolucaoForm)
    ensures
        r.date_created_value@ == form_data.date_created@,
        form_data.my_text matches Some(t) ==> r.my_text_value@ == t@,
        form_data.my_text is None ==> r.my_text_value@ == Seq::<char>::empty(),
        r.auto_submit == auto_submit,
        r.new_form == new_form,
{
    let my_text_value = match &form_data.my_text {
        Some(t) => t.clone(),
        None => String::new(),
    };
    EvolucaoForm {
        date_created_value: form_data.date_created.clone(),
        my_text_value,
        auto_submit,
        new_form,
    }
}

} // verus!
