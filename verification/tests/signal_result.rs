use hermes_core::errors::AppError;
use hermes_core::signal_result::combine3;
use hermes_core::signal_result::combine4;
use hermes_core::signal_result::signal_result_view;
use hermes_core::signal_result::SignalResult;

#[test]
fn test_combine_loading() {
    let a: SignalResult<i32> = SignalResult::Loading;
    let b: SignalResult<i32> = SignalResult::Ready(1);
    let result: SignalResult<(i32, i32)> = a.combine(b);
    assert!(matches!(result, SignalResult::Loading));

    let a: SignalResult<i32> = SignalResult::Ready(1);
    let b: SignalResult<i32> = SignalResult::Loading;
    let result: SignalResult<(i32, i32)> = a.combine(b);
    assert!(matches!(result, SignalResult::Loading));
}

#[test]
fn test_combine_ok() {
    let a = SignalResult::Ready(1);
    let b = SignalResult::Ready(2.0);
    let result: SignalResult<(i32, f64)> = a.combine(b);
    assert!(matches!(result, SignalResult::Ready(_)));
    if let SignalResult::Ready((x, y)) = result {
        assert_eq!(x, 1);
        assert_eq!(y, 2.0);
    }
}

#[test]
fn test_combine_err() {
    let a: SignalResult<i32> = SignalResult::Failed(vec![AppError::PageNotFound]);
    let b: SignalResult<i32> = SignalResult::Failed(vec![AppError::PageNotFound]);
    let result: SignalResult<(i32, i32)> = a.combine(b);
    assert!(matches!(result, SignalResult::Failed(_)));
    if let SignalResult::Failed(errors) = result {
        assert_eq!(errors.len(), 2);
    }

    let a: SignalResult<i32> = SignalResult::Ready(1);
    let b: SignalResult<i32> = SignalResult::Failed(vec![AppError::PageNotFound]);
    let result: SignalResult<(i32, i32)> = a.combine(b);
    assert!(matches!(result, SignalResult::Failed(_)));
    if let SignalResult::Failed(errors) = result {
        assert_eq!(errors.len(), 1);
    }

    let a: SignalResult<i32> = SignalResult::Failed(vec![AppError::PageNotFound]);
    let b: SignalResult<i32> = SignalResult::Ready(1);
    let result: SignalResult<(i32, i32)> = a.combine(b);
    assert!(matches!(result, SignalResult::Failed(_)));
    if let SignalResult::Failed(errors) = result {
        assert_eq!(errors.len(), 1);
    }
}

#[test]
fn test_combine() {
    let a = SignalResult::Ready(1);
    let b = SignalResult::Ready(2.0);
    let result: SignalResult<(i32, f64)> = a.combine(b);
    assert!(matches!(result, SignalResult::Ready(_)));
    if let SignalResult::Ready((x, y)) = result {
        assert_eq!(x, 1);
        assert_eq!(y, 2.0);
    }
}

#[test]
fn test_from_option_result() {
    let ok_result: Option<Result<i32, AppError>> = Some(Ok(42));
    let err_result: Option<Result<i32, AppError>> = Some(Err(AppError::PageNotFound));
    let none_result: Option<Result<i32, AppError>> = None;

    assert!(matches!(
        SignalResult::from_option_result(ok_result),
        SignalResult::Ready(_)
    ));
    assert!(matches!(
        SignalResult::from_option_result(err_result),
        SignalResult::Failed(_)
    ));
    assert!(matches!(
        SignalResult::from_option_result(none_result),
        SignalResult::Loading
    ));
}

#[test]
fn test_from_result() {
    let ok_result: Result<i32, AppError> = Ok(42);
    let err_result: Result<i32, AppError> = Err(AppError::PageNotFound);

    assert!(matches!(
        SignalResult::from_result(ok_result),
        SignalResult::Ready(_)
    ));
    assert!(matches!(
        SignalResult::from_result(err_result),
        SignalResult::Failed(_)
    ));
}

#[test]
fn test_from_option() {
    let some_value: Option<i32> = Some(42);
    let none_value: Option<i32> = None;

    assert!(matches!(
        SignalResult::from_option(some_value),
        SignalResult::Ready(_)
    ));
    assert!(matches!(
        SignalResult::from_option(none_value),
        SignalResult::Loading
    ));
}

#[test]
fn loading_dominates_every_pairing() {
    // Every pairing with a Loading operand stays Loading, whatever the
    // other operand holds.
    let pairings: Vec<(SignalResult<i32>, SignalResult<i32>)> = vec![
        (SignalResult::Loading, SignalResult::Loading),
        (SignalResult::Loading, SignalResult::Ready(7)),
        (SignalResult::Loading, SignalResult::Failed(vec![AppError::PageNotFound])),
        (SignalResult::Ready(7), SignalResult::Loading),
        (SignalResult::Failed(vec![AppError::ValidationFailed]), SignalResult::Loading),
    ];
    for (a, b) in pairings {
        assert!(matches!(a.combine(b), SignalResult::Loading));
    }
}

#[test]
fn err_pairings_accumulate_in_order() {
    let a: SignalResult<i32> = SignalResult::Failed(vec![AppError::PageNotFound]);
    let b: SignalResult<i32> = SignalResult::Failed(vec![AppError::ValidationFailed]);
    let result = a.combine(b);
    if let SignalResult::Failed(errors) = result {
        assert_eq!(errors, vec![AppError::PageNotFound, AppError::ValidationFailed]);
    } else {
        panic!("expected the combination of two failures to fail");
    }
}

#[test]
fn err_discards_ok_payload() {
    let a: SignalResult<i32> = SignalResult::Ready(7);
    let b: SignalResult<i32> = SignalResult::Failed(vec![AppError::ValidationFailed]);
    if let SignalResult::Failed(errors) = a.combine(b) {
        assert_eq!(errors, vec![AppError::ValidationFailed]);
    } else {
        panic!("expected a lone failure to win over success");
    }
}

#[test]
fn three_sources_loading_err_ok_is_loading() {
    let a: SignalResult<i32> = SignalResult::Loading;
    let b: SignalResult<bool> = SignalResult::Failed(vec![AppError::PageNotFound]);
    let c: SignalResult<i32> = SignalResult::Ready(3);
    let folded = a.combine(b).combine(c);
    assert!(matches!(folded, SignalResult::Loading));

    let a: SignalResult<i32> = SignalResult::Loading;
    let b: SignalResult<bool> = SignalResult::Failed(vec![AppError::PageNotFound]);
    let c: SignalResult<i32> = SignalResult::Ready(3);
    let flat = combine3(a, b, c);
    assert!(matches!(flat, SignalResult::Loading));

    // The grouping does not change the outcome.
    let a: SignalResult<i32> = SignalResult::Loading;
    let b: SignalResult<bool> = SignalResult::Failed(vec![AppError::PageNotFound]);
    let c: SignalResult<i32> = SignalResult::Ready(3);
    let right_grouped = a.combine(b.combine(c));
    assert!(matches!(right_grouped, SignalResult::Loading));
}

#[test]
fn combine3_and_combine4_bundle_in_declaration_order() {
    let r = combine3(
        SignalResult::Ready(1),
        SignalResult::Ready("two".to_string()),
        SignalResult::Ready(3.0),
    );
    if let SignalResult::Ready((a, b, c)) = r {
        assert_eq!(a, 1);
        assert_eq!(b, "two");
        assert_eq!(c, 3.0);
    } else {
        panic!("expected three ready sources to bundle");
    }

    let r = combine4(
        SignalResult::Ready(1),
        SignalResult::Ready(2),
        SignalResult::Ready(3),
        SignalResult::Ready(4),
    );
    if let SignalResult::Ready((a, b, c, d)) = r {
        assert_eq!((a, b, c, d), (1, 2, 3, 4));
    } else {
        panic!("expected four ready sources to bundle");
    }
}

#[test]
fn view_selection_takes_exactly_one_branch() {
    let ready: SignalResult<i32> = SignalResult::Ready(5);
    let shown = signal_result_view(
        ready,
        |v: i32| format!("value {}", v),
        |errors: Vec<AppError>| format!("{} errors", errors.len()),
        || "loading".to_string(),
    );
    assert_eq!(shown, "value 5");

    let failed: SignalResult<i32> = SignalResult::Failed(vec![AppError::PageNotFound]);
    let shown = signal_result_view(
        failed,
        |v: i32| format!("value {}", v),
        |errors: Vec<AppError>| format!("{} errors", errors.len()),
        || "loading".to_string(),
    );
    assert_eq!(shown, "1 errors");

    let loading: SignalResult<i32> = SignalResult::Loading;
    let shown = signal_result_view(
        loading,
        |v: i32| format!("value {}", v),
        |errors: Vec<AppError>| format!("{} errors", errors.len()),
        || "loading".to_string(),
    );
    assert_eq!(shown, "loading");
}
