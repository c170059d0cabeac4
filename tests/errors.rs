use es_runtime::error::{eval_outcome, EsErrorInfo};

#[test]
fn test_report_exception() {
    // let b = quibus * 12;
    let pending = EsErrorInfo {
        message: "quibus is not defined".to_string(),
        filename: "test_ex.es".to_string(),
        lineno: 1,
        column: 9,
    };
    let res = eval_outcome(false, Some(pending), "test_ex.es");
    let ex = res.err().unwrap();
    assert_eq!(ex.message, "quibus is not defined");
    assert_eq!(ex.filename, "test_ex.es");
}

#[test]
fn eval_failure_without_exception() {
    let res = eval_outcome(false, None, "x.es");
    let ex = res.err().unwrap();
    assert_eq!(ex.message, "unknown error while evalling");
    assert_eq!(ex.filename, "x.es");
    assert_eq!(ex.lineno, 0);
    assert_eq!(ex.column, 0);
}

#[test]
fn eval_success() {
    assert!(eval_outcome(true, None, "ok.es").is_ok());
}

#[test]
fn unknown_eval_error_fields() {
    let e = EsErrorInfo::unknown_eval_error("f.es");
    assert_eq!(e.message, "unknown error while evalling");
    assert_eq!(e.filename, "f.es");
}
