use nanomosaic::{convert_err, log_err};

#[test]
fn convert_err_keeps_success() {
    let r: Result<u32, std::num::ParseIntError> = "17".parse::<u32>();
    assert_eq!(convert_err(r), Ok(17));
}

#[test]
fn convert_err_renders_failure() {
    let r: Result<u32, std::num::ParseIntError> = "x".parse::<u32>();
    let converted = convert_err(r);
    assert!(converted.is_err());
    assert!(!converted.unwrap_err().is_empty());
}

#[test]
fn log_err_speaks_only_on_failure() {
    let ok: Result<(), String> = Ok(());
    assert_eq!(log_err(ok), None);
    let bad: Result<(), String> = Err(String::from("boom"));
    let warning = log_err(bad).expect("a warning");
    assert!(warning.contains("boom"));
}
