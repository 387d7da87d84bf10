use umami_alerts::AppError;

#[test]
fn test_error_conversions() {
    let io_err = std::io::Error::new(std::io::ErrorKind::NotFound, "file not found");
    let app_err: AppError = io_err.into();
    assert!(matches!(app_err, AppError::Io(_)));

    let str_err: AppError = "test error".into();
    assert!(matches!(str_err, AppError::Task(_)));

    let string_err: AppError = String::from("test error").into();
    assert!(matches!(string_err, AppError::Task(_)));
}

#[test]
fn test_error_display() {
    let err = AppError::Config("invalid config".to_string());
    assert_eq!(err.to_string(), "Configuration error: invalid config");

    let err = AppError::api("API timeout");
    assert_eq!(err.to_string(), "API error: API timeout");
}

#[test]
fn display_of_every_message_kind() {
    assert_eq!(AppError::task("late").to_string(), "Task error: late");
    assert_eq!(AppError::Template("x".to_string()).to_string(), "Template error: x");
    assert_eq!(AppError::Smtp("x".to_string()).to_string(), "SMTP error: x");
    assert_eq!(AppError::Email("x".to_string()).to_string(), "Email error: x");
    let io = AppError::Io(std::io::Error::new(std::io::ErrorKind::NotFound, "gone"));
    assert_eq!(io.to_string(), "IO error: gone");
    let url: AppError = url::Url::parse("nope").unwrap_err().into();
    assert!(url.to_string().starts_with("URL parsing error: "));
    let json: AppError = serde_json::from_str::<u8>("x").unwrap_err().into();
    assert!(json.to_string().starts_with("JSON error: "));
}
