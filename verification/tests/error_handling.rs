use sensor_telemetry::chars::IntegerError;
use sensor_telemetry::error_handling::{
    Config, ConfigError, DataProcessor, EmailBuilder, EmailError, ProcessError,
};

#[test]
fn test_email_builder() {
    let email_result = EmailBuilder::new()
        .to("user@example.com")
        .and_then(|b| b.from("sender@example.com"))
        .and_then(|b| b.subject("Test"))
        .and_then(|b| b.body("Hello"))
        .and_then(|b| b.build());

    assert!(email_result.is_ok());
}

#[test]
fn test_invalid_email() {
    let result = EmailBuilder::new().to("invalid");
    assert!(result.is_err());
}

#[test]
fn email_parts_and_announcement() {
    let email = EmailBuilder::new()
        .to("user@example.com")
        .and_then(|b| b.from("sender@example.com"))
        .and_then(|b| b.subject("Test"))
        .and_then(|b| b.body("Hello"))
        .and_then(|b| b.build())
        .unwrap();
    assert_eq!(email.to, "user@example.com");
    assert_eq!(email.from, "sender@example.com");
    assert_eq!(email.subject, "Test");
    assert_eq!(email.body, "Hello");
    assert_eq!(
        email.announce(),
        vec![
            "Sending email from sender@example.com to user@example.com".to_string(),
            "Subject: Test".to_string(),
            "Body: Hello".to_string(),
        ]
    );
}

#[test]
fn email_errors() {
    match EmailBuilder::new().to("invalid") {
        Err(EmailError::InvalidEmail(address)) => assert_eq!(address, "invalid"),
        _ => panic!("expected an invalid address"),
    }
    match EmailBuilder::new().from("") {
        Err(error) => assert_eq!(error.message(), "Invalid email format: "),
        _ => panic!("expected an invalid address"),
    }
    match EmailBuilder::new().subject("") {
        Err(EmailError::MissingField(field)) => assert_eq!(field, "subject cannot be empty"),
        _ => panic!("expected a missing subject"),
    }
    let missing = |outcome: Result<_, EmailError>| match outcome {
        Err(error) => error.message(),
        Ok(_) => panic!("expected a missing field"),
    };
    assert_eq!(missing(EmailBuilder::new().build()), "Missing required field: to");
    assert_eq!(
        missing(EmailBuilder::new().to("a@b").and_then(|b| b.build())),
        "Missing required field: from"
    );
    assert_eq!(
        missing(EmailBuilder::new().to("a@b").and_then(|b| b.from("c@d")).and_then(|b| b.build())),
        "Missing required field: subject"
    );
    assert_eq!(
        missing(
            EmailBuilder::new()
                .to("a@b")
                .and_then(|b| b.from("c@d"))
                .and_then(|b| b.subject("s"))
                .and_then(|b| b.build())
        ),
        "Missing required field: body"
    );
}

#[test]
fn config_is_read_from_lines() {
    let text = "# settings\n\nversion = 3\r\nname=demo\n  port =8080  \nurl=http://h/?a=b\nname = other\n";
    let config = Config::parse(text).ok().unwrap();
    assert_eq!(config.get("version"), Some(&"3".to_string()));
    assert_eq!(config.get("name"), Some(&"other".to_string()));
    assert_eq!(config.get("url"), Some(&"http://h/?a=b".to_string()));
    assert_eq!(config.get("missing"), None);
    assert_eq!(config.get_required("port").ok(), Some(&"8080".to_string()));
    assert_eq!(config.get_int("port").ok(), Some(8080));
    assert_eq!(config.get_int("version").ok(), Some(3));
    match config.get_required("missing") {
        Err(ConfigError::ValidationError(words)) => assert_eq!(words, "Missing key: missing"),
        _ => panic!("expected a missing key"),
    }
    match config.get_int("name") {
        Err(error) => assert_eq!(error.message(), "Parse error: invalid digit found in string"),
        _ => panic!("expected a parse error"),
    }
    match config.get_int("missing") {
        Err(error) => assert_eq!(error.message(), "Validation error: Missing key: missing"),
        _ => panic!("expected a missing key"),
    }
}

#[test]
fn config_refuses_bad_text() {
    match Config::parse("version=1\nno equals sign here\nafter=1") {
        Err(ConfigError::ParseError(words)) => assert_eq!(words, "Invalid line format: no equals sign here"),
        _ => panic!("expected a parse error"),
    }
    match Config::parse("name=x\n") {
        Err(ConfigError::ValidationError(words)) => assert_eq!(words, "Missing required key: version"),
        _ => panic!("expected a validation error"),
    }
    match Config::parse("") {
        Err(ConfigError::ValidationError(words)) => assert_eq!(words, "Missing required key: version"),
        _ => panic!("expected a validation error"),
    }
    let config = Config::parse("version=").ok().unwrap();
    assert_eq!(config.get("version"), Some(&String::new()));
    match config.get_int("version") {
        Err(ConfigError::ParseError(words)) => assert_eq!(words, "cannot parse integer from empty string"),
        _ => panic!("expected a parse error"),
    }
}

#[test]
fn config_error_from_io_error() {
    let error: ConfigError = std::io::Error::new(std::io::ErrorKind::NotFound, "gone").into();
    assert!(matches!(error, ConfigError::IoError(_)));
    assert_eq!(error.message(), "IO error: gone");
}

#[test]
fn processor_collects_numbers_and_errors() {
    let mut processor = DataProcessor::new();
    assert!(!processor.has_errors());
    let numbers = processor.process_contents("1\n 22 \n\n-3\nabc\n2147483648\n+4\r\n0");
    assert_eq!(numbers, vec![1, 22, 4, 0]);
    assert!(processor.has_errors());
    assert_eq!(processor.errors.len(), 3);
    assert_eq!(processor.errors[0].message(), "Validation error: Negative number -3 at line 4");
    assert_eq!(processor.errors[1].message(), "Parse error at line 5: invalid digit found in string");
    assert_eq!(
        processor.errors[2].message(),
        "Parse error at line 6: number too large to fit in target type"
    );
    assert!(matches!(
        processor.errors[2],
        ProcessError::ParseError { line: 6, error: IntegerError::PosOverflow }
    ));
    let more = processor.process_contents("-2147483649");
    assert!(more.is_empty());
    assert_eq!(processor.errors.len(), 4);
    assert_eq!(
        processor.errors[3].message(),
        "Parse error at line 1: number too small to fit in target type"
    );
}

#[test]
fn process_error_for_a_file() {
    let error = ProcessError::FileError {
        path: "data.txt".to_string(),
        error: std::io::Error::new(std::io::ErrorKind::NotFound, "gone"),
    };
    assert_eq!(error.message(), "File error at data.txt: gone");
}
