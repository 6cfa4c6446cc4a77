use sensor_telemetry::pattern_matching::{
    handle_response, parse_config_line, transition_state, ConfigValue, Event, HttpResponse,
    HttpStatus, ParseError, State,
};

#[test]
fn test_http_status_handler() {
    // Test successful response with body
    let response =
        HttpResponse { status: HttpStatus::Okay, body: Some("Hello World".to_string()), headers: vec![] };
    assert_eq!(handle_response(response), "Success: Hello World");

    // Test successful response without body
    let response = HttpResponse { status: HttpStatus::Okay, body: None, headers: vec![] };
    assert_eq!(handle_response(response), "Success: No content");

    // Test not found
    let response = HttpResponse { status: HttpStatus::NotFound, body: None, headers: vec![] };
    assert_eq!(handle_response(response), "Error: Resource not found");

    // Test server error
    let response = HttpResponse { status: HttpStatus::ServerError, body: None, headers: vec![] };
    assert_eq!(handle_response(response), "Error: Internal server error");

    // Test custom status < 400
    let response = HttpResponse { status: HttpStatus::Custom(202), body: None, headers: vec![] };
    assert_eq!(handle_response(response), "Info: Status 202");

    // Test custom status >= 400
    let response = HttpResponse { status: HttpStatus::Custom(403), body: None, headers: vec![] };
    assert_eq!(handle_response(response), "Error: Status 403");
}

#[test]
fn test_config_parser() {
    // Test string without type hint
    let result = parse_config_line("name=John").unwrap();
    assert_eq!(result.0, "name");
    assert_eq!(result.1, ConfigValue::String("John".to_string()));

    // Test explicit string type
    let result = parse_config_line("title:string=Manager").unwrap();
    assert_eq!(result.0, "title");
    assert_eq!(result.1, ConfigValue::String("Manager".to_string()));

    // Test integer with type hint
    let result = parse_config_line("port:int=8080").unwrap();
    assert_eq!(result.0, "port");
    assert_eq!(result.1, ConfigValue::Integer(8080));

    // Test integer without type hint (inferred)
    let result = parse_config_line("timeout=30").unwrap();
    assert_eq!(result.0, "timeout");
    assert_eq!(result.1, ConfigValue::Integer(30));

    // Test boolean
    let result = parse_config_line("debug:bool=true").unwrap();
    assert_eq!(result.0, "debug");
    assert_eq!(result.1, ConfigValue::Boolean(true));

    // Test array
    let result = parse_config_line("tags:array=tag1,tag2,tag3").unwrap();
    assert_eq!(result.0, "tags");
    assert_eq!(
        result.1,
        ConfigValue::Array(vec![
            ConfigValue::String("tag1".to_string()),
            ConfigValue::String("tag2".to_string()),
            ConfigValue::String("tag3".to_string()),
        ])
    );

    // Test error cases
    assert_eq!(parse_config_line("invalid"), Err(ParseError::InvalidFormat));
    assert_eq!(parse_config_line("port:int=abc"), Err(ParseError::InvalidNumber("abc".to_string())));
    assert_eq!(parse_config_line("key:unknown=value"), Err(ParseError::UnknownType));
}

#[test]
fn test_state_machine() {
    // Test transitions from Idle
    let state = transition_state(State::Idle, Event::Start);
    assert_eq!(state, State::Processing { progress: 0 });

    // Test transitions from Processing
    let state = transition_state(State::Processing { progress: 0 }, Event::Progress(50));
    assert_eq!(state, State::Processing { progress: 50 });

    let state = transition_state(State::Processing { progress: 50 }, Event::Finish);
    assert_eq!(state, State::Complete);

    let state = transition_state(
        State::Processing { progress: 30 },
        Event::Error("Connection failed".to_string(), true),
    );
    assert_eq!(state, State::Error { message: "Connection failed".to_string(), recoverable: true });

    // Test transitions from Error
    let state =
        transition_state(State::Error { message: "Test error".to_string(), recoverable: true }, Event::Reset);
    assert_eq!(state, State::Idle);

    let error_state = State::Error { message: "Fatal error".to_string(), recoverable: false };
    let state = transition_state(error_state.clone(), Event::Reset);
    assert_eq!(state, error_state);

    // Test transitions from Complete
    let state = transition_state(State::Complete, Event::Reset);
    assert_eq!(state, State::Idle);

    // Test invalid transitions
    let state = transition_state(State::Idle, Event::Finish);
    assert_eq!(state, State::Idle); // Should stay in same state
}

#[test]
fn config_lines_at_the_edges() {
    assert_eq!(parse_config_line(""), Err(ParseError::InvalidFormat));
    assert_eq!(parse_config_line("a=b=c"), Err(ParseError::InvalidFormat));
    assert_eq!(parse_config_line("a:b:c=d"), Err(ParseError::InvalidFormat));
    assert_eq!(parse_config_line("="), Ok((String::new(), ConfigValue::String(String::new()))));
    assert_eq!(parse_config_line("flag=true"), Ok(("flag".to_string(), ConfigValue::Boolean(true))));
    assert_eq!(parse_config_line("flag=false"), Ok(("flag".to_string(), ConfigValue::Boolean(false))));
    assert_eq!(parse_config_line("flag:bool=false"), Ok(("flag".to_string(), ConfigValue::Boolean(false))));
    assert_eq!(parse_config_line("flag:bool=yes"), Err(ParseError::InvalidFormat));
    assert_eq!(parse_config_line("n=-12"), Ok(("n".to_string(), ConfigValue::Integer(-12))));
    assert_eq!(parse_config_line("n=+12"), Ok(("n".to_string(), ConfigValue::Integer(12))));
    assert_eq!(
        parse_config_line("n=9223372036854775807"),
        Ok(("n".to_string(), ConfigValue::Integer(i64::MAX)))
    );
    assert_eq!(
        parse_config_line("n=-9223372036854775808"),
        Ok(("n".to_string(), ConfigValue::Integer(i64::MIN)))
    );
    assert_eq!(
        parse_config_line("n=9223372036854775808"),
        Ok(("n".to_string(), ConfigValue::String("9223372036854775808".to_string())))
    );
    assert_eq!(
        parse_config_line("n:int=9223372036854775808"),
        Err(ParseError::InvalidNumber("9223372036854775808".to_string()))
    );
    assert_eq!(parse_config_line("n:int="), Err(ParseError::InvalidNumber(String::new())));
    assert_eq!(parse_config_line("n= 5"), Ok(("n".to_string(), ConfigValue::String(" 5".to_string()))));
    assert_eq!(parse_config_line(":string=v"), Ok((String::new(), ConfigValue::String("v".to_string()))));
    assert_eq!(
        parse_config_line("tags:array= a , ,b "),
        Ok((
            "tags".to_string(),
            ConfigValue::Array(vec![
                ConfigValue::String("a".to_string()),
                ConfigValue::String(String::new()),
                ConfigValue::String("b".to_string()),
            ])
        ))
    );
    assert_eq!(
        parse_config_line("tags:array="),
        Ok(("tags".to_string(), ConfigValue::Array(vec![ConfigValue::String(String::new())])))
    );
}

#[test]
fn state_machine_keeps_what_it_cannot_change() {
    let fatal = State::Error { message: "m".to_string(), recoverable: false };
    for event in [Event::Start, Event::Progress(1), Event::Error("x".to_string(), true), Event::Reset, Event::Finish] {
        assert_eq!(transition_state(fatal.clone(), event), fatal);
    }
    assert_eq!(transition_state(State::Complete, Event::Start), State::Complete);
    assert_eq!(transition_state(State::Idle, Event::Reset), State::Idle);
    assert_eq!(transition_state(State::Processing { progress: 3 }, Event::Start), State::Processing { progress: 3 });
    assert_eq!(
        transition_state(State::Processing { progress: 3 }, Event::Error("e".to_string(), false)),
        State::Error { message: "e".to_string(), recoverable: false }
    );
}

#[test]
fn http_custom_codes_turn_at_400() {
    let summary = |code| handle_response(HttpResponse { status: HttpStatus::Custom(code), body: Some("b".to_string()), headers: vec![] });
    assert_eq!(summary(0), "Info: Status 0");
    assert_eq!(summary(399), "Info: Status 399");
    assert_eq!(summary(400), "Error: Status 400");
    assert_eq!(summary(65535), "Error: Status 65535");
}
