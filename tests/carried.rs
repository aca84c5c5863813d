use scout::{parse_range, parse_scout_url, ApiError, AuthError, Error, OutputFormat, ScoutUrlType};

#[test]
fn output_format_from_str() {
    assert_eq!(
        "plain".parse::<OutputFormat>().unwrap(),
        OutputFormat::Plain
    );
    assert_eq!("json".parse::<OutputFormat>().unwrap(), OutputFormat::Json);
    assert_eq!(
        "Plain".parse::<OutputFormat>().unwrap(),
        OutputFormat::Plain
    );
    assert_eq!("JSON".parse::<OutputFormat>().unwrap(), OutputFormat::Json);
    assert_eq!("p".parse::<OutputFormat>().unwrap(), OutputFormat::Plain);
    assert_eq!("j".parse::<OutputFormat>().unwrap(), OutputFormat::Json);
    assert_eq!("text".parse::<OutputFormat>().unwrap(), OutputFormat::Plain);
    assert!("xml".parse::<OutputFormat>().is_err());
}

#[test]
fn api_error_new() {
    let e = ApiError::new("bad request", Some(400), None);
    assert_eq!(e.message, "bad request");
    assert_eq!(e.status_code, Some(400));
    assert!(e.response_data.is_none());
}

#[test]
fn api_error_display() {
    let e = ApiError::new("not found", Some(404), None);
    assert_eq!(e.to_string(), "not found");
}

#[test]
fn auth_error_display() {
    let e = AuthError {
        message: "invalid key".to_string(),
    };
    assert_eq!(e.to_string(), "invalid key");
}

#[test]
fn error_from_auth() {
    let auth = AuthError {
        message: "unauthorized".to_string(),
    };
    let e: Error = auth.into();
    assert!(matches!(e, Error::Auth(_)));
    assert!(e.to_string().contains("Authentication failed"));
}

#[test]
fn error_from_api() {
    let api = ApiError::new("server error", Some(500), None);
    let e: Error = api.into();
    assert!(matches!(e, Error::Api(_)));
    assert!(e.to_string().contains("API error"));
}

#[test]
fn test_parse_range() {
    assert_eq!(parse_range("30min").unwrap(), 30 * 60);
    assert_eq!(parse_range("1day").unwrap(), 86400);
    assert_eq!(parse_range("7days").unwrap(), 7 * 86400);
}

#[test]
fn test_parse_scout_url_trace() {
    let u = "https://scoutapm.com/apps/123/endpoints/abc/trace/456";
    let p = parse_scout_url(u).unwrap();
    assert_eq!(p.url_type, ScoutUrlType::Trace);
    assert_eq!(p.app_id, Some(123));
    assert_eq!(p.trace_id, Some(456));
}
