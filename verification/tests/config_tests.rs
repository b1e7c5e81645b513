use lambda_web_adapter::config::{parse_bool_or, parse_u16_or, AdapterOptions};
use lambda_web_adapter::{parse_status_codes, LambdaInvokeMode, Protocol};

#[test]
fn test_parse_status_codes() {
    assert_eq!(parse_status_codes("500,502-504,422"), vec![500, 502, 503, 504, 422]);
    assert_eq!(
        parse_status_codes("500, 502-504, 422"), // with spaces
        vec![500, 502, 503, 504, 422]
    );
    assert_eq!(parse_status_codes("500"), vec![500]);
    assert_eq!(parse_status_codes("500-502"), vec![500, 501, 502]);
    assert_eq!(parse_status_codes("invalid"), Vec::<u16>::new());
    assert_eq!(parse_status_codes("500-invalid"), Vec::<u16>::new());
    assert_eq!(parse_status_codes(""), Vec::<u16>::new());
}

#[test]
fn parse_status_codes_drops_only_malformed_tokens() {
    assert_eq!(parse_status_codes("abc,404, 500-501 ,x-y"), vec![404, 500, 501]);
    assert_eq!(parse_status_codes("  422  "), vec![422]);
    assert_eq!(parse_status_codes("500-500"), vec![500]);
    // a descending range holds no codes
    assert_eq!(parse_status_codes("504-502"), Vec::<u16>::new());
    // a second dash makes the token malformed
    assert_eq!(parse_status_codes("500-502-504"), Vec::<u16>::new());
    // numbers beyond sixteen bits are malformed
    assert_eq!(parse_status_codes("99999"), Vec::<u16>::new());
}

#[test]
fn protocol_parses_leniently() {
    assert_eq!(Protocol::from("http"), Protocol::Http);
    assert_eq!(Protocol::from("HTTP"), Protocol::Http);
    assert_eq!(Protocol::from("tcp"), Protocol::Tcp);
    assert_eq!(Protocol::from("TCP"), Protocol::Tcp);
    assert_eq!(Protocol::from("Tcp"), Protocol::Tcp);
    assert_eq!(Protocol::from("anything-else"), Protocol::Http);
    assert_eq!(Protocol::from(""), Protocol::Http);
    assert_eq!(Protocol::default(), Protocol::Http);
}

#[test]
fn invoke_mode_parses_leniently() {
    assert_eq!(LambdaInvokeMode::from("buffered"), LambdaInvokeMode::Buffered);
    assert_eq!(LambdaInvokeMode::from("response_stream"), LambdaInvokeMode::ResponseStream);
    assert_eq!(LambdaInvokeMode::from("RESPONSE_STREAM"), LambdaInvokeMode::ResponseStream);
    assert_eq!(LambdaInvokeMode::from("garbage"), LambdaInvokeMode::Buffered);
    assert_eq!(LambdaInvokeMode::from(""), LambdaInvokeMode::Buffered);
    assert_eq!(LambdaInvokeMode::default(), LambdaInvokeMode::Buffered);
}

#[test]
fn default_options_match_documented_defaults() {
    let options = AdapterOptions::default();
    assert_eq!(options.host, "127.0.0.1");
    assert_eq!(options.port, "8080");
    assert_eq!(options.readiness_check_port, "8080");
    assert_eq!(options.readiness_check_path, "/");
    assert_eq!(options.readiness_check_protocol, Protocol::Http);
    assert_eq!(options.readiness_check_min_unhealthy_status, 500);
    assert!(options.base_path.is_none());
    assert_eq!(options.pass_through_path, "/events");
    assert!(!options.async_init);
    assert!(!options.compression);
    assert_eq!(options.invoke_mode, LambdaInvokeMode::Buffered);
    assert!(options.authorization_source.is_none());
    assert!(options.error_status_codes.is_none());
    assert_eq!(options.http_keepalive_secs, Some(30));
    assert!(options.http_nodelay);
    assert!(options.http_reuse_address);
    assert_eq!(options.http_pool_idle_timeout_secs, 60);
    assert_eq!(options.http_pool_max_idle, 32);
    assert!(!options.http_http2_only);
}

#[test]
fn bool_and_number_settings_fall_back_on_malformed_input() {
    assert!(parse_bool_or("true", false));
    assert!(!parse_bool_or("false", true));
    assert!(parse_bool_or("TRUE", true));
    assert!(!parse_bool_or("TRUE", false));
    assert!(parse_bool_or("nonsense", true));
    assert_eq!(parse_u16_or("400", 500), 400);
    assert_eq!(parse_u16_or("not-a-number", 500), 500);
    assert_eq!(parse_u16_or("", 500), 500);
    assert_eq!(parse_u16_or("70000", 500), 500);
}
