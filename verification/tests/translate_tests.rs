use lambda_web_adapter::adapter::{
    remap_authorization, strip_base_path, Adapter, AdapterError, EventBody, InvocationEvent,
};
use lambda_web_adapter::headers::Headers;
use lambda_web_adapter::{AdapterOptions, LambdaInvokeMode};

fn entries(pairs: &[(&str, &str)]) -> Vec<(String, String)> {
    pairs.iter().map(|(k, v)| (k.to_string(), v.to_string())).collect()
}

fn plain_event(path: &str) -> InvocationEvent {
    InvocationEvent {
        method: "GET".to_string(),
        raw_path: path.to_string(),
        query: None,
        headers: Headers::new(),
        body: EventBody::Empty,
        pass_through: false,
        request_context_json: Some("{}".to_string()),
        lambda_context_json: Some("{}".to_string()),
    }
}

#[test]
fn base_path_stripping_is_literal() {
    assert_eq!(strip_base_path("/base/orders", "/base"), "/orders");
    // a non-matching path passes through unchanged
    assert_eq!(strip_base_path("/orders", "/base"), "/orders");
    // not segment aware: a path that merely starts with the characters is stripped
    assert_eq!(strip_base_path("/basement", "/base"), "ment");
    // repeated copies of the prefix are all stripped
    assert_eq!(strip_base_path("/base/base/x", "/base"), "/x");
    // an empty base strips nothing
    assert_eq!(strip_base_path("/orders", ""), "/orders");
}

#[test]
fn url_is_assembled_from_origin_path_and_query() {
    let options = AdapterOptions::default();
    let adapter = Adapter::new(&options);
    assert_eq!(adapter.healthcheck_url, "http://127.0.0.1:8080/");
    assert_eq!(adapter.domain, "http://127.0.0.1:8080");

    let mut event = plain_event("/hello");
    event.query = Some("a=1&b=2".to_string());
    let out = adapter.translate_event(event).unwrap();
    assert_eq!(out.url, "http://127.0.0.1:8080/hello?a=1&b=2");
    assert_eq!(out.method, "GET");
    assert!(matches!(out.body, EventBody::Empty));
}

#[test]
fn base_path_is_stripped_in_translation() {
    let mut options = AdapterOptions::default();
    options.base_path = Some("/base".to_string());
    let adapter = Adapter::new(&options);
    let out = adapter.translate_event(plain_event("/base/orders")).unwrap();
    assert_eq!(out.url, "http://127.0.0.1:8080/orders");
    let out = adapter.translate_event(plain_event("/other")).unwrap();
    assert_eq!(out.url, "http://127.0.0.1:8080/other");
}

#[test]
fn pass_through_applies_only_to_post_pass_through_events() {
    let options = AdapterOptions::default();
    let adapter = Adapter::new(&options);

    let mut event = plain_event("/raw");
    event.method = "POST".to_string();
    event.pass_through = true;
    let out = adapter.translate_event(event).unwrap();
    assert_eq!(out.url, "http://127.0.0.1:8080/events");

    // pass-through but not POST: the path stays
    let mut event = plain_event("/raw");
    event.pass_through = true;
    let out = adapter.translate_event(event).unwrap();
    assert_eq!(out.url, "http://127.0.0.1:8080/raw");

    // POST but an ordinary request context: the path stays
    let mut event = plain_event("/raw");
    event.method = "POST".to_string();
    let out = adapter.translate_event(event).unwrap();
    assert_eq!(out.url, "http://127.0.0.1:8080/raw");
}

#[test]
fn context_headers_are_injected() {
    let options = AdapterOptions::default();
    let adapter = Adapter::new(&options);
    let mut event = plain_event("/x");
    event.headers = Headers::from_entries(entries(&[("accept", "*/*")]));
    event.request_context_json = Some("{\"kind\":\"ctx\"}".to_string());
    event.lambda_context_json = Some("{\"kind\":\"lambda\"}".to_string());
    let out = adapter.translate_event(event).unwrap();
    assert_eq!(
        out.headers.get_first("x-amzn-request-context").map(String::as_str),
        Some("{\"kind\":\"ctx\"}")
    );
    assert_eq!(
        out.headers.get_first("x-amzn-lambda-context").map(String::as_str),
        Some("{\"kind\":\"lambda\"}")
    );
    assert_eq!(out.headers.get_first("accept").map(String::as_str), Some("*/*"));
}

#[test]
fn serialization_failure_aborts_translation() {
    let options = AdapterOptions::default();
    let adapter = Adapter::new(&options);
    let mut event = plain_event("/x");
    event.request_context_json = None;
    assert_eq!(adapter.translate_event(event).err(), Some(AdapterError::ContextSerialization));

    let mut event = plain_event("/x");
    event.lambda_context_json = None;
    assert_eq!(adapter.translate_event(event).err(), Some(AdapterError::ContextSerialization));

    // a context that cannot stand in a header value is rejected too
    let mut event = plain_event("/x");
    event.request_context_json = Some("line\nbreak".to_string());
    assert_eq!(adapter.translate_event(event).err(), Some(AdapterError::InvalidHeaderValue));
}

#[test]
fn authorization_remap_moves_the_source_header() {
    let mut headers = Headers::from_entries(entries(&[
        ("x-custom-auth", "secret-v"),
        ("accept", "*/*"),
        ("authorization", "old-value"),
    ]));
    let found = remap_authorization(&mut headers, "x-custom-auth");
    assert!(found);
    assert_eq!(headers.get_first("authorization").map(String::as_str), Some("secret-v"));
    assert!(!headers.contains("x-custom-auth"));
    assert_eq!(headers.get_first("accept").map(String::as_str), Some("*/*"));
}

#[test]
fn authorization_remap_without_source_leaves_headers_unchanged() {
    let mut headers = Headers::from_entries(entries(&[("accept", "*/*")]));
    let found = remap_authorization(&mut headers, "x-custom-auth");
    // not found: a warning is observable and nothing changed
    assert!(!found);
    assert_eq!(headers.len(), 1);
    assert_eq!(headers.get_first("accept").map(String::as_str), Some("*/*"));
    assert!(!headers.contains("authorization"));
}

#[test]
fn authorization_remap_runs_inside_translation() {
    let mut options = AdapterOptions::default();
    options.authorization_source = Some("x-amzn-custom".to_string());
    let adapter = Adapter::new(&options);
    let mut event = plain_event("/x");
    event.headers = Headers::from_entries(entries(&[("x-amzn-custom", "v")]));
    let out = adapter.translate_event(event).unwrap();
    assert_eq!(out.headers.get_first("authorization").map(String::as_str), Some("v"));
    assert!(!out.headers.contains("x-amzn-custom"));
}

#[test]
fn error_status_interception() {
    let mut options = AdapterOptions::default();
    options.error_status_codes = Some(vec![500]);
    let adapter = Adapter::new(&options);
    let res = adapter.evaluate_response(500, Headers::new());
    assert_eq!(res.err(), Some(AdapterError::ErrorStatusCode(500)));
    assert!(adapter.evaluate_response(502, Headers::new()).is_ok());

    // an empty set never intercepts, whatever the status
    let mut options = AdapterOptions::default();
    options.error_status_codes = Some(Vec::new());
    let adapter = Adapter::new(&options);
    assert!(adapter.evaluate_response(500, Headers::new()).is_ok());
    assert!(adapter.evaluate_response(200, Headers::new()).is_ok());

    // so does an unconfigured one
    let adapter = Adapter::new(&AdapterOptions::default());
    assert!(adapter.evaluate_response(500, Headers::new()).is_ok());
}

#[test]
fn transfer_encoding_is_removed_from_responses() {
    let adapter = Adapter::new(&AdapterOptions::default());
    let headers = Headers::from_entries(entries(&[
        ("Transfer-Encoding", "chunked"),
        ("content-type", "text/plain"),
    ]));
    let out = adapter.evaluate_response(200, headers).unwrap();
    assert!(!out.contains("transfer-encoding"));
    assert_eq!(out.get_first("content-type").map(String::as_str), Some("text/plain"));
}

#[test]
fn dispatch_plan_follows_the_two_axes() {
    let mut options = AdapterOptions::default();
    options.compression = true;
    options.invoke_mode = LambdaInvokeMode::ResponseStream;
    let plan = Adapter::new(&options).dispatch_plan();
    assert!(plan.compression);
    assert!(plan.streaming);

    let plan = Adapter::new(&AdapterOptions::default()).dispatch_plan();
    assert!(!plan.compression);
    assert!(!plan.streaming);
}

#[test]
fn bodies_are_carried_in_their_most_specific_shape() {
    let adapter = Adapter::new(&AdapterOptions::default());
    let mut event = plain_event("/x");
    event.body = EventBody::Text("hello".to_string());
    let out = adapter.translate_event(event).unwrap();
    assert!(matches!(out.body, EventBody::Text(ref t) if t == "hello"));

    let mut event = plain_event("/x");
    event.body = EventBody::Binary(vec![1, 2, 3]);
    let out = adapter.translate_event(event).unwrap();
    assert!(matches!(out.body, EventBody::Binary(ref b) if b == &vec![1, 2, 3]));
}
