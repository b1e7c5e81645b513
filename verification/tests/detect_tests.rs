use lambda_web_adapter::detect::{detect_reactive_framework, resolve_invoke_mode};
use lambda_web_adapter::LambdaInvokeMode;

fn env(pairs: &[(&str, &str)]) -> Vec<(String, String)> {
    pairs.iter().map(|(k, v)| (k.to_string(), v.to_string())).collect()
}

#[test]
fn no_markers_means_not_reactive() {
    assert!(!detect_reactive_framework(&env(&[])));
    assert!(!detect_reactive_framework(&env(&[("PATH", "/usr/bin"), ("HOME", "/root")])));
}

#[test]
fn marker_variables_mean_reactive() {
    assert!(detect_reactive_framework(&env(&[("FASTAPI_VERSION", "0.100")])));
    assert!(detect_reactive_framework(&env(&[("SPRING_WEBFLUX_VERSION", "3")])));
    assert!(detect_reactive_framework(&env(&[("ROCKET_VERSION", "0.5")])));
    // the value does not matter, only the presence
    assert!(detect_reactive_framework(&env(&[("KOA_VERSION", "")])));
}

#[test]
fn explicit_reactive_setting_wins_either_way() {
    assert!(detect_reactive_framework(&env(&[("AWS_LWA_IS_REACTIVE_APPLICATION", "true")])));
    assert!(detect_reactive_framework(&env(&[("AWS_LWA_IS_REACTIVE_APPLICATION", "TRUE")])));
    assert!(!detect_reactive_framework(&env(&[
        ("AWS_LWA_IS_REACTIVE_APPLICATION", "false"),
        ("FASTAPI_VERSION", "0.100"),
    ])));
    // an unrecognized value falls through to detection
    assert!(detect_reactive_framework(&env(&[
        ("AWS_LWA_IS_REACTIVE_APPLICATION", "maybe"),
        ("FASTAPI_VERSION", "0.100"),
    ])));
}

#[test]
fn detection_can_be_disabled() {
    assert!(!detect_reactive_framework(&env(&[
        ("AWS_LWA_DISABLE_FRAMEWORK_DETECTION", "true"),
        ("FASTAPI_VERSION", "0.100"),
        ("HTTP_ACCEPT", "text/event-stream"),
    ])));
}

#[test]
fn profile_indicators_mean_reactive() {
    assert!(detect_reactive_framework(&env(&[("SPRING_PROFILES_ACTIVE", "prod,reactive")])));
    assert!(!detect_reactive_framework(&env(&[("SPRING_PROFILES_ACTIVE", "prod")])));
    assert!(detect_reactive_framework(&env(&[("DJANGO_SETTINGS_MODULE", "app.channels.settings")])));
    assert!(detect_reactive_framework(&env(&[("QUARKUS_VERSION", "3.2")])));
    assert!(detect_reactive_framework(&env(&[("MICRONAUT_VERSION", "4")])));
    assert!(detect_reactive_framework(&env(&[("LARAVEL_VERSION", "10")])));
}

#[test]
fn streaming_content_types_mean_reactive() {
    assert!(detect_reactive_framework(&env(&[("HTTP_ACCEPT", "text/event-stream")])));
    assert!(detect_reactive_framework(&env(&[("HTTP_ACCEPT", "TEXT/EVENT-STREAM")])));
    assert!(detect_reactive_framework(&env(&[("HTTP_ACCEPT", "application/octet-stream")])));
    assert!(detect_reactive_framework(&env(&[("HTTP_ACCEPT", "multipart/form-data")])));
    assert!(!detect_reactive_framework(&env(&[("HTTP_ACCEPT", "text/html")])));
    // sniffing can be turned off
    assert!(!detect_reactive_framework(&env(&[
        ("AWS_LWA_CHECK_CONTENT_TYPES", "false"),
        ("HTTP_ACCEPT", "text/event-stream"),
    ])));
}

#[test]
fn explicit_invoke_mode_overrides_markers() {
    let reactive_env = env(&[("FASTAPI_VERSION", "0.100")]);
    let explicit = "buffered".to_string();
    assert_eq!(
        resolve_invoke_mode(Some(&explicit), &reactive_env),
        LambdaInvokeMode::Buffered
    );
    let explicit = "response_stream".to_string();
    assert_eq!(
        resolve_invoke_mode(Some(&explicit), &env(&[])),
        LambdaInvokeMode::ResponseStream
    );
}

#[test]
fn invoke_mode_follows_detection_without_a_setting() {
    assert_eq!(
        resolve_invoke_mode(None, &env(&[("FASTAPI_VERSION", "0.100")])),
        LambdaInvokeMode::ResponseStream
    );
    assert_eq!(resolve_invoke_mode(None, &env(&[])), LambdaInvokeMode::Buffered);
}
