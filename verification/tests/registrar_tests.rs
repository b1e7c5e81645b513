use lambda_web_adapter::registrar::{
    extension_id_header, extension_name, extension_name_header, next_event_path, register_body,
    register_path, registrar_step, RegistrarAction, RegistrarEvent, RegistrarState,
    REGISTRATION_OK_STATUS,
};

#[test]
fn registration_success_moves_to_the_long_poll() {
    let (state, action) = registrar_step(
        RegistrarState::AwaitingRegistration,
        RegistrarEvent::RegisterResponse {
            status: 200,
            identifier: Some("ext-17".to_string()),
        },
    );
    assert!(matches!(state, RegistrarState::AwaitingEvent { ref extension_id } if extension_id == "ext-17"));
    assert!(
        matches!(action, RegistrarAction::SendNextEvent { ref extension_id } if extension_id == "ext-17")
    );
}

#[test]
fn registration_failure_status_aborts_the_process() {
    let (state, action) = registrar_step(
        RegistrarState::AwaitingRegistration,
        RegistrarEvent::RegisterResponse {
            status: 403,
            identifier: Some("ext-17".to_string()),
        },
    );
    assert!(matches!(state, RegistrarState::Failed));
    assert!(matches!(action, RegistrarAction::AbortProcess));
}

#[test]
fn missing_identifier_aborts_the_process() {
    let (state, action) = registrar_step(
        RegistrarState::AwaitingRegistration,
        RegistrarEvent::RegisterResponse { status: 200, identifier: None },
    );
    assert!(matches!(state, RegistrarState::Failed));
    assert!(matches!(action, RegistrarAction::AbortProcess));
}

#[test]
fn transport_failure_aborts_the_process() {
    let (state, action) = registrar_step(
        RegistrarState::AwaitingRegistration,
        RegistrarEvent::TransportFailed,
    );
    assert!(matches!(state, RegistrarState::Failed));
    assert!(matches!(action, RegistrarAction::AbortProcess));

    let (state, action) = registrar_step(
        RegistrarState::AwaitingEvent { extension_id: "ext-17".to_string() },
        RegistrarEvent::TransportFailed,
    );
    assert!(matches!(state, RegistrarState::Failed));
    assert!(matches!(action, RegistrarAction::AbortProcess));
}

#[test]
fn the_long_poll_response_finishes_the_task() {
    let (state, action) = registrar_step(
        RegistrarState::AwaitingEvent { extension_id: "ext-17".to_string() },
        RegistrarEvent::NextResponse,
    );
    assert!(matches!(state, RegistrarState::Done));
    assert!(matches!(action, RegistrarAction::Finish));
}

#[test]
fn protocol_constants_are_fixed() {
    assert_eq!(REGISTRATION_OK_STATUS, 200);
    assert_eq!(register_path(), "/2020-01-01/extension/register");
    assert_eq!(next_event_path(), "/2020-01-01/extension/event/next");
    assert_eq!(extension_name_header(), "Lambda-Extension-Name");
    assert_eq!(extension_id_header(), "Lambda-Extension-Identifier");
    assert_eq!(extension_name(), "lambda-adapter");
    assert_eq!(register_body(), "{ \"events\": [] }");
}
