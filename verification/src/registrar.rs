//! The lifecycle-registration protocol: one registration request to the
//! host's extension API, whose failure is fatal to the whole process, then
//! one long-poll "next event" request that only keeps the lifecycle handle
//! open before the task exits.
//!
//! The exchange is driven from outside as a state machine: each response is
//! handed in as an event, and the returned action says what to send next,
//! or that the process must abort.

use vstd::prelude::*;

verus! {

/// Where the registration protocol stands.
pub enum RegistrarState {
    /// The registration request is out; its response decides everything.
    AwaitingRegistration,
    /// Registration succeeded under this identifier; the long-poll request
    /// is out.
    AwaitingEvent { extension_id: String },
    /// The long poll returned: the task's work is over.
    Done,
    /// Registration could not be completed.
    Failed,
}

/// What the transport observed for the registrar.
pub enum RegistrarEvent {
    /// The registration response: its status, and the identifier header if
    /// the response carried one.
    RegisterResponse { status: u16, identifier: Option<String> },
    /// The long-poll "next event" request returned.
    NextResponse,
    /// A request could not be exchanged at all.
    TransportFailed,
}

/// What the driver must do next.
pub enum RegistrarAction {
    /// Issue the long-poll request under this identifier.
    SendNextEvent { extension_id: String },
    /// The task is finished; exit it.
    Finish,
    /// Registration is a precondition of correct platform teardown: abort
    /// the whole process.
    AbortProcess,
}

/// The only status under which registration counts as accepted.
pub const REGISTRATION_OK_STATUS: u16 = 200;

/// The fixed path of the registration endpoint.
pub fn register_path() -> (r: &'static str)
    ensures
        r@ == "/2020-01-01/extension/register"@,
{
    "/2020-01-01/extension/register"
}

/// The fixed path of the long-poll "next event" endpoint.
pub fn next_event_path() -> (r: &'static str)
    ensures
        r@ == "/2020-01-01/extension/event/next"@,
{
    "/2020-01-01/extension/event/next"
}

/// The header carrying the extension's name on registration.
pub fn extension_name_header() -> (r: &'static str)
    ensures
        r@ == "Lambda-Extension-Name"@,
{
    "Lambda-Extension-Name"
}

/// The name this sidecar registers under.
pub fn extension_name() -> (r: &'static str)
    ensures
        r@ == "lambda-adapter"@,
{
    "lambda-adapter"
}

/// The header carrying the identifier the host assigned.
pub fn extension_id_header() -> (r: &'static str)
    ensures
        r@ == "Lambda-Extension-Identifier"@,
{
    "Lambda-Extension-Identifier"
}

/// The registration body: no declared event interest.
pub fn register_body() -> (r: &'static str)
    ensures
        r@ == "{ \"events\": [] }"@,
{
    "{ \"events\": [] }"
}

/// Advances the protocol by one observed event. From awaiting registration,
/// only a response with the accepted status and an identifier header moves
/// on to the long poll; anything else (a failed exchange, another status, a
/// missing identifier) aborts the process. From the long poll, any response
/// finishes the task, and a failed exchange aborts.
pub fn registrar_step(state: RegistrarState, event: RegistrarEvent) -> (r: (
    RegistrarState,
    RegistrarAction,
))
    ensures
        state is AwaitingRegistration ==> match event {
            RegistrarEvent::RegisterResponse { status, identifier } => {
                if status == REGISTRATION_OK_STATUS && identifier is Some {
                    &&& r.0 matches RegistrarState::AwaitingEvent { extension_id }
                        && extension_id@ == identifier->0@
                    &&& r.1 matches RegistrarAction::SendNextEvent { extension_id }
                        && extension_id@ == identifier->0@
                } else {
                    r.0 is Failed && r.1 is AbortProcess
                }
            },
            RegistrarEvent::NextResponse => r.0 is Failed && r.1 is AbortProcess,
            RegistrarEvent::TransportFailed => r.0 is Failed && r.1 is AbortProcess,
        },
        state matches RegistrarState::AwaitingEvent { extension_id } ==> match event {
            RegistrarEvent::NextResponse => r.0 is Done && r.1 is Finish,
            _ => r.0 is Failed && r.1 is AbortProcess,
        },
        state is Done ==> r.0 is Done && r.1 is Finish,
        state is Failed ==> r.0 is Failed && r.1 is AbortProcess,
{
    match state {
        RegistrarState::AwaitingRegistration => match event {
            RegistrarEvent::RegisterResponse { status, identifier } => {
                if status == REGISTRATION_OK_STATUS {
                    match identifier {
                        Some(id) => {
                            let id_copy = id.clone();
                            (
                                RegistrarState::AwaitingEvent { extension_id: id },
                                RegistrarAction::SendNextEvent { extension_id: id_copy },
                            )
                        },
                        None => (RegistrarState::Failed, RegistrarAction::AbortProcess),
                    }
                } else {
                    (RegistrarState::Failed, RegistrarAction::AbortProcess)
                }
            },
            _ => (RegistrarState::Failed, RegistrarAction::AbortProcess),
        },
        RegistrarState::AwaitingEvent { extension_id: _ } => match event {
            RegistrarEvent::NextResponse => (RegistrarState::Done, RegistrarAction::Finish),
            _ => (RegistrarState::Failed, RegistrarAction::AbortProcess),
        },
        RegistrarState::Done => (RegistrarState::Done, RegistrarAction::Finish),
        RegistrarState::Failed => (RegistrarState::Failed, RegistrarAction::AbortProcess),
    }
}

} // verus!
