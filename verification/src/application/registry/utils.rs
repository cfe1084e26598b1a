use crate::text::{decimal, push_decimal, to_uppercase, uppercase_of};
use vstd::prelude::*;
use vstd::string::*;

verus! {

/// Seconds between one attempt to register and the next.
pub const REGISTRATION_RETRY_SECS: u64 = 3;

/// Seconds between one heartbeat and the next.
pub const HEARTBEAT_INTERVAL_SECS: u64 = 30;

/// Where instances of the application `app_name` register.
pub open spec fn app_url(eureka_base: Seq<char>, app_name: Seq<char>) -> Seq<char> {
    eureka_base + "/apps/"@ + uppercase_of(app_name)
}

/// Where the instance `instance_id` of the application `app_name` sends its
/// heartbeats.
pub open spec fn instance_url(
    eureka_base: Seq<char>,
    app_name: Seq<char>,
    instance_id: Seq<char>,
) -> Seq<char> {
    app_url(eureka_base, app_name) + "/"@ + instance_id
}

/// Writes the address that a registration is posted to.
pub fn registration_url(eureka_base: &str, app_name: &str) -> (url: String)
    ensures
        url@ == app_url(eureka_base@, app_name@),
{
    let mut url = String::from_str(eureka_base);
    url.append("/apps/");
    url.append(to_uppercase(app_name).as_str());
    url
}

/// Writes the address that a heartbeat is put to.
pub fn heartbeat_url(eureka_base: &str, app_name: &str, instance_id: &str) -> (url: String)
    ensures
        url@ == instance_url(eureka_base@, app_name@, instance_id@),
{
    let mut url = registration_url(eureka_base, app_name);
    url.append("/");
    url.append(instance_id);
    url
}

/// How the directory service met an attempt to register.
#[derive(Clone, Copy, Debug, PartialEq, Eq, Structural)]
pub enum RegistrationOutcome {
    /// It answered with success.
    Accepted,
    /// It answered, but not with success.
    Rejected,
    /// It could not be reached.
    Unreachable,
}

/// Where the registration of this instance stands.
#[derive(Clone, Copy, Debug, PartialEq, Eq, Structural)]
pub enum RegistrationState {
    /// Attempt number `attempt` has been posted.
    Posting { attempt: u16 },
    /// Attempt number `attempt` has failed and the pause after it is on.
    Pausing { attempt: u16 },
    /// The instance is registered.
    Registered,
    /// Every attempt has failed. This is final: registration is not taken
    /// up again.
    Failed,
}

/// What has happened to a registration under way.
#[derive(Clone, Copy, Debug, PartialEq, Eq, Structural)]
pub enum RegistrationEvent {
    /// The attempt that was posted has met with this outcome.
    Answered(RegistrationOutcome),
    /// The pause is over.
    Rested,
}

/// What a registration does next.
#[derive(Clone, Copy, Debug, PartialEq, Eq, Structural)]
pub enum RegistrationAction {
    /// Post the instance's description.
    Post,
    /// Pause for `seconds`.
    Pause { seconds: u64 },
    /// Stop: the instance is registered.
    Succeed,
    /// Stop: the instance could not be registered.
    GiveUp,
}

/// How a registration with `attempts` attempts to spend begins: with the
/// first attempt, or, with none to spend, with giving up.
pub open spec fn registration_begins(attempts: u16) -> (RegistrationState, RegistrationAction) {
    if attempts == 0 {
        (RegistrationState::Failed, RegistrationAction::GiveUp)
    } else {
        (RegistrationState::Posting { attempt: 1 }, RegistrationAction::Post)
    }
}

/// The next state of a registration with `attempts` attempts to spend, and
/// what it does next. An attempt that is accepted ends it. Any other is
/// followed by a pause of three seconds, and the pause by the next attempt
/// or, after the last one, by giving up.
pub open spec fn registration_transition(
    attempts: u16,
    state: RegistrationState,
    event: RegistrationEvent,
) -> (RegistrationState, RegistrationAction) {
    match (state, event) {
        (
            RegistrationState::Posting { .. },
            RegistrationEvent::Answered(RegistrationOutcome::Accepted),
        ) => (RegistrationState::Registered, RegistrationAction::Succeed),
        (RegistrationState::Posting { attempt }, RegistrationEvent::Answered(_)) => (
            RegistrationState::Pausing { attempt },
            RegistrationAction::Pause { seconds: REGISTRATION_RETRY_SECS },
        ),
        (RegistrationState::Pausing { attempt }, RegistrationEvent::Rested) => if attempt
            < attempts {
            (
                RegistrationState::Posting { attempt: (attempt + 1) as u16 },
                RegistrationAction::Post,
            )
        } else {
            (RegistrationState::Failed, RegistrationAction::GiveUp)
        },
        (RegistrationState::Registered, _) => (
            RegistrationState::Registered,
            RegistrationAction::Succeed,
        ),
        _ => (RegistrationState::Failed, RegistrationAction::GiveUp),
    }
}

/// The number of the attempt that `state` is at: none before the first,
/// and none after the end.
pub open spec fn attempt_of(state: RegistrationState) -> int {
    match state {
        RegistrationState::Posting { attempt } => attempt as int,
        RegistrationState::Pausing { attempt } => attempt as int,
        _ => 0,
    }
}

/// Begins a registration with `attempts` attempts to spend.
pub fn registration_start(attempts: u16) -> (next: (RegistrationState, RegistrationAction))
    ensures
        next == registration_begins(attempts),
        attempt_of(next.0) <= attempts,
{
    if attempts == 0 {
        (RegistrationState::Failed, RegistrationAction::GiveUp)
    } else {
        (RegistrationState::Posting { attempt: 1 }, RegistrationAction::Post)
    }
}

/// Takes a registration one step on: from its state and what happened, its
/// next state and what to do next. It never goes beyond the attempts it
/// has to spend.
pub fn registration_step(attempts: u16, state: RegistrationState, event: RegistrationEvent) -> (next:
    (RegistrationState, RegistrationAction))
    ensures
        next == registration_transition(attempts, state, event),
        attempt_of(state) <= attempts ==> attempt_of(next.0) <= attempts,
        next.1 == RegistrationAction::Post ==> attempt_of(next.0) == attempt_of(state) + 1,
{
    match (state, event) {
        (
            RegistrationState::Posting { .. },
            RegistrationEvent::Answered(RegistrationOutcome::Accepted),
        ) => (RegistrationState::Registered, RegistrationAction::Succeed),
        (RegistrationState::Posting { attempt }, RegistrationEvent::Answered(_)) => (
            RegistrationState::Pausing { attempt },
            RegistrationAction::Pause { seconds: REGISTRATION_RETRY_SECS },
        ),
        (RegistrationState::Pausing { attempt }, RegistrationEvent::Rested) => if attempt
            < attempts {
            (RegistrationState::Posting { attempt: attempt + 1 }, RegistrationAction::Post)
        } else {
            (RegistrationState::Failed, RegistrationAction::GiveUp)
        },
        (RegistrationState::Registered, _) => (
            RegistrationState::Registered,
            RegistrationAction::Succeed,
        ),
        _ => (RegistrationState::Failed, RegistrationAction::GiveUp),
    }
}

/// What a registration that gave up has to say.
pub fn registration_failure(attempts: u16) -> (message: String)
    ensures
        message@ == "Eureka registration failed after "@ + decimal(attempts as int) + " attempts"@,
{
    let mut message = String::from_str("Eureka registration failed after ");
    push_decimal(&mut message, attempts as i64);
    message.append(" attempts");
    message
}

/// How long to pause after a heartbeat before the next one: thirty seconds,
/// whether or not the heartbeat got through. A heartbeat that fails ends
/// nothing.
pub fn heartbeat_pause(delivered: bool) -> (seconds: u64)
    ensures
        seconds == HEARTBEAT_INTERVAL_SECS,
{
    HEARTBEAT_INTERVAL_SECS
}

} // verus!
