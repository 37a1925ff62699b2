use vstd::prelude::*;

verus! {

/// The outside error that attaching a status event to the manager's repeater can give.
#[verifier::external_type_specification]
#[verifier::external_body]
pub struct ExAttachError(lum_event::event_repeater::AttachError);

/// The outside error that detaching a status event from the manager's repeater can give.
#[verifier::external_type_specification]
#[verifier::external_body]
pub struct ExDetachError(lum_event::event_repeater::DetachError);

/// The outside repeater that forwards every attached event's data to its own event.
#[verifier::external_type_specification]
#[verifier::external_body]
#[verifier::reject_recursive_types(IN)]
#[verifier::reject_recursive_types(OUT)]
pub struct ExEventRepeater<IN: Clone + Send + 'static, OUT: Clone + Send + 'static>(
    lum_event::EventRepeater<IN, OUT>,
);

/// The outside event on which a value's changes are announced.
#[verifier::external_type_specification]
#[verifier::external_body]
#[verifier::reject_recursive_types(T)]
pub struct ExEvent<T: Clone + Send>(lum_event::Event<T>);

/// The lifecycle state of a service.
#[derive(Debug, Clone)]
pub enum Status {
    Starting,
    Started,
    Stopping,
    Stopped,
    FailedToStart(String),
    FailedToStop(String),
    Failing,
    RuntimeError(String),
}

/// Two statuses are equal when they are the same variant; the messages that the
/// failure variants carry are not compared.
pub open spec fn same_variant(a: Status, b: Status) -> bool {
    match (a, b) {
        (Status::Starting, Status::Starting) => true,
        (Status::Started, Status::Started) => true,
        (Status::Stopping, Status::Stopping) => true,
        (Status::Stopped, Status::Stopped) => true,
        (Status::FailedToStart(_), Status::FailedToStart(_)) => true,
        (Status::FailedToStop(_), Status::FailedToStop(_)) => true,
        (Status::Failing, Status::Failing) => true,
        (Status::RuntimeError(_), Status::RuntimeError(_)) => true,
        _ => false,
    }
}

impl PartialEq for Status {
    fn eq(&self, other: &Self) -> (r: bool) {
        match (self, other) {
            (Status::Starting, Status::Starting) => true,
            (Status::Started, Status::Started) => true,
            (Status::Stopping, Status::Stopping) => true,
            (Status::Stopped, Status::Stopped) => true,
            (Status::FailedToStart(_), Status::FailedToStart(_)) => true,
            (Status::FailedToStop(_), Status::FailedToStop(_)) => true,
            (Status::Failing, Status::Failing) => true,
            (Status::RuntimeError(_), Status::RuntimeError(_)) => true,
            _ => false,
        }
    }
}

impl vstd::std_specs::cmp::PartialEqSpecImpl for Status {
    open spec fn obeys_eq_spec() -> bool {
        true
    }

    open spec fn eq_spec(&self, other: &Status) -> bool {
        same_variant(*self, *other)
    }
}

impl Eq for Status {}

/// Status equality is an equivalence relation: reflexive, symmetric and transitive.
pub proof fn lemma_status_eq_is_equivalence(a: Status, b: Status, c: Status)
    ensures
        same_variant(a, a),
        same_variant(a, b) == same_variant(b, a),
        same_variant(a, b) && same_variant(b, c) ==> same_variant(a, c),
{
}

/// The text under which a status is displayed.
pub open spec fn status_text(s: Status) -> Seq<char> {
    match s {
        Status::Starting => "Starting"@,
        Status::Started => "Started"@,
        Status::Stopping => "Stopping"@,
        Status::Stopped => "Stopped"@,
        Status::FailedToStart(error) => "Failed to start: "@ + error@,
        Status::FailedToStop(error) => "Failed to stop: "@ + error@,
        Status::Failing => "Failing"@,
        Status::RuntimeError(error) => "Runtime error: "@ + error@,
    }
}

impl Status {
    /// The text under which the status is displayed.
    pub fn to_string(&self) -> (text: String)
        ensures
            text@ == status_text(*self),
    {
        match self {
            Status::Starting => String::from_str("Starting"),
            Status::Started => String::from_str("Started"),
            Status::Stopping => String::from_str("Stopping"),
            Status::Stopped => String::from_str("Stopped"),
            Status::FailedToStart(error) => {
                let mut text = String::from_str("Failed to start: ");
                text.append(error.as_str());
                text
            },
            Status::FailedToStop(error) => {
                let mut text = String::from_str("Failed to stop: ");
                text.append(error.as_str());
                text
            },
            Status::Failing => String::from_str("Failing"),
            Status::RuntimeError(error) => {
                let mut text = String::from_str("Runtime error: ");
                text.append(error.as_str());
                text
            },
        }
    }
}

/// Whether every essential service is running.
#[derive(Debug, PartialEq, Eq, Structural, PartialOrd, Ord, Hash, Clone, Copy)]
pub enum Health {
    Healthy,
    Unhealthy,
}

pub open spec fn health_text(h: Health) -> Seq<char> {
    match h {
        Health::Healthy => "Healthy"@,
        Health::Unhealthy => "Unhealthy"@,
    }
}

impl Health {
    /// The text under which the health is displayed.
    pub fn to_string(&self) -> (text: String)
        ensures
            text@ == health_text(*self),
    {
        match self {
            Health::Healthy => String::from_str("Healthy"),
            Health::Unhealthy => String::from_str("Unhealthy"),
        }
    }
}

/// How much the whole system depends on a service.
#[derive(Debug, PartialEq, Eq, Structural, PartialOrd, Ord, Hash, Clone, Copy)]
pub enum Priority {
    Essential,
    Optional,
}

pub open spec fn priority_text(p: Priority) -> Seq<char> {
    match p {
        Priority::Essential => "Essential"@,
        Priority::Optional => "Optional"@,
    }
}

impl Priority {
    /// The text under which the priority is displayed.
    pub fn to_string(&self) -> (text: String)
        ensures
            text@ == priority_text(*self),
    {
        match self {
            Priority::Essential => String::from_str("Essential"),
            Priority::Optional => String::from_str("Optional"),
        }
    }
}

/// Why a service could not be started. Each variant carries the service's name
/// and type name.
#[derive(Debug)]
pub enum StartupError {
    ServiceNotManaged(String, String),
    ServiceNotStopped(String, String),
    BackgroundTaskAlreadyRunning(String, String),
    StatusAttachmentFailed(String, String, lum_event::event_repeater::AttachError),
    FailedToStartService(String, String),
}

/// Why a service could not be stopped. Each variant carries the service's name
/// and type name.
#[derive(Debug)]
pub enum ShutdownError {
    ServiceNotManaged(String, String),
    ServiceNotStarted(String, String),
    FailedToStopService(String, String),
    StatusDetachmentFailed(String, String, lum_event::event_repeater::DetachError),
}

/// Why a background task could not be run for a service. Each variant carries the
/// service's name and type name.
#[derive(Debug)]
pub enum RunTaskError {
    ServiceNotStarted(String, String),
    ServiceNotManaged(String, String),
}

} // verus!
