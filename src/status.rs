//! The per-project status and the notification kinds.
use vstd::prelude::*;
use vstd::string::*;

verus! {

/// Observed or tracked state of one project.
#[derive(Clone, Copy, Debug, PartialEq, Eq, Structural)]
pub enum Status {
    Running,
    Stopped,
    Starting,
    Stopping,
    Pulling,
    Error,
    DaemonNotRunning,
}

/// A status that a command in flight is still driving.
pub open spec fn is_transitional(s: Status) -> bool {
    s == Status::Pulling || s == Status::Starting || s == Status::Stopping
}

impl Status {
    /// True for `Pulling`, `Starting` and `Stopping`.
    pub fn is_busy(&self) -> (r: bool)
        ensures
            r == is_transitional(*self),
    {
        match self {
            Status::Pulling | Status::Starting | Status::Stopping => true,
            _ => false,
        }
    }
}

/// The text shown for a status.
pub open spec fn status_label(s: Status) -> Seq<char> {
    match s {
        Status::Running => "running"@,
        Status::Stopped => "stopped"@,
        Status::Starting => "starting"@,
        Status::Stopping => "stopping"@,
        Status::Pulling => "pulling images"@,
        Status::Error => "error"@,
        Status::DaemonNotRunning => "daemon not running"@,
    }
}

impl Status {
    /// The text shown for this status.
    pub fn label(&self) -> (r: String)
        ensures
            r@ == status_label(*self),
    {
        match self {
            Status::Running => String::from_str("running"),
            Status::Stopped => String::from_str("stopped"),
            Status::Starting => String::from_str("starting"),
            Status::Stopping => String::from_str("stopping"),
            Status::Pulling => String::from_str("pulling images"),
            Status::Error => String::from_str("error"),
            Status::DaemonNotRunning => String::from_str("daemon not running"),
        }
    }
}

/// Severity of a notification.
#[derive(Clone, Copy, Debug, PartialEq, Eq, Structural)]
pub enum ToastState {
    Success,
    Warning,
    Error,
    Info,
}

/// A notification for the operator: its severity, its text and how many
/// ticks it stays up.
#[derive(Clone, Debug)]
pub struct Toast {
    pub state: ToastState,
    pub message: String,
    pub ttl: u32,
}

impl Toast {
    pub fn new(state: ToastState, message: String, ttl: u32) -> (r: Toast)
        ensures
            r.state == state,
            r.message@ == message@,
            r.ttl == ttl,
    {
        Toast { state, message, ttl }
    }
}

/// The notice shown at startup: a missing compose plugin or CLI is an
/// error, an unreachable engine a warning, else a welcome.
pub open spec fn startup_message(daemon_running: bool, cli_ok: bool, compose_ok: bool) -> (
    ToastState,
    Seq<char>,
    u32,
) {
    if !compose_ok {
        (ToastState::Error, "Docker Compose not found. Services may not work."@, 5)
    } else if !cli_ok {
        (ToastState::Error, "Docker CLI not found."@, 5)
    } else if !daemon_running {
        (ToastState::Warning, "Docker daemon not running."@, 4)
    } else {
        (ToastState::Info, "Welcome to Docker Manager"@, 3)
    }
}

/// The notice shown at startup, from what the first probes found.
pub fn startup_notice(daemon_running: bool, cli_ok: bool, compose_ok: bool) -> (r: Toast)
    ensures
        (r.state, r.message@, r.ttl) == startup_message(daemon_running, cli_ok, compose_ok),
{
    if !compose_ok {
        Toast::new(
            ToastState::Error,
            String::from_str("Docker Compose not found. Services may not work."),
            5,
        )
    } else if !cli_ok {
        Toast::new(ToastState::Error, String::from_str("Docker CLI not found."), 5)
    } else if !daemon_running {
        Toast::new(ToastState::Warning, String::from_str("Docker daemon not running."), 4)
    } else {
        Toast::new(ToastState::Info, String::from_str("Welcome to Docker Manager"), 3)
    }
}

} // verus!
