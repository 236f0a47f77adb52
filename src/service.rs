//! One project's state cell and every transition that the engine applies
//! to it: reconciliation with a probe, events, the start and stop
//! sequences, and live-log following.
use vstd::prelude::*;
use vstd::string::*;
use crate::events::{
    event_line, event_log_line, event_may_apply, event_status, needs_runtime_details,
    status_for_event, wants_runtime_details, ContainerEvent,
};
use crate::probe::{valid_name, validate_service_name};
use crate::progress::{extract_pull_progress, opt_view, pull_progress};
use crate::status::{is_transitional, Status, Toast, ToastState};

verus! {

/// The state of one project as the engine tracks it.
#[derive(Clone, Debug)]
pub struct Service {
    /// The compose project's name, which is also its directory's.
    pub name: String,
    pub status: Status,
    /// A short label of pull progress, present while images are pulled.
    pub pull_progress: Option<String>,
    /// The event log: one line per event, appended for the process lifetime.
    pub events: String,
    /// What the last pull, up or down printed.
    pub logs: String,
    /// What the log-follow process has printed since it started.
    pub live_logs: String,
    /// Whether a log-follow process is running for this project.
    pub follow_active: bool,
}

/// How an external command ended.
#[derive(Clone, Debug)]
pub enum Outcome {
    /// It ran and exited with success.
    Succeeded,
    /// It ran and exited with failure.
    Failed,
    /// It could not be run; the text says why.
    NotRun(String),
}

/// The steps of a stop, in the order they must be carried out.
#[derive(Clone, Copy, Debug, PartialEq, Eq, Structural)]
pub enum StopStep {
    /// Kill and reap the project's log-follow process, if any.
    EndFollow,
    /// Run the compose `down` command.
    Down,
}

/// What toggling a project does.
#[derive(Clone, Copy, Debug, PartialEq, Eq, Structural)]
pub enum Toggle {
    Start,
    Stop,
}

/// The status that a probe showing `observed` leaves a project in: a
/// pulling or starting project waits for `Running`, a stopping one for
/// `Stopped`, any other takes the observed status.
pub open spec fn reconciled(current: Status, observed: Status) -> Status {
    match current {
        Status::Pulling | Status::Starting => if observed == Status::Running {
            Status::Running
        } else {
            current
        },
        Status::Stopping => if observed == Status::Stopped {
            Status::Stopped
        } else {
            current
        },
        _ => observed,
    }
}

pub open spec fn outcome_failure_line(op: Seq<char>, o: Outcome) -> Seq<char> {
    match o {
        Outcome::Succeeded => seq![],
        Outcome::Failed => op + " failed: command exited with non-zero status\n"@,
        Outcome::NotRun(e) => op + " failed: "@ + e@ + seq!['\n'],
    }
}

/// The text `<name><suffix>`.
fn name_then(name: &String, suffix: &str) -> (r: String)
    ensures
        r@ == name@ + suffix@,
{
    let mut s = name.clone();
    s.append(suffix);
    s
}

/// The text `<prefix><name>`.
fn then_name(prefix: &str, name: &String) -> (r: String)
    ensures
        r@ == prefix@ + name@,
{
    let mut s = String::from_str(prefix);
    s.append(name.as_str());
    s
}

/// Appends the diagnostic for a failed command to `logs`.
fn log_failure(logs: &mut String, op: &str, o: &Outcome)
    ensures
        final(logs)@ == old(logs)@ + outcome_failure_line(op@, *o),
{
    match o {
        Outcome::Succeeded => {
            assert(old(logs)@ + seq![] =~= old(logs)@);
        },
        Outcome::Failed => {
            logs.append(op);
            logs.append(" failed: command exited with non-zero status\n");
            assert(final(logs)@ =~= old(logs)@ + outcome_failure_line(op@, *o));
        },
        Outcome::NotRun(e) => {
            logs.append(op);
            logs.append(" failed: ");
            logs.append(e.as_str());
            logs.append("\n");
            proof {
                reveal_strlit("\n");
            }
            assert(final(logs)@ =~= old(logs)@ + outcome_failure_line(op@, *o));
        },
    }
}

impl Service {
    /// A project as discovered: stopped, with empty logs.
    pub fn new(name: String) -> (r: Service)
        ensures
            r.name@ == name@,
            r.status == Status::Stopped,
            r.pull_progress is None,
            r.events@.len() == 0,
            r.logs@.len() == 0,
            r.live_logs@.len() == 0,
            !r.follow_active,
    {
        Service {
            name,
            status: Status::Stopped,
            pull_progress: None,
            events: String::new(),
            logs: String::new(),
            live_logs: String::new(),
            follow_active: false,
        }
    }

    /// Takes in what a probe observed (see `reconciled`); the pull progress
    /// goes when a transition completes.
    pub fn reconcile(&mut self, observed: Status)
        ensures
            final(self).status == reconciled(old(self).status, observed),
            final(self).pull_progress == (if is_transitional(old(self).status) && final(self).status
                != old(self).status {
                None
            } else {
                old(self).pull_progress
            }),
            final(self).name == old(self).name,
            final(self).events == old(self).events,
            final(self).logs == old(self).logs,
            final(self).live_logs == old(self).live_logs,
            final(self).follow_active == old(self).follow_active,
    {
        match self.status {
            Status::Pulling | Status::Starting => {
                if observed == Status::Running {
                    self.pull_progress = None;
                    self.status = Status::Running;
                }
            },
            Status::Stopping => {
                if observed == Status::Stopped {
                    self.pull_progress = None;
                    self.status = Status::Stopped;
                }
            },
            _ => {
                self.status = observed;
            },
        }
    }

    /// The engine is unreachable: the project shows `DaemonNotRunning`.
    pub fn force_daemon_down(&mut self)
        ensures
            final(self).status == Status::DaemonNotRunning,
            final(self).pull_progress is None,
            final(self).name == old(self).name,
            final(self).events == old(self).events,
            final(self).logs == old(self).logs,
            final(self).live_logs == old(self).live_logs,
            final(self).follow_active == old(self).follow_active,
    {
        self.status = Status::DaemonNotRunning;
        self.pull_progress = None;
    }

    /// Takes in one event of this project: logs it and applies the status it
    /// implies, unless the project is pulling and the event would neither
    /// finish nor fail it. Returns whether the container's addresses and
    /// ports should be looked up and logged too.
    pub fn apply_event(&mut self, ev: &ContainerEvent) -> (r: bool)
        ensures
            r == wants_runtime_details(ev.action@),
            final(self).events@ == old(self).events@ + event_line(
                ev.project@,
                ev.container@,
                ev.action@,
            ),
            match event_status(ev.action@, old(self).status, ev.exit_code@) {
                Some(next) => if event_may_apply(old(self).status, next) {
                    final(self).status == next && final(self).pull_progress is None
                } else {
                    final(self).status == old(self).status && final(self).pull_progress
                        == old(self).pull_progress
                },
                None => final(self).status == old(self).status && final(self).pull_progress
                    == old(self).pull_progress,
            },
            final(self).name == old(self).name,
            final(self).logs == old(self).logs,
            final(self).live_logs == old(self).live_logs,
            final(self).follow_active == old(self).follow_active,
    {
        let line = event_log_line(ev.project.as_str(), ev.container.as_str(), ev.action.as_str());
        self.events.append(line.as_str());
        match status_for_event(ev.action.as_str(), self.status, ev.exit_code.as_str()) {
            Some(next) => {
                if self.status != Status::Pulling || next == Status::Running || next
                    == Status::Error {
                    self.status = next;
                    self.pull_progress = None;
                }
            },
            None => {},
        }
        needs_runtime_details(ev.action.as_str())
    }

    /// Appends `text` to the event log.
    pub fn append_event_text(&mut self, text: &str)
        ensures
            final(self).events@ == old(self).events@ + text@,
            final(self).status == old(self).status,
            final(self).pull_progress == old(self).pull_progress,
            final(self).name == old(self).name,
            final(self).logs == old(self).logs,
            final(self).live_logs == old(self).live_logs,
            final(self).follow_active == old(self).follow_active,
    {
        self.events.append(text);
    }

    /// Marks the event log as attached to the stream, when nothing is in it yet.
    pub fn listener_attached(&mut self)
        ensures
            old(self).events@.len() == 0 ==> final(self).events@ == "[event] listener attached\n"@,
            old(self).events@.len() > 0 ==> final(self).events == old(self).events,
            final(self).status == old(self).status,
            final(self).logs == old(self).logs,
    {
        if self.events.as_str().unicode_len() == 0 {
            self.events = String::from_str("[event] listener attached\n");
        }
    }

    /// Puts `text` in the command log, when nothing is in it yet.
    pub fn seed_logs(&mut self, text: &str)
        ensures
            old(self).logs@.len() == 0 ==> final(self).logs@ == text@,
            old(self).logs@.len() > 0 ==> final(self).logs == old(self).logs,
            final(self).status == old(self).status,
            final(self).events == old(self).events,
    {
        if self.logs.as_str().unicode_len() == 0 {
            self.logs = String::from_str(text);
        }
    }

    /// Asks to start the project. `service_active` and `daemon_running` say
    /// whether the engine's service is up and answering, `fresh` what a
    /// one-project query has just shown (unread for a name off the
    /// allow-list). A refused start leaves the project as it was, but for a
    /// bad name, which turns it to `Error`; an accepted one sets it pulling
    /// with a "queued" progress and an empty log.
    pub fn request_start(&mut self, service_active: bool, daemon_running: bool, fresh: Status) -> (r:
        Result<Toast, Toast>)
        ensures
            !service_active ==> r is Err && r->Err_0.state == ToastState::Error
                && r->Err_0.message@ == "Cannot start service: Docker service not running"@
                && *final(self) == *old(self),
            service_active && !daemon_running ==> r is Err && r->Err_0.state == ToastState::Error
                && r->Err_0.message@ == "Cannot start service: Docker daemon not responding"@
                && *final(self) == *old(self),
            service_active && daemon_running && !valid_name(old(self).name@) ==> r is Err
                && r->Err_0.state == ToastState::Error && r->Err_0.message@
                == "Invalid project name: "@ + old(self).name@ && final(self).status == Status::Error
                && final(self).pull_progress is None && final(self).logs == old(self).logs
                && final(self).events == old(self).events && final(self).live_logs == old(
                self).live_logs && final(self).follow_active == old(self).follow_active,
            service_active && daemon_running && valid_name(old(self).name@) && fresh
                == Status::Running ==> r is Err && r->Err_0.state == ToastState::Warning
                && r->Err_0.message@ == old(self).name@ + " already running"@ && *final(self)
                == *old(self),
            service_active && daemon_running && valid_name(old(self).name@) && fresh
                != Status::Running && is_transitional(old(self).status) ==> r is Err
                && r->Err_0.state == ToastState::Warning && r->Err_0.message@ == old(self).name@
                + " is busy, wait for operation to finish"@ && *final(self) == *old(self),
            r is Ok <==> (service_active && daemon_running && valid_name(old(self).name@) && fresh
                != Status::Running && !is_transitional(old(self).status)),
            r is Ok ==> r->Ok_0.state == ToastState::Success && r->Ok_0.message@ == "Starting "@
                + old(self).name@ && final(self).status == Status::Pulling && (final(self).pull_progress matches Some(p) && p@ == "queued"@) && final(self).logs@.len() == 0
                && final(self).events == old(self).events && final(self).live_logs == old(self).live_logs && final(self).follow_active == old(self).follow_active,
            final(self).name == old(self).name,
    {
        if !service_active {
            return Err(
                Toast::new(
                    ToastState::Error,
                    String::from_str("Cannot start service: Docker service not running"),
                    5,
                ),
            );
        }
        if !daemon_running {
            return Err(
                Toast::new(
                    ToastState::Error,
                    String::from_str("Cannot start service: Docker daemon not responding"),
                    5,
                ),
            );
        }
        if !validate_service_name(self.name.as_str()) {
            self.status = Status::Error;
            self.pull_progress = None;
            return Err(
                Toast::new(ToastState::Error, then_name("Invalid project name: ", &self.name), 5),
            );
        }
        if fresh == Status::Running {
            return Err(
                Toast::new(ToastState::Warning, name_then(&self.name, " already running"), 4),
            );
        }
        if self.status.is_busy() {
            return Err(
                Toast::new(
                    ToastState::Warning,
                    name_then(&self.name, " is busy, wait for operation to finish"),
                    3,
                ),
            );
        }
        self.status = Status::Pulling;
        self.pull_progress = Some(String::from_str("queued"));
        self.logs = String::new();
        Ok(Toast::new(ToastState::Success, then_name("Starting ", &self.name), 3))
    }

    /// The compose file was read: when every image it names is present the
    /// pull is skipped, which the log and the progress record. Returns
    /// whether to pull.
    pub fn images_checked(&mut self, all_present: bool) -> (r: bool)
        ensures
            r == !all_present,
            all_present ==> final(self).logs@ == old(self).logs@
                + "All images already present, skipping pull.\n"@ && (final(self).pull_progress matches Some(p)
                && p@ == "cached"@),
            !all_present ==> final(self).logs == old(self).logs && final(self).pull_progress
                == old(self).pull_progress,
            final(self).status == old(self).status,
            final(self).name == old(self).name,
            final(self).events == old(self).events,
    {
        if all_present {
            self.logs.append("All images already present, skipping pull.\n");
            self.pull_progress = Some(String::from_str("cached"));
        }
        !all_present
    }

    /// Appends `text` to the command log.
    pub fn append_log(&mut self, text: &str)
        ensures
            final(self).logs@ == old(self).logs@ + text@,
            final(self).status == old(self).status,
            final(self).pull_progress == old(self).pull_progress,
            final(self).name == old(self).name,
            final(self).events == old(self).events,
            final(self).live_logs == old(self).live_logs,
            final(self).follow_active == old(self).follow_active,
    {
        self.logs.append(text);
    }

    /// Appends one line of command output to the command log.
    pub fn output_line(&mut self, line: &str)
        ensures
            final(self).logs@ == old(self).logs@ + line@ + seq!['\n'],
            final(self).status == old(self).status,
            final(self).pull_progress == old(self).pull_progress,
            final(self).name == old(self).name,
            final(self).events == old(self).events,
    {
        self.logs.append(line);
        self.logs.append("\n");
        proof {
            reveal_strlit("\n");
        }
        assert(final(self).logs@ =~= old(self).logs@ + line@ + seq!['\n']);
    }

    /// Appends one line of pull output to the command log, and takes the
    /// progress it shows, if any.
    pub fn pull_output_line(&mut self, line: &str)
        ensures
            final(self).logs@ == old(self).logs@ + line@ + seq!['\n'],
            opt_view(final(self).pull_progress) == match pull_progress(line@) {
                Some(p) => Some(p),
                None => opt_view(old(self).pull_progress),
            },
            final(self).status == old(self).status,
            final(self).name == old(self).name,
            final(self).events == old(self).events,
    {
        self.output_line(line);
        match extract_pull_progress(line) {
            Some(p) => {
                self.pull_progress = Some(p);
            },
            None => {},
        }
    }

    /// The pull ended: on success the project goes on to `Starting`, else to
    /// `Error` with a diagnostic in the log. The progress goes either way. Returns whether to bring the
    /// project up.
    pub fn pull_finished(&mut self, outcome: &Outcome) -> (r: bool)
        ensures
            r == (*outcome is Succeeded),
            final(self).status == (if r {
                Status::Starting
            } else {
                Status::Error
            }),
            final(self).pull_progress is None,
            final(self).logs@ == old(self).logs@ + outcome_failure_line("Pull"@, *outcome),
            final(self).name == old(self).name,
            final(self).events == old(self).events,
            final(self).live_logs == old(self).live_logs,
            final(self).follow_active == old(self).follow_active,
    {
        self.pull_progress = None;
        log_failure(&mut self.logs, "Pull", outcome);
        match outcome {
            Outcome::Succeeded => {
                self.status = Status::Starting;
                true
            },
            _ => {
                self.status = Status::Error;
                false
            },
        }
    }

    /// The `up` command ended: a failure turns the project to `Error` with a
    /// diagnostic in the log. Returns whether to confirm with a fresh probe.
    pub fn up_finished(&mut self, outcome: &Outcome) -> (r: bool)
        ensures
            r == (*outcome is Succeeded),
            r ==> *final(self) == *old(self),
            !r ==> final(self).status == Status::Error && final(self).logs@ == old(self).logs@
                + outcome_failure_line("Up"@, *outcome) && final(self).pull_progress is None,
            final(self).name == old(self).name,
            final(self).events == old(self).events,
            final(self).live_logs == old(self).live_logs,
            final(self).follow_active == old(self).follow_active,
    {
        match outcome {
            Outcome::Succeeded => true,
            _ => {
                log_failure(&mut self.logs, "Up", outcome);
                self.status = Status::Error;
                self.pull_progress = None;
                false
            },
        }
    }

    /// A fresh probe after `up` showed `fresh`: only `Running` confirms the
    /// start; anything else is an error, with a diagnostic in the log.
    pub fn start_confirmed(&mut self, fresh: Status)
        ensures
            final(self).status == (if fresh == Status::Running {
                Status::Running
            } else {
                Status::Error
            }),
            fresh == Status::Running ==> final(self).logs == old(self).logs,
            fresh != Status::Running ==> final(self).logs@ == old(self).logs@
                + "Up finished but the project is not running\n"@,
            final(self).pull_progress is None,
            final(self).name == old(self).name,
            final(self).events == old(self).events,
            final(self).live_logs == old(self).live_logs,
            final(self).follow_active == old(self).follow_active,
    {
        self.pull_progress = None;
        if fresh == Status::Running {
            self.status = Status::Running;
        } else {
            self.logs.append("Up finished but the project is not running\n");
            self.status = Status::Error;
        }
    }

    /// Asks to stop the project, with the same inputs as `request_start`. An
    /// accepted stop sets it stopping, empties its live log and marks its
    /// follower ended, and returns the steps to carry out in order: end the
    /// follower first, then run `down`.
    pub fn request_stop(&mut self, service_active: bool, daemon_running: bool, fresh: Status) -> (r:
        Result<(Toast, Vec<StopStep>), Toast>)
        ensures
            !service_active ==> r is Err && r->Err_0.state == ToastState::Error
                && r->Err_0.message@ == "Cannot stop service: Docker service not running"@
                && *final(self) == *old(self),
            service_active && !daemon_running ==> r is Err && r->Err_0.state == ToastState::Error
                && r->Err_0.message@ == "Cannot stop service: Docker daemon not responding"@
                && *final(self) == *old(self),
            service_active && daemon_running && !valid_name(old(self).name@) ==> r is Err
                && r->Err_0.state == ToastState::Error && r->Err_0.message@
                == "Invalid project name: "@ + old(self).name@ && final(self).status == Status::Error
                && final(self).pull_progress is None && final(self).logs == old(self).logs
                && final(self).events == old(self).events && final(self).live_logs == old(
                self).live_logs && final(self).follow_active == old(self).follow_active,
            service_active && daemon_running && valid_name(old(self).name@) && fresh
                != Status::Running ==> r is Err && r->Err_0.state == ToastState::Warning
                && r->Err_0.message@ == old(self).name@ + " not running"@ && *final(self)
                == *old(self),
            service_active && daemon_running && valid_name(old(self).name@) && fresh
                == Status::Running && is_transitional(old(self).status) ==> r is Err
                && r->Err_0.state == ToastState::Warning && r->Err_0.message@ == old(self).name@
                + " is busy, wait for operation to finish"@ && *final(self) == *old(self),
            r is Ok <==> (service_active && daemon_running && valid_name(old(self).name@) && fresh
                == Status::Running && !is_transitional(old(self).status)),
            r is Ok ==> r->Ok_0.0.state == ToastState::Success && r->Ok_0.0.message@ == "Stopping "@
                + old(self).name@ && r->Ok_0.1@ == seq![StopStep::EndFollow, StopStep::Down]
                && final(self).status == Status::Stopping && final(self).pull_progress is None
                && final(self).live_logs@.len() == 0 && !final(self).follow_active && final(self).logs == old(self).logs && final(self).events == old(self).events,
            final(self).name == old(self).name,
    {
        if !service_active {
            return Err(
                Toast::new(
                    ToastState::Error,
                    String::from_str("Cannot stop service: Docker service not running"),
                    5,
                ),
            );
        }
        if !daemon_running {
            return Err(
                Toast::new(
                    ToastState::Error,
                    String::from_str("Cannot stop service: Docker daemon not responding"),
                    5,
                ),
            );
        }
        if !validate_service_name(self.name.as_str()) {
            self.status = Status::Error;
            self.pull_progress = None;
            return Err(
                Toast::new(ToastState::Error, then_name("Invalid project name: ", &self.name), 5),
            );
        }
        if fresh != Status::Running {
            return Err(Toast::new(ToastState::Warning, name_then(&self.name, " not running"), 4));
        }
        if self.status.is_busy() {
            return Err(
                Toast::new(
                    ToastState::Warning,
                    name_then(&self.name, " is busy, wait for operation to finish"),
                    3,
                ),
            );
        }
        self.status = Status::Stopping;
        self.pull_progress = None;
        self.live_logs = String::new();
        self.follow_active = false;
        let steps = vec![StopStep::EndFollow, StopStep::Down];
        assert(steps@ =~= seq![StopStep::EndFollow, StopStep::Down]);
        Ok((Toast::new(ToastState::Success, then_name("Stopping ", &self.name), 3), steps))
    }

    /// The `down` command ended: `Stopped` on success, else `Error` with a
    /// diagnostic in the log.
    pub fn stop_finished(&mut self, outcome: &Outcome)
        ensures
            final(self).status == (if *outcome is Succeeded {
                Status::Stopped
            } else {
                Status::Error
            }),
            final(self).logs@ == old(self).logs@ + outcome_failure_line("Down"@, *outcome),
            final(self).pull_progress == old(self).pull_progress,
            final(self).name == old(self).name,
            final(self).events == old(self).events,
            final(self).live_logs == old(self).live_logs,
            final(self).follow_active == old(self).follow_active,
    {
        log_failure(&mut self.logs, "Down", outcome);
        match outcome {
            Outcome::Succeeded => {
                self.status = Status::Stopped;
            },
            _ => {
                self.status = Status::Error;
            },
        }
    }

    /// A running project is stopped when toggled, any other is started.
    pub fn toggle_action(&self) -> (r: Toggle)
        ensures
            r == (if self.status == Status::Running {
                Toggle::Stop
            } else {
                Toggle::Start
            }),
    {
        if self.status == Status::Running {
            Toggle::Stop
        } else {
            Toggle::Start
        }
    }

    /// A log-follow process was started for the project.
    pub fn follow_started(&mut self)
        ensures
            final(self).follow_active,
            final(self).live_logs == old(self).live_logs,
            final(self).status == old(self).status,
            final(self).name == old(self).name,
    {
        self.follow_active = true;
    }

    /// The project's log-follow process was ended: its output is dropped.
    pub fn follow_stopped(&mut self)
        ensures
            !final(self).follow_active,
            final(self).live_logs@.len() == 0,
            final(self).status == old(self).status,
            final(self).name == old(self).name,
            final(self).logs == old(self).logs,
            final(self).events == old(self).events,
    {
        self.follow_active = false;
        self.live_logs = String::new();
    }

    /// One line from the log-follow process. While the project runs the
    /// line joins the live log; once it has left `Running` the follower is
    /// to be ended and its output is dropped. Returns whether to keep
    /// following.
    pub fn follow_line(&mut self, line: &str) -> (r: bool)
        ensures
            r == (old(self).status == Status::Running),
            r ==> final(self).live_logs@ == old(self).live_logs@ + line@ + seq!['\n']
                && final(self).follow_active == old(self).follow_active,
            !r ==> final(self).live_logs@.len() == 0 && !final(self).follow_active,
            final(self).status == old(self).status,
            final(self).name == old(self).name,
    {
        if self.status != Status::Running {
            self.follow_stopped();
            return false;
        }
        self.live_logs.append(line);
        self.live_logs.append("\n");
        proof {
            reveal_strlit("\n");
        }
        assert(final(self).live_logs@ =~= old(self).live_logs@ + line@ + seq!['\n']);
        true
    }
}

} // verus!
