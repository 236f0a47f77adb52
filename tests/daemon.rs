use docker_manager::daemon::{
    daemon_result, PrivilegedOutcome,
    drain_order, poll_timeout_message, privileged_failure_message, restart, start, stop,
    DaemonAction, DaemonRun, DaemonStep, Poll, PollStep, RunState, MAX_POLL_ATTEMPTS,
};
use docker_manager::service::{Outcome, Service};
use docker_manager::status::Status;

fn svc(name: &str, status: Status) -> Service {
    let mut s = Service::new(name.to_string());
    s.status = status;
    s
}

#[test]
fn empty_password_is_refused() {
    assert_eq!(start("").unwrap_err(), "Enter sudo password to start Docker daemon");
    assert_eq!(stop("").unwrap_err(), "Enter sudo password to stop Docker daemon");
    assert_eq!(restart("").unwrap_err(), "Enter sudo password to restart Docker daemon");
}

#[test]
fn privileged_commands() {
    let c = stop("secret").unwrap();
    assert_eq!(c.action, DaemonAction::Stop);
    assert!(!c.expect_active);
    assert_eq!(
        c.args,
        vec!["-S", "-p", "", "systemctl", "stop", "docker.service", "docker.socket"]
    );
    let r = restart("secret").unwrap();
    assert!(r.expect_active);
    assert_eq!(r.args[4], "restart");
    assert!(start("x").unwrap().expect_active);
}

#[test]
fn failure_messages() {
    assert_eq!(
        privileged_failure_message(DaemonAction::Start, "  \n"),
        "Failed to start Docker daemon"
    );
    assert_eq!(
        privileged_failure_message(DaemonAction::Stop, "sudo: incorrect password\n"),
        "Failed to stop Docker daemon: sudo: incorrect password"
    );
    assert_eq!(
        poll_timeout_message(DaemonAction::Stop),
        "Docker daemon did not become stopped after stop"
    );
    assert_eq!(
        poll_timeout_message(DaemonAction::Restart),
        "Docker daemon did not become running after restart"
    );
}

#[test]
fn poll_confirms_or_times_out() {
    let mut p = Poll::new(MAX_POLL_ATTEMPTS);
    assert_eq!(p.observe(false), PollStep::Wait);
    assert_eq!(p.observe(true), PollStep::Confirmed);
    let mut q = Poll::new(3);
    assert_eq!(q.observe(false), PollStep::Wait);
    assert_eq!(q.observe(false), PollStep::Wait);
    assert_eq!(q.observe(false), PollStep::TimedOut);
}

#[test]
fn drain_order_is_sorted_and_filtered() {
    let services = vec![
        svc("web", Status::Running),
        svc("cache", Status::Stopped),
        svc("api", Status::Pulling),
        svc("db", Status::Stopping),
        svc("broken", Status::Error),
        svc("Zeta", Status::Starting),
    ];
    assert_eq!(drain_order(&services), vec!["Zeta", "api", "db", "web"]);
}

#[test]
fn stop_aborts_when_a_drain_step_fails() {
    let mut run = DaemonRun::new(
        DaemonAction::Stop,
        vec!["api".to_string(), "db".to_string(), "web".to_string()],
    );
    match run.step() {
        DaemonStep::StopProject(n) => assert_eq!(n, "api"),
        _ => panic!("expected a drain step"),
    }
    match run.drain_result(&Outcome::Succeeded) {
        DaemonStep::StopProject(n) => assert_eq!(n, "db"),
        _ => panic!("expected a drain step"),
    }
    match run.drain_result(&Outcome::Failed) {
        DaemonStep::Abort(m) => {
            assert_eq!(m, "Failed to stop services: Failed to stop service db");
            assert!(m.contains("db"));
        }
        _ => panic!("expected an abort"),
    }
    assert_eq!(run.state, RunState::Aborted);
    assert!(matches!(run.step(), DaemonStep::Finished));
    assert_eq!(run.drained(), 1);
}

#[test]
fn drain_error_text_names_project() {
    let mut run = DaemonRun::new(DaemonAction::Restart, vec!["web".to_string()]);
    run.step();
    match run.drain_result(&Outcome::NotRun("spawn failed".to_string())) {
        DaemonStep::Abort(m) => {
            assert_eq!(m, "Failed to stop services: Error stopping service web: spawn failed")
        }
        _ => panic!("expected an abort"),
    }
}

#[test]
fn stop_runs_privileged_after_full_drain() {
    let mut run = DaemonRun::new(DaemonAction::Stop, vec!["a".to_string()]);
    assert!(matches!(run.step(), DaemonStep::StopProject(_)));
    assert!(matches!(run.drain_result(&Outcome::Succeeded), DaemonStep::RunPrivileged));
    assert_eq!(run.drained(), 1);
    assert!(matches!(run.step(), DaemonStep::Finished));
}

#[test]
fn start_does_not_drain() {
    let mut run = DaemonRun::new(DaemonAction::Start, vec!["a".to_string()]);
    assert!(run.queue.is_empty());
    assert!(matches!(run.step(), DaemonStep::RunPrivileged));
}

#[test]
fn action_menu_texts() {
    assert_eq!(DaemonAction::Start.label(), "Start");
    assert_eq!(DaemonAction::Restart.description(), "Stop active services first, then restart daemon");
    assert_eq!(DaemonAction::Start.next(), DaemonAction::Stop);
    assert_eq!(DaemonAction::Start.previous(), DaemonAction::Restart);
}

#[test]
fn completion_messages() {
    use_done(DaemonAction::Start, 0, "Docker daemon started");
    use_done(DaemonAction::Stop, 3, "Docker daemon stopped (3 service(s) stopped first)");
    use_done(DaemonAction::Restart, 12, "Docker daemon restarted (12 service(s) stopped first)");
}

fn use_done(action: DaemonAction, n: usize, expected: &str) {
    assert_eq!(docker_manager::daemon::action_done_message(action, n), expected);
}

#[test]
fn daemon_result_needs_confirmation() {
    let ok = PrivilegedOutcome::Succeeded;
    assert_eq!(daemon_result(DaemonAction::Start, &ok, &vec![false, false, true]), Ok(()));
    assert_eq!(daemon_result(DaemonAction::Stop, &ok, &vec![true, false]), Ok(()));
    assert_eq!(
        daemon_result(DaemonAction::Stop, &ok, &vec![true; 20]),
        Err("Docker daemon did not become stopped after stop".to_string())
    );
    let mut late = vec![false; 20];
    late.push(true);
    assert_eq!(
        daemon_result(DaemonAction::Restart, &ok, &late),
        Err("Docker daemon did not become running after restart".to_string())
    );
    assert_eq!(
        daemon_result(DaemonAction::Start, &PrivilegedOutcome::Failed("bad password\n".to_string()), &vec![true]),
        Err("Failed to start Docker daemon: bad password".to_string())
    );
    assert_eq!(
        daemon_result(DaemonAction::Start, &PrivilegedOutcome::Failed(String::new()), &vec![]),
        Err("Failed to start Docker daemon".to_string())
    );
    assert_eq!(
        daemon_result(DaemonAction::Start, &PrivilegedOutcome::NotRun("no sudo".to_string()), &vec![]),
        Err("no sudo".to_string())
    );
}
