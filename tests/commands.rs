use docker_manager::fleet::{apply_refresh, Fleet, RefreshPlan};
use docker_manager::probe::DockerClient;
use docker_manager::service::{Outcome, Service, StopStep, Toggle};
use docker_manager::status::{Status, ToastState};

#[test]
fn start_on_running_project_warns_and_changes_nothing() {
    let mut s = Service::new("web".to_string());
    s.status = Status::Running;
    s.logs = "old".to_string();
    let r = s.request_start(true, true, Status::Running);
    let toast = r.unwrap_err();
    assert_eq!(toast.state, ToastState::Warning);
    assert_eq!(toast.message, "web already running");
    assert_eq!(s.status, Status::Running);
    assert_eq!(s.logs, "old");
}

#[test]
fn start_refusals() {
    let mut s = Service::new("web".to_string());
    let e = s.request_start(false, true, Status::Stopped).unwrap_err();
    assert_eq!(e.state, ToastState::Error);
    assert_eq!(e.message, "Cannot start service: Docker service not running");
    let e = s.request_start(true, false, Status::Stopped).unwrap_err();
    assert_eq!(e.message, "Cannot start service: Docker daemon not responding");
    s.status = Status::Stopping;
    let e = s.request_start(true, true, Status::Stopped).unwrap_err();
    assert_eq!(e.state, ToastState::Warning);
    assert_eq!(e.message, "web is busy, wait for operation to finish");
    assert_eq!(s.status, Status::Stopping);
}

#[test]
fn invalid_name_is_an_error_without_commands() {
    let mut s = Service::new("we b".to_string());
    let e = s.request_start(true, true, Status::Error).unwrap_err();
    assert_eq!(e.state, ToastState::Error);
    assert_eq!(s.status, Status::Error);
}

#[test]
fn stop_ends_follower_before_down() {
    let mut s = Service::new("web".to_string());
    s.status = Status::Running;
    s.live_logs = "tail line\n".to_string();
    s.follow_active = true;
    let (toast, steps) = s.request_stop(true, true, Status::Running).unwrap();
    assert_eq!(toast.state, ToastState::Success);
    assert_eq!(toast.message, "Stopping web");
    assert_eq!(steps, vec![StopStep::EndFollow, StopStep::Down]);
    assert_eq!(s.live_logs, "");
    assert!(!s.follow_active);
    assert_eq!(s.status, Status::Stopping);
    s.stop_finished(&Outcome::Succeeded);
    assert_eq!(s.status, Status::Stopped);
}

#[test]
fn stop_refusals_and_failures() {
    let mut s = Service::new("web".to_string());
    let e = s.request_stop(true, true, Status::Stopped).unwrap_err();
    assert_eq!(e.message, "web not running");
    s.status = Status::Running;
    s.request_stop(true, true, Status::Running).unwrap();
    s.stop_finished(&Outcome::Failed);
    assert_eq!(s.status, Status::Error);
    assert_eq!(s.logs, "Down failed: command exited with non-zero status\n");
}

#[test]
fn toggle_follows_status() {
    let mut s = Service::new("web".to_string());
    assert_eq!(s.toggle_action(), Toggle::Start);
    s.status = Status::Running;
    assert_eq!(s.toggle_action(), Toggle::Stop);
}

#[test]
fn start_sequence_end_to_end() {
    let mut s = Service::new("cache".to_string());
    assert_eq!(s.status, Status::Stopped);
    let toast = s.request_start(true, true, Status::Stopped).unwrap();
    assert_eq!(toast.message, "Starting cache");
    assert_eq!(s.status, Status::Pulling);
    assert_eq!(s.pull_progress, Some("queued".to_string()));
    assert!(s.images_checked(false));
    s.append_log("Pull output:\n");
    s.pull_output_line("redis Pulling");
    s.pull_output_line("a1b2: Downloading [==>   ] 12.5MB/25MB");
    assert_eq!(s.pull_progress, Some("Downloading 50%".to_string()));
    s.pull_output_line("a1b2: Pull complete");
    assert_eq!(s.pull_progress, Some("Pull complete".to_string()));
    assert_eq!(s.status, Status::Pulling);
    assert!(s.pull_finished(&Outcome::Succeeded));
    assert_eq!(s.status, Status::Starting);
    assert_eq!(s.pull_progress, None);
    assert!(s.up_finished(&Outcome::Succeeded));
    assert_eq!(s.status, Status::Starting);
    let fresh = DockerClient::status_from_ps(Some("cache-redis-1\tUp 1 second\n"));
    s.start_confirmed(fresh);
    assert_eq!(s.status, Status::Running);
    assert!(s.logs.starts_with("Pull output:\nredis Pulling\n"));
}

#[test]
fn start_not_confirmed_by_probe_is_error() {
    let mut s = Service::new("cache".to_string());
    s.request_start(true, true, Status::Stopped).unwrap();
    s.pull_finished(&Outcome::Succeeded);
    s.up_finished(&Outcome::Succeeded);
    s.start_confirmed(Status::Stopped);
    assert_eq!(s.status, Status::Error);
    assert!(s.logs.ends_with("Up finished but the project is not running\n"));
}

#[test]
fn pull_failures() {
    let mut s = Service::new("cache".to_string());
    s.request_start(true, true, Status::Stopped).unwrap();
    assert!(!s.pull_finished(&Outcome::NotRun("no such file".to_string())));
    assert_eq!(s.status, Status::Error);
    assert_eq!(s.pull_progress, None);
    assert_eq!(s.logs, "Pull failed: no such file\n");
    let mut t = Service::new("cache".to_string());
    t.request_start(true, true, Status::Stopped).unwrap();
    t.pull_finished(&Outcome::Succeeded);
    assert!(!t.up_finished(&Outcome::Failed));
    assert_eq!(t.status, Status::Error);
    assert_eq!(t.logs, "Up failed: command exited with non-zero status\n");
}

#[test]
fn cached_images_skip_pull() {
    let mut s = Service::new("cache".to_string());
    s.request_start(true, true, Status::Stopped).unwrap();
    assert!(!s.images_checked(true));
    assert_eq!(s.pull_progress, Some("cached".to_string()));
    assert_eq!(s.logs, "All images already present, skipping pull.\n");
}

#[test]
fn live_log_follow() {
    let mut s = Service::new("web".to_string());
    s.status = Status::Running;
    s.follow_started();
    assert!(s.follow_line("hello"));
    assert_eq!(s.live_logs, "hello\n");
    s.status = Status::Stopping;
    assert!(!s.follow_line("bye"));
    assert_eq!(s.live_logs, "");
    assert!(!s.follow_active);
}

#[test]
fn events_log_seeding() {
    let mut s = Service::new("web".to_string());
    s.listener_attached();
    assert_eq!(s.events, "[event] listener attached\n");
    s.listener_attached();
    assert_eq!(s.events, "[event] listener attached\n");
    s.seed_logs("Up output:\n");
    s.seed_logs("other");
    assert_eq!(s.logs, "Up output:\n");
}

#[test]
fn daemon_down_pass_then_recovery() {
    let mut services = vec![Service::new("a".to_string()), Service::new("b".to_string())];
    let mut fleet = Fleet::new(true);
    let plan = fleet.begin_refresh(Some(false), false);
    apply_refresh(&mut services, plan, &Vec::new());
    assert!(services.iter().all(|s| s.status == Status::DaemonNotRunning));
    let plan = fleet.begin_refresh(Some(true), false);
    assert_eq!(plan, RefreshPlan::Batch);
    let names: Vec<String> = services.iter().map(|s| s.name.clone()).collect();
    let observed = DockerClient::batch_statuses_from_ps(&names, Some("a-1\tUp 1 second\ta\n"));
    apply_refresh(&mut services, plan, &observed);
    assert_eq!(services[0].status, Status::Running);
    assert_eq!(services[1].status, Status::Stopped);
}

#[test]
fn pull_exit_failure_is_logged() {
    let mut s = Service::new("cache".to_string());
    s.request_start(true, true, Status::Stopped).unwrap();
    assert!(!s.pull_finished(&Outcome::Failed));
    assert_eq!(s.status, Status::Error);
    assert_eq!(s.logs, "Pull failed: command exited with non-zero status\n");
}

#[test]
fn confirmed_start_has_no_progress_left() {
    let mut s = Service::new("cache".to_string());
    s.status = Status::Starting;
    s.pull_progress = Some("Pull complete".to_string());
    s.start_confirmed(Status::Running);
    assert_eq!(s.status, Status::Running);
    assert_eq!(s.pull_progress, None);
}

#[test]
fn non_ascii_project_name_starts() {
    let mut s = Service::new("caf\u{e9}".to_string());
    let t = s.request_start(true, true, Status::Stopped).unwrap();
    assert_eq!(t.message, "Starting caf\u{e9}");
    assert_eq!(s.status, Status::Pulling);
}
