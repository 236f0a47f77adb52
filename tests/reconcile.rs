use docker_manager::fleet::{
    any_busy, apply_refresh, next_selection, plan_follow, previous_selection, Fleet, RefreshPlan,
};
use docker_manager::probe::{validate_service_name, DockerClient};
use docker_manager::service::Service;
use docker_manager::status::Status;

fn fleet_of(statuses: &[Status]) -> Vec<Service> {
    statuses
        .iter()
        .enumerate()
        .map(|(i, s)| {
            let mut svc = Service::new(format!("svc{}", i));
            svc.status = *s;
            svc
        })
        .collect()
}

#[test]
fn unreachable_daemon_forces_every_project_down() {
    let mut services = fleet_of(&[
        Status::Running,
        Status::Pulling,
        Status::Stopping,
        Status::Error,
        Status::Stopped,
    ]);
    let mut fleet = Fleet::new(true);
    fleet.event_listener_running = true;
    let plan = fleet.begin_refresh(Some(false), any_busy(&services));
    assert_eq!(plan, RefreshPlan::DaemonDown);
    assert!(!fleet.event_listener_running);
    apply_refresh(&mut services, plan, &Vec::new());
    assert!(services.iter().all(|s| s.status == Status::DaemonNotRunning));
    assert!(services.iter().all(|s| s.pull_progress.is_none()));
}

#[test]
fn recovery_restarts_listener_and_probes() {
    let mut fleet = Fleet::new(false);
    assert!(fleet.should_probe_daemon());
    let plan = fleet.begin_refresh(Some(true), false);
    assert_eq!(plan, RefreshPlan::Batch);
    assert!(fleet.listener_due());
    fleet.listener_started();
    assert!(!fleet.listener_due());
    assert!(!fleet.should_probe_daemon());
    assert_eq!(fleet.begin_refresh(None, false), RefreshPlan::Idle);
    assert_eq!(fleet.begin_refresh(None, true), RefreshPlan::Batch);
}

#[test]
fn one_batch_query_serves_every_project() {
    let names: Vec<String> = (0..50).map(|i| format!("svc{}", i)).collect();
    let output = "svc3-web-1\tUp 2 minutes\tsvc3\nsvc7-db-1\tExited (0) 1 minute ago\tsvc7\nsvc7-web-1\tUp 3 seconds\tsvc7\nother-1\tUp 1 hour\tunmanaged\n";
    let statuses = DockerClient::batch_statuses_from_ps(&names, Some(output));
    assert_eq!(statuses.len(), 50);
    for (i, s) in statuses.iter().enumerate() {
        if i == 3 || i == 7 {
            assert_eq!(*s, Status::Running);
        } else {
            assert_eq!(*s, Status::Stopped);
        }
    }
}

#[test]
fn batch_query_failure_and_invalid_names() {
    let names = vec!["good".to_string(), "bad name".to_string()];
    let failed = DockerClient::batch_statuses_from_ps(&names, None);
    assert_eq!(failed, vec![Status::Error, Status::Error]);
    let out = "x\tUp 1 second\tbad name\n";
    let ok = DockerClient::batch_statuses_from_ps(&names, Some(out));
    assert_eq!(ok, vec![Status::Stopped, Status::Error]);
}

#[test]
fn single_project_query() {
    assert_eq!(DockerClient::status_from_ps(None), Status::Error);
    assert_eq!(DockerClient::status_from_ps(Some("")), Status::Stopped);
    assert_eq!(DockerClient::status_from_ps(Some("web-1\tExited (1)\n")), Status::Stopped);
    assert_eq!(
        DockerClient::status_from_ps(Some("db-1\tExited (0)\nweb-1\tUp 5 minutes\n")),
        Status::Running
    );
    assert_eq!(DockerClient::status_from_ps(Some("web-1\n")), Status::Stopped);
}

#[test]
fn name_allow_list() {
    assert!(validate_service_name("my-app_2"));
    assert!(!validate_service_name("a;rm -rf"));
    assert!(!validate_service_name("../x"));
    assert!(validate_service_name(""));
    assert!(validate_service_name("caf\u{e9}"));
    assert!(validate_service_name("\u{6570}\u{636e}-2"));
    assert!(!validate_service_name("caf\u{e9} bar"));
}

#[test]
fn reconcile_table() {
    let cases = [
        (Status::Pulling, Status::Running, Status::Running),
        (Status::Pulling, Status::Stopped, Status::Pulling),
        (Status::Starting, Status::Running, Status::Running),
        (Status::Starting, Status::Stopped, Status::Starting),
        (Status::Stopping, Status::Stopped, Status::Stopped),
        (Status::Stopping, Status::Running, Status::Stopping),
        (Status::Stopping, Status::Error, Status::Stopping),
        (Status::Running, Status::Stopped, Status::Stopped),
        (Status::Stopped, Status::Running, Status::Running),
        (Status::Error, Status::Running, Status::Running),
        (Status::DaemonNotRunning, Status::Stopped, Status::Stopped),
    ];
    for (current, observed, expected) in cases {
        let mut s = Service::new("p".to_string());
        s.status = current;
        s.pull_progress = Some("x".to_string());
        s.reconcile(observed);
        assert_eq!(s.status, expected);
    }
}

#[test]
fn batch_plan_reconciles_in_order() {
    let mut services = fleet_of(&[Status::Starting, Status::Stopping, Status::Running]);
    let observed = vec![Status::Running, Status::Stopped, Status::Stopped];
    apply_refresh(&mut services, RefreshPlan::Batch, &observed);
    assert_eq!(services[0].status, Status::Running);
    assert_eq!(services[1].status, Status::Stopped);
    assert_eq!(services[2].status, Status::Stopped);
}

#[test]
fn at_most_one_follower() {
    let mut services = fleet_of(&[Status::Running, Status::Running, Status::Stopped]);
    services[0].follow_active = true;
    services[2].follow_active = true;
    let plan = plan_follow(&services, Some(1), true);
    assert_eq!(plan.stop, vec![0, 2]);
    assert_eq!(plan.start, Some(1));
    let hidden = plan_follow(&services, Some(1), false);
    assert_eq!(hidden.stop, vec![0, 2]);
    assert_eq!(hidden.start, None);
    services[1].follow_active = true;
    let keep = plan_follow(&services, Some(1), true);
    assert_eq!(keep.stop, vec![0, 2]);
    assert_eq!(keep.start, None);
}

#[test]
fn selection_wraps() {
    assert_eq!(next_selection(None, 3), Some(0));
    assert_eq!(next_selection(Some(1), 3), Some(2));
    assert_eq!(next_selection(Some(2), 3), Some(0));
    assert_eq!(previous_selection(Some(0), 3), Some(2));
    assert_eq!(previous_selection(Some(2), 3), Some(1));
    assert_eq!(next_selection(Some(0), 0), None);
}

#[test]
fn compose_ps_shows_up() {
    assert!(docker_manager::probe::ps_shows_up("NAME  STATUS\nweb-1  Up 3 minutes\n"));
    assert!(!docker_manager::probe::ps_shows_up("NAME  STATUS\n"));
}
