use docker_manager::events::{
    container_names, event_log_line, inspect_field_value, normalize_runtime_value,
    parse_event_line, runtime_details_line, status_for_event,
};
use docker_manager::service::Service;
use docker_manager::status::Status;

fn text(v: Vec<char>) -> String {
    v.into_iter().collect()
}

#[test]
fn event_line_fields() {
    let e = parse_event_line("die\tshop\tshop-db-1\t137").unwrap();
    assert_eq!(e.action, "die");
    assert_eq!(e.project, "shop");
    assert_eq!(e.container, "shop-db-1");
    assert_eq!(e.exit_code, "137");
}

#[test]
fn event_line_placeholder_and_short_lines() {
    let e = parse_event_line("start\t<no value>\tweb-1").unwrap();
    assert_eq!(e.project, "");
    assert_eq!(e.container, "web-1");
    assert_eq!(e.exit_code, "");
    assert!(parse_event_line("\tshop\tc\t0").is_none());
    assert!(parse_event_line("").is_none());
}

#[test]
fn die_with_zero_exit_while_stopping_is_stopped() {
    assert_eq!(status_for_event("die", Status::Stopping, "0"), Some(Status::Stopped));
    assert_eq!(status_for_event("die", Status::Stopping, "1"), Some(Status::Stopped));
}

#[test]
fn die_with_failure_while_running_is_error() {
    assert_eq!(status_for_event("die", Status::Running, "1"), Some(Status::Error));
    assert_eq!(status_for_event("kill", Status::Running, "0"), Some(Status::Stopped));
    assert_eq!(status_for_event("kill", Status::Stopped, "9"), Some(Status::Stopped));
}

#[test]
fn action_table() {
    assert_eq!(status_for_event("create", Status::Stopped, ""), Some(Status::Starting));
    assert_eq!(status_for_event("restart", Status::Running, ""), Some(Status::Starting));
    assert_eq!(status_for_event("unpause", Status::Stopped, ""), Some(Status::Starting));
    assert_eq!(status_for_event("start", Status::Starting, ""), Some(Status::Running));
    assert_eq!(status_for_event("stop", Status::Running, ""), Some(Status::Stopped));
    assert_eq!(status_for_event("destroy", Status::Running, ""), Some(Status::Stopped));
    assert_eq!(status_for_event("pause", Status::Running, ""), Some(Status::Stopped));
    assert_eq!(status_for_event("health_status: healthy", Status::Starting, ""), Some(Status::Running));
    assert_eq!(status_for_event("health_status: unhealthy", Status::Running, ""), Some(Status::Error));
    assert_eq!(status_for_event("attach", Status::Running, ""), None);
}

#[test]
fn stopping_project_receives_die_zero() {
    let mut s = Service::new("web".to_string());
    s.status = Status::Stopping;
    let e = parse_event_line("die\tweb\tweb-app-1\t0").unwrap();
    let details = s.apply_event(&e);
    assert!(!details);
    assert_eq!(s.status, Status::Stopped);
    assert_eq!(s.events, "[event] web-app-1 die\n");
}

#[test]
fn pulling_project_is_not_downgraded_by_events() {
    let mut s = Service::new("web".to_string());
    s.status = Status::Pulling;
    s.pull_progress = Some("Downloading 10%".to_string());
    let create = parse_event_line("create\tweb\tweb-app-1\t").unwrap();
    s.apply_event(&create);
    assert_eq!(s.status, Status::Pulling);
    assert_eq!(s.pull_progress, Some("Downloading 10%".to_string()));
    let start = parse_event_line("start\tweb\tweb-app-1\t").unwrap();
    assert!(s.apply_event(&start));
    assert_eq!(s.status, Status::Running);
    assert_eq!(s.pull_progress, None);
}

#[test]
fn event_log_scope() {
    assert_eq!(event_log_line("shop", "shop-db-1", "start"), "[event] shop-db-1 start\n");
    assert_eq!(event_log_line("shop", "", "stop"), "[event] shop stop\n");
}

#[test]
fn runtime_values_are_cleaned() {
    assert_eq!(text(normalize_runtime_value("  a=1   b=2 ", "x")), "a=1, b=2");
    assert_eq!(text(normalize_runtime_value("", "pending")), "pending");
    assert_eq!(text(normalize_runtime_value("Invalid IP", "pending")), "pending");
    assert_eq!(text(normalize_runtime_value("<no value>", "none")), "none");
    assert_eq!(text(normalize_runtime_value("NONE", "none")), "none");
}

#[test]
fn runtime_details() {
    let line = runtime_details_line(
        "web-1",
        Some("net=172.18.0.2 ".to_string()),
        Some("80/tcp=0.0.0.0:8080 443/tcp=internal ".to_string()),
    );
    assert_eq!(
        line,
        Some("[event] web-1 runtime ips=[net=172.18.0.2] ports=[80/tcp=0.0.0.0:8080, 443/tcp=internal]\n".to_string())
    );
    let unknown = runtime_details_line("web-1", None, None);
    assert_eq!(unknown, Some("[event] web-1 runtime ips=[pending] ports=[none]\n".to_string()));
    assert_eq!(runtime_details_line("", None, None), None);
}

#[test]
fn inspection_output() {
    assert_eq!(inspect_field_value(Some("  shop \n")), Some("shop".to_string()));
    assert_eq!(inspect_field_value(Some(" \n")), None);
    assert_eq!(inspect_field_value(None), None);
}

#[test]
fn container_listing() {
    assert_eq!(container_names(Some("a-1\n  b-1 \n\n")), vec!["a-1".to_string(), "b-1".to_string()]);
    assert!(container_names(None).is_empty());
}

#[test]
fn unlabelled_events_take_the_looked_up_project() {
    let mut e = parse_event_line("start\t\tweb-1\t").unwrap();
    assert!(e.needs_lookup());
    assert!(e.resolve(Some("shop".to_string())));
    assert_eq!(e.project, "shop");
    let mut lost = parse_event_line("start\t\tweb-1\t").unwrap();
    assert!(!lost.resolve(None));
    let mut nameless = parse_event_line("start\t\t\t").unwrap();
    assert!(!nameless.needs_lookup());
    assert!(!nameless.resolve(Some("shop".to_string())));
    let mut labelled = parse_event_line("stop\tshop\tweb-1\t").unwrap();
    assert!(!labelled.needs_lookup());
    assert!(labelled.resolve(None));
    assert_eq!(labelled.project, "shop");
}
