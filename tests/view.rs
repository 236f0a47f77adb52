use docker_manager::compose::{compose_services, images_to_check, initial_up_text, pull_needed, ComposeProject};
use docker_manager::config::{key_or, AppKeys, Keybinds, LogsKeys, ServicesKeys};
use docker_manager::status::{startup_notice, Status, ToastState};
use docker_manager::view::{
    controls_height, find_by_prefix, parse_progress_percent, progress_bar, services_width_percentage,
    sort_by_keys, sort_by_lowercase, LogTab,
};

#[test]
fn progress_percent_from_label() {
    assert_eq!(parse_progress_percent("Downloading 50%"), Some(50));
    assert_eq!(parse_progress_percent("45%"), Some(45));
    assert_eq!(parse_progress_percent("x 180%"), Some(100));
    assert_eq!(parse_progress_percent("x 300%"), None);
    assert_eq!(parse_progress_percent("Pull complete"), None);
    assert_eq!(parse_progress_percent("%"), None);
}

#[test]
fn bars() {
    assert_eq!(progress_bar(0, Some(50)), "############------------");
    assert_eq!(progress_bar(0, Some(0)), "------------------------");
    assert_eq!(progress_bar(7, Some(100)), "########################");
    assert_eq!(progress_bar(0, None), "#####-------------------");
    assert_eq!(progress_bar(22, None), "----------------------##");
    assert_eq!(progress_bar(29, None), "#####-------------------");
}

#[test]
fn layout_sizes() {
    assert_eq!(controls_height(12), 2);
    assert_eq!(controls_height(25), 3);
    assert_eq!(controls_height(40), 4);
    assert_eq!(services_width_percentage(70), 25);
    assert_eq!(services_width_percentage(100), 30);
    assert_eq!(services_width_percentage(200), 35);
}

#[test]
fn tabs_and_labels() {
    assert_eq!(LogTab::Events.switched(), LogTab::LiveLogs);
    assert_eq!(Status::Pulling.label(), "pulling images");
    assert_eq!(Status::DaemonNotRunning.label(), "daemon not running");
}

#[test]
fn compose_file_reading() {
    let text = "services:\n  redis:\n    image: redis:7\n  app:\n    build: .\n  db:\n    image: postgres:16\n";
    let services = compose_services(text);
    let list = services.clone().unwrap();
    assert_eq!(list.len(), 3);
    assert_eq!(list[0], (Some("redis".to_string()), Some("redis:7".to_string())));
    assert_eq!(list[1], (Some("app".to_string()), None));
    let images = images_to_check(&services);
    assert_eq!(images, Some(vec!["redis:7".to_string(), "postgres:16".to_string()]));
    assert!(!pull_needed(&images, &vec![true, true]));
    assert!(pull_needed(&images, &vec![true, false]));
    assert!(pull_needed(&None, &vec![]));
    assert_eq!(
        initial_up_text("shop", &services),
        "Up output:\nNetwork shop_default Running\nContainer redis Running\nContainer app Running\nContainer db Running\n"
    );
    assert_eq!(initial_up_text("shop", &None), "");
}

#[test]
fn unreadable_compose_file() {
    assert!(compose_services("services: [1, 2").is_none());
    assert!(compose_services("name: x\n").is_none());
    assert!(compose_services("services: 3\n").is_none());
}

#[test]
fn project_paths_and_args() {
    let p = ComposeProject::new("shop");
    assert_eq!(p.dir, "containers/shop");
    assert_eq!(p.compose_file(), "containers/shop/docker-compose.yml");
    assert_eq!(p.up_detached_args(), vec!["compose", "up", "-d"]);
    assert_eq!(p.logs_follow_args(), vec!["compose", "logs", "-f", "--tail=100"]);
    assert_eq!(p.pull_args(), vec!["compose", "pull"]);
    assert_eq!(p.down_args(), vec!["compose", "down"]);
    assert_eq!(p.ps_args(), vec!["compose", "ps"]);
}

#[test]
fn key_bindings() {
    let keys = Keybinds {
        app: AppKeys {
            quit: "q".to_string(),
            search: "/".to_string(),
            daemon_menu: "d".to_string(),
            refresh: "r".to_string(),
            focus_services: "h".to_string(),
            focus_logs: "l".to_string(),
            scroll_down: "j".to_string(),
            scroll_up: "".to_string(),
        },
        services: ServicesKeys { stop: "s".to_string(), start: "S".to_string(), toggle: " ".to_string() },
        logs: LogsKeys {
            toggle_auto_scroll: "a".to_string(),
            switch_tab_left: "[".to_string(),
            switch_tab_right: "]".to_string(),
        },
    };
    assert_eq!(key_or(&keys.app.quit, 'x'), 'q');
    assert_eq!(key_or(&keys.app.scroll_up, 'k'), 'k');
    assert_eq!(key_or(&keys.services.start, 'z'), 'S');
}

#[test]
fn startup_notices() {
    let t = startup_notice(true, true, false);
    assert_eq!(t.state, ToastState::Error);
    assert_eq!(t.message, "Docker Compose not found. Services may not work.");
    assert_eq!(startup_notice(true, false, true).message, "Docker CLI not found.");
    let w = startup_notice(false, true, true);
    assert_eq!(w.state, ToastState::Warning);
    assert_eq!(w.ttl, 4);
    assert_eq!(startup_notice(true, true, true).message, "Welcome to Docker Manager");
}

#[test]
fn search_ignores_case() {
    let names = vec!["Adminer".to_string(), "mysql".to_string(), "MyApp".to_string()];
    assert_eq!(find_by_prefix(&names, "my"), Some(1));
    assert_eq!(find_by_prefix(&names, "MYA"), Some(2));
    assert_eq!(find_by_prefix(&names, "adm"), Some(0));
    assert_eq!(find_by_prefix(&names, "x"), None);
    assert_eq!(find_by_prefix(&names, ""), Some(0));
}

#[test]
fn discovery_order_ignores_case() {
    let names = vec!["redis".to_string(), "Adminer".to_string(), "mysql".to_string(), "Zeta".to_string()];
    let sorted: Vec<String> = sort_by_lowercase(&names).into_iter().map(|(_, n)| n).collect();
    assert_eq!(sorted, vec!["Adminer", "mysql", "redis", "Zeta"]);
    let keys: Vec<String> = sort_by_lowercase(&names).into_iter().map(|(k, _)| k.into_iter().collect()).collect();
    assert_eq!(keys, vec!["adminer", "mysql", "redis", "zeta"]);
}

#[test]
fn entries_sorted_by_key() {
    let entries = vec![
        ("b".chars().collect::<Vec<char>>(), "B".to_string()),
        ("a".chars().collect::<Vec<char>>(), "A".to_string()),
        ("ab".chars().collect::<Vec<char>>(), "AB".to_string()),
    ];
    let names: Vec<String> = sort_by_keys(entries).into_iter().map(|(_, n)| n).collect();
    assert_eq!(names, vec!["A", "AB", "B"]);
}

#[test]
fn equal_lowercase_names_keep_their_order() {
    let names = vec!["web".to_string(), "Api".to_string(), "Web".to_string(), "WEB".to_string()];
    let sorted: Vec<String> = sort_by_lowercase(&names).into_iter().map(|(_, n)| n).collect();
    assert_eq!(sorted, vec!["Api", "web", "Web", "WEB"]);
}
