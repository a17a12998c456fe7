use finshell::power::{PowerMenu, PowerModule, COLLAPSE_AFTER_MS};

#[test]
fn logging_out_asks_the_window_manager() {
    let c = PowerModule::run_cmd("logout");
    assert_eq!(c.program, "hyprctl");
    assert_eq!(c.args, vec!["dispatch", "exit"]);
}

#[test]
fn other_actions_go_to_the_service_manager() {
    let c = PowerModule::run_cmd("reboot");
    assert_eq!(c.program, "systemctl");
    assert_eq!(c.args, vec!["reboot"]);
    let c = PowerModule::run_cmd("poweroff");
    assert_eq!((c.program.as_str(), c.args), ("systemctl", vec!["poweroff".to_string()]));
    let c = PowerModule::run_cmd("Logout");
    assert_eq!((c.program.as_str(), c.args), ("systemctl", vec!["Logout".to_string()]));
    let c = PowerModule::run_cmd("");
    assert_eq!((c.program.as_str(), c.args), ("systemctl", vec![String::new()]));
}

#[test]
fn the_menu_collapses_five_seconds_after_it_opened() {
    let mut menu = PowerMenu::new();
    assert!(!menu.is_open());
    let armed = menu.toggle(1_000).expect("opening arms the timer");
    assert!(menu.is_open());
    assert_eq!(armed.armed.deadline_ms, 1_000 + COLLAPSE_AFTER_MS);
    assert_eq!(COLLAPSE_AFTER_MS, 5000);
    assert!(armed.cancelled.is_none());
    assert!(menu.on_timeout(armed.armed));
    assert!(!menu.is_open());
    assert!(!menu.on_timeout(armed.armed));
}

#[test]
fn closing_by_hand_leaves_the_timer_alone() {
    let mut menu = PowerMenu::new();
    let first = menu.toggle(0).unwrap();
    assert!(menu.toggle(1_000).is_none());
    assert!(!menu.is_open());
    // Opened again before the first timer ran out: that timer is replaced.
    let second = menu.toggle(2_000).unwrap();
    assert!(menu.is_open());
    assert_eq!(second.cancelled.map(|h| h.id), Some(first.armed.id));
    assert_eq!(second.armed.deadline_ms, 7_000);
    assert!(!menu.on_timeout(first.armed));
    assert!(menu.is_open());
    assert!(menu.on_timeout(second.armed));
    assert!(!menu.is_open());
}

#[test]
fn a_timer_that_runs_out_on_a_closed_menu_clears_the_slot() {
    let mut menu = PowerMenu::new();
    let first = menu.toggle(0).unwrap();
    assert!(menu.toggle(100).is_none());
    assert!(menu.on_timeout(first.armed));
    assert!(!menu.is_open());
    let second = menu.toggle(9_000).unwrap();
    assert!(second.cancelled.is_none());
}
