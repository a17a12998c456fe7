use finshell::config::{
    create_module, fill_box, str_eq, BarConfig, Config, ConfigSource, ModulesConfig, WidgetKind,
};

fn custom() -> Config {
    Config {
        bar: BarConfig { position: Some("bottom".to_string()), height: None },
        modules: ModulesConfig { left: None, center: Some(vec![]), right: None },
    }
}

fn is_default(c: &Config) -> bool {
    c.bar.position.as_deref() == Some("top")
        && c.bar.height == Some(40)
        && c.modules.left == Some(vec!["workspaces".to_string()])
        && c.modules.center == Some(vec!["clock".to_string()])
        && c.modules.right == Some(vec!["battery".to_string()])
}

fn is_custom(c: &Config) -> bool {
    c.bar.position.as_deref() == Some("bottom") && c.modules.center == Some(vec![])
}

#[test]
fn the_default_configuration() {
    let c = Config::default();
    assert_eq!(c.bar.position.as_deref(), Some("top"));
    assert_eq!(c.bar.height, Some(40));
    assert_eq!(c.modules.left, Some(vec!["workspaces".to_string()]));
    assert_eq!(c.modules.center, Some(vec!["clock".to_string()]));
    assert_eq!(c.modules.right, Some(vec!["battery".to_string()]));
    assert!(!c.bar.is_bottom());
}

#[test]
fn a_file_without_a_valid_configuration_gives_the_default() {
    assert!(is_default(&Config::from_file(None)));
    assert!(is_custom(&Config::from_file(Some(custom()))));
}

#[test]
fn the_file_in_the_working_directory_comes_first() {
    let parsed = || ConfigSource::Parsed(custom());
    assert!(is_custom(&Config::load(parsed(), ConfigSource::Missing)));
    assert!(is_custom(&Config::load(parsed(), ConfigSource::Parsed(Config::default()))));
    assert!(is_default(&Config::load(ConfigSource::Unreadable, parsed())));
    assert!(is_custom(&Config::load(ConfigSource::Missing, parsed())));
    assert!(is_default(&Config::load(ConfigSource::Missing, ConfigSource::Unreadable)));
    assert!(is_default(&Config::load(ConfigSource::Missing, ConfigSource::Missing)));
}

#[test]
fn the_path_below_the_home_directory() {
    assert_eq!(Config::home_path("/home/ann"), "/home/ann/.config/finshell/config.toml");
    assert_eq!(Config::home_path(""), "/.config/finshell/config.toml");
}

#[test]
fn the_bar_stands_at_the_bottom_only_where_it_is_told_to() {
    let bar = |p: Option<&str>| BarConfig { position: p.map(|s| s.to_string()), height: None };
    assert!(bar(Some("bottom")).is_bottom());
    assert!(!bar(Some("top")).is_bottom());
    assert!(!bar(Some("Bottom")).is_bottom());
    assert!(!bar(Some("")).is_bottom());
    assert!(!bar(None).is_bottom());
}

#[test]
fn every_widget_has_its_name() {
    assert_eq!(create_module("workspaces"), Some(WidgetKind::Workspaces));
    assert_eq!(create_module("clock"), Some(WidgetKind::Clock));
    assert_eq!(create_module("battery"), Some(WidgetKind::Battery));
    assert_eq!(create_module("audio"), Some(WidgetKind::Audio));
    assert_eq!(create_module("mpris"), Some(WidgetKind::Mpris));
    assert_eq!(create_module("network"), Some(WidgetKind::Network));
    assert_eq!(create_module("sys_info"), Some(WidgetKind::SysInfo));
    assert_eq!(create_module("power"), Some(WidgetKind::Power));
    assert_eq!(create_module("spacer"), Some(WidgetKind::Spacer));
    assert_eq!(create_module("Clock"), None);
    assert_eq!(create_module("clock "), None);
    assert_eq!(create_module(""), None);
    assert_eq!(create_module("weather"), None);
}

#[test]
fn a_section_shows_the_widgets_it_knows() {
    let names = |v: &[&str]| Some(v.iter().map(|s| s.to_string()).collect::<Vec<_>>());
    assert_eq!(
        fill_box(&names(&["clock", "weather", "spacer", "clock"])),
        vec![WidgetKind::Clock, WidgetKind::Spacer, WidgetKind::Clock]
    );
    assert!(fill_box(&names(&[])).is_empty());
    assert!(fill_box(&names(&["nothing"])).is_empty());
    assert!(fill_box(&None).is_empty());
    assert_eq!(fill_box(&Config::default().modules.left), vec![WidgetKind::Workspaces]);
}

#[test]
fn strings_are_compared_by_their_text() {
    assert!(str_eq("", ""));
    assert!(str_eq("caf\u{e9}", "caf\u{e9}"));
    assert!(!str_eq("cafe", "caf\u{e9}"));
    assert!(!str_eq("a", "ab"));
}
