use finshell::apps::{
    app_from_entry, get_installed_apps, key_before_or_same, parse_desktop_file, parse_entry,
    sort_apps, sort_by_keys, AppInfo, DesktopEntry,
};

const FIREFOX: &[u8] = b"[Desktop Entry]\nVersion=1.0\nName=Firefox\nName[de]=Feuerfuchs\nExec=firefox %u\nIcon=firefox\nType=Application\n\n[Desktop Action new-window]\nName=New Window\nExec=firefox --new-window %u\nIcon=other\n";

fn app(name: &str) -> AppInfo {
    AppInfo { name: name.to_string(), icon: String::new(), command: "run".to_string() }
}

fn names(apps: &[AppInfo]) -> Vec<&str> {
    apps.iter().map(|a| a.name.as_str()).collect()
}

#[test]
fn only_the_entry_section_counts() {
    let a = parse_desktop_file(FIREFOX).unwrap();
    assert_eq!(a.name, "Firefox");
    assert_eq!(a.icon, "firefox");
    assert_eq!(a.command, "firefox");
    let e = parse_entry(FIREFOX).unwrap();
    assert_eq!(e.name, b"Firefox".to_vec());
    assert_eq!(e.icon, b"firefox".to_vec());
    assert_eq!(e.command, b"firefox".to_vec());
}

#[test]
fn placeholders_are_taken_out_of_the_command() {
    let a = parse_desktop_file(b"[Desktop Entry]\nName=Editor\nExec=  edit   --new %F  --wait %%\n")
        .unwrap();
    assert_eq!(a.command, "edit --new --wait");
    assert!(a.icon.is_empty());
    let a = parse_desktop_file(b"[Desktop Entry]\nName=Odd\nExec=%u\n").unwrap();
    assert!(a.command.is_empty());
}

#[test]
fn the_first_name_and_command_and_the_last_icon_are_kept() {
    let a = parse_desktop_file(
        b"[Desktop Entry]\r\n Name=One \r\nName=Two\nExec=one\nExec=two\nIcon=a\nIcon=b\n",
    )
    .unwrap();
    assert_eq!(a.name, "One");
    assert_eq!(a.command, "one");
    assert_eq!(a.icon, "b");
    // The key is taken out wherever it occurs.
    let a = parse_desktop_file(b"[Desktop Entry]\nName=Name=X\nExec=Exec=y Exec=\n").unwrap();
    assert_eq!(a.name, "X");
    assert_eq!(a.command, "y");
}

#[test]
fn entries_that_are_not_to_be_shown() {
    assert!(parse_desktop_file(b"[Desktop Entry]\nName=A\nExec=a\nNoDisplay=true\n").is_none());
    assert!(parse_desktop_file(b"[Desktop Entry]\nName=A\nExec=a\nNoDisplay=false\n").is_some());
    assert!(parse_desktop_file(b"[Desktop Entry]\nName=A\n").is_none());
    assert!(parse_desktop_file(b"[Desktop Entry]\nExec=a\n").is_none());
    assert!(parse_desktop_file(b"Name=A\nExec=a\n").is_none());
    assert!(parse_desktop_file(b"[Other]\nName=A\nExec=a\n").is_none());
    assert!(parse_desktop_file(b"").is_none());
    assert!(parse_entry(b"").is_none());
    // An empty name leaves room for a later one.
    let a = parse_desktop_file(b"[Desktop Entry]\nName=\nName=B\nExec=b\n").unwrap();
    assert_eq!(a.name, "B");
}

#[test]
fn a_section_can_come_back() {
    let a = parse_desktop_file(
        b"[Desktop Entry]\nName=A\n[Action]\nExec=wrong\n[Desktop Entry]\nExec=right\n",
    )
    .unwrap();
    assert_eq!(a.command, "right");
}

#[test]
fn the_bytes_of_an_entry_become_text() {
    let entry = DesktopEntry {
        name: "Caf\u{e9}".as_bytes().to_vec(),
        icon: Vec::new(),
        command: b"caf\xff".to_vec(),
    };
    let a = app_from_entry(&entry);
    assert_eq!(a.name, "Caf\u{e9}");
    assert_eq!(a.icon, "");
    // A byte that is no UTF-8 is replaced.
    assert_eq!(a.command, "caf\u{fffd}");
    let a = parse_desktop_file(b"[Desktop Entry]\nName=T\xffx\nExec=t\n").unwrap();
    assert_eq!(a.name, "T\u{fffd}x");
}

#[test]
fn keys_are_ordered_byte_by_byte() {
    assert!(key_before_or_same(b"alpha", b"beta"));
    assert!(!key_before_or_same(b"beta", b"alpha"));
    assert!(key_before_or_same(b"beta", b"beta"));
    assert!(key_before_or_same(b"Beta", b"alpha"));
    assert!(!key_before_or_same(b"alpha", b"Beta"));
    assert!(key_before_or_same(b"", b"a"));
    assert!(!key_before_or_same(b"a", b""));
    assert!(key_before_or_same(b"", b""));
    assert!(key_before_or_same(b"ab", b"abc"));
    assert!(!key_before_or_same(b"abc", b"ab"));
    assert!(key_before_or_same(b"a\x7f", b"a\x80"));
}

#[test]
fn sorting_by_given_keys() {
    let keys = vec![b"c".to_vec(), b"a".to_vec(), b"b".to_vec(), b"a".to_vec()];
    let sorted = sort_by_keys(vec![app("1"), app("2"), app("3"), app("4")], &keys);
    assert_eq!(names(&sorted), vec!["2", "4", "3", "1"]);
    // Keys that are not as many as the applications change nothing.
    let sorted = sort_by_keys(vec![app("z"), app("a")], &vec![b"a".to_vec()]);
    assert_eq!(names(&sorted), vec!["z", "a"]);
    assert!(sort_by_keys(vec![], &vec![]).is_empty());
}

#[test]
fn sorting_keeps_the_order_of_equal_names() {
    let mut first = app("files");
    first.icon = "1".to_string();
    let mut second = app("Files");
    second.icon = "2".to_string();
    let sorted = sort_apps(vec![app("zed"), first, app("Alacritty"), second, app("kitty")]);
    assert_eq!(names(&sorted), vec!["Alacritty", "files", "Files", "kitty", "zed"]);
    assert_eq!(sorted[1].icon, "1");
    assert_eq!(sorted[2].icon, "2");
    assert!(sort_apps(vec![]).is_empty());
    assert_eq!(names(&sort_apps(vec![app("b"), app("a")])), vec!["a", "b"]);
}

#[test]
fn names_are_ordered_in_lower_case() {
    // As they stand, 'B' comes before 'a'; in lower case it comes after.
    assert_eq!(names(&sort_apps(vec![app("B"), app("a")])), vec!["a", "B"]);
    // The same holds of capitals beyond ASCII.
    let sorted = sort_apps(vec![app("\u{c9}B"), app("\u{e9}a")]);
    assert_eq!(names(&sorted), vec!["\u{e9}a", "\u{c9}B"]);
    let sorted = sort_apps(vec![app("\u{e9}b"), app("\u{c9}A")]);
    assert_eq!(names(&sorted), vec!["\u{c9}A", "\u{e9}b"]);
}

#[test]
fn the_installed_applications_in_the_order_of_their_names() {
    let files = vec![
        b"[Desktop Entry]\nName=zathura\nExec=zathura %f\n".to_vec(),
        b"[Desktop Entry]\nName=Hidden\nExec=h\nNoDisplay=true\n".to_vec(),
        FIREFOX.to_vec(),
        b"not a desktop entry".to_vec(),
        b"[Desktop Entry]\nName=alacritty\nExec=alacritty\nIcon=term\n".to_vec(),
    ];
    let apps = get_installed_apps(&files);
    assert_eq!(names(&apps), vec!["alacritty", "Firefox", "zathura"]);
    assert_eq!(apps[2].command, "zathura");
    assert_eq!(apps[0].icon, "term");
    assert!(get_installed_apps(&vec![]).is_empty());
}
