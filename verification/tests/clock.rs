use finshell::clock::{update_time, ClockModule};

fn text(t: Option<Vec<u8>>) -> Option<String> {
    t.map(|t| String::from_utf8(t).unwrap())
}

#[test]
fn the_time_of_day_in_two_digits_each() {
    assert_eq!(text(ClockModule::format_time(9, 5, 0)).as_deref(), Some("09:05:00"));
    assert_eq!(text(ClockModule::format_time(23, 59, 59)).as_deref(), Some("23:59:59"));
    assert_eq!(text(ClockModule::format_time(0, 0, 0)).as_deref(), Some("00:00:00"));
    assert_eq!(text(ClockModule::format_time(12, 30, 60)).as_deref(), Some("12:30:60"));
}

#[test]
fn numbers_that_are_no_time() {
    assert_eq!(ClockModule::format_time(24, 0, 0), None);
    assert_eq!(ClockModule::format_time(0, 60, 0), None);
    assert_eq!(ClockModule::format_time(0, 0, 61), None);
    assert_eq!(ClockModule::format_time(255, 255, 255), None);
}

#[test]
fn time_and_date_of_the_clock_button() {
    assert_eq!(text(update_time(14, 3, 2, 28, 10)).as_deref(), Some("14:03  Wed 28 Oct"));
    assert_eq!(text(update_time(0, 0, 0, 1, 1)).as_deref(), Some("00:00  Mon 01 Jan"));
    assert_eq!(text(update_time(23, 59, 6, 31, 12)).as_deref(), Some("23:59  Sun 31 Dec"));
    let days = ["Mon", "Tue", "Wed", "Thu", "Fri", "Sat", "Sun"];
    for (i, d) in days.iter().enumerate() {
        let t = text(update_time(1, 2, i as u8, 3, 4)).unwrap();
        assert_eq!(t, format!("01:02  {} 03 Apr", d));
    }
    let months =
        ["Jan", "Feb", "Mar", "Apr", "May", "Jun", "Jul", "Aug", "Sep", "Oct", "Nov", "Dec"];
    for (i, m) in months.iter().enumerate() {
        let t = text(update_time(1, 2, 3, 4, i as u8 + 1)).unwrap();
        assert_eq!(t, format!("01:02  Thu 04 {}", m));
    }
}

#[test]
fn numbers_that_are_no_date() {
    assert_eq!(update_time(24, 0, 0, 1, 1), None);
    assert_eq!(update_time(0, 60, 0, 1, 1), None);
    assert_eq!(update_time(0, 0, 7, 1, 1), None);
    assert_eq!(update_time(0, 0, 0, 0, 1), None);
    assert_eq!(update_time(0, 0, 0, 32, 1), None);
    assert_eq!(update_time(0, 0, 0, 1, 0), None);
    assert_eq!(update_time(0, 0, 0, 1, 13), None);
}
