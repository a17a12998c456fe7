use finshell::audio::{AudioModule, VolumeIcon};
use finshell::osd::{
    get_brightness_data, get_volume_data, Osd, OsdEvent, OsdIcon, OsdMonitor, HIDE_AFTER_MS,
};
use finshell::system::{get_volume, VolumeText};

#[test]
fn the_volume_is_the_number_after_the_label() {
    assert_eq!(AudioModule::get_volume_info(Some(b"Volume: 0.45\n")), (45, false));
    assert_eq!(AudioModule::get_volume_info(Some(b"Volume: 0.45 [MUTED]\n")), (45, true));
    assert_eq!(AudioModule::get_volume_info(Some(b"Volume: 0.57\n")), (57, false));
    assert_eq!(AudioModule::get_volume_info(Some(b"Volume: 1.00\n")), (100, false));
    assert_eq!(AudioModule::get_volume_info(Some(b"Volume: 1.50\n")), (100, false));
    assert_eq!(AudioModule::get_volume_info(Some(b"Volume: 0.999\n")), (99, false));
    assert_eq!(AudioModule::get_volume_info(Some(b"Volume: 0.00\n")), (0, false));
    assert_eq!(AudioModule::get_volume_info(Some(b"Volume: 0.019\n")), (1, false));
}

#[test]
fn an_answer_that_says_nothing_gives_zero() {
    assert_eq!(AudioModule::get_volume_info(None), (0, false));
    assert_eq!(AudioModule::get_volume_info(Some(b"")), (0, false));
    // Without the label the mute flag is not looked at either.
    assert_eq!(AudioModule::get_volume_info(Some(b"0.45 [MUTED]")), (0, false));
    assert_eq!(AudioModule::get_volume_info(Some(b"Volume: ")), (0, false));
    assert_eq!(AudioModule::get_volume_info(Some(b"Volume: [MUTED]")), (0, true));
    assert_eq!(AudioModule::get_volume_info(Some(b"Volume: loud")), (0, false));
    assert_eq!(AudioModule::get_volume_info(Some(b"Volume: -0.5")), (0, false));
}

#[test]
fn the_picture_follows_the_volume() {
    let icon = |v, m| AudioModule::update_view(v, m).icon;
    assert_eq!(icon(100, false), VolumeIcon::High);
    assert_eq!(icon(50, false), VolumeIcon::High);
    assert_eq!(icon(49, false), VolumeIcon::Medium);
    assert_eq!(icon(20, false), VolumeIcon::Medium);
    assert_eq!(icon(19, false), VolumeIcon::Low);
    assert_eq!(icon(0, false), VolumeIcon::Low);
    assert_eq!(icon(80, true), VolumeIcon::Muted);
    let view = AudioModule::update_view(45, true);
    assert_eq!((view.volume, view.muted), (45, true));
}

#[test]
fn the_display_reads_the_volume_in_thousandths() {
    assert_eq!(get_volume_data(b"Volume: 0.45\n"), Some((450, false)));
    assert_eq!(get_volume_data(b"Volume: 0.45 [MUTED]\n"), Some((450, true)));
    assert_eq!(get_volume_data(b"Volume:0.45"), Some((450, false)));
    assert_eq!(get_volume_data(b"0.5"), Some((500, false)));
    // What is left is no number: the first word that is one counts.
    assert_eq!(get_volume_data(b"Volume: 0.45 extra 0.9"), Some((450, false)));
    assert_eq!(get_volume_data(b"sink MUTED at 1.0"), Some((1000, true)));
    assert_eq!(get_volume_data(b"Volume: loud"), None);
    assert_eq!(get_volume_data(b""), None);
}

#[test]
fn brightness_is_a_share_of_the_maximum() {
    assert_eq!(get_brightness_data(Some(b"128\n"), Some(b"255\n")), Some(501));
    assert_eq!(get_brightness_data(Some(b"255\n"), Some(b"255\n")), Some(1000));
    assert_eq!(get_brightness_data(Some(b"0"), Some(b"255")), Some(0));
    assert_eq!(get_brightness_data(Some(b"1"), Some(b"3")), Some(333));
    assert_eq!(get_brightness_data(Some(b"128"), Some(b"0")), None);
    assert_eq!(get_brightness_data(Some(b"x"), Some(b"255")), None);
    assert_eq!(get_brightness_data(Some(b"128"), Some(b"")), None);
    assert_eq!(get_brightness_data(None, Some(b"255")), None);
    assert_eq!(get_brightness_data(Some(b"128"), None), None);
    assert_eq!(get_brightness_data(Some(b"4294967"), Some(b"0.001")), Some(u32::MAX));
}

#[test]
fn the_monitor_reports_changes_only() {
    let mut m = OsdMonitor::new(Some((450, false)), Some(500));
    assert!(m.observe_volume(Some((450, false))).is_none());
    assert!(m.observe_volume(Some((451, true))).is_none());
    assert!(m.observe_volume(Some((449, false))).is_none());
    assert!(m.observe_volume(None).is_none());
    assert!(matches!(
        m.observe_volume(Some((500, true))),
        Some(OsdEvent::VolumeChanged(500, true))
    ));
    assert!(m.observe_volume(Some((500, false))).is_none());
    assert!(matches!(
        m.observe_volume(Some((498, false))),
        Some(OsdEvent::VolumeChanged(498, false))
    ));
    assert!(m.observe_brightness(Some(501)).is_none());
    assert!(m.observe_brightness(None).is_none());
    assert!(matches!(m.observe_brightness(Some(502)), Some(OsdEvent::BrightnessChanged(502))));
    assert!(matches!(m.observe_brightness(Some(0)), Some(OsdEvent::BrightnessChanged(0))));
}

#[test]
fn without_a_first_volume_the_next_one_is_a_change() {
    let mut m = OsdMonitor::new(None, None);
    assert!(matches!(m.observe_volume(Some((0, false))), Some(OsdEvent::VolumeChanged(0, false))));
    assert!(m.observe_volume(Some((0, false))).is_none());
    // The brightness starts from 0.
    assert!(m.observe_brightness(Some(1)).is_none());
    assert!(matches!(m.observe_brightness(Some(2)), Some(OsdEvent::BrightnessChanged(2))));
}

#[test]
fn the_display_hides_one_second_after_the_last_change() {
    let mut osd = Osd::new();
    assert!(!osd.is_visible());
    let first = osd.show(OsdEvent::VolumeChanged(450, false), 10_000);
    assert!(osd.is_visible());
    assert_eq!((osd.level(), osd.icon()), (450, OsdIcon::Volume));
    assert_eq!(first.armed.deadline_ms, 11_000);
    assert!(first.cancelled.is_none());
    let second = osd.show(OsdEvent::VolumeChanged(500, true), 10_600);
    assert_eq!((osd.level(), osd.icon()), (500, OsdIcon::Muted));
    assert_eq!(second.cancelled.map(|h| h.id), Some(first.armed.id));
    assert_eq!(second.armed.deadline_ms, 10_600 + HIDE_AFTER_MS);
    assert!(!osd.on_timeout(first.armed));
    assert!(osd.is_visible());
    assert!(osd.on_timeout(second.armed));
    assert!(!osd.is_visible());
    assert!(!osd.on_timeout(second.armed));
    let third = osd.show(OsdEvent::BrightnessChanged(800), 20_000);
    assert!(osd.is_visible());
    assert_eq!((osd.level(), osd.icon()), (800, OsdIcon::Brightness));
    assert!(third.cancelled.is_none());
}

#[test]
fn the_volume_label_of_the_system_widget() {
    assert_eq!(get_volume(Some(b"Volume: 0.45\n")), VolumeText::Percent(45));
    assert_eq!(get_volume(Some(b"Volume: 0.455\n")), VolumeText::Percent(46));
    assert_eq!(get_volume(Some(b"Volume: 0.454\n")), VolumeText::Percent(45));
    assert_eq!(get_volume(Some(b"Volume: 1.00\n")), VolumeText::Percent(100));
    assert_eq!(get_volume(Some(b"Volume: 0.45 [MUTED]\n")), VolumeText::Muted);
    assert_eq!(get_volume(Some(b"MUTED")), VolumeText::Muted);
    assert_eq!(get_volume(Some(b"Volume: loud\n")), VolumeText::Unknown);
    assert_eq!(get_volume(Some(b"")), VolumeText::Unknown);
    assert_eq!(get_volume(None), VolumeText::Unknown);
    assert_eq!(get_volume(Some(b"4294967.295")), VolumeText::Percent(429496730));
}
