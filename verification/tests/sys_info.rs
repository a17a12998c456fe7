use finshell::sys_info::{CpuSampler, RamStats, SysInfo, SysInfoModule};

const STAT: &[u8] = b"cpu  100 20 30 800 50 0 0 0 0 0\ncpu0 50 10 15 400 25 0 0 0 0 0\nintr 12345\n";

#[test]
fn active_and_total_ticks_of_the_summary_line() {
    // active = 100 + 20 + 30 + 50, total = active + 800
    assert_eq!(SysInfoModule::read_cpu_stats(STAT), (200, 1000));
    assert_eq!(SysInfoModule::read_cpu_stats(b"cpu 1 2 3 4 5"), (11, 15));
    assert_eq!(SysInfoModule::read_cpu_stats(b"cpu 1 x 3 4 5"), (9, 13));
}

#[test]
fn statistics_that_cannot_be_read_count_as_unknown() {
    assert_eq!(SysInfoModule::read_cpu_stats(b""), (0, 0));
    assert_eq!(SysInfoModule::read_cpu_stats(b"\n"), (0, 0));
    assert_eq!(SysInfoModule::read_cpu_stats(b"cpu 1 2 3 4"), (0, 0));
    assert_eq!(SysInfoModule::read_cpu_stats(b"cpu"), (0, 0));
    let huge = b"cpu 18446744073709551615 1 0 0 0";
    assert_eq!(SysInfoModule::read_cpu_stats(huge), (0, 0));
    let huge = b"cpu 18446744073709551614 1 0 1 0";
    assert_eq!(SysInfoModule::read_cpu_stats(huge), (0, 0));
    let fits = b"cpu 18446744073709551614 1 0 0 0";
    assert_eq!(SysInfoModule::read_cpu_stats(fits), (u64::MAX, u64::MAX));
}

#[test]
fn the_load_is_the_share_of_the_active_ticks() {
    assert_eq!(SysInfoModule::cpu_usage((100, 1000), (150, 1100)), 50);
    assert_eq!(SysInfoModule::cpu_usage((100, 1000), (100, 1100)), 0);
    assert_eq!(SysInfoModule::cpu_usage((100, 1000), (200, 1100)), 100);
    assert_eq!(SysInfoModule::cpu_usage((0, 0), (1, 3)), 33);
    assert_eq!(SysInfoModule::cpu_usage((0, 0), (2, 3)), 66);
    assert_eq!(SysInfoModule::cpu_usage((0, 0), (199, 200)), 99);
    assert_eq!(SysInfoModule::cpu_usage((0, 0), (u64::MAX, u64::MAX)), 100);
    assert_eq!(SysInfoModule::cpu_usage((0, 0), (u64::MAX / 2, u64::MAX)), 49);
}

#[test]
fn a_load_without_a_valid_difference_is_zero() {
    assert_eq!(SysInfoModule::cpu_usage((100, 1000), (150, 1000)), 0);
    assert_eq!(SysInfoModule::cpu_usage((100, 1000), (150, 900)), 0);
    assert_eq!(SysInfoModule::cpu_usage((100, 1000), (50, 1100)), 0);
    assert_eq!(SysInfoModule::cpu_usage((0, 0), (0, 0)), 0);
    // Active ticks that outrun the total are held to 100.
    assert_eq!(SysInfoModule::cpu_usage((0, 0), (300, 100)), 100);
}

#[test]
fn the_first_sample_has_no_difference() {
    let mut s = CpuSampler::new();
    assert_eq!(s.sample((200, 1000)), 0);
    assert_eq!(s.sample((250, 1100)), 50);
    assert_eq!(s.sample((250, 1200)), 0);
    assert_eq!(s.sample((350, 1300)), 100);
    let mut s = CpuSampler::starting_at((0, 0));
    assert_eq!(s.sample((1, 4)), 25);
}

#[test]
fn half_of_sixteen_million_kilobytes_in_use() {
    let content = b"MemTotal:       16000000 kB\nMemFree:         1000000 kB\nMemAvailable:    8000000 kB\nBuffers: 5 kB\n";
    assert_eq!(SysInfoModule::read_meminfo(content), (16000000, 8000000));
    let stats = SysInfoModule::read_ram_stats(content);
    assert_eq!(stats.percent, 50);
    assert_eq!(stats.used_kb, 8000000);
    // 8000000 / 1024 / 1024 = 7.629...
    assert_eq!(stats.used_gib_milli(), 7629);
}

#[test]
fn memory_in_use_is_rounded_down() {
    let stats = SysInfoModule::ram_usage(3, 1);
    assert_eq!((stats.percent, stats.used_kb), (66, 2));
    let stats = SysInfoModule::ram_usage(1000, 1);
    assert_eq!((stats.percent, stats.used_kb), (99, 999));
    let stats = SysInfoModule::ram_usage(1000, 0);
    assert_eq!((stats.percent, stats.used_kb), (100, 1000));
    let stats = SysInfoModule::ram_usage(u64::MAX, 0);
    assert_eq!((stats.percent, stats.used_kb), (100, u64::MAX));
    assert_eq!(RamStats { percent: 0, used_kb: 1048576 }.used_gib_milli(), 1000);
    assert_eq!(RamStats { percent: 0, used_kb: 1048575 }.used_gib_milli(), 999);
    assert_eq!(RamStats { percent: 0, used_kb: u64::MAX }.used_gib_milli(), 17592186044415999);
}

#[test]
fn memory_statistics_that_say_nothing_give_zero() {
    let zero = |s: RamStats| (s.percent, s.used_kb) == (0, 0);
    assert!(zero(SysInfoModule::read_ram_stats(b"")));
    assert!(zero(SysInfoModule::read_ram_stats(b"MemAvailable: 5 kB\n")));
    assert!(zero(SysInfoModule::read_ram_stats(b"MemTotal: x kB\n")));
    assert!(zero(SysInfoModule::ram_usage(0, 0)));
    assert!(zero(SysInfoModule::ram_usage(0, 7)));
    // More available than there is in total counts as nothing in use.
    assert!(zero(SysInfoModule::ram_usage(5, 7)));
    assert_eq!(SysInfoModule::read_meminfo(b"MemTotal: 100 kB\n"), (100, 0));
    assert_eq!(SysInfoModule::read_ram_stats(b"MemTotal: 100 kB\n").percent, 100);
    assert_eq!(SysInfoModule::read_meminfo(b"MemTotal:\n"), (0, 0));
}

#[test]
fn the_scan_of_the_memory_statistics_stops_when_both_are_known() {
    let content = b"MemTotal: 100 kB\nMemAvailable: 40 kB\nMemTotal: 999 kB\n";
    assert_eq!(SysInfoModule::read_meminfo(content), (100, 40));
    // Until then a later line replaces an earlier one.
    let content = b"MemTotal: 100 kB\nMemTotal: 200 kB\nMemAvailable: 50 kB\n";
    assert_eq!(SysInfoModule::read_meminfo(content), (200, 50));
    let content = b"MemAvailable: 0 kB\nMemTotal: 10 kB\nMemAvailable: 4 kB\n";
    assert_eq!(SysInfoModule::read_meminfo(content), (10, 4));
}

#[test]
fn one_snapshot_of_the_load() {
    let mut sampler = CpuSampler::starting_at((100, 500));
    let mem = b"MemTotal: 1000 kB\nMemAvailable: 250 kB\n";
    let info = SysInfoModule::sample(&mut sampler, Some(STAT), Some(mem));
    // (200 - 100) / (1000 - 500)
    assert_eq!((info.cpu_usage, info.ram_usage, info.ram_used_kb), (20, 75, 750));
    let info = SysInfoModule::sample(&mut sampler, None, None);
    assert_eq!((info.cpu_usage, info.ram_usage, info.ram_used_kb), (0, 0, 0));
    let mut fresh = CpuSampler::new();
    let info = SysInfoModule::sample(&mut fresh, Some(STAT), None);
    assert_eq!(info.cpu_usage, 0);
}

#[test]
fn a_high_load_is_marked() {
    let info = |cpu_usage, ram_usage| SysInfo { cpu_usage, ram_usage, ram_used_kb: 0 };
    assert!(!SysInfoModule::update_view(&info(80, 90)));
    assert!(SysInfoModule::update_view(&info(81, 0)));
    assert!(SysInfoModule::update_view(&info(0, 91)));
    assert!(!SysInfoModule::update_view(&info(0, 0)));
}
