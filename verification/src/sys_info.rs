//! Processor and memory load, from the kernel's statistics files.

use crate::number::read_u64;
use crate::text::{bytes_eq, lines, parse_u64, split_lines, split_words, views, words};
use vstd::prelude::*;
use vstd::string::*;

verus! {

/// The load widget of the bar.
pub struct SysInfoModule;

/// One snapshot of the load.
#[derive(Clone, Copy, Debug)]
pub struct SysInfo {
    /// Processor load in percent, 0 to 100.
    pub cpu_usage: u8,
    /// Memory in use in percent, 0 to 100.
    pub ram_usage: u8,
    /// Memory in use, in kB.
    pub ram_used_kb: u64,
}

/// Memory in use: its share of the total in percent, and its amount in kB.
#[derive(Clone, Copy, Debug)]
pub struct RamStats {
    pub percent: u8,
    pub used_kb: u64,
}

/// The number a counter field holds; 0 where it holds none.
pub open spec fn counter(word: Seq<u8>) -> u64 {
    match parse_u64(word) {
        Some(v) => v,
        None => 0,
    }
}

/// Active and total ticks of the summary line of the processor
/// statistics: active is user + nice + system + iowait, total is active
/// + idle.  A line with fewer than six fields, or with sums beyond the
/// range of `u64`, counts as unknown: `(0, 0)`.
pub open spec fn cpu_line_ticks(line: Seq<u8>) -> (u64, u64) {
    let parts = words(line);
    if parts.len() > 5 {
        let active = counter(parts[1]) + counter(parts[2]) + counter(parts[3]) + counter(
            parts[5],
        );
        let total = active + counter(parts[4]);
        if total <= u64::MAX {
            (active as u64, total as u64)
        } else {
            (0, 0)
        }
    } else {
        (0, 0)
    }
}

/// Active and total ticks according to the processor statistics, whose
/// first line is the summary.
pub open spec fn cpu_ticks(content: Seq<u8>) -> (u64, u64) {
    if lines(content).len() > 0 {
        cpu_line_ticks(lines(content)[0])
    } else {
        (0, 0)
    }
}

/// The processor load between two readings of `(active, total)` ticks, in
/// percent: 100 × Δactive / Δtotal, rounded down and held to 100.  A
/// counter that ran backwards counts as a difference of 0, and without a
/// difference in the total the load is 0.
pub open spec fn cpu_percent(prev: (u64, u64), curr: (u64, u64)) -> u8 {
    let delta_active: int = if curr.0 >= prev.0 {
        curr.0 - prev.0
    } else {
        0
    };
    let delta_total: int = if curr.1 >= prev.1 {
        curr.1 - prev.1
    } else {
        0
    };
    if delta_total > 0 {
        let percent = 100 * delta_active / delta_total;
        if percent > 100 {
            100
        } else {
            percent as u8
        }
    } else {
        0
    }
}

/// Where the total moved forward, the active ticks did not run backwards
/// and their share does not exceed the whole, the load is exactly
/// 100 × (active₁ − active₀) / (total₁ − total₀).  Active ticks that are
/// part of the total always meet these conditions, and the load then lies
/// between 0 and 100.
pub proof fn lemma_cpu_percent_formula(prev: (u64, u64), curr: (u64, u64))
    requires
        curr.1 > prev.1,
        curr.0 >= prev.0,
        100 * (curr.0 - prev.0) / (curr.1 - prev.1) <= 100,
    ensures
        cpu_percent(prev, curr) == 100 * (curr.0 - prev.0) / (curr.1 - prev.1),
        0 <= cpu_percent(prev, curr) <= 100,
{
    let da: int = curr.0 - prev.0;
    let dt: int = curr.1 - prev.1;
    assert(100 * da / dt >= 0) by (nonlinear_arith)
        requires
            0 <= da,
            dt > 0,
    ;
}

/// Active ticks that moved no further than the total give a share of at
/// most 100.
pub proof fn lemma_cpu_share_within_whole(delta_active: int, delta_total: int)
    requires
        0 <= delta_active <= delta_total,
        delta_total > 0,
    ensures
        0 <= 100 * delta_active / delta_total <= 100,
{
    assert(0 <= 100 * delta_active / delta_total <= 100) by (nonlinear_arith)
        requires
            0 <= delta_active <= delta_total,
            delta_total > 0,
    ;
}

/// The state of the scan of the memory statistics after the lines from
/// `i` on: the scan stops as soon as both values are known, and a later
/// line for the same key replaces an earlier one until then.
pub open spec fn meminfo_scan(rows: Seq<Seq<u8>>, i: int, total: u64, available: u64) -> (
    u64,
    u64,
)
    decreases rows.len() - i,
{
    if i < 0 || i >= rows.len() || (total > 0 && available > 0) {
        (total, available)
    } else {
        let parts = words(rows[i]);
        if parts.len() >= 2 && parts[0] == "MemTotal:".spec_bytes() {
            meminfo_scan(rows, i + 1, counter(parts[1]), available)
        } else if parts.len() >= 2 && parts[0] == "MemAvailable:".spec_bytes() {
            meminfo_scan(rows, i + 1, total, counter(parts[1]))
        } else {
            meminfo_scan(rows, i + 1, total, available)
        }
    }
}

/// Total and available memory in kB according to the memory statistics;
/// 0 for a value that is not there.
pub open spec fn meminfo_values(content: Seq<u8>) -> (u64, u64) {
    meminfo_scan(lines(content), 0, 0, 0)
}

/// Memory in use for a total and an available amount in kB: the share
/// (total − available) / total × 100, rounded down, and the amount.
/// Without a total both are 0.
pub open spec fn ram_stats_of(total: u64, available: u64) -> RamStats {
    if total > 0 {
        let used: int = if total >= available {
            total - available
        } else {
            0
        };
        RamStats { percent: (used * 100 / (total as int)) as u8, used_kb: used as u64 }
    } else {
        RamStats { percent: 0, used_kb: 0 }
    }
}

/// An amount in kB as thousandths of a GiB, rounded down: kB / 1024 /
/// 1024 × 1000.
pub open spec fn gib_milli(kb: u64) -> u64 {
    (kb * 1000 / 1048576) as u64
}

/// A load counts as high above 80 % processor or above 90 % memory.
pub open spec fn high_load(info: SysInfo) -> bool {
    info.cpu_usage > 80 || info.ram_usage > 90
}

/// Reads one counter field.
fn read_counter(word: &Vec<u8>) -> (v: u64)
    ensures
        v == counter(word@),
{
    match read_u64(word.as_slice()) {
        Some(v) => v,
        None => 0,
    }
}

/// `a + b` where it fits.
fn add_checked(a: u64, b: u64) -> (r: Option<u64>)
    ensures
        r == if a + b <= u64::MAX {
            Some((a + b) as u64)
        } else {
            None
        },
{
    if b <= u64::MAX - a {
        Some(a + b)
    } else {
        None
    }
}

impl RamStats {
    /// The amount in use as thousandths of a GiB, rounded down.
    pub fn used_gib_milli(&self) -> (r: u64)
        ensures
            r == gib_milli(self.used_kb),
    {
        ((self.used_kb as u128) * 1000 / 1048576) as u64
    }
}

/// The processor readings of one sampler.  The first reading has nothing
/// to be compared with and gives a load of 0.
pub struct CpuSampler {
    prev: Option<(u64, u64)>,
}

impl View for CpuSampler {
    type V = Option<(u64, u64)>;

    closed spec fn view(&self) -> Option<(u64, u64)> {
        self.prev
    }
}

impl CpuSampler {
    /// A sampler without a reading.
    pub fn new() -> (s: Self)
        ensures
            s@ is None,
    {
        CpuSampler { prev: None }
    }

    /// A sampler that starts from the reading `ticks`.
    pub fn starting_at(ticks: (u64, u64)) -> (s: Self)
        ensures
            s@ == Some(ticks),
    {
        CpuSampler { prev: Some(ticks) }
    }

    /// Takes a reading and returns the load since the one before, in
    /// percent.
    pub fn sample(&mut self, ticks: (u64, u64)) -> (percent: u8)
        ensures
            final(self)@ == Some(ticks),
            percent == match old(self)@ {
                Some(prev) => cpu_percent(prev, ticks),
                None => 0,
            },
            percent <= 100,
    {
        let percent = match self.prev {
            Some(prev) => SysInfoModule::cpu_usage(prev, ticks),
            None => 0,
        };
        self.prev = Some(ticks);
        percent
    }
}

impl SysInfoModule {
    /// Active and total ticks from the content of the processor
    /// statistics.
    pub fn read_cpu_stats(content: &[u8]) -> (ticks: (u64, u64))
        ensures
            ticks == cpu_ticks(content@),
    {
        let rows = split_lines(content);
        if rows.len() == 0 {
            return (0, 0);
        }
        assert(views(rows@)[0] == rows@[0]@);
        let parts = split_words(rows[0].as_slice());
        if parts.len() > 5 {
            assert(views(parts@)[1] == parts@[1]@);
            assert(views(parts@)[2] == parts@[2]@);
            assert(views(parts@)[3] == parts@[3]@);
            assert(views(parts@)[4] == parts@[4]@);
            assert(views(parts@)[5] == parts@[5]@);
            let user = read_counter(&parts[1]);
            let nice = read_counter(&parts[2]);
            let system = read_counter(&parts[3]);
            let idle = read_counter(&parts[4]);
            let iowait = read_counter(&parts[5]);
            let sum = match add_checked(user, nice) {
                Some(s) => match add_checked(s, system) {
                    Some(s) => match add_checked(s, iowait) {
                        Some(active) => match add_checked(active, idle) {
                            Some(total) => Some((active, total)),
                            None => None,
                        },
                        None => None,
                    },
                    None => None,
                },
                None => None,
            };
            match sum {
                Some(ticks) => ticks,
                None => (0, 0),
            }
        } else {
            (0, 0)
        }
    }

    /// The processor load between two readings, in percent.
    pub fn cpu_usage(prev: (u64, u64), curr: (u64, u64)) -> (percent: u8)
        ensures
            percent == cpu_percent(prev, curr),
            percent <= 100,
            curr.1 > prev.1 && curr.0 >= prev.0 && 100 * (curr.0 - prev.0) / (curr.1 - prev.1)
                <= 100 ==> percent == 100 * (curr.0 - prev.0) / (curr.1 - prev.1),
    {
        let delta_active: u64 = if curr.0 >= prev.0 {
            curr.0 - prev.0
        } else {
            0
        };
        let delta_total: u64 = if curr.1 >= prev.1 {
            curr.1 - prev.1
        } else {
            0
        };
        proof {
            if curr.1 > prev.1 && curr.0 >= prev.0 && 100 * (curr.0 - prev.0) / (curr.1 - prev.1)
                <= 100 {
                lemma_cpu_percent_formula(prev, curr);
            }
        }
        if delta_total > 0 {
            let percent: u128 = (delta_active as u128) * 100 / (delta_total as u128);
            if percent > 100 {
                100
            } else {
                percent as u8
            }
        } else {
            0
        }
    }

    /// Total and available memory in kB from the content of the memory
    /// statistics.
    pub fn read_meminfo(content: &[u8]) -> (values: (u64, u64))
        ensures
            values == meminfo_values(content@),
    {
        let rows = split_lines(content);
        let mut total: u64 = 0;
        let mut available: u64 = 0;
        let mut i: usize = 0;
        while i < rows.len() && !(total > 0 && available > 0)
            invariant
                i <= rows.len(),
                views(rows@) == lines(content@),
                meminfo_values(content@) == meminfo_scan(
                    lines(content@),
                    i as int,
                    total,
                    available,
                ),
            decreases rows.len() - i,
        {
            assert(views(rows@)[i as int] == rows@[i as int]@);
            let parts = split_words(rows[i].as_slice());
            if parts.len() >= 2 {
                assert(views(parts@)[0] == parts@[0]@);
                assert(views(parts@)[1] == parts@[1]@);
                if bytes_eq(parts[0].as_slice(), "MemTotal:".as_bytes()) {
                    total = read_counter(&parts[1]);
                } else if bytes_eq(parts[0].as_slice(), "MemAvailable:".as_bytes()) {
                    available = read_counter(&parts[1]);
                }
            }
            i += 1;
        }
        (total, available)
    }

    /// Memory in use for a total and an available amount in kB.
    pub fn ram_usage(total: u64, available: u64) -> (stats: RamStats)
        ensures
            stats == ram_stats_of(total, available),
            stats.percent <= 100,
            stats.used_kb <= total,
    {
        if total > 0 {
            let used: u64 = if total >= available {
                total - available
            } else {
                0
            };
            let percent: u128 = (used as u128) * 100 / (total as u128);
            assert(used * 100 / (total as int) <= 100) by (nonlinear_arith)
                requires
                    0 <= used <= total,
                    total > 0,
            ;
            RamStats { percent: percent as u8, used_kb: used }
        } else {
            RamStats { percent: 0, used_kb: 0 }
        }
    }

    /// Memory in use from the content of the memory statistics.
    pub fn read_ram_stats(content: &[u8]) -> (stats: RamStats)
        ensures
            stats == ram_stats_of(meminfo_values(content@).0, meminfo_values(content@).1),
            stats.percent <= 100,
    {
        let values = Self::read_meminfo(content);
        Self::ram_usage(values.0, values.1)
    }

    /// One snapshot of the load: the processor load since the last
    /// reading of `sampler`, and the memory in use.  A file that could not
    /// be read is `None` and counts as empty.
    pub fn sample(sampler: &mut CpuSampler, stat: Option<&[u8]>, meminfo: Option<&[u8]>) -> (info:
        SysInfo)
        ensures
            ({
                let ticks = match stat {
                    Some(content) => cpu_ticks(content@),
                    None => (0u64, 0u64),
                };
                let ram = match meminfo {
                    Some(content) => ram_stats_of(
                        meminfo_values(content@).0,
                        meminfo_values(content@).1,
                    ),
                    None => RamStats { percent: 0, used_kb: 0 },
                };
                &&& final(sampler)@ == Some(ticks)
                &&& info.cpu_usage == match old(sampler)@ {
                    Some(prev) => cpu_percent(prev, ticks),
                    None => 0,
                }
                &&& info.ram_usage == ram.percent
                &&& info.ram_used_kb == ram.used_kb
            }),
            info.cpu_usage <= 100,
            info.ram_usage <= 100,
    {
        let ticks = match stat {
            Some(content) => Self::read_cpu_stats(content),
            None => (0, 0),
        };
        let cpu_usage = sampler.sample(ticks);
        let ram = match meminfo {
            Some(content) => Self::read_ram_stats(content),
            None => RamStats { percent: 0, used_kb: 0 },
        };
        SysInfo { cpu_usage, ram_usage: ram.percent, ram_used_kb: ram.used_kb }
    }

    /// Whether the load is to be shown as high.
    pub fn update_view(info: &SysInfo) -> (high: bool)
        ensures
            high == high_load(*info),
    {
        info.cpu_usage > 80 || info.ram_usage > 90
    }
}

} // verus!
