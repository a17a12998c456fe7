//! The combined system widget: volume, memory and battery in one row.

use crate::battery::{BatteryClass, BatteryIcon, BatteryView, Probe};
use crate::number::read_i32;
use crate::number::read_milli;
use crate::osd::first_number;
use crate::text::{bytes_eq, contains, has, parse_i32, split_words, trim, trimmed, views, words};
use vstd::prelude::*;
use vstd::string::*;

verus! {

/// What the volume label says.
#[derive(Clone, Copy, Debug, PartialEq, Eq, Structural)]
pub enum VolumeText {
    Muted,
    /// The volume in percent, rounded to the nearest whole.
    Percent(u32),
    /// The audio server gave no answer, or none with a number.
    Unknown,
}

/// The capacity and status files of one battery.
#[derive(Debug)]
pub struct BatteryFiles {
    pub capacity: Probe,
    pub status: Probe,
}

/// What the volume label says for the answer of the audio server: muted
/// where the answer says so, else the first number in it as a percentage.
pub open spec fn volume_text(answer: Option<Seq<u8>>) -> VolumeText {
    match answer {
        Some(out) => if contains(out, "MUTED".spec_bytes()) {
            VolumeText::Muted
        } else {
            match first_number(words(out), 0) {
                Some(m) => VolumeText::Percent(((m + 5) / 10) as u32),
                None => VolumeText::Unknown,
            }
        },
        None => VolumeText::Unknown,
    }
}

/// Memory in use as a percentage of the total, rounded to the nearest
/// whole and held to 100; 0 without a total.
pub open spec fn rounded_percent(used: u64, total: u64) -> u8 {
    if total > 0 {
        let p = (used * 200 + total) / (2 * total);
        if p > 100 {
            100
        } else {
            p as u8
        }
    } else {
        0
    }
}

/// The number that a capacity file holds; `None` where it holds none or
/// could not be read.
pub open spec fn capacity_of(capacity: Probe) -> Option<i32> {
    match capacity {
        Probe::Content(c) => parse_i32(trim(c@)),
        _ => None,
    }
}

/// The status file says that the battery is charging.
pub open spec fn is_charging(status: Probe) -> bool {
    match status {
        Probe::Content(s) => trim(s@) == "Charging".spec_bytes(),
        _ => false,
    }
}

/// The plug without a figure: what the label shows where no charge is
/// known.
pub open spec fn mains_view() -> BatteryView {
    BatteryView { icon: BatteryIcon::Plug, percent: None, class: BatteryClass::Plain }
}

/// What the battery label shows for the files of one battery.  A
/// capacity file that could not be read or holds no number gives the plug
/// without a figure.
pub open spec fn battery_view(files: BatteryFiles) -> BatteryView {
    match capacity_of(files.capacity) {
        None => mains_view(),
        Some(capacity) => {
            let charging = is_charging(files.status);
            BatteryView {
                icon: if charging {
                    BatteryIcon::Bolt
                } else if 90 <= capacity <= 100 {
                    BatteryIcon::Full
                } else if 60 <= capacity <= 89 {
                    BatteryIcon::ThreeQuarters
                } else if 40 <= capacity <= 59 {
                    BatteryIcon::Half
                } else if 20 <= capacity <= 39 {
                    BatteryIcon::Quarter
                } else {
                    BatteryIcon::Empty
                },
                percent: Some(capacity),
                class: if charging {
                    BatteryClass::Charging
                } else if capacity < 20 {
                    BatteryClass::Low
                } else {
                    BatteryClass::Plain
                },
            }
        },
    }
}

/// What the battery label shows: the first battery whose capacity file
/// exists decides; without one the machine runs on mains power.
pub open spec fn battery_info(first: BatteryFiles, second: BatteryFiles) -> BatteryView {
    if !(first.capacity is Absent) {
        battery_view(first)
    } else if !(second.capacity is Absent) {
        battery_view(second)
    } else {
        mains_view()
    }
}

/// What the volume label says, for the answer of the audio server where
/// it could be asked.
#[verifier::loop_isolation(false)]
pub fn get_volume(answer: Option<&[u8]>) -> (text: VolumeText)
    ensures
        text == volume_text(
            match answer {
                Some(out) => Some(out@),
                None => None,
            },
        ),
{
    match answer {
        Some(out) => {
            if has(out, "MUTED".as_bytes()) {
                return VolumeText::Muted;
            }
            let parts = split_words(out);
            let mut i: usize = 0;
            while i < parts.len()
                invariant
                    i <= parts.len(),
                    first_number(words(out@), 0) == first_number(words(out@), i as int),
                decreases parts.len() - i,
            {
                assert(views(parts@)[i as int] == parts@[i as int]@);
                match read_milli(parts[i].as_slice()) {
                    Some(m) => {
                        let rounded: u64 = (m as u64 + 5) / 10;
                        return VolumeText::Percent(rounded as u32);
                    },
                    None => {},
                }
                i += 1;
            }
            VolumeText::Unknown
        },
        None => VolumeText::Unknown,
    }
}

/// Memory in use as a percentage of the total, rounded to the nearest
/// whole.
pub fn ram_percent(used: u64, total: u64) -> (percent: u8)
    ensures
        percent == rounded_percent(used, total),
        percent <= 100,
{
    if total > 0 {
        let p: u128 = ((used as u128) * 200 + (total as u128)) / (2 * (total as u128));
        if p > 100 {
            100
        } else {
            p as u8
        }
    } else {
        0
    }
}

/// What the battery label shows for the files of one battery.
fn view_battery(files: &BatteryFiles) -> (view: BatteryView)
    ensures
        view == battery_view(*files),
{
    let known: Option<i32> = match &files.capacity {
        Probe::Content(c) => read_i32(trimmed(c.as_slice())),
        _ => None,
    };
    match known {
        None => BatteryView { icon: BatteryIcon::Plug, percent: None, class: BatteryClass::Plain },
        Some(capacity) => {
            let charging = match &files.status {
                Probe::Content(s) => bytes_eq(trimmed(s.as_slice()), "Charging".as_bytes()),
                _ => false,
            };
            BatteryView {
                icon: if charging {
                    BatteryIcon::Bolt
                } else if 90 <= capacity && capacity <= 100 {
                    BatteryIcon::Full
                } else if 60 <= capacity && capacity <= 89 {
                    BatteryIcon::ThreeQuarters
                } else if 40 <= capacity && capacity <= 59 {
                    BatteryIcon::Half
                } else if 20 <= capacity && capacity <= 39 {
                    BatteryIcon::Quarter
                } else {
                    BatteryIcon::Empty
                },
                percent: Some(capacity),
                class: if charging {
                    BatteryClass::Charging
                } else if capacity < 20 {
                    BatteryClass::Low
                } else {
                    BatteryClass::Plain
                },
            }
        },
    }
}

/// What the battery label shows, from the files of the first and the
/// second battery.
pub fn get_battery_info_linux(first: &BatteryFiles, second: &BatteryFiles) -> (view: BatteryView)
    ensures
        view == battery_info(*first, *second),
{
    let first_absent = match &first.capacity {
        Probe::Absent => true,
        _ => false,
    };
    let second_absent = match &second.capacity {
        Probe::Absent => true,
        _ => false,
    };
    if !first_absent {
        view_battery(first)
    } else if !second_absent {
        view_battery(second)
    } else {
        BatteryView { icon: BatteryIcon::Plug, percent: None, class: BatteryClass::Plain }
    }
}

} // verus!
