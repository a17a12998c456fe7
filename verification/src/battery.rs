//! The battery: its charge and status from the power-supply files, and
//! how the widget shows them.

use crate::number::read_i32;
use crate::text::{bytes_eq, parse_i32, trim, trimmed};
use vstd::prelude::*;
use vstd::string::*;

verus! {

/// The battery widget of the bar.
pub struct BatteryModule;

/// What was found where a file is looked for.
#[derive(Debug)]
pub enum Probe {
    /// No file is there.
    Absent,
    /// A file is there, but it could not be read.
    Unreadable,
    /// A file is there, with this content.
    Content(Vec<u8>),
}

/// What the battery is doing.
#[derive(Clone, Copy, Debug, PartialEq, Eq, Structural)]
pub enum BatteryStatus {
    Charging,
    Discharging,
    Full,
    Unknown,
}

/// One snapshot of the battery.  The charge is between 0 and 100, or -1
/// where it is unknown: the machine has no battery, or its capacity file
/// holds no number.
#[derive(Clone, Copy, Debug)]
pub struct BatterySnapshot {
    pub percent: i32,
    pub status: BatteryStatus,
}

/// The picture that stands for the state of the battery.
#[derive(Clone, Copy, Debug, PartialEq, Eq, Structural)]
pub enum BatteryIcon {
    /// Charging.
    Bolt,
    /// 90 to 100 percent.
    Full,
    /// 60 to 89 percent.
    ThreeQuarters,
    /// 40 to 59 percent.
    Half,
    /// 20 to 39 percent.
    Quarter,
    /// 0 to 19 percent.
    Empty,
    /// No battery: the machine runs on mains power.
    Plug,
}

/// The style that marks the state of the battery.
#[derive(Clone, Copy, Debug, PartialEq, Eq, Structural)]
pub enum BatteryClass {
    Plain,
    Charging,
    Critical,
    Low,
}

/// What the battery widget shows: the picture, the charge where there is
/// a battery, and the style.
#[derive(Clone, Copy, Debug)]
pub struct BatteryView {
    pub icon: BatteryIcon,
    pub percent: Option<i32>,
    pub class: BatteryClass,
}

/// The content of a probe that holds one.
pub open spec fn content_of(p: Probe) -> Option<Seq<u8>> {
    match p {
        Probe::Content(c) => Some(c@),
        _ => None,
    }
}

/// The charge that the content of a capacity file gives: the number it
/// holds, held to the range from 0 to 100; -1, for unknown, where it
/// holds none.
pub open spec fn charge_of(content: Seq<u8>) -> i32 {
    match parse_i32(trim(content)) {
        Some(v) => if v < 0 {
            0
        } else if v > 100 {
            100
        } else {
            v
        },
        None => -1i32,
    }
}

/// The charge according to the capacity files of the first and the
/// second battery: that of the first file that could be read, or -1 where
/// neither could.
pub open spec fn percentage_of(first: Probe, second: Probe) -> i32 {
    match content_of(first) {
        Some(c) => charge_of(c),
        None => match content_of(second) {
            Some(c) => charge_of(c),
            None => -1i32,
        },
    }
}

/// The status that the content of a status file gives.
pub open spec fn status_of_text(content: Seq<u8>) -> BatteryStatus {
    let t = trim(content);
    if t == "Charging".spec_bytes() {
        BatteryStatus::Charging
    } else if t == "Discharging".spec_bytes() {
        BatteryStatus::Discharging
    } else if t == "Full".spec_bytes() {
        BatteryStatus::Full
    } else {
        BatteryStatus::Unknown
    }
}

/// The status according to the status files of the first and the second
/// battery: that of the first file that could be read, or unknown.
pub open spec fn status_of(first: Probe, second: Probe) -> BatteryStatus {
    match content_of(first) {
        Some(c) => status_of_text(c),
        None => match content_of(second) {
            Some(c) => status_of_text(c),
            None => BatteryStatus::Unknown,
        },
    }
}

/// The picture for a charge and a status.
pub open spec fn icon_of(percentage: i32, status: BatteryStatus) -> BatteryIcon {
    if status == BatteryStatus::Charging {
        BatteryIcon::Bolt
    } else if 90 <= percentage <= 100 {
        BatteryIcon::Full
    } else if 60 <= percentage <= 89 {
        BatteryIcon::ThreeQuarters
    } else if 40 <= percentage <= 59 {
        BatteryIcon::Half
    } else if 20 <= percentage <= 39 {
        BatteryIcon::Quarter
    } else if 0 <= percentage <= 19 {
        BatteryIcon::Empty
    } else {
        BatteryIcon::Plug
    }
}

/// What the widget shows for a snapshot.  Without a battery it shows the
/// plug and no charge.  With one, the style marks charging first, then a
/// charge of at most 15 as critical and one of at most 30 as low.
pub open spec fn view_of(snapshot: BatterySnapshot) -> BatteryView {
    if snapshot.percent < 0 {
        BatteryView { icon: BatteryIcon::Plug, percent: None, class: BatteryClass::Plain }
    } else {
        BatteryView {
            icon: icon_of(snapshot.percent, snapshot.status),
            percent: Some(snapshot.percent),
            class: if snapshot.status == BatteryStatus::Charging {
                BatteryClass::Charging
            } else if snapshot.percent <= 15 {
                BatteryClass::Critical
            } else if snapshot.percent <= 30 {
                BatteryClass::Low
            } else {
                BatteryClass::Plain
            },
        }
    }
}

/// Without a capacity file that can be read there is no battery: the
/// charge is the sentinel -1 and the widget shows the plug, never a
/// charge of 0.  The same holds of a file that holds no number.  A charge
/// of 0 or more is shown only where the deciding file holds a number.
pub proof fn lemma_no_battery_is_not_empty(first: Probe, second: Probe, status: BatteryStatus)
    ensures
        content_of(first) is None && content_of(second) is None ==> percentage_of(first, second)
            == -1,
        content_of(first) matches Some(c) && parse_i32(trim(c)) is None ==> percentage_of(
            first,
            second,
        ) == -1,
        percentage_of(first, second) >= 0 ==> (content_of(first) matches Some(c) && parse_i32(
            trim(c),
        ) is Some) || (content_of(first) is None && (content_of(second) matches Some(c)
            && parse_i32(trim(c)) is Some)),
        view_of(BatterySnapshot { percent: -1i32, status }).percent is None,
        view_of(BatterySnapshot { percent: -1i32, status }).icon == BatteryIcon::Plug,
        -1 <= percentage_of(first, second) <= 100,
{
}

/// The charge that the content of a capacity file gives.
fn read_charge(content: &Vec<u8>) -> (v: i32)
    ensures
        v == charge_of(content@),
{
    match read_i32(trimmed(content.as_slice())) {
        Some(v) => if v < 0 {
            0
        } else if v > 100 {
            100
        } else {
            v
        },
        None => -1,
    }
}

/// The status that the content of a status file gives.
fn read_status(content: &Vec<u8>) -> (s: BatteryStatus)
    ensures
        s == status_of_text(content@),
{
    let t = trimmed(content.as_slice());
    if bytes_eq(t, "Charging".as_bytes()) {
        BatteryStatus::Charging
    } else if bytes_eq(t, "Discharging".as_bytes()) {
        BatteryStatus::Discharging
    } else if bytes_eq(t, "Full".as_bytes()) {
        BatteryStatus::Full
    } else {
        BatteryStatus::Unknown
    }
}

impl BatteryModule {
    /// The charge in percent, from the capacity files of the first and
    /// the second battery; -1 where there is no battery.
    pub fn get_percentage(first: &Probe, second: &Probe) -> (percent: i32)
        ensures
            percent == percentage_of(*first, *second),
            -1 <= percent <= 100,
    {
        match first {
            Probe::Content(c) => read_charge(c),
            _ => match second {
                Probe::Content(c) => read_charge(c),
                _ => -1,
            },
        }
    }

    /// The status, from the status files of the first and the second
    /// battery.
    pub fn get_status(first: &Probe, second: &Probe) -> (status: BatteryStatus)
        ensures
            status == status_of(*first, *second),
    {
        match first {
            Probe::Content(c) => read_status(c),
            _ => match second {
                Probe::Content(c) => read_status(c),
                _ => BatteryStatus::Unknown,
            },
        }
    }

    /// The picture for a charge and a status.
    pub fn get_icon(percentage: i32, status: BatteryStatus) -> (icon: BatteryIcon)
        ensures
            icon == icon_of(percentage, status),
    {
        if status == BatteryStatus::Charging {
            BatteryIcon::Bolt
        } else if 90 <= percentage && percentage <= 100 {
            BatteryIcon::Full
        } else if 60 <= percentage && percentage <= 89 {
            BatteryIcon::ThreeQuarters
        } else if 40 <= percentage && percentage <= 59 {
            BatteryIcon::Half
        } else if 20 <= percentage && percentage <= 39 {
            BatteryIcon::Quarter
        } else if 0 <= percentage && percentage <= 19 {
            BatteryIcon::Empty
        } else {
            BatteryIcon::Plug
        }
    }

    /// One snapshot of the battery, from its capacity and status files.
    pub fn sample(
        capacity_first: &Probe,
        capacity_second: &Probe,
        status_first: &Probe,
        status_second: &Probe,
    ) -> (snapshot: BatterySnapshot)
        ensures
            snapshot.percent == percentage_of(*capacity_first, *capacity_second),
            snapshot.status == status_of(*status_first, *status_second),
            -1 <= snapshot.percent <= 100,
    {
        BatterySnapshot {
            percent: Self::get_percentage(capacity_first, capacity_second),
            status: Self::get_status(status_first, status_second),
        }
    }

    /// What the widget shows for a snapshot.
    pub fn update_view(snapshot: &BatterySnapshot) -> (view: BatteryView)
        ensures
            view == view_of(*snapshot),
    {
        if snapshot.percent < 0 {
            BatteryView { icon: BatteryIcon::Plug, percent: None, class: BatteryClass::Plain }
        } else {
            BatteryView {
                icon: Self::get_icon(snapshot.percent, snapshot.status),
                percent: Some(snapshot.percent),
                class: if snapshot.status == BatteryStatus::Charging {
                    BatteryClass::Charging
                } else if snapshot.percent <= 15 {
                    BatteryClass::Critical
                } else if snapshot.percent <= 30 {
                    BatteryClass::Low
                } else {
                    BatteryClass::Plain
                },
            }
        }
    }
}

} // verus!
