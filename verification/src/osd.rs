//! The on-screen display for volume and brightness: the monitor that
//! turns samples into change events, and the display that shows each
//! change and hides itself one second after the last one.

use crate::number::{clamp_u32, parse_milli, read_milli};
use crate::slicing::{remove_all, without};
use crate::text::{contains, has, split_words, trim, trimmed, views, words};
use crate::timer::{deadline_after, ArmOutcome, DebouncedTimer, TimerHandle, TimerModel};
use vstd::prelude::*;
use vstd::string::*;

verus! {

/// Time after the last change at which the display hides, in
/// milliseconds.
pub const HIDE_AFTER_MS: u64 = 1000;

/// A change that the display shows.  Levels are thousandths of the full
/// scale.
#[derive(Clone, Copy, Debug)]
pub enum OsdEvent {
    VolumeChanged(u32, bool),
    BrightnessChanged(u32),
}

/// The picture on the display.
#[derive(Clone, Copy, Debug, PartialEq, Eq, Structural)]
pub enum OsdIcon {
    Volume,
    Muted,
    Brightness,
}

/// The first of the words from `i` on that is a decimal number, in
/// thousandths.
pub open spec fn first_number(ws: Seq<Seq<u8>>, i: int) -> Option<u32>
    decreases ws.len() - i,
{
    if i < 0 || i >= ws.len() {
        None
    } else {
        match parse_milli(ws[i]) {
            Some(m) => Some(clamp_u32(m)),
            None => first_number(ws, i + 1),
        }
    }
}

/// Volume in thousandths and mute flag according to the answer of the
/// audio server.  The volume is what is left of the answer without its
/// labels `Volume:` and `[MUTED]`, where that is a number; else the first
/// word of the answer that is one.
pub open spec fn volume_data(out: Seq<u8>) -> Option<(u32, bool)> {
    let muted = contains(out, "MUTED".spec_bytes());
    let clean = trim(without(without(out, "Volume:".spec_bytes()), "[MUTED]".spec_bytes()));
    match parse_milli(clean) {
        Some(m) => Some((clamp_u32(m), muted)),
        None => match first_number(words(out), 0) {
            Some(m) => Some((m, muted)),
            None => None,
        },
    }
}

/// The number that a reading of the backlight holds, in thousandths.
pub open spec fn reading(text: Seq<u8>) -> Option<u32> {
    match parse_milli(trim(text)) {
        Some(m) => Some(clamp_u32(m)),
        None => None,
    }
}

/// Brightness in thousandths of the maximum, for the current and the
/// maximal reading of the backlight; `None` where either is no number or
/// the maximum is 0.
pub open spec fn brightness_data(current: Seq<u8>, max: Seq<u8>) -> Option<u32> {
    match (reading(current), reading(max)) {
        (Some(c), Some(m)) => if m == 0 {
            None
        } else {
            Some(clamp_u32((c as nat * 1000 / m as nat) as nat))
        },
        _ => None,
    }
}

/// Two levels differ by more than one thousandth.
pub open spec fn differs(a: u32, b: u32) -> bool {
    a - b > 1 || b - a > 1
}

/// Volume in thousandths and mute flag, from the answer of the audio
/// server.
#[verifier::loop_isolation(false)]
pub fn get_volume_data(out: &[u8]) -> (r: Option<(u32, bool)>)
    ensures
        r == volume_data(out@),
{
    let muted = has(out, "MUTED".as_bytes());
    let unlabelled = remove_all(out, "Volume:".as_bytes());
    let clean = remove_all(unlabelled.as_slice(), "[MUTED]".as_bytes());
    match read_milli(trimmed(clean.as_slice())) {
        Some(m) => Some((m, muted)),
        None => {
            let parts = split_words(out);
            let mut i: usize = 0;
            while i < parts.len()
                invariant
                    i <= parts.len(),
                    views(parts@) == words(out@),
                    first_number(words(out@), 0) == first_number(words(out@), i as int),
                decreases parts.len() - i,
            {
                assert(views(parts@)[i as int] == parts@[i as int]@);
                match read_milli(parts[i].as_slice()) {
                    Some(m) => {
                        return Some((m, muted));
                    },
                    None => {},
                }
                i += 1;
            }
            None
        },
    }
}

/// Brightness in thousandths of the maximum, from the current and the
/// maximal reading of the backlight where they could be taken.
pub fn get_brightness_data(current: Option<&[u8]>, max: Option<&[u8]>) -> (r: Option<u32>)
    ensures
        r == match (current, max) {
            (Some(c), Some(m)) => brightness_data(c@, m@),
            _ => None,
        },
{
    match current {
        Some(c) => match max {
            Some(m) => {
                let cur = read_milli(trimmed(c));
                let top = read_milli(trimmed(m));
                match cur {
                    Some(cv) => match top {
                        Some(tv) => {
                            if tv == 0 {
                                None
                            } else {
                                let ratio: u64 = (cv as u64) * 1000 / (tv as u64);
                                if ratio > 4294967295 {
                                    Some(u32::MAX)
                                } else {
                                    Some(ratio as u32)
                                }
                            }
                        },
                        None => None,
                    },
                    None => None,
                }
            },
            None => None,
        },
        None => None,
    }
}

/// What the monitor remembers: the last volume it reported, if any, and
/// the last brightness.
pub struct OsdMonitor {
    last_volume: Option<u32>,
    last_brightness: u32,
}

/// An [`OsdMonitor`] as a mathematical value.
pub struct OsdMonitorView {
    pub last_volume: Option<u32>,
    pub last_brightness: u32,
}

impl View for OsdMonitor {
    type V = OsdMonitorView;

    closed spec fn view(&self) -> OsdMonitorView {
        OsdMonitorView { last_volume: self.last_volume, last_brightness: self.last_brightness }
    }
}

impl OsdMonitor {
    /// A monitor that starts from the first samples.  Without a first
    /// volume the next volume counts as a change; without a first
    /// brightness the brightness counts as 0.
    pub fn new(volume: Option<(u32, bool)>, brightness: Option<u32>) -> (m: Self)
        ensures
            m@.last_volume == match volume {
                Some(v) => Some(v.0),
                None => None,
            },
            m@.last_brightness == match brightness {
                Some(b) => b,
                None => 0,
            },
    {
        OsdMonitor {
            last_volume: match volume {
                Some(v) => Some(v.0),
                None => None,
            },
            last_brightness: match brightness {
                Some(b) => b,
                None => 0,
            },
        }
    }

    /// Takes a volume sample.  A volume that differs from the last one
    /// reported by more than one thousandth is reported and remembered.
    pub fn observe_volume(&mut self, sample: Option<(u32, bool)>) -> (event: Option<OsdEvent>)
        ensures
            final(self)@.last_brightness == old(self)@.last_brightness,
            match sample {
                Some((level, muted)) => {
                    let changed = match old(self)@.last_volume {
                        Some(last) => differs(level, last),
                        None => true,
                    };
                    if changed {
                        event == Some(OsdEvent::VolumeChanged(level, muted)) && final(self)@.last_volume == Some(level)
                    } else {
                        event is None && final(self)@ == old(self)@
                    }
                },
                None => event is None && final(self)@ == old(self)@,
            },
    {
        match sample {
            Some((level, muted)) => {
                let changed = match self.last_volume {
                    Some(last) => (level > last && level - last > 1) || (last > level && last
                        - level > 1),
                    None => true,
                };
                if changed {
                    self.last_volume = Some(level);
                    Some(OsdEvent::VolumeChanged(level, muted))
                } else {
                    None
                }
            },
            None => None,
        }
    }

    /// Takes a brightness sample.  A brightness that differs from the
    /// last one reported by more than one thousandth is reported and
    /// remembered.
    pub fn observe_brightness(&mut self, sample: Option<u32>) -> (event: Option<OsdEvent>)
        ensures
            final(self)@.last_volume == old(self)@.last_volume,
            match sample {
                Some(level) => if differs(level, old(self)@.last_brightness) {
                    event == Some(OsdEvent::BrightnessChanged(level)) && final(self)@.last_brightness == level
                } else {
                    event is None && final(self)@ == old(self)@
                },
                None => event is None && final(self)@ == old(self)@,
            },
    {
        match sample {
            Some(level) => {
                let last = self.last_brightness;
                if (level > last && level - last > 1) || (last > level && last - level > 1) {
                    self.last_brightness = level;
                    Some(OsdEvent::BrightnessChanged(level))
                } else {
                    None
                }
            },
            None => None,
        }
    }
}

/// The display: whether it is on show, what it shows, and the timer that
/// hides it.
pub struct Osd {
    visible: bool,
    level: u32,
    icon: OsdIcon,
    timer: DebouncedTimer,
}

/// An [`Osd`] as a mathematical value.
pub struct OsdView {
    pub visible: bool,
    pub level: u32,
    pub icon: OsdIcon,
    pub timer: TimerModel,
}

impl View for Osd {
    type V = OsdView;

    closed spec fn view(&self) -> OsdView {
        OsdView { visible: self.visible, level: self.level, icon: self.icon, timer: self.timer@ }
    }
}

impl OsdView {
    /// The level that `event` puts on the display.
    pub open spec fn level_of(event: OsdEvent) -> u32 {
        match event {
            OsdEvent::VolumeChanged(level, _) => level,
            OsdEvent::BrightnessChanged(level) => level,
        }
    }

    /// The picture that `event` puts on the display.
    pub open spec fn icon_of(event: OsdEvent) -> OsdIcon {
        match event {
            OsdEvent::VolumeChanged(_, muted) => if muted {
                OsdIcon::Muted
            } else {
                OsdIcon::Volume
            },
            OsdEvent::BrightnessChanged(_) => OsdIcon::Brightness,
        }
    }

    /// The display after it showed `event` at `now_ms`: on show, with the
    /// level and picture of the event, and due to hide one second later.
    pub open spec fn shown(self, event: OsdEvent, now_ms: u64) -> OsdView {
        OsdView {
            visible: true,
            level: Self::level_of(event),
            icon: Self::icon_of(event),
            timer: self.timer.arm(now_ms, HIDE_AFTER_MS),
        }
    }

    /// The display after the timeout of `handle`: hidden where the handle
    /// was the pending one, else as before.
    pub open spec fn timed_out(self, handle: TimerHandle) -> OsdView {
        if self.timer.fires(handle) {
            OsdView {
                visible: false,
                level: self.level,
                icon: self.icon,
                timer: self.timer.cleared(),
            }
        } else {
            self
        }
    }
}

/// Of two changes in a row only the timer of the second hides the
/// display: the timeout of the first leaves it on show, and the second
/// is due one second after the second change.
pub proof fn lemma_osd_hides_after_last_change(
    osd: OsdView,
    first: OsdEvent,
    first_ms: u64,
    second: OsdEvent,
    second_ms: u64,
)
    ensures
        ({
            let h1 = osd.timer.handle_for(first_ms, HIDE_AFTER_MS);
            let once = osd.shown(first, first_ms);
            let h2 = once.timer.handle_for(second_ms, HIDE_AFTER_MS);
            let twice = once.shown(second, second_ms);
            &&& twice.visible
            &&& twice.timed_out(h1) == twice
            &&& !twice.timed_out(h2).visible
            &&& twice.timer.pending == Some(h2)
            &&& h2.deadline_ms == deadline_after(second_ms, 1000)
            &&& twice.timed_out(h2).timer.pending is None
        }),
{
    crate::timer::lemma_rearm_fires_once(
        osd.timer,
        first_ms,
        second_ms,
        HIDE_AFTER_MS,
        HIDE_AFTER_MS,
    );
}

impl Osd {
    /// A hidden display with nothing to show yet.
    pub fn new() -> (osd: Self)
        ensures
            osd@ == (OsdView {
                visible: false,
                level: 0,
                icon: OsdIcon::Volume,
                timer: TimerModel { pending: None, next_id: 0 },
            }),
    {
        Osd { visible: false, level: 0, icon: OsdIcon::Volume, timer: DebouncedTimer::new() }
    }

    /// Whether the display is on show.
    pub fn is_visible(&self) -> (v: bool)
        ensures
            v == self@.visible,
    {
        self.visible
    }

    /// The level on the display, in thousandths.
    pub fn level(&self) -> (l: u32)
        ensures
            l == self@.level,
    {
        self.level
    }

    /// The picture on the display.
    pub fn icon(&self) -> (i: OsdIcon)
        ensures
            i == self@.icon,
    {
        self.icon
    }

    /// Shows `event` at `now_ms` and arms the timer that hides the
    /// display again; the timer that was pending is handed back for
    /// cancelling.
    pub fn show(&mut self, event: OsdEvent, now_ms: u64) -> (out: ArmOutcome)
        ensures
            final(self)@ == old(self)@.shown(event, now_ms),
            out.armed == old(self)@.timer.handle_for(now_ms, HIDE_AFTER_MS),
            out.cancelled == old(self)@.timer.pending,
    {
        self.visible = true;
        match event {
            OsdEvent::VolumeChanged(level, muted) => {
                self.level = level;
                self.icon = if muted {
                    OsdIcon::Muted
                } else {
                    OsdIcon::Volume
                };
            },
            OsdEvent::BrightnessChanged(level) => {
                self.level = level;
                self.icon = OsdIcon::Brightness;
            },
        }
        self.timer.arm(now_ms, HIDE_AFTER_MS)
    }

    /// Reports the timeout of `handle`.  Returns whether the display was
    /// hidden by it.
    pub fn on_timeout(&mut self, handle: TimerHandle) -> (hidden: bool)
        ensures
            hidden == old(self)@.timer.fires(handle),
            final(self)@ == old(self)@.timed_out(handle),
    {
        let run = self.timer.on_fire(handle);
        if run {
            self.visible = false;
        }
        run
    }
}

} // verus!
