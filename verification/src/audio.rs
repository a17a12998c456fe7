//! The volume: what the audio server's answer says, and how the widget
//! shows it.

use crate::number::{parse_milli, read_milli};
use crate::slicing::{piece_after, second_piece};
use crate::text::{contains, has, split_words, views, words};
use vstd::prelude::*;
use vstd::string::*;

verus! {

/// The volume widget of the bar.
pub struct AudioModule;

/// The picture that stands for the volume.
#[derive(Clone, Copy, Debug, PartialEq, Eq, Structural)]
pub enum VolumeIcon {
    Muted,
    /// 50 percent and more.
    High,
    /// 20 to 49 percent.
    Medium,
    /// Less than 20 percent.
    Low,
}

/// What the volume widget shows.
#[derive(Clone, Copy, Debug)]
pub struct AudioView {
    pub icon: VolumeIcon,
    pub volume: i32,
    pub muted: bool,
}

/// The volume in percent that a decimal fraction gives, rounded down and
/// held to 100; 0 where the word is no such number.
pub open spec fn percent_of_word(word: Seq<u8>) -> i32 {
    match parse_milli(word) {
        Some(m) => if m >= 1000 {
            100
        } else {
            (m / 10) as i32
        },
        None => 0,
    }
}

/// Volume in percent, 0 to 100, and mute flag according to the answer of
/// the audio server.  The volume is the first word after `Volume: `; without that
/// label the answer says nothing, and the result is `(0, false)`.
pub open spec fn volume_info(answer: Option<Seq<u8>>) -> (i32, bool) {
    match answer {
        Some(out) => match second_piece(out, "Volume: ".spec_bytes()) {
            Some(piece) => (
                if words(piece).len() > 0 {
                    percent_of_word(words(piece)[0])
                } else {
                    0
                },
                contains(out, "MUTED".spec_bytes()),
            ),
            None => (0, false),
        },
        None => (0, false),
    }
}

/// The picture for a volume and a mute flag.
pub open spec fn icon_of(volume: i32, muted: bool) -> VolumeIcon {
    if muted {
        VolumeIcon::Muted
    } else if volume >= 50 {
        VolumeIcon::High
    } else if volume >= 20 {
        VolumeIcon::Medium
    } else {
        VolumeIcon::Low
    }
}

impl AudioModule {
    /// Volume in percent and mute flag, from the answer of the audio
    /// server where it could be asked.
    pub fn get_volume_info(answer: Option<&[u8]>) -> (info: (i32, bool))
        ensures
            info == volume_info(
                match answer {
                    Some(out) => Some(out@),
                    None => None,
                },
            ),
            0 <= info.0 <= 100,
    {
        match answer {
            Some(out) => {
                let muted = has(out, "MUTED".as_bytes());
                match piece_after(out, "Volume: ".as_bytes()) {
                    Some(piece) => {
                        let parts = split_words(piece.as_slice());
                        if parts.len() > 0 {
                            assert(views(parts@)[0] == parts@[0]@);
                            match read_milli(parts[0].as_slice()) {
                                Some(m) => (
                                    if m >= 1000 {
                                        100
                                    } else {
                                        (m / 10) as i32
                                    },
                                    muted,
                                ),
                                None => (0, muted),
                            }
                        } else {
                            (0, muted)
                        }
                    },
                    None => (0, false),
                }
            },
            None => (0, false),
        }
    }

    /// What the widget shows for a volume and a mute flag.
    pub fn update_view(volume: i32, muted: bool) -> (view: AudioView)
        ensures
            view.icon == icon_of(volume, muted),
            view.volume == volume,
            view.muted == muted,
    {
        let icon = if muted {
            VolumeIcon::Muted
        } else if volume >= 50 {
            VolumeIcon::High
        } else if volume >= 20 {
            VolumeIcon::Medium
        } else {
            VolumeIcon::Low
        };
        AudioView { icon, volume, muted }
    }
}

} // verus!
