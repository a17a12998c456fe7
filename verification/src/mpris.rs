//! The media player: what a player reports, the snapshot made of it, and
//! how the widgets show it.

use crate::slicing::{append, join, joined, owned, shorten, shortened};
use crate::text::views;
use vstd::prelude::*;
use vstd::string::*;

verus! {

/// The media widget of the bar.
pub struct MprisModule;

/// What a player is doing.
#[derive(Clone, Copy, Debug, PartialEq, Eq, Structural)]
pub enum PlaybackState {
    Playing,
    Paused,
    Stopped,
}

/// Title and artists of the current track, as far as the player names
/// them, as UTF-8.
#[derive(Clone, Debug)]
pub struct TrackMetadata {
    pub title: Option<Vec<u8>>,
    pub artists: Option<Vec<Vec<u8>>>,
}

/// What the active player answered: its metadata and its status, each
/// `None` where the player did not answer.
#[derive(Clone, Debug)]
pub struct PlayerProbe {
    pub metadata: Option<TrackMetadata>,
    pub status: Option<PlaybackState>,
}

/// One snapshot of the media player.
#[derive(Clone, Debug)]
pub struct MediaInfo {
    pub title: Vec<u8>,
    pub artist: Vec<u8>,
    pub status: PlaybackState,
    pub has_player: bool,
}

/// A [`MediaInfo`] as a mathematical value.
pub struct MediaInfoView {
    pub title: Seq<u8>,
    pub artist: Seq<u8>,
    pub status: PlaybackState,
    pub has_player: bool,
}

impl View for MediaInfo {
    type V = MediaInfoView;

    open spec fn view(&self) -> MediaInfoView {
        MediaInfoView {
            title: self.title@,
            artist: self.artist@,
            status: self.status,
            has_player: self.has_player,
        }
    }
}

/// What the media widget shows: nothing, or a line of text that is
/// marked where the player is paused.
#[derive(Clone, Debug)]
pub struct MediaView {
    pub visible: bool,
    pub paused: bool,
    pub text: Vec<u8>,
}

/// What changes on the player widget; `None` leaves a part as it is.
#[derive(Clone, Debug)]
pub struct PlayerUpdate {
    /// `Some(true)` puts the widget on show.
    pub visible: Option<bool>,
    pub label: Option<Vec<u8>>,
    /// `Some(true)` puts the pause picture on the button, `Some(false)`
    /// the play picture.
    pub pause_button: Option<bool>,
}

/// The title that a probe gives; `Unknown Title` where it names none.
pub open spec fn title_of(metadata: Option<TrackMetadata>) -> Seq<u8> {
    match metadata {
        Some(TrackMetadata { title: Some(t), .. }) => t@,
        _ => "Unknown Title".spec_bytes(),
    }
}

/// The artists that a probe gives, separated by commas; `Unknown Artist`
/// where it names no list of them.
pub open spec fn artist_of(metadata: Option<TrackMetadata>) -> Seq<u8> {
    match metadata {
        Some(TrackMetadata { artists: Some(a), .. }) => joined(views(a@), ", ".spec_bytes()),
        _ => "Unknown Artist".spec_bytes(),
    }
}

/// The status that a probe gives; stopped where the player did not say.
pub open spec fn status_of(status: Option<PlaybackState>) -> PlaybackState {
    match status {
        Some(s) => s,
        None => PlaybackState::Stopped,
    }
}

/// The snapshot for the outcome of looking for a player: without a
/// session bus or without an active player there is none.
pub open spec fn media_info_of(bus: bool, player: Option<PlayerProbe>) -> MediaInfoView {
    match player {
        Some(p) => if bus {
            MediaInfoView {
                title: title_of(p.metadata),
                artist: artist_of(p.metadata),
                status: status_of(p.status),
                has_player: true,
            }
        } else {
            no_player()
        },
        None => no_player(),
    }
}

/// The snapshot without a player.
pub open spec fn no_player() -> MediaInfoView {
    MediaInfoView {
        title: Seq::empty(),
        artist: Seq::empty(),
        status: PlaybackState::Stopped,
        has_player: false,
    }
}

/// The line that the widget shows for a snapshot with a player that is
/// not stopped: artist and title, in at most 40 bytes.
pub open spec fn display_text(info: MediaInfoView) -> Seq<u8> {
    shortened(info.artist + " - ".spec_bytes() + info.title, 40)
}

/// The widget is on show for a snapshot.
pub open spec fn is_shown(info: MediaInfoView) -> bool {
    info.has_player && info.status != PlaybackState::Stopped
}

/// The label of the player widget for a track: title and artists, with
/// `Unknown Artist` also where the list of artists is empty.
pub open spec fn player_label(metadata: TrackMetadata) -> Seq<u8> {
    let title = match metadata.title {
        Some(t) => t@,
        None => "Unknown Title".spec_bytes(),
    };
    let artist = match metadata.artists {
        Some(a) => if a@.len() > 0 {
            joined(views(a@), ", ".spec_bytes())
        } else {
            "Unknown Artist".spec_bytes()
        },
        None => "Unknown Artist".spec_bytes(),
    };
    title + " - ".spec_bytes() + artist
}

/// The text of an optional byte string.
pub open spec fn bytes_of(v: Option<Vec<u8>>) -> Option<Seq<u8>> {
    match v {
        Some(v) => Some(v@),
        None => None,
    }
}

impl MprisModule {
    /// One snapshot of the media player.  `bus` says whether the session
    /// bus could be reached, `player` is what the active player answered,
    /// if there is one.
    pub fn fetch_media_info(bus: bool, player: Option<&PlayerProbe>) -> (info: MediaInfo)
        ensures
            info@ == media_info_of(
                bus,
                match player {
                    Some(p) => Some(*p),
                    None => None,
                },
            ),
    {
        match player {
            Some(p) => {
                if bus {
                    let title = match &p.metadata {
                        Some(TrackMetadata { title: Some(t), .. }) => owned(t.as_slice()),
                        _ => owned("Unknown Title".as_bytes()),
                    };
                    let artist = match &p.metadata {
                        Some(TrackMetadata { artists: Some(a), .. }) => join(a, ", ".as_bytes()),
                        _ => owned("Unknown Artist".as_bytes()),
                    };
                    let status = match p.status {
                        Some(s) => s,
                        None => PlaybackState::Stopped,
                    };
                    MediaInfo { title, artist, status, has_player: true }
                } else {
                    MediaInfo {
                        title: Vec::new(),
                        artist: Vec::new(),
                        status: PlaybackState::Stopped,
                        has_player: false,
                    }
                }
            },
            None => MediaInfo {
                title: Vec::new(),
                artist: Vec::new(),
                status: PlaybackState::Stopped,
                has_player: false,
            },
        }
    }

    /// What the widget shows for a snapshot.  Without a player, or with a
    /// stopped one, it is hidden and has no text.
    pub fn update_view(info: &MediaInfo) -> (view: MediaView)
        ensures
            view.visible == is_shown(info@),
            view.paused == (is_shown(info@) && info.status != PlaybackState::Playing),
            view.text@ == if is_shown(info@) {
                display_text(info@)
            } else {
                Seq::<u8>::empty()
            },
    {
        if !info.has_player || info.status == PlaybackState::Stopped {
            MediaView { visible: false, paused: false, text: Vec::new() }
        } else {
            let mut line = owned(info.artist.as_slice());
            append(&mut line, " - ".as_bytes());
            append(&mut line, info.title.as_slice());
            MediaView {
                visible: true,
                paused: info.status != PlaybackState::Playing,
                text: shorten(line.as_slice(), 40),
            }
        }
    }
}

/// What changes on the player widget.  Without a session bus nothing
/// does.  Without an active player the label says so and the button
/// offers to play.  With one the widget is on show; the label names the
/// track where the player gave its metadata, and the button offers to
/// pause while it plays, where the player gave its status.
pub fn update_player(bus: bool, player: Option<&PlayerProbe>) -> (update: PlayerUpdate)
    ensures
        !bus ==> update.visible is None && update.label is None && update.pause_button is None,
        bus && player is None ==> {
            &&& update.visible is None
            &&& bytes_of(update.label) == Some("No Media".spec_bytes())
            &&& update.pause_button == Some(false)
        },
        bus && player is Some ==> {
            &&& update.visible == Some(true)
            &&& bytes_of(update.label) == match player->0.metadata {
                Some(m) => Some(player_label(m)),
                None => None,
            }
            &&& update.pause_button == match player->0.status {
                Some(s) => Some(s == PlaybackState::Playing),
                None => None,
            }
        },
{
    if !bus {
        return PlayerUpdate { visible: None, label: None, pause_button: None };
    }
    match player {
        None => PlayerUpdate {
            visible: None,
            label: Some(owned("No Media".as_bytes())),
            pause_button: Some(false),
        },
        Some(p) => {
            let label = match &p.metadata {
                Some(m) => {
                    let mut line = match &m.title {
                        Some(t) => owned(t.as_slice()),
                        None => owned("Unknown Title".as_bytes()),
                    };
                    append(&mut line, " - ".as_bytes());
                    let artist = match &m.artists {
                        Some(a) => if a.len() > 0 {
                            join(a, ", ".as_bytes())
                        } else {
                            owned("Unknown Artist".as_bytes())
                        },
                        None => owned("Unknown Artist".as_bytes()),
                    };
                    append(&mut line, artist.as_slice());
                    Some(line)
                },
                None => None,
            };
            let pause_button = match p.status {
                Some(s) => Some(s == PlaybackState::Playing),
                None => None,
            };
            PlayerUpdate { visible: Some(true), label, pause_button }
        },
    }
}

} // verus!
