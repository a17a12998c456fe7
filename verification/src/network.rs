//! The network: the active connection according to the connection
//! manager, the interfaces of the kernel as a fallback, the wireless link
//! quality, and how the widget shows them.

use crate::number::{parse_milli, read_milli};
use crate::slicing::{owned, shorten, shortened, strip, strip_byte};
use crate::text::{bytes_eq, copy_range, lines, seek, seek_byte, split_lines, split_words};
use crate::text::{starts_with, trim, trimmed, views, words};
use vstd::prelude::*;
use vstd::string::*;

verus! {

/// The network widget of the bar.
pub struct NetworkModule;

/// One snapshot of the network.
#[derive(Clone, Debug)]
pub struct NetworkInfo {
    pub connected: bool,
    pub is_wifi: bool,
    /// Name of the connection, or of the interface, as UTF-8.
    pub ssid: Vec<u8>,
    /// Wireless link quality in percent, 0 to 100.
    pub signal_strength: u8,
}

/// A [`NetworkInfo`] as a mathematical value.
pub struct NetworkInfoView {
    pub connected: bool,
    pub is_wifi: bool,
    pub ssid: Seq<u8>,
    pub signal_strength: u8,
}

impl View for NetworkInfo {
    type V = NetworkInfoView;

    open spec fn view(&self) -> NetworkInfoView {
        NetworkInfoView {
            connected: self.connected,
            is_wifi: self.is_wifi,
            ssid: self.ssid@,
            signal_strength: self.signal_strength,
        }
    }
}

/// One network interface of the kernel: its name and the content of its
/// state file, where that could be read.
#[derive(Clone, Debug)]
pub struct Interface {
    pub name: Vec<u8>,
    pub operstate: Option<Vec<u8>>,
}

/// The style that marks the kind of connection.
#[derive(Clone, Copy, Debug, PartialEq, Eq, Structural)]
pub enum NetworkClass {
    Disconnected,
    Wifi,
    Ethernet,
}

/// The picture for the wireless link quality.
#[derive(Clone, Copy, Debug, PartialEq, Eq, Structural)]
pub enum SignalLevel {
    /// 80 to 100 percent.
    Full,
    /// 60 to 79 percent.
    Good,
    /// 40 to 59 percent.
    Fair,
    /// 20 to 39 percent.
    Weak,
    /// Anything else.
    Faint,
}

/// What the network widget shows.
#[derive(Clone, Debug)]
pub struct NetworkView {
    pub class: NetworkClass,
    /// The picture of the link quality, for a wireless connection.
    pub level: Option<SignalLevel>,
    pub label: Vec<u8>,
}

/// The link quality in percent for a quality in thousandths: a value
/// above 70 is a percentage already, one up to 70 is a share of 70.
pub open spec fn quality_percent(milli: nat) -> u8 {
    if milli > 70000 {
        if milli / 1000 > 100 {
            100
        } else {
            (milli / 1000) as u8
        }
    } else {
        (milli / 700) as u8
    }
}

/// The link quality in percent that a field of the wireless statistics
/// gives; the field may end in a dot.  0 where it holds no number.
pub open spec fn signal_percent(field: Seq<u8>) -> u8 {
    match parse_milli(strip(field, 0x2e)) {
        Some(m) => quality_percent(m),
        None => 0,
    }
}

/// `s` holds the byte `b`.
pub open spec fn has_byte(s: Seq<u8>, b: u8) -> bool {
    seek(s, b, 0) < s.len()
}

/// The link quality according to the rows of the wireless statistics from
/// `i` on: the third field of the first row that names an interface (it
/// holds a colon) and has more than three fields.
pub open spec fn wireless_scan(rows: Seq<Seq<u8>>, i: int) -> u8
    decreases rows.len() - i,
{
    if i < 0 || i >= rows.len() {
        0
    } else if has_byte(rows[i], 0x3a) && words(rows[i]).len() > 3 {
        signal_percent(words(rows[i])[2])
    } else {
        wireless_scan(rows, i + 1)
    }
}

/// The link quality in percent according to the wireless statistics; 0
/// where they name no interface.
pub open spec fn wireless_signal(content: Seq<u8>) -> u8 {
    wireless_scan(lines(content), 0)
}

/// Whether a connection of the type `kind` is wireless (`true`) or wired
/// (`false`); `None` for every other type.
pub open spec fn connection_kind(kind: Seq<u8>) -> Option<bool> {
    if kind == "802-11-wireless".spec_bytes() || kind == "wifi".spec_bytes() {
        Some(true)
    } else if kind == "802-3-ethernet".spec_bytes() || kind == "ethernet".spec_bytes() {
        Some(false)
    } else {
        None
    }
}

/// The first wireless or wired connection among the rows `type:name` of
/// the connection manager from `i` on: whether it is wireless, and its
/// name.
pub open spec fn active_connection(rows: Seq<Seq<u8>>, i: int) -> Option<(bool, Seq<u8>)>
    decreases rows.len() - i,
{
    if i < 0 || i >= rows.len() {
        None
    } else {
        let row = rows[i];
        let colon = seek(row, 0x3a, 0);
        if colon < row.len() && connection_kind(row.subrange(0, colon)) is Some {
            Some(
                (
                    connection_kind(row.subrange(0, colon))->0,
                    row.subrange(colon + 1, row.len() as int),
                ),
            )
        } else {
            active_connection(rows, i + 1)
        }
    }
}

/// An interface that never counts as a connection: the loopback, and the
/// virtual interfaces of containers.
pub open spec fn is_ignored(name: Seq<u8>) -> bool {
    name == "lo".spec_bytes() || "docker".spec_bytes().is_prefix_of(name)
        || "veth".spec_bytes().is_prefix_of(name)
}

/// The interface counts as a connection: it is not ignored and its state
/// is `up`.
pub open spec fn is_up(iface: Interface) -> bool {
    !is_ignored(iface.name@) && match iface.operstate {
        Some(state) => trim(state@) == "up".spec_bytes(),
        None => false,
    }
}

/// Index of the first interface from `i` on that counts as a connection.
pub open spec fn first_up(ifaces: Seq<Interface>, i: int) -> Option<int>
    decreases ifaces.len() - i,
{
    if i < 0 || i >= ifaces.len() {
        None
    } else if is_up(ifaces[i]) {
        Some(i)
    } else {
        first_up(ifaces, i + 1)
    }
}

/// The link quality for optional wireless statistics.
pub open spec fn signal_of(wireless: Option<Seq<u8>>) -> u8 {
    match wireless {
        Some(content) => wireless_signal(content),
        None => 0,
    }
}

/// The snapshot for the output of the connection manager, the interfaces
/// of the kernel and the wireless statistics.  The connection manager
/// comes first; the interfaces are the fallback, where an interface whose
/// name begins with `w` counts as wireless; without either the network is
/// offline.
pub open spec fn network_info_of(
    manager: Option<Seq<u8>>,
    ifaces: Seq<Interface>,
    wireless: Option<Seq<u8>>,
) -> NetworkInfoView {
    let found = match manager {
        Some(out) => active_connection(lines(out), 0),
        None => None,
    };
    match found {
        Some((is_wifi, name)) => NetworkInfoView {
            connected: true,
            is_wifi,
            ssid: name,
            signal_strength: if is_wifi {
                signal_of(wireless)
            } else {
                0
            },
        },
        None => match first_up(ifaces, 0) {
            Some(k) => {
                let is_wifi = "w".spec_bytes().is_prefix_of(ifaces[k].name@);
                NetworkInfoView {
                    connected: true,
                    is_wifi,
                    ssid: ifaces[k].name@,
                    signal_strength: if is_wifi {
                        signal_of(wireless)
                    } else {
                        0
                    },
                }
            },
            None => NetworkInfoView {
                connected: false,
                is_wifi: false,
                ssid: "Offline".spec_bytes(),
                signal_strength: 0,
            },
        },
    }
}

/// The picture for a link quality.
pub open spec fn level_of(signal: u8) -> SignalLevel {
    if 80 <= signal <= 100 {
        SignalLevel::Full
    } else if 60 <= signal <= 79 {
        SignalLevel::Good
    } else if 40 <= signal <= 59 {
        SignalLevel::Fair
    } else if 20 <= signal <= 39 {
        SignalLevel::Weak
    } else {
        SignalLevel::Faint
    }
}

/// A [`NetworkView`] as a mathematical value.
pub struct NetworkViewModel {
    pub class: NetworkClass,
    pub level: Option<SignalLevel>,
    pub label: Seq<u8>,
}

impl View for NetworkView {
    type V = NetworkViewModel;

    open spec fn view(&self) -> NetworkViewModel {
        NetworkViewModel { class: self.class, level: self.level, label: self.label@ }
    }
}

/// What the widget shows for a snapshot: offline, or a wireless
/// connection with the picture of its quality and its name in at most 15
/// bytes, or a wired one.
pub open spec fn view_of(info: NetworkInfoView) -> NetworkViewModel {
    if !info.connected {
        NetworkViewModel {
            class: NetworkClass::Disconnected,
            level: None,
            label: "Offline".spec_bytes(),
        }
    } else if info.is_wifi {
        NetworkViewModel {
            class: NetworkClass::Wifi,
            level: Some(level_of(info.signal_strength)),
            label: shortened(info.ssid, 15),
        }
    } else {
        NetworkViewModel { class: NetworkClass::Ethernet, level: None, label: "Wired".spec_bytes() }
    }
}

impl NetworkModule {
    /// The link quality in percent that a field of the wireless
    /// statistics gives.
    pub fn signal_from_field(field: &[u8]) -> (percent: u8)
        ensures
            percent == signal_percent(field@),
            percent <= 100,
    {
        match read_milli(strip_byte(field, 0x2e)) {
            Some(m) => {
                if m > 70000 {
                    if m / 1000 > 100 {
                        100
                    } else {
                        (m / 1000) as u8
                    }
                } else {
                    (m / 700) as u8
                }
            },
            None => 0,
        }
    }

    /// The wireless link quality in percent, from the content of the
    /// wireless statistics.
    pub fn get_wifi_signal(content: &[u8]) -> (percent: u8)
        ensures
            percent == wireless_signal(content@),
            percent <= 100,
    {
        let rows = split_lines(content);
        let mut i: usize = 0;
        while i < rows.len()
            invariant
                i <= rows.len(),
                views(rows@) == lines(content@),
                wireless_signal(content@) == wireless_scan(lines(content@), i as int),
            decreases rows.len() - i,
        {
            assert(views(rows@)[i as int] == rows@[i as int]@);
            let row = rows[i].as_slice();
            if seek_byte(row, 0x3a, 0) < row.len() {
                let parts = split_words(row);
                if parts.len() > 3 {
                    assert(views(parts@)[2] == parts@[2]@);
                    return Self::signal_from_field(parts[2].as_slice());
                }
            }
            i += 1;
        }
        0
    }

    /// One snapshot of the network.  `manager` is the output of the
    /// connection manager's list of active connections, one `type:name`
    /// on each line, where the manager could be asked; `ifaces` are the
    /// interfaces of the kernel in the order of their directory;
    /// `wireless` is the content of the wireless statistics, where it
    /// could be read.
    #[verifier::loop_isolation(false)]
    pub fn fetch_network_info(
        manager: Option<&[u8]>,
        ifaces: &Vec<Interface>,
        wireless: Option<&[u8]>,
    ) -> (info: NetworkInfo)
        ensures
            info@ == network_info_of(
                match manager {
                    Some(out) => Some(out@),
                    None => None,
                },
                ifaces@,
                match wireless {
                    Some(content) => Some(content@),
                    None => None,
                },
            ),
            info.signal_strength <= 100,
    {
        let signal: u8 = match wireless {
            Some(content) => Self::get_wifi_signal(content),
            None => 0,
        };
        match manager {
            Some(out) => {
                let rows = split_lines(out);
                let mut i: usize = 0;
                while i < rows.len()
                    invariant
                        i <= rows.len(),
                        views(rows@) == lines(out@),
                        active_connection(lines(out@), 0) == active_connection(
                            lines(out@),
                            i as int,
                        ),
                    decreases rows.len() - i,
                {
                    assert(views(rows@)[i as int] == rows@[i as int]@);
                    let row = rows[i].as_slice();
                    let colon = seek_byte(row, 0x3a, 0);
                    if colon < row.len() {
                        let kind = copy_range(row, 0, colon);
                        let wifi = bytes_eq(kind.as_slice(), "802-11-wireless".as_bytes())
                            || bytes_eq(kind.as_slice(), "wifi".as_bytes());
                        let wired = bytes_eq(kind.as_slice(), "802-3-ethernet".as_bytes())
                            || bytes_eq(kind.as_slice(), "ethernet".as_bytes());
                        if wifi || wired {
                            return NetworkInfo {
                                connected: true,
                                is_wifi: wifi,
                                ssid: copy_range(row, colon + 1, row.len()),
                                signal_strength: if wifi {
                                    signal
                                } else {
                                    0
                                },
                            };
                        }
                    }
                    i += 1;
                }
            },
            None => {},
        }
        let mut k: usize = 0;
        while k < ifaces.len()
            invariant
                k <= ifaces.len(),
                first_up(ifaces@, 0) == first_up(ifaces@, k as int),
            decreases ifaces.len() - k,
        {
            let name = ifaces[k].name.as_slice();
            let ignored = bytes_eq(name, "lo".as_bytes()) || starts_with(name, "docker".as_bytes())
                || starts_with(name, "veth".as_bytes());
            let up = !ignored && match &ifaces[k].operstate {
                Some(state) => bytes_eq(trimmed(state.as_slice()), "up".as_bytes()),
                None => false,
            };
            if up {
                let wifi = starts_with(name, "w".as_bytes());
                return NetworkInfo {
                    connected: true,
                    is_wifi: wifi,
                    ssid: owned(name),
                    signal_strength: if wifi {
                        signal
                    } else {
                        0
                    },
                };
            }
            k += 1;
        }
        NetworkInfo {
            connected: false,
            is_wifi: false,
            ssid: owned("Offline".as_bytes()),
            signal_strength: 0,
        }
    }

    /// What the widget shows for a snapshot.
    pub fn update_view(info: &NetworkInfo) -> (view: NetworkView)
        ensures
            view@ == view_of(info@),
    {
        if !info.connected {
            NetworkView {
                class: NetworkClass::Disconnected,
                level: None,
                label: owned("Offline".as_bytes()),
            }
        } else if info.is_wifi {
            let signal = info.signal_strength;
            let level = if 80 <= signal && signal <= 100 {
                SignalLevel::Full
            } else if 60 <= signal && signal <= 79 {
                SignalLevel::Good
            } else if 40 <= signal && signal <= 59 {
                SignalLevel::Fair
            } else if 20 <= signal && signal <= 39 {
                SignalLevel::Weak
            } else {
                SignalLevel::Faint
            };
            NetworkView {
                class: NetworkClass::Wifi,
                level: Some(level),
                label: shorten(info.ssid.as_slice(), 15),
            }
        } else {
            NetworkView {
                class: NetworkClass::Ethernet,
                level: None,
                label: owned("Wired".as_bytes()),
            }
        }
    }
}

} // verus!
