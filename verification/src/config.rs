//! The configuration of the bar, its defaults, and the registry of the
//! widgets that a configuration can name.

use crate::text::bytes_eq;
use vstd::prelude::*;
use vstd::string::*;

verus! {

/// The whole configuration.
#[derive(Clone)]
pub struct Config {
    pub bar: BarConfig,
    pub modules: ModulesConfig,
}

/// Where the bar stands and how high it is.
#[derive(Clone)]
pub struct BarConfig {
    pub position: Option<String>,
    pub height: Option<i32>,
}

/// The widgets of the three sections of the bar, by name.
#[derive(Clone)]
pub struct ModulesConfig {
    pub left: Option<Vec<String>>,
    pub center: Option<Vec<String>>,
    pub right: Option<Vec<String>>,
}

/// What was found where a configuration file is looked for.
pub enum ConfigSource {
    /// No file is there.
    Missing,
    /// A file is there, but it holds no valid configuration.
    Unreadable,
    /// A file is there and holds this configuration.
    Parsed(Config),
}

/// The widgets that the bar can show.
#[derive(Clone, Copy, Debug, PartialEq, Eq, Structural)]
pub enum WidgetKind {
    Workspaces,
    Clock,
    Battery,
    Audio,
    Mpris,
    Network,
    SysInfo,
    Power,
    /// An empty widget that takes up the room that is left.
    Spacer,
}

/// The text of an optional string.
pub open spec fn text_of(s: Option<String>) -> Option<Seq<char>> {
    match s {
        Some(s) => Some(s@),
        None => None,
    }
}

/// The names of a section, as texts.
pub open spec fn names_of(section: Option<Vec<String>>) -> Option<Seq<Seq<char>>> {
    match section {
        Some(names) => Some(Seq::new(names@.len(), |i: int| names@[i]@)),
        None => None,
    }
}

/// `c` is the configuration that is used where no file gives one: a bar
/// at the top, 40 high, with the workspaces on the left, the clock in the
/// centre and the battery on the right.
pub open spec fn is_default(c: Config) -> bool {
    &&& text_of(c.bar.position) == Some("top"@)
    &&& c.bar.height == Some(40i32)
    &&& names_of(c.modules.left) == Some(seq!["workspaces"@])
    &&& names_of(c.modules.center) == Some(seq!["clock"@])
    &&& names_of(c.modules.right) == Some(seq!["battery"@])
}

/// The widget that a name of the configuration stands for.
pub open spec fn widget_kind(name: Seq<char>) -> Option<WidgetKind> {
    if name == "workspaces"@ {
        Some(WidgetKind::Workspaces)
    } else if name == "clock"@ {
        Some(WidgetKind::Clock)
    } else if name == "battery"@ {
        Some(WidgetKind::Battery)
    } else if name == "audio"@ {
        Some(WidgetKind::Audio)
    } else if name == "mpris"@ {
        Some(WidgetKind::Mpris)
    } else if name == "network"@ {
        Some(WidgetKind::Network)
    } else if name == "sys_info"@ {
        Some(WidgetKind::SysInfo)
    } else if name == "power"@ {
        Some(WidgetKind::Power)
    } else if name == "spacer"@ {
        Some(WidgetKind::Spacer)
    } else {
        None
    }
}

/// The widgets that a list of names stands for, in order; a name that
/// stands for none is passed over.
pub open spec fn widget_kinds(names: Seq<Seq<char>>) -> Seq<WidgetKind>
    decreases names.len(),
{
    if names.len() == 0 {
        Seq::empty()
    } else {
        match widget_kind(names.last()) {
            Some(kind) => widget_kinds(names.drop_last()).push(kind),
            None => widget_kinds(names.drop_last()),
        }
    }
}

/// The path of the configuration file below the home directory `home`.
pub open spec fn home_config_path(home: Seq<char>) -> Seq<char> {
    home + "/.config/finshell/config.toml"@
}

/// Whether two strings hold the same text.
pub fn str_eq(a: &str, b: &str) -> (r: bool)
    ensures
        r == (a@ == b@),
{
    proof {
        vstd::utf8::encode_utf8_decode_utf8(a@);
        vstd::utf8::encode_utf8_decode_utf8(b@);
    }
    bytes_eq(a.as_bytes(), b.as_bytes())
}

/// A list with the one name `name`.
fn one_name(name: &str) -> (list: Option<Vec<String>>)
    ensures
        names_of(list) == Some(seq![name@]),
{
    let mut names: Vec<String> = Vec::new();
    names.push(String::from_str(name));
    let list = Some(names);
    assert(names_of(list)->0 =~= seq![name@]);
    list
}

impl BarConfig {
    /// Whether the bar stands at the bottom of the screen: where the
    /// position is given as `bottom`.  Without a position it stands at
    /// the top.
    pub fn is_bottom(&self) -> (b: bool)
        ensures
            b == (text_of(self.position) == Some("bottom"@)),
    {
        match &self.position {
            Some(p) => str_eq(p.as_str(), "bottom"),
            None => false,
        }
    }
}

impl Config {
    /// The configuration that is used where no file gives one.
    pub fn default() -> (c: Self)
        ensures
            is_default(c),
    {
        Config {
            bar: BarConfig { position: Some(String::from_str("top")), height: Some(40) },
            modules: ModulesConfig {
                left: one_name("workspaces"),
                center: one_name("clock"),
                right: one_name("battery"),
            },
        }
    }

    /// The configuration for what a file holds: what was read from it, or
    /// the default where nothing valid was.
    pub fn from_file(parsed: Option<Config>) -> (c: Self)
        ensures
            match parsed {
                Some(p) => c == p,
                None => is_default(c),
            },
    {
        match parsed {
            Some(p) => p,
            None => Self::default(),
        }
    }

    /// The path of the configuration file below the home directory.
    pub fn home_path(home: &str) -> (path: String)
        ensures
            path@ == home_config_path(home@),
    {
        let mut path = String::from_str(home);
        path.append("/.config/finshell/config.toml");
        path
    }

    /// The configuration to run with.  The file in the working directory
    /// comes first, then the one below the home directory; the first of
    /// them that exists decides, and gives the default where it holds
    /// nothing valid.  Where neither exists the default is used.
    pub fn load(local: ConfigSource, home: ConfigSource) -> (c: Self)
        ensures
            match (local, home) {
                (ConfigSource::Parsed(p), _) => c == p,
                (ConfigSource::Unreadable, _) => is_default(c),
                (ConfigSource::Missing, ConfigSource::Parsed(p)) => c == p,
                (ConfigSource::Missing, _) => is_default(c),
            },
    {
        match local {
            ConfigSource::Parsed(p) => p,
            ConfigSource::Unreadable => Self::default(),
            ConfigSource::Missing => match home {
                ConfigSource::Parsed(p) => p,
                _ => Self::default(),
            },
        }
    }
}

/// The widget that `name` stands for, if it stands for one.
pub fn create_module(name: &str) -> (kind: Option<WidgetKind>)
    ensures
        kind == widget_kind(name@),
{
    if str_eq(name, "workspaces") {
        Some(WidgetKind::Workspaces)
    } else if str_eq(name, "clock") {
        Some(WidgetKind::Clock)
    } else if str_eq(name, "battery") {
        Some(WidgetKind::Battery)
    } else if str_eq(name, "audio") {
        Some(WidgetKind::Audio)
    } else if str_eq(name, "mpris") {
        Some(WidgetKind::Mpris)
    } else if str_eq(name, "network") {
        Some(WidgetKind::Network)
    } else if str_eq(name, "sys_info") {
        Some(WidgetKind::SysInfo)
    } else if str_eq(name, "power") {
        Some(WidgetKind::Power)
    } else if str_eq(name, "spacer") {
        Some(WidgetKind::Spacer)
    } else {
        None
    }
}

/// The widgets of one section of the bar, in the order of their names.
/// A section that is not configured is empty.
pub fn fill_box(module_names: &Option<Vec<String>>) -> (kinds: Vec<WidgetKind>)
    ensures
        kinds@ == match names_of(*module_names) {
            Some(names) => widget_kinds(names),
            None => Seq::empty(),
        },
{
    let mut kinds: Vec<WidgetKind> = Vec::new();
    match module_names {
        None => {},
        Some(names) => {
            let ghost texts = names_of(*module_names)->0;
            let mut i: usize = 0;
            assert(texts.subrange(0, 0) =~= Seq::<Seq<char>>::empty());
            while i < names.len()
                invariant
                    i <= names.len(),
                    texts == Seq::new(names@.len(), |k: int| names@[k]@),
                    kinds@ == widget_kinds(texts.subrange(0, i as int)),
                decreases names.len() - i,
            {
                assert(texts.subrange(0, i + 1).drop_last() =~= texts.subrange(0, i as int));
                assert(texts.subrange(0, i + 1).last() == names@[i as int]@);
                match create_module(names[i].as_str()) {
                    Some(kind) => {
                        kinds.push(kind);
                    },
                    None => {},
                }
                i += 1;
            }
            assert(texts.subrange(0, texts.len() as int) =~= texts);
        },
    }
    kinds
}

} // verus!
