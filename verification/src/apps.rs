//! Installed applications, as the launcher lists them: what a desktop
//! entry file says, and the list in the order of the names.

use crate::slicing::{join, joined, owned, remove_all, without};
use crate::text::{bytes_eq, lines, split_lines, split_words, starts_with, trim, trimmed};
use crate::text::{views, words};
use vstd::prelude::*;
use vstd::seq_lib::to_multiset_build;
use vstd::seq_lib::to_multiset_insert;
use vstd::string::*;
use vstd::utf8::encode_utf8;

verus! {

/// One application: its name, the name of its icon, and the command that
/// starts it.
#[derive(Clone, Debug)]
pub struct AppInfo {
    pub name: String,
    pub icon: String,
    pub command: String,
}

/// An [`AppInfo`] as a mathematical value.
pub struct AppInfoView {
    pub name: Seq<char>,
    pub icon: Seq<char>,
    pub command: Seq<char>,
}

impl View for AppInfo {
    type V = AppInfoView;

    open spec fn view(&self) -> AppInfoView {
        AppInfoView { name: self.name@, icon: self.icon@, command: self.command@ }
    }
}

/// The views of applications, element by element.
pub open spec fn app_views(apps: Seq<AppInfo>) -> Seq<AppInfoView> {
    Seq::new(apps.len(), |i: int| apps[i]@)
}

/// What a desktop entry file says of an application, as the bytes of
/// the file.
#[derive(Clone, Debug)]
pub struct DesktopEntry {
    pub name: Vec<u8>,
    pub icon: Vec<u8>,
    pub command: Vec<u8>,
}

/// A [`DesktopEntry`] as a mathematical value.
pub struct DesktopEntryView {
    pub name: Seq<u8>,
    pub icon: Seq<u8>,
    pub command: Seq<u8>,
}

impl View for DesktopEntry {
    type V = DesktopEntryView;

    open spec fn view(&self) -> DesktopEntryView {
        DesktopEntryView { name: self.name@, icon: self.icon@, command: self.command@ }
    }
}

/// The text that std's lossy conversion from UTF-8 makes of `bytes`.
pub uninterp spec fn lossy_text(bytes: Seq<u8>) -> Seq<char>;

/// The text that std's conversion to lower case makes of `name`.
pub uninterp spec fn lowercase_of(name: Seq<char>) -> Seq<char>;

/// Calls `String::from_utf8_lossy` of std.  The contract only gives the
/// result its name: the text depends on the bytes alone.
#[verifier::external_body]
fn text_of(bytes: &[u8]) -> (r: String)
    ensures
        r@ == lossy_text(bytes@),
{
    String::from_utf8_lossy(bytes).into_owned()
}

/// Calls `str::to_lowercase` of std.  The contract only gives the
/// result its name: the text depends on `name` alone.
#[verifier::external_body]
fn lowercase(name: &str) -> (r: String)
    ensures
        r@ == lowercase_of(name@),
{
    name.to_lowercase()
}

/// What has been read of a desktop entry file.
pub struct EntryScan {
    pub name: Seq<u8>,
    pub icon: Seq<u8>,
    pub command: Seq<u8>,
    pub no_display: bool,
    /// The line read last belongs to the section `[Desktop Entry]`.
    pub in_entry: bool,
}

/// The scan before the first line.
pub open spec fn scan_start() -> EntryScan {
    EntryScan {
        name: Seq::empty(),
        icon: Seq::empty(),
        command: Seq::empty(),
        no_display: false,
        in_entry: false,
    }
}

/// The scan after one more line.  Only the section `[Desktop Entry]`
/// counts.  In it the first name and the first command are kept, the last
/// icon, and whether the entry asks not to be shown.
pub open spec fn scan_line(st: EntryScan, line: Seq<u8>) -> EntryScan {
    let t = trim(line);
    if t == "[Desktop Entry]".spec_bytes() {
        EntryScan { in_entry: true, ..st }
    } else {
        let in_entry = st.in_entry && !"[".spec_bytes().is_prefix_of(t);
        if !in_entry {
            EntryScan { in_entry, ..st }
        } else if "Name=".spec_bytes().is_prefix_of(t) && st.name.len() == 0 {
            EntryScan { name: without(t, "Name=".spec_bytes()), in_entry, ..st }
        } else if "Icon=".spec_bytes().is_prefix_of(t) {
            EntryScan { icon: without(t, "Icon=".spec_bytes()), in_entry, ..st }
        } else if "Exec=".spec_bytes().is_prefix_of(t) && st.command.len() == 0 {
            EntryScan { command: without(t, "Exec=".spec_bytes()), in_entry, ..st }
        } else if t == "NoDisplay=true".spec_bytes() {
            EntryScan { no_display: true, in_entry, ..st }
        } else {
            EntryScan { in_entry, ..st }
        }
    }
}

/// The scan after the rows from `i` on.
pub open spec fn scan_rows(rows: Seq<Seq<u8>>, i: int, st: EntryScan) -> EntryScan
    decreases rows.len() - i,
{
    if i < 0 || i >= rows.len() {
        st
    } else {
        scan_rows(rows, i + 1, scan_line(st, rows[i]))
    }
}

/// The words of a command without the placeholders for arguments, which
/// begin with a percent sign.
pub open spec fn launch_words(ws: Seq<Seq<u8>>) -> Seq<Seq<u8>>
    decreases ws.len(),
{
    if ws.len() == 0 {
        Seq::empty()
    } else if "%".spec_bytes().is_prefix_of(ws.last()) {
        launch_words(ws.drop_last())
    } else {
        launch_words(ws.drop_last()).push(ws.last())
    }
}

/// A command without its placeholders, its words separated by one space.
pub open spec fn clean_command(command: Seq<u8>) -> Seq<u8> {
    joined(launch_words(words(command)), " ".spec_bytes())
}

/// The entry that the content of a desktop entry file describes.  There
/// is none where the entry asks not to be shown or lacks a name or a
/// command.
pub open spec fn desktop_entry(content: Seq<u8>) -> Option<DesktopEntryView> {
    let st = scan_rows(lines(content), 0, scan_start());
    if st.no_display || st.name.len() == 0 || st.command.len() == 0 {
        None
    } else {
        Some(
            DesktopEntryView { name: st.name, icon: st.icon, command: clean_command(st.command) },
        )
    }
}

/// The application that an entry describes: its bytes as text.
pub open spec fn app_of(entry: DesktopEntryView) -> AppInfoView {
    AppInfoView {
        name: lossy_text(entry.name),
        icon: lossy_text(entry.icon),
        command: lossy_text(entry.command),
    }
}

/// The applications that the contents of desktop entry files describe, in
/// the order of the files.
pub open spec fn entries_of(files: Seq<Seq<u8>>) -> Seq<AppInfoView>
    decreases files.len(),
{
    if files.len() == 0 {
        Seq::empty()
    } else {
        match desktop_entry(files.last()) {
            Some(entry) => entries_of(files.drop_last()).push(app_of(entry)),
            None => entries_of(files.drop_last()),
        }
    }
}

/// The key by which an application is ordered: the bytes of its name in
/// lower case.
pub open spec fn sort_key(name: Seq<char>) -> Seq<u8> {
    encode_utf8(lowercase_of(name))
}

/// The keys of applications, element by element.
pub open spec fn name_keys(apps: Seq<AppInfoView>) -> Seq<Seq<u8>> {
    Seq::new(apps.len(), |i: int| sort_key(apps[i].name))
}

/// `a` stands before `b`, or equals it, in the order of the dictionary
/// over bytes.
pub open spec fn key_le(a: Seq<u8>, b: Seq<u8>) -> bool
    decreases a.len(),
{
    if a.len() == 0 {
        true
    } else if b.len() == 0 {
        false
    } else if a[0] != b[0] {
        a[0] < b[0]
    } else {
        key_le(a.drop_first(), b.drop_first())
    }
}

/// The keys are in order.
pub open spec fn in_key_order(keys: Seq<Seq<u8>>) -> bool {
    forall|i: int, j: int| 0 <= i < j < keys.len() ==> key_le(keys[i], keys[j])
}

/// The applications are in the order of their names in lower case.
pub open spec fn in_name_order(apps: Seq<AppInfoView>) -> bool {
    in_key_order(name_keys(apps))
}

/// Index of the first key at or after `i` that stands after `key`.
pub open spec fn place(keys: Seq<Seq<u8>>, key: Seq<u8>, i: int) -> int
    decreases keys.len() - i,
{
    if 0 <= i < keys.len() && key_le(keys[i], key) {
        place(keys, key, i + 1)
    } else {
        i
    }
}

/// The keys in order; equal keys keep the order in which they came.
pub open spec fn sorted_keys(keys: Seq<Seq<u8>>) -> Seq<Seq<u8>>
    decreases keys.len(),
{
    if keys.len() == 0 {
        Seq::empty()
    } else {
        let rest = sorted_keys(keys.drop_last());
        rest.insert(place(rest, keys.last(), 0), keys.last())
    }
}

/// The items in the order of their keys, where `keys[i]` is the key of
/// `items[i]`; items with equal keys keep the order in which they came.
/// Where the numbers of keys and items differ the items stay as they
/// are.
pub open spec fn sorted_by<T>(keys: Seq<Seq<u8>>, items: Seq<T>) -> Seq<T>
    decreases keys.len(),
{
    if keys.len() == 0 || items.len() != keys.len() {
        items
    } else {
        let rest = sorted_by(keys.drop_last(), items.drop_last());
        rest.insert(place(sorted_keys(keys.drop_last()), keys.last(), 0), items.last())
    }
}

/// Of two keys one stands before the other, or they are the same.
pub proof fn lemma_key_le_total(a: Seq<u8>, b: Seq<u8>)
    ensures
        key_le(a, b) || key_le(b, a),
    decreases a.len(),
{
    if a.len() > 0 && b.len() > 0 && a[0] == b[0] {
        lemma_key_le_total(a.drop_first(), b.drop_first());
    }
}

/// The order of the keys is transitive.
pub proof fn lemma_key_le_transitive(a: Seq<u8>, b: Seq<u8>, c: Seq<u8>)
    requires
        key_le(a, b),
        key_le(b, c),
    ensures
        key_le(a, c),
    decreases a.len(),
{
    if a.len() > 0 && b.len() > 0 && c.len() > 0 {
        if a[0] == b[0] && b[0] == c[0] {
            lemma_key_le_transitive(a.drop_first(), b.drop_first(), c.drop_first());
        }
    }
}

/// `place` stays within the keys; the keys before it do not stand after
/// `key`, and the key at it does.
pub proof fn lemma_place(keys: Seq<Seq<u8>>, key: Seq<u8>, i: int)
    requires
        0 <= i <= keys.len(),
    ensures
        i <= place(keys, key, i) <= keys.len(),
        forall|k: int| i <= k < place(keys, key, i) ==> key_le(#[trigger] keys[k], key),
        place(keys, key, i) < keys.len() ==> !key_le(keys[place(keys, key, i)], key),
    decreases keys.len() - i,
{
    if i < keys.len() && key_le(keys[i], key) {
        lemma_place(keys, key, i + 1);
    }
}

/// The sorted keys are in order and are as many as before.
pub proof fn lemma_sorted_keys(keys: Seq<Seq<u8>>)
    ensures
        in_key_order(sorted_keys(keys)),
        sorted_keys(keys).len() == keys.len(),
    decreases keys.len(),
{
    if keys.len() > 0 {
        let key = keys.last();
        let rest = sorted_keys(keys.drop_last());
        let p = place(rest, key, 0);
        let r = sorted_keys(keys);
        lemma_sorted_keys(keys.drop_last());
        lemma_place(rest, key, 0);
        assert forall|i: int, j: int| 0 <= i < j < r.len() implies key_le(r[i], r[j]) by {
            if j < p {
            } else if j == p {
                assert(r[i] == rest[i]);
            } else if i < p {
                assert(r[i] == rest[i]);
                assert(r[j] == rest[j - 1]);
            } else if i == p {
                assert(r[j] == rest[j - 1]);
                lemma_key_le_total(rest[p], key);
                if p < j - 1 {
                    lemma_key_le_transitive(key, rest[p], rest[j - 1]);
                }
            } else {
                assert(r[i] == rest[i - 1]);
                assert(r[j] == rest[j - 1]);
            }
        }
    }
}

/// Sorting by keys keeps every item, each as often as before, and puts
/// each item where its key stands among the sorted keys: where `key_of`
/// gives the key of every item, it gives the sorted keys of the sorted
/// items.
pub proof fn lemma_sorted_by<T>(keys: Seq<Seq<u8>>, items: Seq<T>, key_of: spec_fn(T) -> Seq<u8>)
    requires
        keys.len() == items.len(),
        forall|i: int| 0 <= i < items.len() ==> keys[i] == key_of(#[trigger] items[i]),
    ensures
        sorted_by(keys, items).len() == items.len(),
        sorted_by(keys, items).to_multiset() == items.to_multiset(),
        forall|i: int|
            0 <= i < items.len() ==> sorted_keys(keys)[i] == key_of(
                #[trigger] sorted_by(keys, items)[i],
            ),
        in_key_order(sorted_keys(keys)),
    decreases keys.len(),
{
    lemma_sorted_keys(keys);
    if keys.len() > 0 {
        let front_keys = keys.drop_last();
        let front = items.drop_last();
        let rest_keys = sorted_keys(front_keys);
        let rest = sorted_by(front_keys, front);
        let p = place(rest_keys, keys.last(), 0);
        let r = sorted_by(keys, items);
        assert forall|i: int| 0 <= i < front.len() implies front_keys[i] == key_of(
            #[trigger] front[i],
        ) by {
            assert(front[i] == items[i]);
        }
        lemma_sorted_by(front_keys, front, key_of);
        lemma_sorted_keys(front_keys);
        lemma_place(rest_keys, keys.last(), 0);
        assert(keys.last() == key_of(items[items.len() - 1]));
        assert forall|i: int| 0 <= i < items.len() implies sorted_keys(keys)[i] == key_of(
            #[trigger] r[i],
        ) by {
            if i < p {
                assert(r[i] == rest[i]);
            } else if i > p {
                assert(r[i] == rest[i - 1]);
            }
        }
        to_multiset_insert(rest, p, items.last());
        to_multiset_build(front, items.last());
        assert(front.push(items.last()) =~= items);
    }
}

/// Sorted applications are in the order of their names in lower case,
/// and they are the applications that were there, each as often as
/// before.
pub proof fn lemma_sorted_apps(apps: Seq<AppInfoView>)
    ensures
        in_name_order(sorted_by(name_keys(apps), apps)),
        sorted_by(name_keys(apps), apps).to_multiset() == apps.to_multiset(),
        sorted_by(name_keys(apps), apps).len() == apps.len(),
{
    let keys = name_keys(apps);
    let key_of = |a: AppInfoView| sort_key(a.name);
    lemma_sorted_by(keys, apps, key_of);
    let r = sorted_by(keys, apps);
    assert(name_keys(r) =~= sorted_keys(keys)) by {
        lemma_sorted_keys(keys);
        assert forall|i: int| 0 <= i < r.len() implies name_keys(r)[i] == sorted_keys(keys)[i] by {
            assert(sorted_keys(keys)[i] == key_of(r[i]));
        }
    }
}

/// Whether `a` stands before `b`, or equals it, in the order of the keys.
pub fn key_before_or_same(a: &[u8], b: &[u8]) -> (r: bool)
    ensures
        r == key_le(a@, b@),
{
    let mut i: usize = 0;
    assert(a@.subrange(0, a@.len() as int) =~= a@);
    assert(b@.subrange(0, b@.len() as int) =~= b@);
    loop
        invariant
            i <= a.len(),
            i <= b.len(),
            key_le(a@, b@) == key_le(
                a@.subrange(i as int, a@.len() as int),
                b@.subrange(i as int, b@.len() as int),
            ),
        decreases a.len() - i,
    {
        if i == a.len() {
            return true;
        }
        if i == b.len() {
            return false;
        }
        if a[i] != b[i] {
            return a[i] < b[i];
        }
        assert(a@.subrange(i as int, a@.len() as int).drop_first() =~= a@.subrange(
            i + 1,
            a@.len() as int,
        ));
        assert(b@.subrange(i as int, b@.len() as int).drop_first() =~= b@.subrange(
            i + 1,
            b@.len() as int,
        ));
        i += 1;
    }
}

/// What has been read of a desktop entry file.
struct Scan {
    name: Vec<u8>,
    icon: Vec<u8>,
    command: Vec<u8>,
    no_display: bool,
    in_entry: bool,
}

impl View for Scan {
    type V = EntryScan;

    closed spec fn view(&self) -> EntryScan {
        EntryScan {
            name: self.name@,
            icon: self.icon@,
            command: self.command@,
            no_display: self.no_display,
            in_entry: self.in_entry,
        }
    }
}

/// Reads one more line of a desktop entry file.
fn read_line(st: &mut Scan, line: &[u8])
    ensures
        final(st)@ == scan_line(old(st)@, line@),
{
    let t = trimmed(line);
    if bytes_eq(t, "[Desktop Entry]".as_bytes()) {
        st.in_entry = true;
        return ;
    }
    if starts_with(t, "[".as_bytes()) {
        st.in_entry = false;
    }
    if !st.in_entry {
        return ;
    }
    if starts_with(t, "Name=".as_bytes()) && st.name.len() == 0 {
        st.name = remove_all(t, "Name=".as_bytes());
    } else if starts_with(t, "Icon=".as_bytes()) {
        st.icon = remove_all(t, "Icon=".as_bytes());
    } else if starts_with(t, "Exec=".as_bytes()) && st.command.len() == 0 {
        st.command = remove_all(t, "Exec=".as_bytes());
    } else if bytes_eq(t, "NoDisplay=true".as_bytes()) {
        st.no_display = true;
    }
}

/// A command without its placeholders.
fn clean(command: &[u8]) -> (r: Vec<u8>)
    ensures
        r@ == clean_command(command@),
{
    let parts = split_words(command);
    let mut kept: Vec<Vec<u8>> = Vec::new();
    let mut i: usize = 0;
    let ghost all = views(parts@);
    assert(all.subrange(0, 0) =~= Seq::<Seq<u8>>::empty());
    assert(views(kept@) =~= Seq::<Seq<u8>>::empty());
    while i < parts.len()
        invariant
            i <= parts.len(),
            all == views(parts@),
            views(kept@) == launch_words(all.subrange(0, i as int)),
        decreases parts.len() - i,
    {
        assert(all.subrange(0, i + 1).drop_last() =~= all.subrange(0, i as int));
        assert(all.subrange(0, i + 1).last() == parts@[i as int]@);
        if !starts_with(parts[i].as_slice(), "%".as_bytes()) {
            let ghost before = views(kept@);
            kept.push(parts[i].clone());
            assert(views(kept@) =~= before.push(parts@[i as int]@));
        }
        i += 1;
    }
    assert(all.subrange(0, all.len() as int) =~= all);
    join(&kept, " ".as_bytes())
}

/// The entry that the content of a desktop entry file describes.
pub fn parse_entry(content: &[u8]) -> (entry: Option<DesktopEntry>)
    ensures
        match entry {
            Some(e) => desktop_entry(content@) == Some(e@),
            None => desktop_entry(content@) is None,
        },
{
    let rows = split_lines(content);
    let mut st = Scan {
        name: Vec::new(),
        icon: Vec::new(),
        command: Vec::new(),
        no_display: false,
        in_entry: false,
    };
    let mut i: usize = 0;
    while i < rows.len()
        invariant
            i <= rows.len(),
            views(rows@) == lines(content@),
            scan_rows(lines(content@), 0, scan_start()) == scan_rows(
                lines(content@),
                i as int,
                st@,
            ),
        decreases rows.len() - i,
    {
        assert(views(rows@)[i as int] == rows@[i as int]@);
        read_line(&mut st, rows[i].as_slice());
        i += 1;
    }
    if st.no_display || st.name.len() == 0 || st.command.len() == 0 {
        None
    } else {
        let command = clean(st.command.as_slice());
        Some(DesktopEntry { name: st.name, icon: st.icon, command })
    }
}

/// The application that an entry describes.
pub fn app_from_entry(entry: &DesktopEntry) -> (app: AppInfo)
    ensures
        app@ == app_of(entry@),
{
    AppInfo {
        name: text_of(entry.name.as_slice()),
        icon: text_of(entry.icon.as_slice()),
        command: text_of(entry.command.as_slice()),
    }
}

/// The application that the content of a desktop entry file describes.
pub fn parse_desktop_file(content: &[u8]) -> (app: Option<AppInfo>)
    ensures
        match app {
            Some(a) => desktop_entry(content@) matches Some(e) && a@ == app_of(e),
            None => desktop_entry(content@) is None,
        },
{
    match parse_entry(content) {
        Some(entry) => Some(app_from_entry(&entry)),
        None => None,
    }
}

/// The applications in the order of the keys, where `keys[i]` is the key
/// of `apps[i]`.  Applications with equal keys keep their order.  Where
/// the numbers of keys and applications differ the applications stay as
/// they are.
pub fn sort_by_keys(apps: Vec<AppInfo>, keys: &Vec<Vec<u8>>) -> (sorted: Vec<AppInfo>)
    ensures
        app_views(sorted@) == sorted_by(views(keys@), app_views(apps@)),
{
    let ghost all = app_views(apps@);
    let ghost all_keys = views(keys@);
    let n = apps.len();
    if n != keys.len() || n == 0 {
        return apps;
    }
    // The applications are moved out from the back, so they are taken in reverse first.
    let mut apps = apps;
    let mut pending: Vec<AppInfo> = Vec::new();
    while apps.len() > 0
        invariant
            apps@.len() + pending@.len() == n,
            all.len() == n,
            forall|k: int| 0 <= k < apps@.len() ==> (#[trigger] apps@[k])@ == all[k],
            forall|k: int| 0 <= k < pending@.len() ==> (#[trigger] pending@[k])@ == all[n - 1 - k],
        decreases apps@.len(),
    {
        let app = apps.pop().unwrap();
        pending.push(app);
    }
    let mut sorted: Vec<AppInfo> = Vec::new();
    let mut placed: Vec<Vec<u8>> = Vec::new();
    let mut i: usize = 0;
    assert(all.subrange(0, 0) =~= Seq::<AppInfoView>::empty());
    assert(all_keys.subrange(0, 0) =~= Seq::<Seq<u8>>::empty());
    assert(app_views(sorted@) =~= Seq::<AppInfoView>::empty());
    assert(views(placed@) =~= Seq::<Seq<u8>>::empty());
    while i < n
        invariant
            i <= n,
            all.len() == n,
            all_keys.len() == n,
            all_keys == views(keys@),
            pending@.len() == n - i,
            forall|k: int| 0 <= k < pending@.len() ==> (#[trigger] pending@[k])@ == all[n - 1 - k],
            app_views(sorted@) == sorted_by(all_keys.subrange(0, i as int), all.subrange(0, i as int)),
            views(placed@) == sorted_keys(all_keys.subrange(0, i as int)),
            sorted@.len() == placed@.len(),
        decreases n - i,
    {
        let app = pending.pop().unwrap();
        let key = keys[i].clone();
        assert(app@ == all[i as int]);
        assert(key@ == all_keys[i as int]);
        assert(all.subrange(0, i + 1).drop_last() =~= all.subrange(0, i as int));
        assert(all.subrange(0, i + 1).last() == app@);
        assert(all_keys.subrange(0, i + 1).drop_last() =~= all_keys.subrange(0, i as int));
        assert(all_keys.subrange(0, i + 1).last() == key@);
        let ghost rest_keys = views(placed@);
        let ghost rest = app_views(sorted@);
        let mut p: usize = 0;
        while p < placed.len() && key_before_or_same(placed[p].as_slice(), key.as_slice())
            invariant
                p <= placed.len(),
                rest_keys == views(placed@),
                place(rest_keys, key@, 0) == place(rest_keys, key@, p as int),
            decreases placed.len() - p,
        {
            assert(rest_keys[p as int] == placed@[p as int]@);
            p += 1;
        }
        proof {
            if p < placed.len() {
                assert(rest_keys[p as int] == placed@[p as int]@);
            }
            lemma_sorted_keys(all_keys.subrange(0, i as int));
        }
        sorted.insert(p, app);
        placed.insert(p, key);
        assert(app_views(sorted@) =~= rest.insert(p as int, app@));
        assert(views(placed@) =~= rest_keys.insert(p as int, key@));
        i += 1;
    }
    assert(all.subrange(0, n as int) =~= all);
    assert(all_keys.subrange(0, n as int) =~= all_keys);
    sorted
}

/// The applications in the order of their names in lower case;
/// applications whose names are the same in lower case keep the order in
/// which they came.
pub fn sort_apps(apps: Vec<AppInfo>) -> (sorted: Vec<AppInfo>)
    ensures
        app_views(sorted@) == sorted_by(name_keys(app_views(apps@)), app_views(apps@)),
        in_name_order(app_views(sorted@)),
        app_views(sorted@).to_multiset() == app_views(apps@).to_multiset(),
        sorted@.len() == apps@.len(),
{
    let mut keys: Vec<Vec<u8>> = Vec::new();
    let mut i: usize = 0;
    while i < apps.len()
        invariant
            i <= apps.len(),
            keys@.len() == i,
            forall|k: int| 0 <= k < i ==> (#[trigger] keys@[k])@ == sort_key(apps@[k]@.name),
        decreases apps.len() - i,
    {
        let lower = lowercase(apps[i].name.as_str());
        keys.push(owned(lower.as_str().as_bytes()));
        i += 1;
    }
    proof {
        assert(views(keys@) =~= name_keys(app_views(apps@)));
        lemma_sorted_apps(app_views(apps@));
    }
    sort_by_keys(apps, &keys)
}

/// The applications that the contents of desktop entry files describe, in
/// the order of their names in lower case.
pub fn get_installed_apps(files: &Vec<Vec<u8>>) -> (apps: Vec<AppInfo>)
    ensures
        app_views(apps@) == sorted_by(
            name_keys(entries_of(views(files@))),
            entries_of(views(files@)),
        ),
        in_name_order(app_views(apps@)),
{
    let mut found: Vec<AppInfo> = Vec::new();
    let mut i: usize = 0;
    let ghost all = views(files@);
    assert(all.subrange(0, 0) =~= Seq::<Seq<u8>>::empty());
    assert(app_views(found@) =~= Seq::<AppInfoView>::empty());
    while i < files.len()
        invariant
            i <= files.len(),
            all == views(files@),
            app_views(found@) == entries_of(all.subrange(0, i as int)),
        decreases files.len() - i,
    {
        assert(all.subrange(0, i + 1).drop_last() =~= all.subrange(0, i as int));
        assert(all.subrange(0, i + 1).last() == files@[i as int]@);
        match parse_desktop_file(files[i].as_slice()) {
            Some(app) => {
                let ghost before = app_views(found@);
                found.push(app);
                assert(app_views(found@) =~= before.push(app@));
            },
            None => {},
        }
        i += 1;
    }
    assert(all.subrange(0, all.len() as int) =~= all);
    sort_apps(found)
}

} // verus!
