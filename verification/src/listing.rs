//! Directory listings, remote and local: the entries shown and their order,
//! folders first, then by name without regard to case.
use vstd::prelude::*;

use crate::keys::{
    display_local_path, file_name_or_empty, file_name_text, local_path_notation, PathStyle,
};
use crate::text::{
    blank, chars_of, is_blank, lowercase_text, replace_char, replaced_char, text, trim, trimmed,
    unicode_lowercase,
};
use crate::transfer::{is_directory_mode, is_directory_mode_spec};

verus! {

// ---------------------------------------------------------------------------
// Order of names
// ---------------------------------------------------------------------------

/// `a` comes before `b` in the order of `String`'s comparison: character by
/// character by code point (the order of their UTF-8 bytes), a prefix first.
pub open spec fn text_lt(a: Seq<char>, b: Seq<char>) -> bool
    decreases a.len(),
{
    if a.len() == 0 {
        b.len() > 0
    } else if b.len() == 0 {
        false
    } else if a[0] != b[0] {
        (a[0] as int) < (b[0] as int)
    } else {
        text_lt(a.drop_first(), b.drop_first())
    }
}

proof fn lemma_text_lt_trans(a: Seq<char>, b: Seq<char>, c: Seq<char>)
    requires
        text_lt(a, b),
        text_lt(b, c),
    ensures
        text_lt(a, c),
    decreases a.len(),
{
    if a.len() > 0 && b.len() > 0 && c.len() > 0 && a[0] == b[0] && b[0] == c[0] {
        lemma_text_lt_trans(a.drop_first(), b.drop_first(), c.drop_first());
    }
}

proof fn lemma_text_lt_total(a: Seq<char>, b: Seq<char>)
    ensures
        a == b || text_lt(a, b) || text_lt(b, a),
    decreases a.len(),
{
    if a.len() > 0 && b.len() > 0 && a[0] == b[0] {
        lemma_text_lt_total(a.drop_first(), b.drop_first());
        if a.drop_first() == b.drop_first() {
            assert(a =~= seq![a[0]] + a.drop_first());
            assert(b =~= seq![b[0]] + b.drop_first());
        }
    } else if a.len() == 0 && b.len() == 0 {
        assert(a =~= b);
    } else if a.len() > 0 && b.len() > 0 {
        assert((a[0] as int) != (b[0] as int));
    }
}

proof fn lemma_text_lt_irreflexive(a: Seq<char>)
    ensures
        !text_lt(a, a),
    decreases a.len(),
{
    if a.len() > 0 {
        lemma_text_lt_irreflexive(a.drop_first());
    }
}

proof fn lemma_text_lt_skip(a: Seq<char>, b: Seq<char>, i: int)
    requires
        0 <= i <= a.len(),
        i <= b.len(),
        a.take(i) == b.take(i),
    ensures
        text_lt(a, b) == text_lt(a.skip(i), b.skip(i)),
    decreases i,
{
    if i > 0 {
        assert(a[0] == a.take(i)[0]);
        assert(b[0] == b.take(i)[0]);
        assert(a.drop_first().take(i - 1) =~= a.take(i).drop_first());
        assert(b.drop_first().take(i - 1) =~= b.take(i).drop_first());
        lemma_text_lt_skip(a.drop_first(), b.drop_first(), i - 1);
        assert(a.drop_first().skip(i - 1) =~= a.skip(i));
        assert(b.drop_first().skip(i - 1) =~= b.skip(i));
    } else {
        assert(a.skip(0) =~= a);
        assert(b.skip(0) =~= b);
    }
}

/// See [`text_lt`].
pub fn text_less(a: &[char], b: &[char]) -> (r: bool)
    ensures
        r == text_lt(a@, b@),
{
    let mut i: usize = 0;
    while i < a.len() && i < b.len() && a[i] == b[i]
        invariant
            i <= a@.len(),
            i <= b@.len(),
            a@.take(i as int) == b@.take(i as int),
        decreases a@.len() - i,
    {
        assert(a@.take(i + 1) =~= a@.take(i as int).push(a@[i as int]));
        assert(b@.take(i + 1) =~= b@.take(i as int).push(b@[i as int]));
        i = i + 1;
    }
    proof {
        lemma_text_lt_skip(a@, b@, i as int);
    }
    if i == a.len() {
        i < b.len()
    } else if i == b.len() {
        false
    } else {
        assert(a@.skip(i as int)[0] == a@[i as int]);
        assert(b@.skip(i as int)[0] == b@[i as int]);
        a[i] < b[i]
    }
}

/// The key an entry is ordered by: whether it is a folder, and its name in
/// lower case.
pub struct ListingKey {
    pub is_directory: bool,
    pub name: Seq<char>,
}

/// Folders come first; within each group, names in [`text_lt`] order.
pub open spec fn key_lt(a: ListingKey, b: ListingKey) -> bool {
    (a.is_directory && !b.is_directory) || (a.is_directory == b.is_directory && text_lt(
        a.name,
        b.name,
    ))
}

/// In the listing, entry `j` comes before entry `i`: by key, and entries with
/// equal keys keep their order (a stable sort).
pub open spec fn listed_before(keys: Seq<ListingKey>, j: int, i: int) -> bool {
    key_lt(keys[j], keys[i]) || (keys[j] == keys[i] && j < i)
}

/// `order` lists every entry once, in listing order: `order[k]` is the
/// entry shown at position `k`.
pub open spec fn listing_order_of(keys: Seq<ListingKey>, order: Seq<usize>) -> bool {
    &&& order.len() == keys.len()
    &&& forall|k: int| 0 <= k < order.len() ==> order[k] < keys.len()
    &&& forall|a: int, b: int|
        0 <= a < b < order.len() ==> listed_before(keys, order[a] as int, order[b] as int)
}

proof fn lemma_key_total(a: ListingKey, b: ListingKey)
    ensures
        a == b || key_lt(a, b) || key_lt(b, a),
{
    lemma_text_lt_total(a.name, b.name);
}

proof fn lemma_key_lt_trans(a: ListingKey, b: ListingKey, c: ListingKey)
    requires
        key_lt(a, b),
        key_lt(b, c) || b == c,
    ensures
        key_lt(a, c),
{
    if a.is_directory == b.is_directory && b.is_directory == c.is_directory && b != c {
        lemma_text_lt_trans(a.name, b.name, c.name);
    }
}


proof fn lemma_listed_irreflexive(keys: Seq<ListingKey>, i: int)
    ensures
        !listed_before(keys, i, i),
{
    lemma_text_lt_irreflexive(keys[i].name);
}

/// Entry `i` is shown at some position of `order`.
pub open spec fn shown(order: Seq<usize>, i: int) -> bool {
    exists|k: int| 0 <= k < order.len() && order[k] == i
}

/// A listing loses no entry and shows none twice: every entry appears at
/// exactly one position.
pub proof fn law_listing_shows_every_entry_once(keys: Seq<ListingKey>, order: Seq<usize>)
    requires
        listing_order_of(keys, order),
    ensures
        forall|a: int, b: int| 0 <= a < b < order.len() ==> order[a] != order[b],
        forall|i: int| 0 <= i < keys.len() ==> #[trigger] shown(order, i),
{
    let n = keys.len() as int;
    assert forall|a: int, b: int| 0 <= a < b < order.len() implies order[a] != order[b] by {
        if order[a] == order[b] {
            lemma_listed_irreflexive(keys, order[a] as int);
        }
    }
    let o = order.map_values(|x: usize| x as int);
    assert(o.no_duplicates()) by {
        assert forall|a: int, b: int| 0 <= a < o.len() && 0 <= b < o.len() && a != b implies o[a]
            != o[b] by {
            if a < b {
                assert(order[a] != order[b]);
            } else {
                assert(order[b] != order[a]);
            }
        }
    }
    o.unique_seq_to_set();
    let range = vstd::set_lib::set_int_range(0, n);
    vstd::set_lib::lemma_int_range(0, n);
    assert(o.to_set().subset_of(range)) by {
        assert forall|x: int| o.to_set().contains(x) implies range.contains(x) by {
            let k = choose|k: int| 0 <= k < o.len() && o[k] == x;
            assert(order[k] < n);
        }
    }
    vstd::seq_lib::seq_to_set_is_finite(o);
    vstd::set_lib::lemma_subset_equality(o.to_set(), range);
    assert forall|i: int| 0 <= i < keys.len() implies #[trigger] shown(order, i) by {
        assert(range.contains(i));
        assert(o.to_set().contains(i));
        let k = choose|k: int| 0 <= k < o.len() && o[k] == i;
        assert(order[k] == i);
    }
}

/// The key of an entry.
pub open spec fn listing_key(is_directory: bool, name: Seq<char>) -> ListingKey {
    ListingKey { is_directory, name: unicode_lowercase(name) }
}

/// Sorts entries given by folder flags and lower-case names.
fn key_less(da: bool, na: &Vec<char>, db: bool, nb: &Vec<char>) -> (r: bool)
    ensures
        r == key_lt(ListingKey { is_directory: da, name: na@ }, ListingKey { is_directory: db, name: nb@ }),
{
    if da && !db {
        true
    } else if da == db {
        text_less(na.as_slice(), nb.as_slice())
    } else {
        false
    }
}

/// The listing order of entries with these folder flags and names.
pub fn listing_order(dirs: &Vec<bool>, names: &Vec<String>) -> (order: Vec<usize>)
    requires
        dirs@.len() == names@.len(),
    ensures
        listing_order_of(
            Seq::new(dirs@.len(), |i: int| listing_key(dirs@[i], names@[i]@)),
            order@,
        ),
{
    let ghost keys = Seq::new(dirs@.len(), |i: int| listing_key(dirs@[i], names@[i]@));
    let n = dirs.len();
    let mut lower: Vec<Vec<char>> = Vec::new();
    let mut i: usize = 0;
    while i < n
        invariant
            n == dirs@.len(),
            n == names@.len(),
            i <= n,
            lower@.len() == i,
            forall|k: int| 0 <= k < i ==> (#[trigger] lower@[k])@ == unicode_lowercase(names@[k]@),
        decreases n - i,
    {
        let l = lowercase_text(names[i].as_str());
        lower.push(chars_of(l.as_str()));
        i = i + 1;
    }
    let mut order: Vec<usize> = Vec::new();
    let mut i: usize = 0;
    while i < n
        invariant
            n == dirs@.len(),
            n == names@.len(),
            n == lower@.len(),
            keys == Seq::new(dirs@.len(), |i: int| listing_key(dirs@[i], names@[i]@)),
            forall|k: int| 0 <= k < n ==> (#[trigger] lower@[k])@ == unicode_lowercase(names@[k]@),
            i <= n,
            order@.len() == i,
            forall|k: int| 0 <= k < order@.len() ==> order@[k] < i,
            forall|a: int, b: int|
                0 <= a < b < order@.len() ==> listed_before(keys, order@[a] as int, order@[b] as int),
        decreases n - i,
    {
        let mut pos: usize = 0;
        while pos < order.len() && !key_less(dirs[i], &lower[i], dirs[order[pos]], &lower[order[pos]])
            invariant
                n == dirs@.len(),
                n == lower@.len(),
                i < n,
                pos <= order@.len(),
                forall|k: int| 0 <= k < order@.len() ==> order@[k] < i,
                keys == Seq::new(dirs@.len(), |i: int| listing_key(dirs@[i], names@[i]@)),
                forall|k: int| 0 <= k < n ==> (#[trigger] lower@[k])@ == unicode_lowercase(names@[k]@),
                forall|a: int| 0 <= a < pos ==> !key_lt(keys[i as int], keys[order@[a] as int]),
            decreases order@.len() - pos,
        {
            assert(keys[i as int] == ListingKey { is_directory: dirs@[i as int], name: lower@[i as int]@ });
            pos = pos + 1;
        }
        proof {
            if pos < order@.len() {
                let o = order@[pos as int] as int;
                assert(keys[o] == ListingKey { is_directory: dirs@[o], name: lower@[o]@ });
                assert(keys[i as int] == ListingKey { is_directory: dirs@[i as int], name: lower@[i as int]@ });
                assert(key_lt(keys[i as int], keys[o]));
            }
        }
        let ghost before = order@;
        order.insert(pos, i);
        proof {
            assert forall|a: int, b: int| 0 <= a < b < order@.len() implies listed_before(
                keys,
                order@[a] as int,
                order@[b] as int,
            ) by {
                if a < pos && b < pos {
                    assert(order@[a] == before[a] && order@[b] == before[b]);
                } else if a < pos && b == pos {
                    let x = before[a] as int;
                    assert(order@[a] == before[a]);
                    lemma_key_total(keys[x], keys[i as int]);
                } else if a < pos && b > pos {
                    assert(order@[a] == before[a] && order@[b] == before[b - 1]);
                } else if a == pos {
                    let y = before[b - 1] as int;
                    let o = before[pos as int] as int;
                    assert(order@[b] == before[b - 1]);
                    if b - 1 > pos {
                        assert(listed_before(keys, o, y));
                    }
                    lemma_key_lt_trans(keys[i as int], keys[o], keys[y]);
                } else {
                    assert(order@[a] == before[a - 1] && order@[b] == before[b - 1]);
                }
            }
        }
        i = i + 1;
    }
    order
}

// ---------------------------------------------------------------------------
// Entries
// ---------------------------------------------------------------------------

/// A file or folder on the server.
#[derive(Debug)]
pub struct RemoteEntry {
    pub name: String,
    pub path: String,
    pub is_directory: bool,
    pub size: u64,
    pub modified: u64,
    pub permissions: u32,
}

/// The value a [`RemoteEntry`] stands for.
pub struct RemoteEntryView {
    pub name: Seq<char>,
    pub path: Seq<char>,
    pub is_directory: bool,
    pub size: u64,
    pub modified: u64,
    pub permissions: u32,
}

impl View for RemoteEntry {
    type V = RemoteEntryView;

    open spec fn view(&self) -> RemoteEntryView {
        RemoteEntryView {
            name: self.name@,
            path: self.path@,
            is_directory: self.is_directory,
            size: self.size,
            modified: self.modified,
            permissions: self.permissions,
        }
    }
}

impl RemoteEntry {
    /// A field-by-field copy.
    pub fn copy_of(&self) -> (r: RemoteEntry)
        ensures
            r@ == self@,
    {
        RemoteEntry {
            name: self.name.clone(),
            path: self.path.clone(),
            is_directory: self.is_directory,
            size: self.size,
            modified: self.modified,
            permissions: self.permissions,
        }
    }
}

/// The entry for a remote `path` with the attributes the server gave: its
/// name is the path's file name, the path is shown with `/`, absent
/// attributes count as 0, and the mode tells folders. The path is read by
/// the path rules of `style`.
pub fn remote_entry(style: PathStyle, path: &str, size: Option<u64>, mtime: Option<u64>, perm: Option<u32>) -> (r:
    RemoteEntry)
    ensures
        r@ == (RemoteEntryView {
            name: file_name_or_empty(style, path@),
            path: replace_char(path@, '\\', '/'),
            is_directory: is_directory_mode_spec(perm),
            size: match size {
                Some(v) => v,
                None => 0,
            },
            modified: match mtime {
                Some(v) => v,
                None => 0,
            },
            permissions: match perm {
                Some(v) => v,
                None => 0,
            },
        }),
{
    RemoteEntry {
        name: match file_name_text(style, path) {
            Some(n) => n,
            None => String::new(),
        },
        path: replaced_char(path, '\\', '/'),
        is_directory: is_directory_mode(perm),
        size: match size {
            Some(v) => v,
            None => 0,
        },
        modified: match mtime {
            Some(v) => v,
            None => 0,
        },
        permissions: match perm {
            Some(v) => v,
            None => 0,
        },
    }
}

/// The views of a list of remote entries.
pub open spec fn remote_views(s: Seq<RemoteEntry>) -> Seq<RemoteEntryView> {
    s.map_values(|e: RemoteEntry| e@)
}

/// The keys of a list of remote entries.
pub open spec fn remote_keys(s: Seq<RemoteEntryView>) -> Seq<ListingKey> {
    s.map_values(|e: RemoteEntryView| listing_key(e.is_directory, e.name))
}

/// Remote entries in listing order: folders first, then by name without
/// regard to case, entries that compare equal keeping their order.
pub fn sort_remote_entries(entries: &Vec<RemoteEntry>) -> (r: Vec<RemoteEntry>)
    ensures
        exists|order: Seq<usize>|
            #![trigger listing_order_of(remote_keys(remote_views(entries@)), order)]
            listing_order_of(remote_keys(remote_views(entries@)), order) && remote_views(r@)
                == order.map_values(|k: usize| remote_views(entries@)[k as int]),
{
    let mut dirs: Vec<bool> = Vec::new();
    let mut names: Vec<String> = Vec::new();
    let mut i: usize = 0;
    while i < entries.len()
        invariant
            i <= entries@.len(),
            dirs@.len() == i,
            names@.len() == i,
            forall|k: int| 0 <= k < i ==> dirs@[k] == entries@[k].is_directory,
            forall|k: int| 0 <= k < i ==> (#[trigger] names@[k])@ == entries@[k].name@,
        decreases entries@.len() - i,
    {
        dirs.push(entries[i].is_directory);
        names.push(entries[i].name.clone());
        i = i + 1;
    }
    let order = listing_order(&dirs, &names);
    let ghost keys = Seq::new(dirs@.len(), |i: int| listing_key(dirs@[i], names@[i]@));
    assert(keys =~= remote_keys(remote_views(entries@)));
    let mut r: Vec<RemoteEntry> = Vec::new();
    let mut k: usize = 0;
    while k < order.len()
        invariant
            k <= order@.len(),
            order@.len() == entries@.len(),
            forall|j: int| 0 <= j < order@.len() ==> order@[j] < entries@.len(),
            r@.len() == k,
            forall|j: int| 0 <= j < k ==> (#[trigger] r@[j])@ == entries@[order@[j] as int]@,
        decreases order@.len() - k,
    {
        r.push(entries[order[k]].copy_of());
        k = k + 1;
    }
    assert(remote_views(r@) =~= order@.map_values(|k: usize| remote_views(entries@)[k as int]));
    r
}

/// A file or folder on this computer.
#[derive(Debug)]
pub struct LocalEntry {
    pub name: String,
    pub path: String,
    pub is_directory: bool,
    pub size: u64,
    pub modified: u64,
}

/// The value a [`LocalEntry`] stands for.
pub struct LocalEntryView {
    pub name: Seq<char>,
    pub path: Seq<char>,
    pub is_directory: bool,
    pub size: u64,
    pub modified: u64,
}

impl View for LocalEntry {
    type V = LocalEntryView;

    open spec fn view(&self) -> LocalEntryView {
        LocalEntryView {
            name: self.name@,
            path: self.path@,
            is_directory: self.is_directory,
            size: self.size,
            modified: self.modified,
        }
    }
}

impl LocalEntry {
    /// A field-by-field copy.
    pub fn copy_of(&self) -> (r: LocalEntry)
        ensures
            r@ == self@,
    {
        LocalEntry {
            name: self.name.clone(),
            path: self.path.clone(),
            is_directory: self.is_directory,
            size: self.size,
            modified: self.modified,
        }
    }
}

/// The entry for a local file named `name` at `path`; its modification time
/// in whole seconds from the Unix epoch counts as 0 when it is unknown or
/// earlier.
pub fn local_entry(
    name: &str,
    path: &str,
    is_directory: bool,
    size: u64,
    modified_secs: Option<u64>,
) -> (r: LocalEntry)
    ensures
        r@ == (LocalEntryView {
            name: name@,
            path: local_path_notation(path@),
            is_directory,
            size,
            modified: match modified_secs {
                Some(v) => v,
                None => 0,
            },
        }),
{
    LocalEntry {
        name: text(name),
        path: display_local_path(path),
        is_directory,
        size,
        modified: match modified_secs {
            Some(v) => v,
            None => 0,
        },
    }
}

/// The views of a list of local entries.
pub open spec fn local_views(s: Seq<LocalEntry>) -> Seq<LocalEntryView> {
    s.map_values(|e: LocalEntry| e@)
}

/// The keys of a list of local entries.
pub open spec fn local_keys(s: Seq<LocalEntryView>) -> Seq<ListingKey> {
    s.map_values(|e: LocalEntryView| listing_key(e.is_directory, e.name))
}

/// Local entries in listing order (see [`sort_remote_entries`]).
pub fn sort_local_entries(entries: &Vec<LocalEntry>) -> (r: Vec<LocalEntry>)
    ensures
        exists|order: Seq<usize>|
            #![trigger listing_order_of(local_keys(local_views(entries@)), order)]
            listing_order_of(local_keys(local_views(entries@)), order) && local_views(r@)
                == order.map_values(|k: usize| local_views(entries@)[k as int]),
{
    let mut dirs: Vec<bool> = Vec::new();
    let mut names: Vec<String> = Vec::new();
    let mut i: usize = 0;
    while i < entries.len()
        invariant
            i <= entries@.len(),
            dirs@.len() == i,
            names@.len() == i,
            forall|k: int| 0 <= k < i ==> dirs@[k] == entries@[k].is_directory,
            forall|k: int| 0 <= k < i ==> (#[trigger] names@[k])@ == entries@[k].name@,
        decreases entries@.len() - i,
    {
        dirs.push(entries[i].is_directory);
        names.push(entries[i].name.clone());
        i = i + 1;
    }
    let order = listing_order(&dirs, &names);
    let ghost keys = Seq::new(dirs@.len(), |i: int| listing_key(dirs@[i], names@[i]@));
    assert(keys =~= local_keys(local_views(entries@)));
    let mut r: Vec<LocalEntry> = Vec::new();
    let mut k: usize = 0;
    while k < order.len()
        invariant
            k <= order@.len(),
            order@.len() == entries@.len(),
            forall|j: int| 0 <= j < order@.len() ==> order@[j] < entries@.len(),
            r@.len() == k,
            forall|j: int| 0 <= j < k ==> (#[trigger] r@[j])@ == entries@[order@[j] as int]@,
        decreases order@.len() - k,
    {
        r.push(entries[order[k]].copy_of());
        k = k + 1;
    }
    assert(local_views(r@) =~= order@.map_values(|k: usize| local_views(entries@)[k as int]));
    r
}

// ---------------------------------------------------------------------------
// Requested folders
// ---------------------------------------------------------------------------

/// The remote folder to list: the given path trimmed, or `.` (the login
/// folder) when it is blank.
pub fn requested_remote_folder(path: &str) -> (r: String)
    ensures
        blank(path@) ==> r@ == "."@,
        !blank(path@) ==> r@ == trim(path@),
{
    if is_blank(path) {
        text(".")
    } else {
        trimmed(path)
    }
}

/// The local folder to list: the given path trimmed, or, when it is blank,
/// the user's profile folder, or `C:\` when that is unknown.
pub fn requested_local_folder(path: &str, user_profile: Option<String>) -> (r: String)
    ensures
        blank(path@) ==> r@ == match user_profile {
            Some(p) => p@,
            None => "C:\\"@,
        },
        !blank(path@) ==> r@ == trim(path@),
{
    if is_blank(path) {
        match user_profile {
            Some(p) => p,
            None => text("C:\\"),
        }
    } else {
        trimmed(path)
    }
}

/// The user's home folder: the profile folder, else the home folder, else `.`.
pub fn local_home(user_profile: Option<String>, home: Option<String>) -> (r: String)
    ensures
        r@ == match (user_profile, home) {
            (Some(p), _) => p@,
            (None, Some(h)) => h@,
            (None, None) => "."@,
        },
{
    match user_profile {
        Some(p) => p,
        None => match home {
            Some(h) => h,
            None => text("."),
        },
    }
}

} // verus!
