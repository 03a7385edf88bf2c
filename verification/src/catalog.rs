//! The directory catalog: what a listing shows, in which order, and when an
//! emptied directory is pruned.
//!
//! The caller reads the directory; the catalog arranges what was found by
//! name, ignoring case. A directory that does not exist lists as empty. A
//! directory that lies strictly inside the sandbox and turns out to be
//! empty is not shown but pruned: the caller removes it and shows nothing.

use vstd::prelude::*;
use crate::order::{
    indices, is_arrangement, is_ordered, lemma_stable_order_is_sorted, lex_le, order_by_keys,
    stable_order, texts,
};
use crate::sandbox::{strictly_confined, PathSandbox};
use crate::sanitize::{sanitize_path, sanitized_path};
use crate::text::chars_of;

verus! {

/// One file or directory of a listing.
#[derive(Debug, PartialEq, Eq)]
pub struct CatalogEntry {
    /// The name of the file or directory.
    pub name: String,
    /// The path at which it is found.
    pub path: String,
}

/// An entry together with the key by which it is ordered.
#[derive(Debug, PartialEq, Eq)]
pub struct KeyedEntry {
    /// The key: the entry's name in lower case.
    pub key: String,
    /// The entry.
    pub entry: CatalogEntry,
}

/// What a listing comes to.
#[derive(Debug, PartialEq, Eq)]
pub enum Listing {
    /// The directory is empty and lies strictly inside the sandbox: it is
    /// removed, and nothing is shown.
    Prune,
    /// The entries to show, in order.
    Show(Vec<CatalogEntry>),
}

/// `s` in lower case, as `str::to_lowercase` gives it.
pub uninterp spec fn lowercase(s: Seq<char>) -> Seq<char>;

/// The keys by which `entries` are ordered: their names in lower case.
pub open spec fn name_keys(entries: Seq<CatalogEntry>) -> Seq<Seq<char>> {
    Seq::new(entries.len(), |i: int| lowercase(entries[i].name@))
}

/// The keys that `items` carry.
pub open spec fn carried_keys(items: Seq<KeyedEntry>) -> Seq<Seq<char>> {
    Seq::new(items.len(), |i: int| items[i].key@)
}

/// The entries that `items` carry.
pub open spec fn carried_entries(items: Seq<KeyedEntry>) -> Seq<CatalogEntry> {
    Seq::new(items.len(), |i: int| items[i].entry)
}

/// `entries` taken in the given order.
pub open spec fn arranged(entries: Seq<CatalogEntry>, order: Seq<int>) -> Seq<CatalogEntry> {
    Seq::new(order.len(), |k: int| entries[order[k]])
}

/// `entries` ordered by name, ignoring case; entries whose names differ in
/// case only keep the order in which they were found.
pub open spec fn listed(entries: Seq<CatalogEntry>) -> Seq<CatalogEntry> {
    arranged(entries, stable_order(name_keys(entries)))
}

/// Whether the directory at `path` is pruned: it was read, it holds
/// nothing, and it lies strictly inside the sandbox rooted at `root`.
pub open spec fn is_pruned(
    root: Seq<char>,
    path: Seq<char>,
    found: Option<Vec<CatalogEntry>>,
) -> bool {
    found matches Some(entries) && entries.len() == 0 && strictly_confined(root, path)
}

/// What is shown of the directory: what was found in it, in order, and
/// nothing where it could not be read.
pub open spec fn shown(found: Option<Vec<CatalogEntry>>) -> Seq<CatalogEntry> {
    match found {
        Some(entries) => listed(entries@),
        None => Seq::empty(),
    }
}

/// The lower-case form of `s`.
///
/// Trusted: calls `str::to_lowercase` of the standard library. The
/// contract claims only that the result is a function of the text, named
/// [`lowercase`].
#[verifier::external_body]
fn to_lowercase(s: &str) -> (lower: String)
    ensures
        lower@ == lowercase(s@),
{
    s.to_lowercase()
}

/// The path that is looked up for a client's request: the request with
/// every character that a path may not hold replaced.
pub fn lookup_path(requested: &str) -> (path: String)
    ensures
        path@ == sanitized_path(requested@),
{
    sanitize_path(requested)
}

fn copy_entry(entry: &CatalogEntry) -> (copy: CatalogEntry)
    ensures
        copy == *entry,
{
    CatalogEntry { name: entry.name.clone(), path: entry.path.clone() }
}

/// Orders entries by the keys they carry, ascending; entries with equal
/// keys keep their order.
pub fn sort_keyed(items: &Vec<KeyedEntry>) -> (sorted: Vec<CatalogEntry>)
    ensures
        sorted@ == arranged(carried_entries(items@), stable_order(carried_keys(items@))),
{
    let mut keys: Vec<Vec<char>> = Vec::new();
    let mut i: usize = 0;
    while i < items.len()
        invariant
            i <= items.len(),
            keys.len() == i,
            forall|k: int| 0 <= k < i ==> (#[trigger] keys[k])@ == items[k].key@,
        decreases items.len() - i,
    {
        keys.push(chars_of(items[i].key.as_str()));
        i = i + 1;
    }
    assert(texts(keys@) =~= carried_keys(items@));
    let order = order_by_keys(&keys);
    let mut sorted: Vec<CatalogEntry> = Vec::new();
    let mut k: usize = 0;
    while k < order.len()
        invariant
            k <= order.len(),
            sorted.len() == k,
            order.len() == items.len(),
            forall|j: int| 0 <= j < order.len() ==> #[trigger] order[j] < items.len(),
            forall|j: int| 0 <= j < k ==> #[trigger] sorted[j] == items[order[j] as int].entry,
        decreases order.len() - k,
    {
        sorted.push(copy_entry(&items[order[k]].entry));
        k = k + 1;
    }
    assert(sorted@ =~= arranged(carried_entries(items@), indices(order@)));
    sorted
}

/// Orders the entries of a listing by name, ignoring case.
pub fn sort_entries(entries: &Vec<CatalogEntry>) -> (sorted: Vec<CatalogEntry>)
    ensures
        sorted@ == listed(entries@),
{
    let mut items: Vec<KeyedEntry> = Vec::new();
    let mut i: usize = 0;
    while i < entries.len()
        invariant
            i <= entries.len(),
            items.len() == i,
            forall|k: int|
                0 <= k < i ==> (#[trigger] items[k]).key@ == lowercase(entries[k].name@)
                    && items[k].entry == entries[k],
        decreases entries.len() - i,
    {
        let key = to_lowercase(entries[i].name.as_str());
        items.push(KeyedEntry { key, entry: copy_entry(&entries[i]) });
        i = i + 1;
    }
    assert(carried_keys(items@) =~= name_keys(entries@));
    assert(carried_entries(items@) =~= entries@);
    sort_keyed(&items)
}

/// Makes the listing of the directory at `path` from what was found in
/// it; `None` stands for a directory that does not exist or cannot be
/// read. An empty directory strictly inside the sandbox is pruned,
/// anything else is shown in order.
pub fn list_directory(
    sandbox: &PathSandbox,
    path: &str,
    found: &Option<Vec<CatalogEntry>>,
) -> (listing: Listing)
    ensures
        match listing {
            Listing::Prune => is_pruned(sandbox@, path@, *found),
            Listing::Show(entries) => !is_pruned(sandbox@, path@, *found) && entries@ == shown(
                *found,
            ),
        },
{
    match found {
        None => Listing::Show(Vec::new()),
        Some(entries) => {
            if entries.len() == 0 && sandbox.holds_strictly(path) {
                Listing::Prune
            } else {
                Listing::Show(sort_entries(entries))
            }
        },
    }
}

/// A listing shows each entry that was found exactly once, with names
/// ascending once case is ignored.
pub proof fn lemma_listing_is_sorted(entries: Seq<CatalogEntry>)
    ensures
        listed(entries).len() == entries.len(),
        is_arrangement(stable_order(name_keys(entries)), entries.len()),
        is_ordered(stable_order(name_keys(entries)), name_keys(entries)),
        forall|a: int, b: int|
            0 <= a < b < entries.len() ==> lex_le(
                lowercase(#[trigger] listed(entries)[a].name@),
                lowercase(#[trigger] listed(entries)[b].name@),
            ),
{
    let keys = name_keys(entries);
    let order = stable_order(keys);
    lemma_stable_order_is_sorted(keys, keys.len());
    assert forall|a: int, b: int| 0 <= a < b < entries.len() implies lex_le(
        lowercase(#[trigger] listed(entries)[a].name@),
        lowercase(#[trigger] listed(entries)[b].name@),
    ) by {
        assert(crate::order::may_precede(keys, order[a], order[b]));
    }
}

/// The order of a listing is fixed by these two rules: names ascend once
/// case is ignored, and names that differ in case only stay in the order
/// in which they were found.
pub proof fn lemma_listing_order_is_fixed(entries: Seq<CatalogEntry>, order: Seq<int>)
    requires
        is_arrangement(order, entries.len()),
        is_ordered(order, name_keys(entries)),
    ensures
        arranged(entries, order) == listed(entries),
{
    crate::order::lemma_stable_order_is_the_only_one(name_keys(entries), entries.len(), order);
}

/// The root of the sandbox is never pruned, however empty, and neither is
/// a directory outside it, nor one that does not exist.
pub proof fn lemma_root_is_never_pruned(
    root: Seq<char>,
    path: Seq<char>,
    found: Option<Vec<CatalogEntry>>,
)
    requires
        crate::sandbox::collapsed(path) == root || !crate::sandbox::confined(root, path)
            || found is None,
    ensures
        !is_pruned(root, path, found),
{
}

/// The directory of an accepted label is pruned once it is empty,
/// provided the root holds no doubled separator.
pub proof fn lemma_emptied_label_directory_is_pruned(
    root: Seq<char>,
    raw_label: Seq<char>,
    found: Option<Vec<CatalogEntry>>,
)
    requires
        crate::sandbox::no_doubled_separator(root),
        raw_label.len() > 0,
        found matches Some(entries) && entries.len() == 0,
    ensures
        is_pruned(
            root,
            crate::archive::label_directory(root, crate::sanitize::sanitized_label(raw_label)),
            found,
        ),
{
    crate::archive::lemma_accepted_label_is_archived_inside(
        root,
        raw_label,
        crate::archive::Timestamp { year: 0, month: 0, day: 0, hour: 0, minute: 0, second: 0 },
    );
}

} // verus!
