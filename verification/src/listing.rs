//! The files of an included directory: which of them are read, and in what
//! order.
use crate::text::{chars_of, ends_with, views, Text};
use vstd::prelude::*;

verus! {

/// An entry of a directory in specifications: its path, and whether it is a
/// file.
pub type Entry = (Text, bool);

/// Whether `a` comes before `b` or equals it from index `i` on, where both
/// agree before `i`: texts are ordered character by character, and a prefix
/// comes first.
pub open spec fn ordered_from(a: Text, b: Text, i: int) -> bool
    decreases a.len() - i,
{
    if i >= a.len() {
        true
    } else if i >= b.len() {
        false
    } else if (a[i] as u32) < (b[i] as u32) {
        true
    } else if (a[i] as u32) > (b[i] as u32) {
        false
    } else {
        ordered_from(a, b, i + 1)
    }
}

/// Whether `a` comes before `b` or equals it.
pub open spec fn ordered(a: Text, b: Text) -> bool {
    ordered_from(a, b, 0)
}

/// Where `path` goes into `sorted`, looking from index `from` on: before the
/// first entry that comes strictly after it.
pub open spec fn insert_pos(sorted: Seq<Entry>, path: Text, from: int) -> int
    decreases sorted.len() - from,
{
    if from >= sorted.len() {
        sorted.len() as int
    } else if ordered(sorted[from].0, path) {
        insert_pos(sorted, path, from + 1)
    } else {
        from
    }
}

/// The first `n` of `entries`, ordered by path; entries of one path keep
/// their order.
pub open spec fn sorted_upto(entries: Seq<Entry>, n: int) -> Seq<Entry>
    decreases n,
{
    if n <= 0 {
        Seq::empty()
    } else {
        let before = sorted_upto(entries, n - 1);
        before.insert(insert_pos(before, entries[n - 1].0, 0), entries[n - 1])
    }
}

/// `entries` ordered by path.
pub open spec fn sorted_entries(entries: Seq<Entry>) -> Seq<Entry> {
    sorted_upto(entries, entries.len() as int)
}

/// Where the last component of `s[..n]` starts.
pub open spec fn base_start(s: Text, n: int) -> int
    decreases n,
{
    if n > 0 && s[n - 1] != '/' {
        base_start(s, n - 1)
    } else {
        n
    }
}

/// Whether a file of this path may be included: its name ends in `.ini` and
/// its last component does not begin with a dot.
pub open spec fn includable_name(path: Text) -> bool {
    let base = base_start(path, path.len() as int);
    ".ini"@.is_suffix_of(path) && !(0 <= base < path.len() && path[base] == '.')
}

/// Whether this entry of a directory is included: it is a file, and its name
/// may be included.
pub open spec fn includable(entry: Entry) -> bool {
    entry.1 && includable_name(entry.0)
}

/// The paths of the first `n` of `entries` that are included.
pub open spec fn selected_upto(entries: Seq<Entry>, n: int) -> Seq<Text>
    decreases n,
{
    if n <= 0 {
        Seq::empty()
    } else if includable(entries[n - 1]) {
        selected_upto(entries, n - 1).push(entries[n - 1].0)
    } else {
        selected_upto(entries, n - 1)
    }
}

/// The files of a directory that are read, in the order in which they are
/// read: those that are included, by ascending path.
pub open spec fn included_files(entries: Seq<Entry>) -> Seq<Text> {
    selected_upto(sorted_entries(entries), entries.len() as int)
}

/// The view of a list of entries.
pub open spec fn entries_view(v: Seq<(Vec<char>, bool)>) -> Seq<Entry> {
    Seq::new(v.len(), |i: int| (v[i].0@, v[i].1))
}

/// The view of a directory listing.
pub open spec fn listing_view(v: Seq<(String, bool)>) -> Seq<Entry> {
    Seq::new(v.len(), |i: int| (v[i].0@, v[i].1))
}

/// Whether `a` comes before `b` or equals it.
pub fn in_order(a: &Vec<char>, b: &Vec<char>) -> (r: bool)
    ensures
        r == ordered(a@, b@),
{
    let mut i: usize = 0;
    while i < a.len()
        invariant
            i <= a.len(),
            ordered(a@, b@) == ordered_from(a@, b@, i as int),
        decreases a.len() - i,
    {
        if i >= b.len() {
            return false;
        }
        let x: u32 = a[i] as u32;
        let y: u32 = b[i] as u32;
        if x < y {
            return true;
        }
        if x > y {
            return false;
        }
        i += 1;
    }
    true
}

/// The sorted entries have the length of the input.
pub proof fn lemma_sorted_len(entries: Seq<Entry>, n: int)
    requires
        0 <= n <= entries.len(),
    ensures
        sorted_upto(entries, n).len() == n,
    decreases n,
{
    if n > 0 {
        lemma_sorted_len(entries, n - 1);
        lemma_insert_pos_bounds(sorted_upto(entries, n - 1), entries[n - 1].0, 0);
    }
}

/// The place of an insertion lies in the sequence or at its end.
pub proof fn lemma_insert_pos_bounds(sorted: Seq<Entry>, path: Text, from: int)
    requires
        0 <= from <= sorted.len(),
    ensures
        from <= insert_pos(sorted, path, from) <= sorted.len(),
        forall|j: int| from <= j < insert_pos(sorted, path, from) ==> ordered(sorted[j].0, path),
        insert_pos(sorted, path, from) < sorted.len() ==> !ordered(
            sorted[insert_pos(sorted, path, from)].0,
            path,
        ),
    decreases sorted.len() - from,
{
    if from < sorted.len() && ordered(sorted[from].0, path) {
        lemma_insert_pos_bounds(sorted, path, from + 1);
    }
}

/// The entries of a directory listing, ordered by path.
pub fn sort_entries(entries: &Vec<(String, bool)>) -> (out: Vec<(Vec<char>, bool)>)
    ensures
        entries_view(out@) == sorted_entries(listing_view(entries@)),
{
    let ghost input = listing_view(entries@);
    let mut out: Vec<(Vec<char>, bool)> = Vec::new();
    let mut n: usize = 0;
    assert(entries_view(out@) =~= sorted_upto(input, 0));
    while n < entries.len()
        invariant
            n <= entries.len(),
            input == listing_view(entries@),
            entries_view(out@) == sorted_upto(input, n as int),
            out.len() == n,
        decreases entries.len() - n,
    {
        let path = chars_of(entries[n].0.as_str());
        let is_file = entries[n].1;
        assert(input[n as int] == (path@, is_file));
        let ghost before = entries_view(out@);
        let mut at: usize = 0;
        while at < out.len() && in_order(&out[at].0, &path)
            invariant
                at <= out.len(),
                before == entries_view(out@),
                insert_pos(before, path@, 0) == insert_pos(before, path@, at as int),
            decreases out.len() - at,
        {
            assert(before[at as int].0 == out@[at as int].0@);
            at += 1;
        }
        assert(at < out.len() ==> before[at as int].0 == out@[at as int].0@);
        out.insert(at, (path, is_file));
        assert(entries_view(out@) =~= before.insert(at as int, (path@, is_file)));
        n += 1;
    }
    out
}

/// Where the last component of `v` starts.
pub fn base_of(v: &Vec<char>) -> (at: usize)
    ensures
        at == base_start(v@, v.len() as int),
        at <= v.len(),
{
    let mut n: usize = v.len();
    while n > 0 && v[n - 1] != '/'
        invariant
            n <= v.len(),
            base_start(v@, v.len() as int) == base_start(v@, n as int),
        decreases n,
    {
        n -= 1;
    }
    n
}

/// Whether a file of this path may be included, by its name.
pub fn can_include_file_pattern(file: &str) -> (r: bool)
    ensures
        r == includable_name(file@),
{
    let path = chars_of(file);
    if !ends_with(&path, &chars_of(".ini")) {
        return false;
    }
    let base = base_of(&path);
    !(base < path.len() && path[base] == '.')
}

/// Whether an entry of a directory is included: `is_file` says whether the
/// path is that of a file.
pub fn can_dir_include(file: &str, is_file: bool) -> (r: bool)
    ensures
        r == includable((file@, is_file)),
{
    if !is_file {
        return false;
    }
    can_include_file_pattern(file)
}

/// The files of a directory listing that are read, in the order in which
/// they are read.
pub fn files_to_include(entries: &Vec<(String, bool)>) -> (out: Vec<Vec<char>>)
    ensures
        views(out@) == included_files(listing_view(entries@)),
{
    let sorted = sort_entries(entries);
    let ghost all = entries_view(sorted@);
    proof {
        lemma_sorted_len(listing_view(entries@), entries.len() as int);
    }
    let mut out: Vec<Vec<char>> = Vec::new();
    let mut n: usize = 0;
    assert(views(out@) =~= selected_upto(all, 0));
    while n < sorted.len()
        invariant
            n <= sorted.len(),
            all == entries_view(sorted@),
            views(out@) == selected_upto(all, n as int),
        decreases sorted.len() - n,
    {
        assert(all[n as int] == (sorted@[n as int].0@, sorted@[n as int].1));
        let name = crate::text::string_of(&sorted[n].0);
        if can_dir_include(name.as_str(), sorted[n].1) {
            let ghost before = out@;
            let copy = crate::text::slice_of(&sorted[n].0, 0, sorted[n].0.len());
            assert(copy@ == sorted@[n as int].0@) by {
                assert(sorted@[n as int].0@.subrange(0, sorted@[n as int].0@.len() as int)
                    == sorted@[n as int].0@);
            }
            out.push(copy);
            assert(views(out@) =~= views(before).push(copy@));
        }
        n += 1;
    }
    out
}

/// Of two texts one comes before the other or equals it.
pub proof fn lemma_ordered_total(a: Text, b: Text, i: int)
    requires
        0 <= i,
    ensures
        ordered_from(a, b, i) || ordered_from(b, a, i),
    decreases a.len() - i,
{
    if i < a.len() && i < b.len() && (a[i] as u32) == (b[i] as u32) {
        lemma_ordered_total(a, b, i + 1);
    }
}

/// The order of texts is transitive.
pub proof fn lemma_ordered_transitive(a: Text, b: Text, c: Text, i: int)
    requires
        0 <= i,
        ordered_from(a, b, i),
        ordered_from(b, c, i),
    ensures
        ordered_from(a, c, i),
    decreases a.len() - i,
{
    if i < a.len() && i < b.len() && i < c.len() && (a[i] as u32) == (b[i] as u32) && (b[i] as u32)
        == (c[i] as u32) {
        lemma_ordered_transitive(a, b, c, i + 1);
    }
}

/// Whether the entries stand by ascending path.
pub open spec fn ascending(entries: Seq<Entry>) -> bool {
    forall|i: int, j: int|
        0 <= i < j < entries.len() ==> ordered((#[trigger] entries[i]).0, (#[trigger] entries[j]).0)
}

/// Whether the paths stand in ascending order.
pub open spec fn ascending_paths(paths: Seq<Text>) -> bool {
    forall|i: int, j: int| 0 <= i < j < paths.len() ==> ordered(#[trigger] paths[i], #[trigger] paths[j])
}

/// An entry that goes into its place among ascending entries leaves them
/// ascending.
pub proof fn lemma_insert_keeps_ascending(sorted: Seq<Entry>, entry: Entry)
    requires
        ascending(sorted),
    ensures
        ascending(sorted.insert(insert_pos(sorted, entry.0, 0), entry)),
{
    let at = insert_pos(sorted, entry.0, 0);
    lemma_insert_pos_bounds(sorted, entry.0, 0);
    let out = sorted.insert(at, entry);
    assert forall|i: int, j: int| 0 <= i < j < out.len() implies ordered(
        (#[trigger] out[i]).0,
        (#[trigger] out[j]).0,
    ) by {
        if i == at {
            let next = sorted[at];
            assert(out[j] == sorted[j - 1]);
            lemma_ordered_total(next.0, entry.0, 0);
            if j - 1 > at {
                assert(ordered(sorted[at].0, sorted[j - 1].0));
                lemma_ordered_transitive(entry.0, next.0, sorted[j - 1].0, 0);
            }
        } else if j == at {
            assert(out[i] == sorted[i]);
        } else if i < at && j < at {
            assert(out[i] == sorted[i] && out[j] == sorted[j]);
        } else if i < at {
            assert(out[i] == sorted[i] && out[j] == sorted[j - 1]);
        } else {
            assert(out[i] == sorted[i - 1] && out[j] == sorted[j - 1]);
        }
    }
}

/// The sorted entries stand by ascending path.
pub proof fn lemma_sorted_ascending(entries: Seq<Entry>, n: int)
    requires
        0 <= n <= entries.len(),
    ensures
        ascending(sorted_upto(entries, n)),
    decreases n,
{
    if n > 0 {
        lemma_sorted_ascending(entries, n - 1);
        lemma_insert_keeps_ascending(sorted_upto(entries, n - 1), entries[n - 1]);
    }
}

/// Every path that is selected is the path of an entry that came before.
pub proof fn lemma_selected_from(entries: Seq<Entry>, n: int, k: int)
    requires
        0 <= n <= entries.len(),
        0 <= k < selected_upto(entries, n).len(),
    ensures
        exists|i: int| 0 <= i < n && (#[trigger] entries[i]).0 == selected_upto(entries, n)[k],
    decreases n,
{
    if n > 0 {
        let before = selected_upto(entries, n - 1);
        if k < before.len() {
            lemma_selected_from(entries, n - 1, k);
            let i = choose|i: int| 0 <= i < n - 1 && (#[trigger] entries[i]).0 == before[k];
            assert(entries[i].0 == selected_upto(entries, n)[k]);
        } else {
            assert(entries[n - 1].0 == selected_upto(entries, n)[k]);
        }
    }
}

/// A selection from ascending entries is ascending.
pub proof fn lemma_selected_ascending(entries: Seq<Entry>, n: int)
    requires
        0 <= n <= entries.len(),
        ascending(entries),
    ensures
        ascending_paths(selected_upto(entries, n)),
    decreases n,
{
    if n > 0 {
        lemma_selected_ascending(entries, n - 1);
        let before = selected_upto(entries, n - 1);
        let now = selected_upto(entries, n);
        assert forall|i: int, j: int| 0 <= i < j < now.len() implies ordered(
            #[trigger] now[i],
            #[trigger] now[j],
        ) by {
            if j < before.len() {
                assert(now[i] == before[i] && now[j] == before[j]);
            } else {
                assert(now[i] == before[i]);
                lemma_selected_from(entries, n - 1, i);
                let k = choose|k: int| 0 <= k < n - 1 && (#[trigger] entries[k]).0 == before[i];
                assert(ordered(entries[k].0, entries[n - 1].0));
            }
        }
    }
}

/// The files of an included directory are read by ascending path.
pub proof fn lemma_included_files_ascending(entries: Seq<Entry>)
    ensures
        ascending_paths(included_files(entries)),
{
    lemma_sorted_len(entries, entries.len() as int);
    lemma_sorted_ascending(entries, entries.len() as int);
    lemma_selected_ascending(sorted_entries(entries), entries.len() as int);
}

/// Every file that is read from an included directory is an entry of that
/// directory that is a file and has a name that may be included.
pub proof fn lemma_selected_are_includable(entries: Seq<Entry>, n: int, k: int)
    requires
        0 <= n <= entries.len(),
        0 <= k < selected_upto(entries, n).len(),
    ensures
        exists|i: int|
            0 <= i < n && includable(#[trigger] entries[i]) && entries[i].0 == selected_upto(
                entries,
                n,
            )[k],
    decreases n,
{
    if n > 0 {
        let before = selected_upto(entries, n - 1);
        if k < before.len() {
            lemma_selected_are_includable(entries, n - 1, k);
            let i = choose|i: int|
                0 <= i < n - 1 && includable(#[trigger] entries[i]) && entries[i].0 == before[k];
            assert(includable(entries[i]) && entries[i].0 == selected_upto(entries, n)[k]);
        } else {
            assert(includable(entries[n - 1]) && entries[n - 1].0 == selected_upto(entries, n)[k]);
        }
    }
}

/// Sorting loses and adds nothing: the sorted entries are the entries, each
/// as often as it was listed.
pub proof fn lemma_sorted_is_permutation(entries: Seq<Entry>, n: int)
    requires
        0 <= n <= entries.len(),
    ensures
        sorted_upto(entries, n).to_multiset() == entries.subrange(0, n).to_multiset(),
    decreases n,
{
    if n > 0 {
        let before = sorted_upto(entries, n - 1);
        let at = insert_pos(before, entries[n - 1].0, 0);
        lemma_sorted_is_permutation(entries, n - 1);
        lemma_insert_pos_bounds(before, entries[n - 1].0, 0);
        vstd::seq_lib::to_multiset_insert(before, at, entries[n - 1]);
        vstd::seq_lib::to_multiset_build(entries.subrange(0, n - 1), entries[n - 1]);
        assert(entries.subrange(0, n - 1).push(entries[n - 1]) =~= entries.subrange(0, n));
    } else {
        assert(sorted_upto(entries, n) =~= entries.subrange(0, n));
    }
}

} // verus!
