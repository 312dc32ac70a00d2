//! The command line of a request, and the search for its binary.
use crate::request::{located_view, Located, Request, RunOptions};
use crate::rule::{EnvOptions, Rule};
use crate::text::{
    append, chars_of, is_text, join, replace, replaced, same, split, split_at_char, string_of,
    string_views, trim, trim_bounds, views, Text,
};
use vstd::prelude::*;

verus! {

/// The paths that exist, as far as the caller has looked.
#[derive(Clone, Debug)]
pub struct PathSet {
    pub paths: Vec<String>,
}

impl View for PathSet {
    type V = Set<Text>;

    open spec fn view(&self) -> Set<Text> {
        Set::new(|p: Text| exists|i: int| 0 <= i < self.paths.len() && self.paths[i]@ == p)
    }
}

impl PathSet {
    /// The set of the given paths.
    pub fn new(paths: Vec<String>) -> (r: PathSet)
        ensures
            r.paths == paths,
    {
        PathSet { paths }
    }

    /// Whether `path` is in the set.
    pub fn holds(&self, path: &Vec<char>) -> (r: bool)
        ensures
            r == self@.contains(path@),
    {
        let mut i: usize = 0;
        while i < self.paths.len()
            invariant
                i <= self.paths.len(),
                forall|j: int| 0 <= j < i ==> self.paths[j]@ != path@,
            decreases self.paths.len() - i,
        {
            if is_text(path, self.paths[i].as_str()) {
                return true;
            }
            i += 1;
        }
        false
    }
}

/// An argument as it stands in a command line: each backslash and each space
/// has a backslash before it.
pub open spec fn escape_arg(arg: Text) -> Text {
    replace(replace(arg, seq!['\\'], seq!['\\', '\\']), seq![' '], seq!['\\', ' '])
}

/// The command line of an argument list: the escaped arguments with one space
/// between neighbours.
pub open spec fn command_line(args: Seq<Text>) -> Text {
    join(Seq::new(args.len(), |i: int| escape_arg(args[i])), seq![' '])
}

/// The command line of an argument list.
pub fn command_of(args: &Vec<String>) -> (line: String)
    ensures
        line@ == command_line(string_views(args@)),
{
    let mut backslash: Vec<char> = Vec::new();
    backslash.push('\\');
    let mut two_backslashes: Vec<char> = Vec::new();
    two_backslashes.push('\\');
    two_backslashes.push('\\');
    let mut space: Vec<char> = Vec::new();
    space.push(' ');
    let mut escaped_space: Vec<char> = Vec::new();
    escaped_space.push('\\');
    escaped_space.push(' ');
    assert(backslash@ == seq!['\\']);
    assert(two_backslashes@ == seq!['\\', '\\']);
    assert(space@ == seq![' ']);
    assert(escaped_space@ == seq!['\\', ' ']);
    let mut parts: Vec<Vec<char>> = Vec::new();
    let mut i: usize = 0;
    while i < args.len()
        invariant
            i <= args.len(),
            parts.len() == i,
            backslash@ == seq!['\\'],
            two_backslashes@ == seq!['\\', '\\'],
            space@ == seq![' '],
            escaped_space@ == seq!['\\', ' '],
            forall|j: int| 0 <= j < i ==> parts@[j]@ == escape_arg(args@[j]@),
        decreases args.len() - i,
    {
        let arg = chars_of(args[i].as_str());
        let first = replaced(&arg, &backslash, &two_backslashes);
        let second = replaced(&first, &space, &escaped_space);
        parts.push(second);
        i += 1;
    }
    let line = crate::text::joined(&parts, &space);
    assert(views(parts@) =~= Seq::new(
        string_views(args@).len(),
        |i: int| escape_arg(string_views(args@)[i]),
    ));
    string_of(&line)
}

/// The command line of an argument list.
pub fn replace_new_args(new_args: Vec<String>) -> (line: String)
    ensures
        line@ == command_line(string_views(new_args@)),
{
    command_of(&new_args)
}

/// The first index at or after `from` where `cache` remembers `key`, or the
/// length of `cache`.
pub open spec fn cache_find(cache: Located, key: Text, from: int) -> int
    decreases cache.len() - from,
{
    if from >= cache.len() {
        cache.len() as int
    } else if cache[from].0 == key {
        from
    } else {
        cache_find(cache, key, from + 1)
    }
}

/// What `cache` remembers of `key`: nothing, a miss, or where it was found.
pub open spec fn remembered(cache: Located, key: Text) -> Option<Option<Text>> {
    let i = cache_find(cache, key, 0);
    if 0 <= i < cache.len() {
        Some(cache[i].1)
    } else {
        None
    }
}

/// `n` or less: the length of `s[..n]` without the `c` at its end.
pub open spec fn strip_end(s: Text, c: char, n: int) -> int
    decreases n,
{
    if n > 0 && s[n - 1] == c {
        strip_end(s, c, n - 1)
    } else {
        n
    }
}

/// Where `binary` would be in the directory `dir`.
pub open spec fn candidate(dir: Text, binary: Text) -> Text {
    dir.subrange(0, strip_end(dir, '/', dir.len() as int)) + seq!['/'] + binary
}

/// The search through `dirs` from index `i` on: where `binary` was found, and
/// whether any directory was looked into.
pub open spec fn search_dirs(dirs: Seq<Text>, i: int, binary: Text, fs: Set<Text>) -> (
    Option<Text>,
    bool,
)
    decreases dirs.len() - i,
{
    if i >= dirs.len() || i < 0 {
        (None, false)
    } else if trim(dirs[i]).len() == 0 {
        search_dirs(dirs, i + 1, binary, fs)
    } else if fs.contains(candidate(dirs[i], binary)) {
        (Some(candidate(dirs[i], binary)), true)
    } else {
        (search_dirs(dirs, i + 1, binary, fs).0, true)
    }
}

/// The search path of a rule that names none.
pub open spec fn default_search_path() -> Text {
    "/usr/local/sbin:/usr/local/bin:/usr/sbin:/usr/bin:/sbin:/bin"@
}

/// Whether `binary` names a path itself: it starts with `/` or with `./`.
pub open spec fn is_direct(binary: Text) -> bool {
    seq!['/'].is_prefix_of(binary) || seq!['.', '/'].is_prefix_of(binary)
}

/// Where `binary` is, looked up afresh: a direct path is taken as it stands if
/// it exists; any other name is searched in the directories of `search`, and
/// the first that holds it wins. The flag says whether anything was looked at.
pub open spec fn locate(binary: Text, search: Option<Text>, fs: Set<Text>) -> (Option<Text>, bool) {
    if is_direct(binary) {
        (
            if fs.contains(binary) {
                Some(binary)
            } else {
                None
            },
            true,
        )
    } else {
        search_dirs(
            split(
                match search {
                    Some(s) => s,
                    None => default_search_path(),
                },
                ':',
            ),
            0,
            binary,
            fs,
        )
    }
}

/// The search for the binary of a request under a rule: what is remembered of
/// the binary decides; only where nothing is remembered is it looked up, and
/// the outcome remembered.
pub open spec fn search_path_spec(req: Request, item: Rule, fs: Set<Text>) -> (
    Option<Text>,
    Request,
) {
    let binary = req.new_args[0];
    match remembered(req.located_bin, binary) {
        Some(entry) => (entry, req),
        None => {
            let (found, looked) = locate(binary, item.search_path, fs);
            (
                found,
                if looked {
                    Request { located_bin: req.located_bin.push((binary, found)), ..req }
                } else {
                    req
                },
            )
        },
    }
}

/// What is remembered of `binary`, if anything.
pub fn search_path_known(ro: &RunOptions, binary: &str) -> (r: Option<Option<String>>)
    ensures
        match r {
            Some(entry) => remembered(ro@.located_bin, binary@) == Some(crate::text::opt_view(entry)),
            None => remembered(ro@.located_bin, binary@) is None,
        },
{
    let key = chars_of(binary);
    let mut i: usize = 0;
    while i < ro.located_bin.len()
        invariant
            i <= ro.located_bin.len(),
            key@ == binary@,
            cache_find(ro@.located_bin, binary@, 0) == cache_find(ro@.located_bin, binary@, i as int),
        decreases ro.located_bin.len() - i,
    {
        assert(ro@.located_bin[i as int].0 == ro.located_bin@[i as int].0@);
        if is_text(&key, ro.located_bin[i].0.as_str()) {
            assert(ro@.located_bin[i as int].1 == crate::text::opt_view(ro.located_bin@[i as int].1));
            return Some(crate::rule::copy_text(&ro.located_bin[i].1));
        }
        i += 1;
    }
    None
}

/// Where `binary` was found before, if it was.
pub fn search_path_cache(ro: &RunOptions, binary: &str) -> (r: Option<String>)
    ensures
        crate::text::opt_view(r) == match remembered(ro@.located_bin, binary@) {
            Some(entry) => entry,
            None => None,
        },
{
    match search_path_known(ro, binary) {
        Some(entry) => entry,
        None => None,
    }
}

/// The length of `v` without the `c` at its end.
pub fn stripped_len(v: &Vec<char>, c: char) -> (n: usize)
    ensures
        n == strip_end(v@, c, v.len() as int),
        n <= v.len(),
{
    let mut n: usize = v.len();
    while n > 0 && v[n - 1] == c
        invariant
            n <= v.len(),
            strip_end(v@, c, v.len() as int) == strip_end(v@, c, n as int),
        decreases n,
    {
        n -= 1;
    }
    n
}

/// Where `binary` of the request is, under the search path of `item`.
#[verifier::loop_isolation(false)]
pub fn search_path(ro: &mut RunOptions, item: &EnvOptions, fs: &PathSet) -> (r: Option<String>)
    requires
        old(ro).new_args.len() > 0,
    ensures
        crate::text::opt_view(r) == search_path_spec(old(ro)@, item@, fs@).0,
        final(ro)@ == search_path_spec(old(ro)@, item@, fs@).1,
{
    let binary_name = ro.new_args[0].clone();
    let binary = chars_of(binary_name.as_str());
    assert(ro@.new_args[0] == binary@);
    match search_path_known(ro, binary_name.as_str()) {
        Some(entry) => {
            return entry;
        },
        None => {},
    }
    let mut slash: Vec<char> = Vec::new();
    slash.push('/');
    let mut dot_slash: Vec<char> = Vec::new();
    dot_slash.push('.');
    dot_slash.push('/');
    assert(slash@ == seq!['/']);
    assert(dot_slash@ == seq!['.', '/']);
    if crate::text::starts_with(&binary, &slash) || crate::text::starts_with(&binary, &dot_slash) {
        let found = if fs.holds(&binary) {
            Some(binary_name.clone())
        } else {
            None
        };
        remember(ro, binary_name, crate::rule::copy_text(&found));
        return found;
    }
    let search = match &item.search_path {
        Some(s) => chars_of(s.as_str()),
        None => chars_of("/usr/local/sbin:/usr/local/bin:/usr/sbin:/usr/bin:/sbin:/bin"),
    };
    let dirs = split_at_char(&search, ':');
    let ghost all = views(dirs@);
    let mut looked = false;
    let mut i: usize = 0;
    while i < dirs.len()
        invariant
            i <= dirs.len(),
            all == views(dirs@),
            slash@ == seq!['/'],
            search_dirs(all, 0, binary@, fs@).0 == search_dirs(all, i as int, binary@, fs@).0,
            search_dirs(all, 0, binary@, fs@).1 == (looked || search_dirs(
                all,
                i as int,
                binary@,
                fs@,
            ).1),
            binary@ == binary_name@,
            *ro == *old(ro),
        decreases dirs.len() - i,
    {
        let dir = &dirs[i];
        assert(all[i as int] == dir@);
        let (lo, hi) = trim_bounds(dir, 0, dir.len());
        if lo < hi {
            let mut path = crate::text::slice_of(dir, 0, stripped_len(dir, '/'));
            append(&mut path, &slash);
            append(&mut path, &binary);
            assert(path@ == candidate(dir@, binary@));
            if fs.holds(&path) {
                let found = string_of(&path);
                remember(ro, binary_name, Some(found.clone()));
                return Some(found);
            }
            looked = true;
        }
        i += 1;
    }
    if looked {
        remember(ro, binary_name, None);
    }
    None
}

/// Remembers where `binary` was found, or that it was not.
fn remember(ro: &mut RunOptions, binary: String, found: Option<String>)
    ensures
        final(ro)@ == (Request {
            located_bin: old(ro)@.located_bin.push((binary@, crate::text::opt_view(found))),
            ..old(ro)@
        }),
{
    let ghost before = ro.located_bin@;
    ro.located_bin.push((binary, found));
    assert(located_view(ro.located_bin@) =~= located_view(before).push(
        (binary@, crate::text::opt_view(found)),
    ));
}

/// Whether the directory at index `k` is the first of `dirs`, from index `i`
/// on, that is not blank and holds `binary`.
pub open spec fn first_holder(dirs: Seq<Text>, i: int, k: int, binary: Text, fs: Set<Text>) -> bool {
    &&& i <= k < dirs.len()
    &&& trim(dirs[k]).len() > 0
    &&& fs.contains(candidate(dirs[k], binary))
    &&& forall|j: int|
        i <= j < k && trim(dirs[j]).len() > 0 ==> !fs.contains(#[trigger] candidate(dirs[j], binary))
}

/// The first directory of the search path that holds the binary wins: the
/// search finds the candidate of that directory, and it finds nothing exactly
/// when no directory of the path that is not blank holds the binary.
pub proof fn lemma_first_existing_wins(dirs: Seq<Text>, i: int, binary: Text, fs: Set<Text>)
    requires
        0 <= i <= dirs.len(),
    ensures
        match search_dirs(dirs, i, binary, fs).0 {
            Some(p) => exists|k: int| #[trigger]
                first_holder(dirs, i, k, binary, fs) && p == candidate(dirs[k], binary),
            None => forall|j: int|
                i <= j < dirs.len() && trim(dirs[j]).len() > 0 ==> !fs.contains(
                    #[trigger] candidate(dirs[j], binary),
                ),
        },
    decreases dirs.len() - i,
{
    if i < dirs.len() {
        if trim(dirs[i]).len() > 0 && fs.contains(candidate(dirs[i], binary)) {
            assert(first_holder(dirs, i, i, binary, fs));
        } else {
            lemma_first_existing_wins(dirs, i + 1, binary, fs);
            match search_dirs(dirs, i + 1, binary, fs).0 {
                Some(p) => {
                    let k = choose|k: int| #[trigger]
                        first_holder(dirs, i + 1, k, binary, fs) && p == candidate(
                            dirs[k],
                            binary,
                        );
                    assert(first_holder(dirs, i, k, binary, fs));
                },
                None => {},
            }
        }
    }
}

/// A binary that names a path itself is used as it stands: nothing is
/// searched, and it is found exactly when that path exists.
pub proof fn lemma_direct_path_verbatim(binary: Text, search: Option<Text>, fs: Set<Text>)
    requires
        is_direct(binary),
    ensures
        locate(binary, search, fs).0 == if fs.contains(binary) {
            Some(binary)
        } else {
            None::<Text>
        },
{
}

/// What was pushed last for a key that the cache did not hold is what the
/// cache remembers of it.
pub proof fn lemma_remembered_after_push(cache: Located, key: Text, found: Option<Text>, from: int)
    requires
        0 <= from <= cache.len(),
        !(0 <= cache_find(cache, key, from) < cache.len()),
    ensures
        cache_find(cache.push((key, found)), key, from) == cache.len(),
    decreases cache.len() - from,
{
    if from < cache.len() {
        assert(cache.push((key, found))[from] == cache[from]);
        if cache[from].0 != key {
            lemma_remembered_after_push(cache, key, found, from + 1);
        }
    }
}

/// A second lookup returns the cached result: once a search has looked for
/// the binary of a request, or found it remembered, searching again gives the
/// same answer and leaves the request as it is, whatever rule is asked and
/// whatever paths exist by then.
pub proof fn lemma_second_lookup_is_cached(
    req: Request,
    item: Rule,
    fs: Set<Text>,
    again: Rule,
    later: Set<Text>,
)
    requires
        req.new_args.len() > 0,
        remembered(req.located_bin, req.new_args[0]) is Some || locate(
            req.new_args[0],
            item.search_path,
            fs,
        ).1,
    ensures
        search_path_spec(search_path_spec(req, item, fs).1, again, later) == search_path_spec(
            req,
            item,
            fs,
        ),
{
    let binary = req.new_args[0];
    if remembered(req.located_bin, binary) is None {
        let found = locate(binary, item.search_path, fs).0;
        lemma_remembered_after_push(req.located_bin, binary, found, 0);
    }
}

/// The paths that the search for `binary` may look at in `dirs`, from index
/// `i` on.
pub open spec fn dir_candidates(dirs: Seq<Text>, i: int, binary: Text) -> Seq<Text>
    decreases dirs.len() - i,
{
    if i >= dirs.len() || i < 0 {
        Seq::empty()
    } else if trim(dirs[i]).len() == 0 {
        dir_candidates(dirs, i + 1, binary)
    } else {
        seq![candidate(dirs[i], binary)] + dir_candidates(dirs, i + 1, binary)
    }
}

/// The paths that the search for `binary` may look at under a search path.
pub open spec fn candidates(binary: Text, search: Option<Text>) -> Seq<Text> {
    if is_direct(binary) {
        seq![binary]
    } else {
        dir_candidates(
            split(
                match search {
                    Some(s) => s,
                    None => default_search_path(),
                },
                ':',
            ),
            0,
            binary,
        )
    }
}

/// The paths that the search for `binary` may look at under the search path
/// of `item`: the caller finds out which of them exist.
#[verifier::loop_isolation(false)]
pub fn search_candidates(binary: &str, item: &EnvOptions) -> (out: Vec<String>)
    ensures
        string_views(out@) == candidates(binary@, item@.search_path),
{
    let name = chars_of(binary);
    let mut slash: Vec<char> = Vec::new();
    slash.push('/');
    let mut dot_slash: Vec<char> = Vec::new();
    dot_slash.push('.');
    dot_slash.push('/');
    assert(slash@ == seq!['/']);
    assert(dot_slash@ == seq!['.', '/']);
    let mut out: Vec<String> = Vec::new();
    if crate::text::starts_with(&name, &slash) || crate::text::starts_with(&name, &dot_slash) {
        out.push(binary.to_string());
        assert(string_views(out@) =~= seq![binary@]);
        return out;
    }
    let search = match &item.search_path {
        Some(s) => chars_of(s.as_str()),
        None => chars_of("/usr/local/sbin:/usr/local/bin:/usr/sbin:/usr/bin:/sbin:/bin"),
    };
    let dirs = split_at_char(&search, ':');
    let ghost all = views(dirs@);
    let mut i: usize = 0;
    assert(string_views(out@) =~= Seq::empty());
    while i < dirs.len()
        invariant
            i <= dirs.len(),
            dir_candidates(all, 0, binary@) == string_views(out@) + dir_candidates(
                all,
                i as int,
                binary@,
            ),
        decreases dirs.len() - i,
    {
        let dir = &dirs[i];
        assert(all[i as int] == dir@);
        let (lo, hi) = trim_bounds(dir, 0, dir.len());
        if lo < hi {
            let mut path = crate::text::slice_of(dir, 0, stripped_len(dir, '/'));
            append(&mut path, &slash);
            append(&mut path, &name);
            assert(path@ == candidate(dir@, binary@));
            let ghost before = out@;
            out.push(string_of(&path));
            assert(string_views(out@) =~= string_views(before).push(path@));
            assert(string_views(before) + (seq![path@] + dir_candidates(all, i + 1, binary@))
                =~= string_views(before).push(path@) + dir_candidates(all, i + 1, binary@));
        }
        i += 1;
    }
    assert(string_views(out@) + Seq::<Text>::empty() =~= string_views(out@));
    out
}

/// The search looks at its candidates only: where two sets of paths agree on
/// the candidates of `binary` in `dirs`, the search finds the same in both.
pub proof fn lemma_search_reads_candidates(
    dirs: Seq<Text>,
    i: int,
    binary: Text,
    a: Set<Text>,
    b: Set<Text>,
)
    requires
        0 <= i <= dirs.len(),
        forall|k: int|
            0 <= k < dir_candidates(dirs, i, binary).len() ==> (a.contains(
                #[trigger] dir_candidates(dirs, i, binary)[k],
            ) <==> b.contains(dir_candidates(dirs, i, binary)[k])),
    ensures
        search_dirs(dirs, i, binary, a) == search_dirs(dirs, i, binary, b),
    decreases dirs.len() - i,
{
    if i < dirs.len() {
        let here = dir_candidates(dirs, i, binary);
        let rest = dir_candidates(dirs, i + 1, binary);
        if trim(dirs[i]).len() == 0 {
            lemma_search_reads_candidates(dirs, i + 1, binary, a, b);
        } else {
            assert(here[0] == candidate(dirs[i], binary));
            assert forall|k: int| 0 <= k < rest.len() implies (a.contains(#[trigger] rest[k])
                <==> b.contains(rest[k])) by {
                assert(here[k + 1] == rest[k]);
            }
            lemma_search_reads_candidates(dirs, i + 1, binary, a, b);
        }
    }
}

/// Whether two sets of paths agree on each of `paths`.
pub open spec fn agree_on(a: Set<Text>, b: Set<Text>, paths: Seq<Text>) -> bool {
    forall|k: int| 0 <= k < paths.len() ==> (a.contains(#[trigger] paths[k]) <==> b.contains(paths[k]))
}

/// A lookup looks at its candidates only: where two sets of paths agree on
/// the candidates of `binary` under a search path, the lookup finds the same
/// in both.
pub proof fn lemma_locate_reads_candidates(
    binary: Text,
    search: Option<Text>,
    a: Set<Text>,
    b: Set<Text>,
)
    requires
        agree_on(a, b, candidates(binary, search)),
    ensures
        locate(binary, search, a) == locate(binary, search, b),
{
    if is_direct(binary) {
        assert(candidates(binary, search)[0] == binary);
    } else {
        let dirs = split(
            match search {
                Some(s) => s,
                None => default_search_path(),
            },
            ':',
        );
        lemma_search_reads_candidates(dirs, 0, binary, a, b);
    }
}

/// In an escaped argument every space has a backslash before it, so that
/// the only bare spaces of a command line are those between its arguments.
pub proof fn lemma_spaces_are_escaped(arg: Text)
    ensures
        forall|i: int|
            0 <= i < escape_arg(arg).len() && (#[trigger] escape_arg(arg)[i]) == ' ' ==> i > 0
                && escape_arg(arg)[i - 1] == '\\',
{
    crate::text::lemma_escaped(
        replace(arg, seq!['\\'], seq!['\\', '\\']),
        ' ',
        '\\',
        seq![' '],
        seq!['\\', ' '],
        0,
    );
}

} // verus!
