//! Character-sequence primitives.
//!
//! Every function here works on `Vec<char>` and is specified over `Seq<char>`.
//! The specifications walk a sequence by index, so that each loop below keeps
//! the same spec function as its invariant.
use vstd::prelude::*;

verus! {

/// A piece of text in specifications.
pub type Text = Seq<char>;

/// The characters with the Unicode `White_Space` property.
pub open spec fn is_space(c: char) -> bool {
    let n = c as u32;
    (0x09 <= n && n <= 0x0d) || n == 0x20 || n == 0x85 || n == 0xa0 || n == 0x1680 || (0x2000 <= n
        && n <= 0x200a) || n == 0x2028 || n == 0x2029 || n == 0x202f || n == 0x205f || n == 0x3000
}

/// The first index at or after `from` where `s` holds `c`, or `s.len()`.
pub open spec fn find_from(s: Text, c: char, from: int) -> int
    decreases s.len() - from,
{
    if from >= s.len() {
        s.len() as int
    } else if s[from] == c {
        from
    } else {
        find_from(s, c, from + 1)
    }
}

/// The first index in `from..to` that holds no white space, or `to`.
pub open spec fn skip_spaces(s: Text, from: int, to: int) -> int
    decreases to - from,
{
    if from >= to {
        to
    } else if !is_space(s[from]) {
        from
    } else {
        skip_spaces(s, from + 1, to)
    }
}

/// One past the last index in `from..to` that holds no white space, or `from`.
pub open spec fn skip_spaces_back(s: Text, from: int, to: int) -> int
    decreases to - from,
{
    if from >= to {
        from
    } else if !is_space(s[to - 1]) {
        to
    } else {
        skip_spaces_back(s, from, to - 1)
    }
}

/// Where the trimmed part of `s[from..to]` starts.
pub open spec fn trim_lo(s: Text, from: int, to: int) -> int {
    skip_spaces(s, from, to)
}

/// Where the trimmed part of `s[from..to]` ends.
pub open spec fn trim_hi(s: Text, from: int, to: int) -> int {
    skip_spaces_back(s, skip_spaces(s, from, to), to)
}

/// `s` without its leading and trailing white space.
pub open spec fn trim(s: Text) -> Text {
    s.subrange(trim_lo(s, 0, s.len() as int), trim_hi(s, 0, s.len() as int))
}

/// Whether `pat` stands in `s` at index `at`.
pub open spec fn matches_at(s: Text, pat: Text, at: int) -> bool {
    0 <= at && at + pat.len() <= s.len() && s.subrange(at, at + pat.len()) == pat
}

/// `s` from index `from` on, with every occurrence of `pat` replaced by
/// `with`; occurrences are found left to right and do not overlap.
pub open spec fn replace_from(s: Text, pat: Text, with: Text, from: int) -> Text
    decreases s.len() - from,
{
    if from >= s.len() || pat.len() == 0 || from < 0 {
        Seq::empty()
    } else if matches_at(s, pat, from) {
        with + replace_from(s, pat, with, from + pat.len())
    } else {
        seq![s[from]] + replace_from(s, pat, with, from + 1)
    }
}

/// `s` with every occurrence of the non-empty `pat` replaced by `with`.
pub open spec fn replace(s: Text, pat: Text, with: Text) -> Text {
    replace_from(s, pat, with, 0)
}

/// The pieces of `s` cut at every `sep`, for a scan that stands at index `at`
/// inside a piece that began at `start`.
pub open spec fn split_scan(s: Text, sep: char, start: int, at: int) -> Seq<Text>
    decreases s.len() - at,
{
    if at >= s.len() || at < 0 {
        seq![s.subrange(start, s.len() as int)]
    } else if s[at] == sep {
        seq![s.subrange(start, at)] + split_scan(s, sep, at + 1, at + 1)
    } else {
        split_scan(s, sep, start, at + 1)
    }
}

/// The pieces of `s` between occurrences of `sep`; never empty.
pub open spec fn split(s: Text, sep: char) -> Seq<Text> {
    split_scan(s, sep, 0, 0)
}

/// The first `n` of `parts`, with `sep` between neighbours.
pub open spec fn join_upto(parts: Seq<Text>, sep: Text, n: int) -> Text
    decreases n,
{
    if n <= 0 {
        Seq::empty()
    } else if n == 1 {
        parts[0]
    } else {
        join_upto(parts, sep, n - 1) + sep + parts[n - 1]
    }
}

/// All of `parts`, with `sep` between neighbours.
pub open spec fn join(parts: Seq<Text>, sep: Text) -> Text {
    join_upto(parts, sep, parts.len() as int)
}

/// The views of a vector of character vectors.
pub open spec fn views(v: Seq<Vec<char>>) -> Seq<Text> {
    Seq::new(v.len(), |i: int| v[i]@)
}

/// The views of a vector of strings.
pub open spec fn string_views(v: Seq<String>) -> Seq<Text> {
    Seq::new(v.len(), |i: int| v[i]@)
}

/// The view of an optional string.
pub open spec fn opt_view(s: Option<String>) -> Option<Text> {
    match s {
        Some(t) => Some(t@),
        None => None,
    }
}

/// What `str::to_lowercase` returns for a text.
pub uninterp spec fn lowercase(s: Seq<char>) -> Seq<char>;

/// `str::to_lowercase` maps a text to its lower case, which depends on the
/// text alone.
pub assume_specification[ str::to_lowercase ](s: &str) -> (r: String)
    ensures
        r@ == lowercase(s@),
;

/// The first index at or after `from` where `s` does not hold `c`, or
/// `s.len()`.
pub open spec fn skip_char(s: Text, c: char, from: int) -> int
    decreases s.len() - from,
{
    if from >= s.len() {
        s.len() as int
    } else if s[from] != c {
        from
    } else {
        skip_char(s, c, from + 1)
    }
}

/// `String::push` appends one character.
pub assume_specification[ String::push ](s: &mut String, c: char)
    ensures
        final(s)@ == old(s)@.push(c),
;

/// The characters of `s`, in order.
pub fn chars_of(s: &str) -> (v: Vec<char>)
    ensures
        v@ == s@,
{
    let mut v: Vec<char> = Vec::new();
    for c in it: s.chars()
        invariant
            v@ == it.seq().take(it.index() as int),
            it.seq() == s@,
    {
        v.push(c);
    }
    v
}

/// The string made of the characters `v[lo..hi]`.
pub fn string_of_range(v: &Vec<char>, lo: usize, hi: usize) -> (s: String)
    requires
        lo <= hi <= v.len(),
    ensures
        s@ == v@.subrange(lo as int, hi as int),
{
    let mut s = String::new();
    let mut i: usize = lo;
    while i < hi
        invariant
            lo <= i <= hi <= v.len(),
            s@ == v@.subrange(lo as int, i as int),
        decreases hi - i,
    {
        s.push(v[i]);
        i += 1;
    }
    s
}

/// The string made of the characters of `v`.
pub fn string_of(v: &Vec<char>) -> (s: String)
    ensures
        s@ == v@,
{
    let s = string_of_range(v, 0, v.len());
    assert(v@.subrange(0, v.len() as int) == v@);
    s
}

/// A copy of `v[lo..hi]`.
pub fn slice_of(v: &Vec<char>, lo: usize, hi: usize) -> (out: Vec<char>)
    requires
        lo <= hi <= v.len(),
    ensures
        out@ == v@.subrange(lo as int, hi as int),
{
    let mut out: Vec<char> = Vec::new();
    let mut i: usize = lo;
    while i < hi
        invariant
            lo <= i <= hi <= v.len(),
            out@ == v@.subrange(lo as int, i as int),
        decreases hi - i,
    {
        out.push(v[i]);
        i += 1;
    }
    out
}

/// Appends the characters of `tail` to `out`.
pub fn append(out: &mut Vec<char>, tail: &Vec<char>)
    ensures
        final(out)@ == old(out)@ + tail@,
{
    let mut i: usize = 0;
    while i < tail.len()
        invariant
            i <= tail.len(),
            out@ == old(out)@ + tail@.subrange(0, i as int),
        decreases tail.len() - i,
    {
        out.push(tail[i]);
        i += 1;
    }
    assert(tail@.subrange(0, tail.len() as int) == tail@);
}

/// Appends the characters of the string `tail` to `out`.
pub fn put(out: &mut Vec<char>, tail: &str)
    ensures
        final(out)@ == old(out)@ + tail@,
{
    let t = chars_of(tail);
    append(out, &t);
}

/// Whether two character vectors hold the same text.
pub fn same(a: &Vec<char>, b: &Vec<char>) -> (r: bool)
    ensures
        r == (a@ == b@),
{
    if a.len() != b.len() {
        return false;
    }
    let mut i: usize = 0;
    while i < a.len()
        invariant
            i <= a.len(),
            a.len() == b.len(),
            a@.subrange(0, i as int) == b@.subrange(0, i as int),
        decreases a.len() - i,
    {
        if a[i] != b[i] {
            return false;
        }
        assert(a@.subrange(0, i + 1) == a@.subrange(0, i as int).push(a@[i as int]));
        assert(b@.subrange(0, i + 1) == b@.subrange(0, i as int).push(b@[i as int]));
        i += 1;
    }
    assert(a@.subrange(0, a.len() as int) == a@);
    assert(b@.subrange(0, b.len() as int) == b@);
    true
}

/// Whether `v` holds exactly the text of `s`.
pub fn is_text(v: &Vec<char>, s: &str) -> (r: bool)
    ensures
        r == (v@ == s@),
{
    let w = chars_of(s);
    same(v, &w)
}

/// Whether `c` is white space.
pub fn space(c: char) -> (r: bool)
    ensures
        r == is_space(c),
{
    let n: u32 = c as u32;
    (0x09 <= n && n <= 0x0d) || n == 0x20 || n == 0x85 || n == 0xa0 || n == 0x1680 || (0x2000 <= n
        && n <= 0x200a) || n == 0x2028 || n == 0x2029 || n == 0x202f || n == 0x205f || n == 0x3000
}

/// The first index at or after `from` where `v` holds `c`, or `v.len()`.
pub fn find(v: &Vec<char>, c: char, from: usize) -> (at: usize)
    requires
        from <= v.len(),
    ensures
        at == find_from(v@, c, from as int),
        from <= at <= v.len(),
        at < v.len() ==> v@[at as int] == c,
        forall|j: int| from <= j < at ==> v@[j] != c,
{
    let mut i: usize = from;
    while i < v.len() && v[i] != c
        invariant
            from <= i <= v.len(),
            find_from(v@, c, from as int) == find_from(v@, c, i as int),
            forall|j: int| from <= j < i ==> v@[j] != c,
        decreases v.len() - i,
    {
        i += 1;
    }
    i
}

/// The first index at or after `from` where `v` does not hold `c`, or
/// `v.len()`.
pub fn skip(v: &Vec<char>, c: char, from: usize) -> (at: usize)
    requires
        from <= v.len(),
    ensures
        at == skip_char(v@, c, from as int),
        from <= at <= v.len(),
{
    let mut i: usize = from;
    while i < v.len() && v[i] == c
        invariant
            from <= i <= v.len(),
            skip_char(v@, c, from as int) == skip_char(v@, c, i as int),
        decreases v.len() - i,
    {
        i += 1;
    }
    i
}

/// Whether `v` ends with `pat`.
pub fn ends_with(v: &Vec<char>, pat: &Vec<char>) -> (r: bool)
    ensures
        r == pat@.is_suffix_of(v@),
{
    if pat.len() > v.len() {
        return false;
    }
    let at = v.len() - pat.len();
    let r = found_at(v, pat, at);
    proof {
        assert(v@.subrange(at as int, at + pat.len()) =~= v@.skip(v.len() - pat.len()));
    }
    r
}

/// The bounds of `v[from..to]` without its leading and trailing white space.
pub fn trim_bounds(v: &Vec<char>, from: usize, to: usize) -> (r: (usize, usize))
    requires
        from <= to <= v.len(),
    ensures
        r.0 == trim_lo(v@, from as int, to as int),
        r.1 == trim_hi(v@, from as int, to as int),
        from <= r.0 <= r.1 <= to,
{
    let mut lo: usize = from;
    while lo < to && space(v[lo])
        invariant
            from <= lo <= to <= v.len(),
            skip_spaces(v@, from as int, to as int) == skip_spaces(v@, lo as int, to as int),
        decreases to - lo,
    {
        lo += 1;
    }
    let mut hi: usize = to;
    while lo < hi && space(v[hi - 1])
        invariant
            lo <= hi <= to <= v.len(),
            skip_spaces_back(v@, lo as int, to as int) == skip_spaces_back(v@, lo as int, hi as int),
        decreases hi - lo,
    {
        hi -= 1;
    }
    (lo, hi)
}

/// `v[from..to]` without its leading and trailing white space.
pub fn trimmed(v: &Vec<char>, from: usize, to: usize) -> (out: Vec<char>)
    requires
        from <= to <= v.len(),
    ensures
        out@ == trim(v@.subrange(from as int, to as int)),
{
    let (lo, hi) = trim_bounds(v, from, to);
    let out = slice_of(v, lo, hi);
    proof {
        let part = v@.subrange(from as int, to as int);
        lemma_skip_spaces_shift(v@, from as int, to as int, from as int);
        lemma_skip_spaces_back_shift(v@, lo as int, to as int, from as int, to as int);
        assert(part.subrange(lo - from, hi - from) == v@.subrange(lo as int, hi as int));
    }
    out
}

/// Skipping white space in a subrange is skipping it in the whole, shifted.
pub proof fn lemma_skip_spaces_shift(s: Text, from: int, to: int, base: int)
    requires
        0 <= base <= from <= to <= s.len(),
    ensures
        skip_spaces(s.subrange(base, to), from - base, to - base) == skip_spaces(s, from, to)
            - base,
    decreases to - from,
{
    if from < to {
        assert(s.subrange(base, to)[from - base] == s[from]);
        if is_space(s[from]) {
            lemma_skip_spaces_shift(s, from + 1, to, base);
        }
    }
}

/// Skipping white space backwards in a subrange is skipping it in the whole,
/// shifted.
pub proof fn lemma_skip_spaces_back_shift(s: Text, from: int, to: int, base: int, end: int)
    requires
        0 <= base <= from <= to <= end <= s.len(),
    ensures
        skip_spaces_back(s.subrange(base, end), from - base, to - base) == skip_spaces_back(
            s,
            from,
            to,
        ) - base,
    decreases to - from,
{
    if from < to {
        assert(s.subrange(base, end)[to - 1 - base] == s[to - 1]);
        if is_space(s[to - 1]) {
            lemma_skip_spaces_back_shift(s, from, to - 1, base, end);
        }
    }
}

/// The trimmed part of a range of `s` is the trim of that range.
pub proof fn lemma_trim_of_range(s: Text, from: int, to: int)
    requires
        0 <= from <= to <= s.len(),
    ensures
        s.subrange(trim_lo(s, from, to), trim_hi(s, from, to)) == trim(s.subrange(from, to)),
        from <= trim_lo(s, from, to) <= trim_hi(s, from, to) <= to,
{
    let part = s.subrange(from, to);
    let lo = trim_lo(s, from, to);
    lemma_skip_spaces_shift(s, from, to, from);
    lemma_skip_spaces_bounds(s, from, to);
    lemma_skip_spaces_back_bounds(s, lo, to);
    lemma_skip_spaces_back_shift(s, lo, to, from, to);
    assert(part.subrange(lo - from, trim_hi(s, from, to) - from) == s.subrange(
        lo,
        trim_hi(s, from, to),
    ));
}

/// Skipping white space stays in the range.
pub proof fn lemma_skip_spaces_bounds(s: Text, from: int, to: int)
    requires
        from <= to,
    ensures
        from <= skip_spaces(s, from, to) <= to,
    decreases to - from,
{
    if from < to && is_space(s[from]) {
        lemma_skip_spaces_bounds(s, from + 1, to);
    }
}

/// Skipping white space backwards stays in the range.
pub proof fn lemma_skip_spaces_back_bounds(s: Text, from: int, to: int)
    requires
        from <= to,
    ensures
        from <= skip_spaces_back(s, from, to) <= to,
    decreases to - from,
{
    if from < to && is_space(s[to - 1]) {
        lemma_skip_spaces_back_bounds(s, from, to - 1);
    }
}

/// Whether `pat` stands in `v` at index `at`.
pub fn found_at(v: &Vec<char>, pat: &Vec<char>, at: usize) -> (r: bool)
    requires
        at <= v.len(),
    ensures
        r == matches_at(v@, pat@, at as int),
{
    if pat.len() > v.len() - at {
        return false;
    }
    let mut i: usize = 0;
    while i < pat.len()
        invariant
            i <= pat.len(),
            at + pat.len() <= v.len(),
            v@.subrange(at as int, at + i) == pat@.subrange(0, i as int),
        decreases pat.len() - i,
    {
        if v[at + i] != pat[i] {
            assert(v@.subrange(at as int, at + pat.len())[i as int] != pat@[i as int]);
            return false;
        }
        assert(v@.subrange(at as int, at + i + 1) == v@.subrange(at as int, at + i).push(
            v@[at + i],
        ));
        assert(pat@.subrange(0, i + 1) == pat@.subrange(0, i as int).push(pat@[i as int]));
        i += 1;
    }
    assert(pat@.subrange(0, pat.len() as int) == pat@);
    true
}

/// Whether `v` starts with `pat`.
pub fn starts_with(v: &Vec<char>, pat: &Vec<char>) -> (r: bool)
    ensures
        r == pat@.is_prefix_of(v@),
{
    let r = found_at(v, pat, 0);
    proof {
        if pat.len() <= v.len() {
            assert(v@.subrange(0, pat.len() as int) == pat@ <==> pat@.is_prefix_of(v@)) by {
                if pat@.is_prefix_of(v@) {
                    assert(v@.subrange(0, pat.len() as int) =~= pat@);
                }
            }
        }
    }
    r
}

/// `v` with every occurrence of the non-empty `pat` replaced by `with`.
pub fn replaced(v: &Vec<char>, pat: &Vec<char>, with: &Vec<char>) -> (out: Vec<char>)
    requires
        pat.len() > 0,
    ensures
        out@ == replace(v@, pat@, with@),
{
    let mut out: Vec<char> = Vec::new();
    let mut i: usize = 0;
    while i < v.len()
        invariant
            i <= v.len(),
            pat.len() > 0,
            replace(v@, pat@, with@) == out@ + replace_from(v@, pat@, with@, i as int),
        decreases v.len() - i,
    {
        let ghost before = out@;
        if found_at(v, pat, i) {
            append(&mut out, with);
            assert(before + (with@ + replace_from(v@, pat@, with@, i + pat.len())) == (before
                + with@) + replace_from(v@, pat@, with@, i + pat.len()));
            i += pat.len();
        } else {
            out.push(v[i]);
            assert(before + (seq![v@[i as int]] + replace_from(v@, pat@, with@, i + 1))
                == before.push(v@[i as int]) + replace_from(v@, pat@, with@, i + 1));
            i += 1;
        }
    }
    assert(out@ + Seq::<char>::empty() == out@);
    out
}

/// The pieces of `v` between occurrences of `sep`.
pub fn split_at_char(v: &Vec<char>, sep: char) -> (out: Vec<Vec<char>>)
    ensures
        views(out@) == split(v@, sep),
        out.len() >= 1,
{
    let mut out: Vec<Vec<char>> = Vec::new();
    let mut start: usize = 0;
    let mut i: usize = 0;
    while i < v.len()
        invariant
            start <= i <= v.len(),
            split(v@, sep) == views(out@) + split_scan(v@, sep, start as int, i as int),
        decreases v.len() - i,
    {
        if v[i] == sep {
            let piece = slice_of(v, start, i);
            let ghost before = out@;
            out.push(piece);
            assert(views(out@) == views(before).push(piece@));
            assert(views(before) + (seq![piece@] + split_scan(v@, sep, i + 1, i + 1)) == views(
                before,
            ).push(piece@) + split_scan(v@, sep, i + 1, i + 1));
            start = i + 1;
        }
        i += 1;
    }
    let piece = slice_of(v, start, v.len());
    let ghost before = out@;
    out.push(piece);
    assert(views(out@) == views(before).push(piece@));
    assert(views(before) + seq![piece@] == views(before).push(piece@));
    out
}

/// The pieces of `parts`, with `sep` between neighbours.
pub fn joined(parts: &Vec<Vec<char>>, sep: &Vec<char>) -> (out: Vec<char>)
    ensures
        out@ == join(views(parts@), sep@),
{
    let mut out: Vec<char> = Vec::new();
    let mut i: usize = 0;
    while i < parts.len()
        invariant
            i <= parts.len(),
            out@ == join_upto(views(parts@), sep@, i as int),
        decreases parts.len() - i,
    {
        if i > 0 {
            append(&mut out, sep);
        }
        append(&mut out, &parts[i]);
        proof {
            assert(views(parts@)[i as int] == parts@[i as int]@);
            if i == 0 {
                assert(Seq::<char>::empty() + parts@[0]@ == parts@[0]@);
            }
        }
        i += 1;
    }
    out
}

/// Replacing in the second of two joined texts does not look at the first.
pub proof fn lemma_replace_after_prefix(a: Text, b: Text, pat: Text, with: Text, j: int)
    requires
        0 <= j <= b.len(),
        pat.len() > 0,
    ensures
        replace_from(a + b, pat, with, a.len() + j) == replace_from(b, pat, with, j),
    decreases b.len() - j,
{
    let s = a + b;
    let at = a.len() + j;
    if j < b.len() {
        assert(s[at] == b[j]);
        if at + pat.len() <= s.len() {
            assert(s.subrange(at, at + pat.len()) =~= b.subrange(j, j + pat.len()));
        }
        assert(matches_at(s, pat, at) == matches_at(b, pat, j));
        if matches_at(b, pat, j) {
            lemma_replace_after_prefix(a, b, pat, with, j + pat.len());
        } else {
            lemma_replace_after_prefix(a, b, pat, with, j + 1);
        }
    }
}

/// A text that does not hold the first character of the pattern is left as
/// it is.
pub proof fn lemma_replace_nothing(s: Text, pat: Text, with: Text, from: int)
    requires
        0 <= from <= s.len(),
        pat.len() > 0,
        forall|i: int| from <= i < s.len() ==> s[i] != pat[0],
    ensures
        replace_from(s, pat, with, from) == s.subrange(from, s.len() as int),
    decreases s.len() - from,
{
    if from < s.len() {
        if matches_at(s, pat, from) {
            assert(s.subrange(from, from + pat.len())[0] == pat[0]);
        }
        lemma_replace_nothing(s, pat, with, from + 1);
        assert(seq![s[from]] + s.subrange(from + 1, s.len() as int) =~= s.subrange(
            from,
            s.len() as int,
        ));
    } else {
        assert(s.subrange(from, s.len() as int) =~= Seq::<char>::empty());
    }
}

/// Where the pattern stands once, after a text that does not hold its first
/// character, it is replaced there, and the rest is replaced on its own.
pub proof fn lemma_replace_first(pre: Text, post: Text, pat: Text, with: Text, from: int)
    requires
        0 <= from <= pre.len(),
        pat.len() > 0,
        forall|i: int| 0 <= i < pre.len() ==> pre[i] != pat[0],
    ensures
        replace_from(pre + pat + post, pat, with, from) == pre.subrange(from, pre.len() as int)
            + with + replace(post, pat, with),
    decreases pre.len() - from,
{
    let s = pre + pat + post;
    if from < pre.len() {
        assert(s[from] == pre[from]);
        if matches_at(s, pat, from) {
            assert(s.subrange(from, from + pat.len())[0] == pat[0]);
        }
        lemma_replace_first(pre, post, pat, with, from + 1);
        assert(seq![s[from]] + (pre.subrange(from + 1, pre.len() as int) + with + replace(
            post,
            pat,
            with,
        )) =~= pre.subrange(from, pre.len() as int) + with + replace(post, pat, with));
    } else {
        assert(s.subrange(from, from + pat.len()) =~= pat);
        lemma_replace_after_prefix(pre + pat, post, pat, with, 0);
        assert(pre.subrange(from, pre.len() as int) =~= Seq::<char>::empty());
        assert(with + replace_from(s, pat, with, from + pat.len()) =~= pre.subrange(
            from,
            pre.len() as int,
        ) + with + replace(post, pat, with));
    }
}

/// What `find_from` finds: the first place at or after `from` that holds `c`,
/// or the end where none does.
pub proof fn lemma_find_is_first(s: Text, c: char, from: int)
    requires
        0 <= from <= s.len(),
    ensures
        from <= find_from(s, c, from) <= s.len(),
        find_from(s, c, from) < s.len() ==> s[find_from(s, c, from)] == c,
        forall|j: int| from <= j < find_from(s, c, from) ==> s[j] != c,
    decreases s.len() - from,
{
    if from < s.len() && s[from] != c {
        lemma_find_is_first(s, c, from + 1);
    }
}

/// What `trim` cuts off: white space and nothing else, and all of it. The
/// trimmed text is the part of `s` between two runs of white space, and where
/// it is not empty it begins and ends with a character that is none.
pub proof fn lemma_trim_cuts_spaces(s: Text)
    ensures
        ({
            let lo = trim_lo(s, 0, s.len() as int);
            let hi = trim_hi(s, 0, s.len() as int);
            &&& 0 <= lo <= hi <= s.len()
            &&& trim(s) == s.subrange(lo, hi)
            &&& forall|i: int| 0 <= i < lo ==> is_space(s[i])
            &&& forall|i: int| hi <= i < s.len() ==> is_space(s[i])
            &&& lo < hi ==> !is_space(s[lo]) && !is_space(s[hi - 1])
        }),
{
    let n = s.len() as int;
    let lo = trim_lo(s, 0, n);
    lemma_skipped_are_spaces(s, 0, n);
    lemma_skip_spaces_bounds(s, 0, n);
    lemma_skipped_back_are_spaces(s, lo, n);
    lemma_skip_spaces_back_bounds(s, lo, n);
}

/// What `skip_spaces` skips is white space, and it stops at a character that
/// is none.
pub proof fn lemma_skipped_are_spaces(s: Text, from: int, to: int)
    requires
        0 <= from <= to <= s.len(),
    ensures
        forall|i: int| from <= i < skip_spaces(s, from, to) ==> is_space(s[i]),
        skip_spaces(s, from, to) < to ==> !is_space(s[skip_spaces(s, from, to)]),
    decreases to - from,
{
    if from < to && is_space(s[from]) {
        lemma_skipped_are_spaces(s, from + 1, to);
    }
}

/// What `skip_spaces_back` skips is white space, and it stops after a
/// character that is none.
pub proof fn lemma_skipped_back_are_spaces(s: Text, from: int, to: int)
    requires
        0 <= from <= to <= s.len(),
    ensures
        forall|i: int| skip_spaces_back(s, from, to) <= i < to ==> is_space(s[i]),
        from < skip_spaces_back(s, from, to) ==> !is_space(s[skip_spaces_back(s, from, to) - 1]),
    decreases to - from,
{
    if from < to && is_space(s[to - 1]) {
        lemma_skipped_back_are_spaces(s, from, to - 1);
    }
}

/// Joining puts the separator between a first piece and the rest.
pub proof fn lemma_join_prepend(first: Text, rest: Seq<Text>, sep: Text, n: int)
    requires
        1 <= n <= rest.len(),
    ensures
        join_upto(seq![first] + rest, sep, n + 1) == first + sep + join_upto(rest, sep, n),
    decreases n,
{
    let all = seq![first] + rest;
    assert(all[0] == first);
    assert(all[n] == rest[n - 1]);
    if n == 1 {
        assert(join_upto(all, sep, 1) == first);
        assert(join_upto(rest, sep, 1) == rest[0]);
    } else {
        lemma_join_prepend(first, rest, sep, n - 1);
        assert(first + sep + join_upto(rest, sep, n - 1) + sep + rest[n - 1] =~= first + sep + (
        join_upto(rest, sep, n - 1) + sep + rest[n - 1]));
    }
}

/// The pieces of a scan, joined by the separator, are the text from the start
/// of the piece in which the scan stands, and no piece holds the separator.
pub proof fn lemma_split_scan_joins(s: Text, sep: char, start: int, at: int)
    requires
        0 <= start <= at <= s.len(),
        forall|i: int| start <= i < at ==> s[i] != sep,
    ensures
        join(split_scan(s, sep, start, at), seq![sep]) == s.subrange(start, s.len() as int),
        split_scan(s, sep, start, at).len() >= 1,
        forall|k: int, i: int|
            0 <= k < split_scan(s, sep, start, at).len() && 0 <= i < split_scan(
                s,
                sep,
                start,
                at,
            )[k].len() ==> (#[trigger] split_scan(s, sep, start, at)[k][i]) != sep,
    decreases s.len() - at,
{
    let n = s.len() as int;
    let pieces = split_scan(s, sep, start, at);
    if at >= n {
        assert(pieces == seq![s.subrange(start, n)]);
        assert(join_upto(pieces, seq![sep], 1) == pieces[0]);
    } else if s[at] == sep {
        let first = s.subrange(start, at);
        let rest = split_scan(s, sep, at + 1, at + 1);
        lemma_split_scan_joins(s, sep, at + 1, at + 1);
        lemma_join_prepend(first, rest, seq![sep], rest.len() as int);
        assert(first + seq![sep] + s.subrange(at + 1, n) =~= s.subrange(start, n));
        assert forall|k: int, i: int| 0 <= k < pieces.len() && 0 <= i < pieces[k].len() implies (
        #[trigger] pieces[k][i]) != sep by {
            if k == 0 {
                assert(pieces[0] == first);
            } else {
                assert(pieces[k] == rest[k - 1]);
            }
        }
    } else {
        lemma_split_scan_joins(s, sep, start, at + 1);
    }
}

/// What `split` gives: pieces without the separator which, joined by the
/// separator, are the text again.
pub proof fn lemma_split_joins(s: Text, sep: char)
    ensures
        join(split(s, sep), seq![sep]) == s,
        split(s, sep).len() >= 1,
        forall|k: int, i: int|
            0 <= k < split(s, sep).len() && 0 <= i < split(s, sep)[k].len() ==> (#[trigger] split(
                s,
                sep,
            )[k][i]) != sep,
{
    lemma_split_scan_joins(s, sep, 0, 0);
    assert(s.subrange(0, s.len() as int) =~= s);
}

/// Escaping escapes every occurrence: where each `c` of a text is replaced
/// by `e` and `c`, every `c` of the result has an `e` before it.
pub proof fn lemma_escaped(s: Text, c: char, e: char, pat: Text, with: Text, from: int)
    requires
        0 <= from <= s.len(),
        e != c,
        pat == seq![c],
        with == seq![e, c],
    ensures
        forall|i: int|
            0 <= i < replace_from(s, pat, with, from).len() && (#[trigger] replace_from(
                s,
                pat,
                with,
                from,
            )[i]) == c ==> i > 0 && replace_from(s, pat, with, from)[i - 1] == e,
    decreases s.len() - from,
{
    let whole = replace_from(s, pat, with, from);
    if from < s.len() {
        lemma_escaped(s, c, e, pat, with, from + 1);
        let rest = replace_from(s, pat, with, from + 1);
        assert(matches_at(s, pat, from) <==> s[from] == c) by {
            if s[from] == c {
                assert(s.subrange(from, from + 1) =~= seq![c]);
            } else {
                assert(s.subrange(from, from + 1)[0] == s[from]);
            }
        }
        if s[from] == c {
            assert(whole == with + rest);
            assert forall|i: int| 0 <= i < whole.len() && (#[trigger] whole[i]) == c implies i > 0
                && whole[i - 1] == e by {
                if i >= 2 {
                    assert(whole[i] == rest[i - 2]);
                    assert(whole[i - 1] == if i - 1 >= 2 {
                        rest[i - 3]
                    } else {
                        c
                    });
                }
            }
        } else {
            assert(whole == seq![s[from]] + rest);
            assert forall|i: int| 0 <= i < whole.len() && (#[trigger] whole[i]) == c implies i > 0
                && whole[i - 1] == e by {
                if i >= 1 {
                    assert(whole[i] == rest[i - 1]);
                    assert(i - 1 > 0);
                    assert(whole[i - 1] == rest[i - 2]);
                }
            }
        }
    }
}

} // verus!
