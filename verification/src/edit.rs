//! The names and commands of an edit: where the copies of the file go, what
//! the editor and the exit hook are called with, and what mode the result
//! gets.
use crate::rule::{EditMode, EnvOptions, Rule};
use crate::text::{
    append, chars_of, is_space, put, replace, replaced, slice_of, space, split, split_at_char,
    string_of, string_views, views, Text,
};
use rand::distributions::Alphanumeric;
use rand::{thread_rng, Rng};
use vstd::prelude::*;

verus! {

/// The editor where the invoker names none.
pub open spec fn default_editor() -> Text {
    "/usr/bin/vi"@
}

/// The editor of the invoker: what `VISUAL` names, else what `EDITOR` names,
/// else the default.
pub open spec fn editor_chosen(visual: Option<Text>, editor: Option<Text>) -> Text {
    match visual {
        Some(v) => v,
        None => match editor {
            Some(e) => e,
            None => default_editor(),
        },
    }
}

/// The editor of the invoker, from the values of `VISUAL` and `EDITOR`.
pub fn get_editor(visual: Option<&str>, editor: Option<&str>) -> (r: String)
    ensures
        r@ == editor_chosen(
            match visual {
                Some(v) => Some(v@),
                None => None,
            },
            match editor {
                Some(e) => Some(e@),
                None => None,
            },
        ),
{
    match visual {
        Some(v) => v.to_string(),
        None => match editor {
            Some(e) => e.to_string(),
            None => "/usr/bin/vi".to_string(),
        },
    }
}

/// The command line of the editor: the words of `editor` between single
/// spaces, and the file last.
pub open spec fn editor_words(editor: Text, edit_file: Text) -> Seq<Text> {
    split(editor, ' ').push(edit_file)
}

/// The command line with which the editor of the invoker is started on
/// `edit_file`: the program first.
pub fn editor_command(editor: &str, edit_file: &str) -> (argv: Vec<String>)
    ensures
        string_views(argv@) == editor_words(editor@, edit_file@),
        argv.len() >= 2,
{
    let parts = split_at_char(&chars_of(editor), ' ');
    let mut argv: Vec<String> = Vec::new();
    let mut i: usize = 0;
    while i < parts.len()
        invariant
            i <= parts.len(),
            argv.len() == i,
            forall|j: int| 0 <= j < i ==> argv@[j]@ == parts@[j]@,
        decreases parts.len() - i,
    {
        argv.push(string_of(&parts[i]));
        i += 1;
    }
    argv.push(edit_file.to_string());
    assert(string_views(argv@) =~= views(parts@).push(edit_file@));
    argv
}

/// Whether `c` is an ASCII letter or digit.
pub open spec fn is_alphanumeric(c: char) -> bool {
    ('a' <= c && c <= 'z') || ('A' <= c && c <= 'Z') || ('0' <= c && c <= '9')
}

/// Draws `n` characters with the `Alphanumeric` distribution of the `rand`
/// crate, from the generator of the thread. Which characters come is left
/// open: the contract says how many they are and of what kind.
#[verifier::external_body]
pub fn prng_alpha_num_string(n: usize) -> (s: String)
    ensures
        s@.len() == n,
        forall|i: int| 0 <= i < s@.len() ==> is_alphanumeric(#[trigger] s@[i]),
{
    let rng = thread_rng();
    rng.sample_iter(&Alphanumeric).take(n).map(|x| x as char).collect()
}

/// The number of characters in the random part of the name of a copy.
pub const RANDOM_PART_LEN: usize = 8;

/// Whether `part` can be the random part of the name of a copy: eight ASCII
/// letters or digits.
pub open spec fn is_random_part(part: Text) -> bool {
    part.len() == RANDOM_PART_LEN && forall|i: int|
        0 <= i < part.len() ==> is_alphanumeric(#[trigger] part[i])
}

/// A random part for the name of a copy. Which characters come is left to
/// chance; that they are eight letters or digits is not.
pub fn random_part() -> (part: String)
    ensures
        is_random_part(part@),
{
    prng_alpha_num_string(RANDOM_PART_LEN)
}

/// The path of the copy that the invoker edits.
pub open spec fn tmp_edit_name(source: Text, service: Text, user: Text, random: Text) -> Text {
    "/tmp/"@ + service + "."@ + user + "."@ + random + "."@ + replace(
        source,
        seq!['/'],
        seq!['_'],
    )
}

/// The path of the copy of `source_file` that the invoker edits: under
/// `/tmp`, named after the service, the invoker, the random part and the
/// source with each slash turned into an underscore.
pub fn tmp_edit_file_name(source_file: &str, service: &str, original_user: &str, random: &str) -> (path:
    String)
    ensures
        path@ == tmp_edit_name(source_file@, service@, original_user@, random@),
{
    let mut slash: Vec<char> = Vec::new();
    slash.push('/');
    let mut underscore: Vec<char> = Vec::new();
    underscore.push('_');
    assert(slash@ == seq!['/']);
    assert(underscore@ == seq!['_']);
    let mut out = chars_of("/tmp/");
    put(&mut out, service);
    put(&mut out, ".");
    put(&mut out, original_user);
    put(&mut out, ".");
    put(&mut out, random);
    put(&mut out, ".");
    append(&mut out, &replaced(&chars_of(source_file), &slash, &underscore));
    string_of(&out)
}

/// The path of the copy that takes the place of the source.
pub open spec fn source_tmp_name(source: Text, service: Text, user: Text, random: Text) -> Text {
    source + "."@ + random + "."@ + service + "."@ + user
}

/// The path of the copy that takes the place of `source_file`: beside it,
/// named after the source, the random part, the service and the invoker.
pub fn source_tmp_file_name(source_file: &str, service: &str, original_user: &str, random: &str) -> (path:
    String)
    ensures
        path@ == source_tmp_name(source_file@, service@, original_user@, random@),
{
    let mut out = chars_of(source_file);
    put(&mut out, ".");
    put(&mut out, random);
    put(&mut out, ".");
    put(&mut out, service);
    put(&mut out, ".");
    put(&mut out, original_user);
    string_of(&out)
}

/// The words of `s`, cut at every run of white space, for a scan that stands
/// at index `at`: `start` is where the word began, and `in_gap` says whether
/// the scan is in a run of white space.
pub open spec fn words_scan(s: Text, start: int, at: int, in_gap: bool) -> Seq<Text>
    decreases s.len() - at,
{
    if at >= s.len() || at < 0 {
        seq![s.subrange(start, s.len() as int)]
    } else if is_space(s[at]) {
        if in_gap {
            words_scan(s, at + 1, at + 1, true)
        } else {
            seq![s.subrange(start, at)] + words_scan(s, at + 1, at + 1, true)
        }
    } else {
        words_scan(s, start, at + 1, false)
    }
}

/// The words of `s` between runs of white space. White space at an end of
/// `s` leaves an empty word there.
pub open spec fn words(s: Text) -> Seq<Text> {
    words_scan(s, 0, 0, false)
}

/// The words of `v` between runs of white space.
pub fn words_of(v: &Vec<char>) -> (out: Vec<Vec<char>>)
    ensures
        views(out@) == words(v@),
        out.len() >= 1,
{
    let mut out: Vec<Vec<char>> = Vec::new();
    let mut start: usize = 0;
    let mut in_gap = false;
    let mut i: usize = 0;
    while i < v.len()
        invariant
            start <= i <= v.len(),
            words(v@) == views(out@) + words_scan(v@, start as int, i as int, in_gap),
        decreases v.len() - i,
    {
        if space(v[i]) {
            if !in_gap {
                let piece = slice_of(v, start, i);
                let ghost before = out@;
                out.push(piece);
                assert(views(out@) == views(before).push(piece@));
                assert(views(before) + (seq![piece@] + words_scan(v@, i + 1, i + 1, true))
                    == views(before).push(piece@) + words_scan(v@, i + 1, i + 1, true));
            }
            in_gap = true;
            start = i + 1;
        } else {
            in_gap = false;
        }
        i += 1;
    }
    let piece = slice_of(v, start, v.len());
    let ghost before = out@;
    out.push(piece);
    assert(views(out@) == views(before).push(piece@));
    assert(views(before) + seq![piece@] == views(before).push(piece@));
    out
}

/// A word of the exit hook with the paths filled in: `%{OLD}` is the source
/// and `%{NEW}` the copy that is to take its place.
pub open spec fn filled(word: Text, source: Text, edit_file: Text) -> Text {
    replace(replace(word, "%{OLD}"@, source), "%{NEW}"@, edit_file)
}

/// The command line of the exit hook `hook`: its first word as it stands,
/// and each further word with the paths filled in.
pub open spec fn hook_words(hook: Text, source: Text, edit_file: Text) -> Seq<Text> {
    let parts = words(hook);
    Seq::new(
        parts.len(),
        |i: int|
            if i == 0 {
                parts[0]
            } else {
                filled(parts[i], source, edit_file)
            },
    )
}

/// The command line of the exit hook of the rule `entry`, the program first.
/// The hook is run with `PLEASE_EDIT_FILE` set to `edit_file`.
pub fn build_exitcmd(entry: &EnvOptions, source_file: &str, edit_file: &str) -> (argv: Vec<String>)
    requires
        entry.exitcmd is Some,
    ensures
        string_views(argv@) == hook_words(entry@.exitcmd->0, source_file@, edit_file@),
        argv.len() >= 1,
{
    let hook = match &entry.exitcmd {
        Some(h) => chars_of(h.as_str()),
        None => Vec::new(),
    };
    let parts = words_of(&hook);
    let old_macro = chars_of("%{OLD}");
    let new_macro = chars_of("%{NEW}");
    proof {
        reveal_strlit("%{OLD}");
        reveal_strlit("%{NEW}");
    }
    let source = chars_of(source_file);
    let edit = chars_of(edit_file);
    let mut argv: Vec<String> = Vec::new();
    let mut i: usize = 0;
    while i < parts.len()
        invariant
            i <= parts.len(),
            argv.len() == i,
            old_macro@ == "%{OLD}"@,
            new_macro@ == "%{NEW}"@,
            old_macro.len() > 0,
            new_macro.len() > 0,
            source@ == source_file@,
            edit@ == edit_file@,
            forall|j: int|
                0 <= j < i ==> argv@[j]@ == if j == 0 {
                    parts@[0]@
                } else {
                    filled(parts@[j]@, source_file@, edit_file@)
                },
        decreases parts.len() - i,
    {
        if i == 0 {
            argv.push(string_of(&parts[i]));
        } else {
            let with_old = replaced(&parts[i], &old_macro, &source);
            argv.push(string_of(&replaced(&with_old, &new_macro, &edit)));
        }
        i += 1;
    }
    assert(string_views(argv@) =~= hook_words(hook@, source_file@, edit_file@));
    argv
}

/// The bits of a file mode that say who may do what.
pub const MODE_BITS: u32 = 0o7777;

/// The mode of a new file that replaces none.
pub const PRIVATE_MODE: u32 = 0o600;

/// The mode that the result of an edit gets under a rule, where
/// `source_mode` is the mode of the file replaced, if there is one: a mode
/// that the rule spells out is taken if it is one; else the result keeps the
/// permission bits of the file replaced, and is private where it replaces
/// none.
pub open spec fn mode_chosen(rule: Rule, source_mode: Option<u32>) -> Option<u32> {
    match rule.edit_mode {
        Some(EditMode::Mode(m)) => if 0 <= m <= MODE_BITS {
            Some(m as u32)
        } else {
            None
        },
        _ => match source_mode {
            Some(s) => Some(s & MODE_BITS),
            None => Some(PRIVATE_MODE),
        },
    }
}

/// Whether the rule spells out the mode of the result.
pub open spec fn spells_mode(rule: Rule) -> bool {
    rule.edit_mode matches Some(EditMode::Mode(_))
}

/// The mode that the result of an edit gets under the rule `entry`, or
/// `None` where the rule spells out what is no mode.
pub fn edit_mode(entry: &EnvOptions, source_mode: Option<u32>) -> (mode: Option<u32>)
    ensures
        mode == mode_chosen(entry@, source_mode),
{
    match entry.edit_mode {
        Some(EditMode::Mode(m)) => {
            if 0 <= m && m <= 0o7777 {
                Some(m as u32)
            } else {
                None
            }
        },
        _ => match source_mode {
            Some(s) => Some(s & MODE_BITS),
            None => Some(PRIVATE_MODE),
        },
    }
}

} // verus!
