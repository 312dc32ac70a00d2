//! The policy file: what each entry of a section does to the rule of that
//! section.
use crate::clock::{day_end, day_start, parse_day_end, parse_day_start, parse_second, second_named};
use crate::matcher::{anchored, expression_compiles};
use crate::number::{parse_int, parse_integer};
use crate::pattern::compiles;
use crate::rule::{pairs_view, Acltype, EditMode, EnvOptions, Pairs, ReasonType, ReasonView, Rule};
use crate::text::{
    chars_of, find, find_from, is_text, lowercase, skip, skip_char, slice_of, starts_with,
    string_of, trim, trimmed, Text,
};
use vstd::prelude::*;
use vstd::utf8::encode_utf8;

verus! {

/// What is wrong with an entry or a file of the policy.
#[derive(Clone, Copy, Debug, PartialEq, Eq, Structural)]
pub enum FaultKind {
    /// An entry outside any section, or one with a key that is not known.
    Entry,
    /// An expression that does not compile.
    Expression,
    /// An include that does not start with `/`.
    RelativeInclude,
    /// An `editmode` that is neither a number nor `keep`.
    Mode,
    /// A date or a number that cannot be read.
    Value,
    /// A file that was read before.
    AlreadyRead,
    /// A file that cannot be opened or examined.
    CannotOpen,
    /// A file that is not a regular file.
    NotRegular,
    /// A file that its group or others may write.
    Writable,
    /// A file that cannot be read.
    CannotRead,
    /// A file that was included and had a fault.
    CannotInclude,
}

/// What an entry did.
#[derive(Clone, Copy, Debug, PartialEq, Eq, Structural)]
pub enum Applied {
    /// The entry was taken.
    Taken,
    /// The entry marks the file as faulty, with a diagnostic.
    Fault(FaultKind),
    /// The entry marks the file as faulty, without a diagnostic.
    SilentFault,
    /// The entry asks for the file that its value names.
    Include,
    /// The entry asks for the files of the directory that its value names.
    IncludeDir,
    /// The entry ends the reading of the policy.
    Stop(FaultKind),
}

/// For whom the policy is read, and how strictly.
#[derive(Clone, Debug)]
pub struct LoadContext {
    pub user: String,
    pub hostname: String,
    pub fail_error: bool,
}

/// `LoadContext` in specifications.
pub struct Context {
    pub user: Text,
    pub host: Text,
    pub fail_error: bool,
}

impl View for LoadContext {
    type V = Context;

    open spec fn view(&self) -> Context {
        Context { user: self.user@, host: self.hostname@, fail_error: self.fail_error }
    }
}

/// What an entry with an expression does beside setting its field: a fault
/// where faults count and the expression does not compile.
pub open spec fn checked(ctx: Context, value: Text) -> Applied {
    if ctx.fail_error && !compiles(anchored(value, ctx.user, ctx.host)) {
        Applied::Fault(FaultKind::Expression)
    } else {
        Applied::Taken
    }
}

/// Whether `pairs` assigns `name`.
pub open spec fn assigns(pairs: Pairs, name: Text) -> bool {
    exists|i: int| 0 <= i < pairs.len() && (#[trigger] pairs[i]).0 == name
}

/// `pairs` with `name` assigned `value`, unless `name` is assigned already.
pub open spec fn assign_first(pairs: Pairs, name: Text, value: Text) -> Pairs {
    if assigns(pairs, name) {
        pairs
    } else {
        pairs.push((name, value))
    }
}

/// What `env_assign.NAME`, `include` and `includedir` do.
pub open spec fn special_effect(opt: Rule, key: Text, value: Text, ctx: Context) -> Option<
    (Rule, Applied),
> {
    if "env_assign."@.is_prefix_of(key) {
        let name = trim(key.subrange(find_from(key, '.', 0) + 1, key.len() as int));
        if value.len() > 0 {
            let before = match opt.env_assign {
                Some(p) => p,
                None => Seq::empty(),
            };
            Some((Rule { env_assign: Some(assign_first(before, name, value)), ..opt }, Applied::Taken))
        } else {
            Some((opt, Applied::Taken))
        }
    } else if key == "include"@ {
        if seq!['/'].is_prefix_of(value) {
            Some((opt, Applied::Include))
        } else {
            Some((opt, Applied::Stop(FaultKind::RelativeInclude)))
        }
    } else if key == "includedir"@ {
        if seq!['/'].is_prefix_of(value) {
            Some((opt, Applied::IncludeDir))
        } else {
            Some((opt, Applied::Stop(FaultKind::RelativeInclude)))
        }
    } else {
        None
    }
}

/// What the entries on the invoker, the host and the target do.
pub open spec fn identity_effect(opt: Rule, key: Text, value: Text, ctx: Context) -> Option<
    (Rule, Applied),
> {
    if key == "name"@ {
        Some((Rule { name: Some(value), configured: true, ..opt }, checked(ctx, value)))
    } else if key == "exact_name"@ {
        Some((Rule { exact_name: Some(value), configured: true, ..opt }, Applied::Taken))
    } else if key == "hostname"@ {
        Some((Rule { hostname: Some(value), configured: true, ..opt }, checked(ctx, value)))
    } else if key == "exact_hostname"@ {
        Some((Rule { exact_hostname: Some(value), configured: true, ..opt }, Applied::Taken))
    } else if key == "target"@ {
        Some((Rule { target: Some(value), ..opt }, checked(ctx, value)))
    } else if key == "exact_target"@ {
        Some((Rule { exact_target: Some(value), ..opt }, Applied::Taken))
    } else if key == "target_group"@ {
        Some((Rule { target_group: Some(value), ..opt }, checked(ctx, value)))
    } else if key == "exact_target_group"@ {
        Some((Rule { exact_target_group: Some(value), ..opt }, Applied::Taken))
    } else {
        None
    }
}

/// The type that a `type` entry names: `edit` and `list` in any case of
/// letters, and `run` for anything else.
pub open spec fn type_named(value: Text) -> Acltype {
    if lowercase(value) == "edit"@ {
        Acltype::Edit
    } else if lowercase(value) == "list"@ {
        Acltype::List
    } else {
        Acltype::Run
    }
}

/// What the entries on the permission, the type and the command do.
pub open spec fn command_effect(opt: Rule, key: Text, value: Text, ctx: Context) -> Option<
    (Rule, Applied),
> {
    if key == "permit"@ {
        Some((Rule { permit: Some(value == "true"@), ..opt }, Applied::Taken))
    } else if key == "require_pass"@ {
        Some((Rule { require_pass: Some(value != "false"@), ..opt }, Applied::Taken))
    } else if key == "type"@ {
        Some((Rule { acl_type: type_named(value), ..opt }, Applied::Taken))
    } else if key == "group"@ {
        Some((Rule { group: value == "true"@, ..opt }, Applied::Taken))
    } else if key == "regex"@ || key == "rule"@ {
        Some((Rule { rule: Some(value), ..opt }, checked(ctx, value)))
    } else if key == "exact_regex"@ || key == "exact_rule"@ {
        Some((Rule { exact_rule: Some(value), configured: true, ..opt }, Applied::Taken))
    } else {
        None
    }
}

/// The number of bytes that `value` takes as UTF-8.
pub open spec fn byte_len(value: Text) -> nat {
    encode_utf8(value).len()
}

/// What the entries on the time do. A window's end is a day of eight bytes
/// or a second of fourteen; a `notbefore` or `notafter` of another length is
/// no entry of this kind.
pub open spec fn date_effect(opt: Rule, key: Text, value: Text, ctx: Context) -> Option<
    (Rule, Applied),
> {
    if key == "notbefore"@ && byte_len(value) == 8 {
        match day_start(value) {
            Some(t) => Some((Rule { notbefore: Some(t), ..opt }, Applied::Taken)),
            None => Some((opt, Applied::Stop(FaultKind::Value))),
        }
    } else if key == "notafter"@ && byte_len(value) == 8 {
        match day_end(value) {
            Some(t) => Some((Rule { notafter: Some(t), ..opt }, Applied::Taken)),
            None => Some((opt, Applied::Stop(FaultKind::Value))),
        }
    } else if key == "notbefore"@ && byte_len(value) == 14 {
        match second_named(value) {
            Some(t) => Some((Rule { notbefore: Some(t), ..opt }, Applied::Taken)),
            None => Some((opt, Applied::Stop(FaultKind::Value))),
        }
    } else if key == "notafter"@ && byte_len(value) == 14 {
        match second_named(value) {
            Some(t) => Some((Rule { notafter: Some(t), ..opt }, Applied::Taken)),
            None => Some((opt, Applied::Stop(FaultKind::Value))),
        }
    } else if key == "datematch"@ {
        Some((Rule { datematch: Some(value), ..opt }, checked(ctx, value)))
    } else {
        None
    }
}

/// What an `editmode` entry does: nothing where it is empty; where it reads
/// as a decimal number of sixteen bits its digits after the leading zeros are
/// read as an octal mode, and the reading stops where they are none; `keep` in
/// any case of letters keeps the mode of the file; anything else is a fault.
pub open spec fn mode_effect(opt: Rule, value: Text) -> (Rule, Applied) {
    if value.len() == 0 {
        (opt, Applied::Taken)
    } else if parse_int(value, 10, i16::MIN as int, i16::MAX as int) is Some {
        let digits = value.subrange(skip_char(value, '0', 0), value.len() as int);
        match parse_int(digits, 8, i32::MIN as int, i32::MAX as int) {
            Some(m) => (Rule { edit_mode: Some(EditMode::Mode(m as i32)), ..opt }, Applied::Taken),
            None => (opt, Applied::Stop(FaultKind::Value)),
        }
    } else if lowercase(value) == "keep"@ {
        (Rule { edit_mode: Some(EditMode::Keep(true)), ..opt }, Applied::Taken)
    } else {
        (opt, Applied::Fault(FaultKind::Mode))
    }
}

/// What the entries on the directory, the environment and the edit do. An
/// exact directory is a text and no expression; the variables that may be
/// kept are an expression.
pub open spec fn edit_effect(opt: Rule, key: Text, value: Text, ctx: Context) -> Option<
    (Rule, Applied),
> {
    if key == "dir"@ {
        Some((Rule { dir: Some(value), ..opt }, checked(ctx, value)))
    } else if key == "exact_dir"@ {
        Some((Rule { exact_dir: Some(value), ..opt }, Applied::Taken))
    } else if key == "permit_env"@ {
        if value.len() > 0 {
            Some((Rule { env_permit: Some(value), ..opt }, checked(ctx, value)))
        } else {
            Some((opt, Applied::Taken))
        }
    } else if key == "exitcmd"@ {
        if value.len() > 0 {
            Some((Rule { exitcmd: Some(value), ..opt }, Applied::Taken))
        } else {
            Some((opt, Applied::Taken))
        }
    } else if key == "editmode"@ {
        Some(mode_effect(opt, value))
    } else {
        None
    }
}

/// What an entry does that failed to read as a number: a silent fault where
/// faults count, and the end of the reading where they do not.
pub open spec fn unread_number(ctx: Context) -> Applied {
    if ctx.fail_error {
        Applied::SilentFault
    } else {
        Applied::Stop(FaultKind::Value)
    }
}

/// What the remaining entries do. A reason that is neither `true` nor
/// `false` is an expression.
pub open spec fn session_effect(opt: Rule, key: Text, value: Text, ctx: Context) -> Option<
    (Rule, Applied),
> {
    if key == "reason"@ {
        if value == "true"@ || value == "false"@ {
            Some((Rule { reason: Some(ReasonView::Need(value == "true"@)), ..opt }, Applied::Taken))
        } else {
            Some((Rule { reason: Some(ReasonView::Text(value)), ..opt }, checked(ctx, value)))
        }
    } else if key == "last"@ {
        Some((Rule { last: Some(value == "true"@), ..opt }, Applied::Taken))
    } else if key == "syslog"@ {
        Some((Rule { syslog: Some(value == "true"@), ..opt }, Applied::Taken))
    } else if key == "timeout"@ {
        match parse_int(value, 10, 0, u32::MAX as int) {
            Some(n) => Some((Rule { timeout: Some(n as u32), ..opt }, Applied::Taken)),
            None => Some((opt, unread_number(ctx))),
        }
    } else if key == "search_path"@ {
        Some((Rule { search_path: Some(value), ..opt }, Applied::Taken))
    } else if key == "token_timeout"@ {
        match parse_int(value, 10, 0, u64::MAX as int) {
            Some(n) => Some((Rule { token_timeout: Some(n as u64), ..opt }, Applied::Taken)),
            None => Some((opt, unread_number(ctx))),
        }
    } else {
        None
    }
}

/// What the entry `key = value` does to the rule of its section. A key that
/// is not known is a fault.
pub open spec fn entry_effect(opt: Rule, key: Text, value: Text, ctx: Context) -> (Rule, Applied) {
    if let Some(r) = special_effect(opt, key, value, ctx) {
        r
    } else if let Some(r) = identity_effect(opt, key, value, ctx) {
        r
    } else if let Some(r) = command_effect(opt, key, value, ctx) {
        r
    } else if let Some(r) = date_effect(opt, key, value, ctx) {
        r
    } else if let Some(r) = edit_effect(opt, key, value, ctx) {
        r
    } else if let Some(r) = session_effect(opt, key, value, ctx) {
        r
    } else {
        (opt, Applied::Fault(FaultKind::Entry))
    }
}

/// What an entry with an expression does beside setting its field.
fn check(ctx: &LoadContext, value: &Vec<char>) -> (r: Applied)
    ensures
        r == checked(ctx@, value@),
{
    if ctx.fail_error && !expression_compiles(value, ctx.user.as_str(), ctx.hostname.as_str()) {
        Applied::Fault(FaultKind::Expression)
    } else {
        Applied::Taken
    }
}

/// Assigns `value` to `name` in `pairs`, unless `name` is assigned already.
pub fn assign(pairs: &mut Vec<(String, String)>, name: &Vec<char>, value: &Vec<char>)
    ensures
        pairs_view(final(pairs)@) == assign_first(pairs_view(old(pairs)@), name@, value@),
{
    let mut i: usize = 0;
    while i < pairs.len()
        invariant
            i <= pairs.len(),
            *pairs == *old(pairs),
            forall|j: int| 0 <= j < i ==> (#[trigger] pairs_view(pairs@)[j]).0 != name@,
        decreases pairs.len() - i,
    {
        assert(pairs_view(pairs@)[i as int].0 == pairs@[i as int].0@);
        if is_text(name, pairs[i].0.as_str()) {
            return ;
        }
        i += 1;
    }
    let ghost before = pairs@;
    pairs.push((string_of(name), string_of(value)));
    assert(pairs_view(pairs@) =~= pairs_view(before).push((name@, value@)));
}

fn special_entry(opt: &mut EnvOptions, key: &Vec<char>, value: &Vec<char>, ctx: &LoadContext) -> (r:
    Option<Applied>)
    ensures
        match r {
            Some(a) => special_effect(old(opt)@, key@, value@, ctx@) == Some((final(opt)@, a)),
            None => special_effect(old(opt)@, key@, value@, ctx@) is None && final(opt)@ == old(
                opt,
            )@,
        },
{
    let mut slash: Vec<char> = Vec::new();
    slash.push('/');
    assert(slash@ == seq!['/']);
    if starts_with(key, &chars_of("env_assign.")) {
        let dot = find(key, '.', 0);
        proof {
            reveal_strlit("env_assign.");
            assert("env_assign."@[10] == '.');
            assert(key@[10] == "env_assign."@[10]);
            assert(dot < key.len());
        }
        let name = trimmed(key, dot + 1, key.len());
        if value.len() > 0 {
            let mut pairs: Vec<(String, String)> = match opt.env_assign.take() {
                Some(p) => p,
                None => Vec::new(),
            };
            assert(old(opt)@.env_assign is None ==> pairs_view(pairs@) =~= Seq::empty());
            assign(&mut pairs, &name, value);
            opt.env_assign = Some(pairs);
        }
        Some(Applied::Taken)
    } else if is_text(key, "include") {
        if starts_with(value, &slash) {
            Some(Applied::Include)
        } else {
            Some(Applied::Stop(FaultKind::RelativeInclude))
        }
    } else if is_text(key, "includedir") {
        if starts_with(value, &slash) {
            Some(Applied::IncludeDir)
        } else {
            Some(Applied::Stop(FaultKind::RelativeInclude))
        }
    } else {
        None
    }
}

fn identity_entry(opt: &mut EnvOptions, key: &Vec<char>, value: &Vec<char>, ctx: &LoadContext) -> (r:
    Option<Applied>)
    ensures
        match r {
            Some(a) => identity_effect(old(opt)@, key@, value@, ctx@) == Some((final(opt)@, a)),
            None => identity_effect(old(opt)@, key@, value@, ctx@) is None && final(opt)@ == old(
                opt,
            )@,
        },
{
    if is_text(key, "name") {
        opt.name = Some(string_of(value));
        opt.configured = true;
        Some(check(ctx, value))
    } else if is_text(key, "exact_name") {
        opt.exact_name = Some(string_of(value));
        opt.configured = true;
        Some(Applied::Taken)
    } else if is_text(key, "hostname") {
        opt.hostname = Some(string_of(value));
        opt.configured = true;
        Some(check(ctx, value))
    } else if is_text(key, "exact_hostname") {
        opt.exact_hostname = Some(string_of(value));
        opt.configured = true;
        Some(Applied::Taken)
    } else if is_text(key, "target") {
        opt.target = Some(string_of(value));
        Some(check(ctx, value))
    } else if is_text(key, "exact_target") {
        opt.exact_target = Some(string_of(value));
        Some(Applied::Taken)
    } else if is_text(key, "target_group") {
        opt.target_group = Some(string_of(value));
        Some(check(ctx, value))
    } else if is_text(key, "exact_target_group") {
        opt.exact_target_group = Some(string_of(value));
        Some(Applied::Taken)
    } else {
        None
    }
}

/// The type that a `type` entry names.
fn type_of(value: &Vec<char>) -> (r: Acltype)
    ensures
        r == type_named(value@),
{
    let lower = string_of(value).as_str().to_lowercase();
    if crate::matcher::same_text(lower.as_str(), "edit") {
        Acltype::Edit
    } else if crate::matcher::same_text(lower.as_str(), "list") {
        Acltype::List
    } else {
        Acltype::Run
    }
}

fn command_entry(opt: &mut EnvOptions, key: &Vec<char>, value: &Vec<char>, ctx: &LoadContext) -> (r:
    Option<Applied>)
    ensures
        match r {
            Some(a) => command_effect(old(opt)@, key@, value@, ctx@) == Some((final(opt)@, a)),
            None => command_effect(old(opt)@, key@, value@, ctx@) is None && final(opt)@ == old(
                opt,
            )@,
        },
{
    if is_text(key, "permit") {
        opt.permit = Some(is_text(value, "true"));
        Some(Applied::Taken)
    } else if is_text(key, "require_pass") {
        opt.require_pass = Some(!is_text(value, "false"));
        Some(Applied::Taken)
    } else if is_text(key, "type") {
        opt.acl_type = type_of(value);
        Some(Applied::Taken)
    } else if is_text(key, "group") {
        opt.group = is_text(value, "true");
        Some(Applied::Taken)
    } else if is_text(key, "regex") || is_text(key, "rule") {
        opt.rule = Some(string_of(value));
        Some(check(ctx, value))
    } else if is_text(key, "exact_regex") || is_text(key, "exact_rule") {
        opt.exact_rule = Some(string_of(value));
        opt.configured = true;
        Some(Applied::Taken)
    } else {
        None
    }
}

fn date_entry(opt: &mut EnvOptions, key: &Vec<char>, value: &Vec<char>, ctx: &LoadContext) -> (r:
    Option<Applied>)
    ensures
        match r {
            Some(a) => date_effect(old(opt)@, key@, value@, ctx@) == Some((final(opt)@, a)),
            None => date_effect(old(opt)@, key@, value@, ctx@) is None && final(opt)@ == old(opt)@,
        },
{
    let text = string_of(value);
    let bytes = text.as_str().as_bytes().len();
    let not_before = is_text(key, "notbefore");
    let not_after = is_text(key, "notafter");
    if not_before && bytes == 8 {
        match parse_day_start(text.as_str()) {
            Some(t) => {
                opt.notbefore = Some(t);
                Some(Applied::Taken)
            },
            None => Some(Applied::Stop(FaultKind::Value)),
        }
    } else if not_after && bytes == 8 {
        match parse_day_end(text.as_str()) {
            Some(t) => {
                opt.notafter = Some(t);
                Some(Applied::Taken)
            },
            None => Some(Applied::Stop(FaultKind::Value)),
        }
    } else if not_before && bytes == 14 {
        match parse_second(text.as_str()) {
            Some(t) => {
                opt.notbefore = Some(t);
                Some(Applied::Taken)
            },
            None => Some(Applied::Stop(FaultKind::Value)),
        }
    } else if not_after && bytes == 14 {
        match parse_second(text.as_str()) {
            Some(t) => {
                opt.notafter = Some(t);
                Some(Applied::Taken)
            },
            None => Some(Applied::Stop(FaultKind::Value)),
        }
    } else if is_text(key, "datematch") {
        opt.datematch = Some(text);
        Some(check(ctx, value))
    } else {
        None
    }
}

/// What an `editmode` entry does.
fn mode_entry(opt: &mut EnvOptions, value: &Vec<char>) -> (r: Applied)
    ensures
        mode_effect(old(opt)@, value@) == (final(opt)@, r),
{
    if value.len() == 0 {
        return Applied::Taken;
    }
    if parse_integer(value, 10, i16::MIN as i128, i16::MAX as i128).is_some() {
        let digits = slice_of(value, skip(value, '0', 0), value.len());
        return match parse_integer(&digits, 8, i32::MIN as i128, i32::MAX as i128) {
            Some(m) => {
                opt.edit_mode = Some(EditMode::Mode(m as i32));
                Applied::Taken
            },
            None => Applied::Stop(FaultKind::Value),
        };
    }
    let lower = string_of(value).as_str().to_lowercase();
    if crate::matcher::same_text(lower.as_str(), "keep") {
        opt.edit_mode = Some(EditMode::Keep(true));
        Applied::Taken
    } else {
        Applied::Fault(FaultKind::Mode)
    }
}

fn edit_entry(opt: &mut EnvOptions, key: &Vec<char>, value: &Vec<char>, ctx: &LoadContext) -> (r:
    Option<Applied>)
    ensures
        match r {
            Some(a) => edit_effect(old(opt)@, key@, value@, ctx@) == Some((final(opt)@, a)),
            None => edit_effect(old(opt)@, key@, value@, ctx@) is None && final(opt)@ == old(opt)@,
        },
{
    if is_text(key, "dir") {
        opt.dir = Some(string_of(value));
        Some(check(ctx, value))
    } else if is_text(key, "exact_dir") {
        opt.exact_dir = Some(string_of(value));
        Some(Applied::Taken)
    } else if is_text(key, "permit_env") {
        if value.len() > 0 {
            opt.env_permit = Some(string_of(value));
            Some(check(ctx, value))
        } else {
            Some(Applied::Taken)
        }
    } else if is_text(key, "exitcmd") {
        if value.len() > 0 {
            opt.exitcmd = Some(string_of(value));
        }
        Some(Applied::Taken)
    } else if is_text(key, "editmode") {
        Some(mode_entry(opt, value))
    } else {
        None
    }
}

fn session_entry(opt: &mut EnvOptions, key: &Vec<char>, value: &Vec<char>, ctx: &LoadContext) -> (r:
    Option<Applied>)
    ensures
        match r {
            Some(a) => session_effect(old(opt)@, key@, value@, ctx@) == Some((final(opt)@, a)),
            None => session_effect(old(opt)@, key@, value@, ctx@) is None && final(opt)@ == old(
                opt,
            )@,
        },
{
    let unread = if ctx.fail_error {
        Applied::SilentFault
    } else {
        Applied::Stop(FaultKind::Value)
    };
    if is_text(key, "reason") {
        let yes = is_text(value, "true");
        if yes || is_text(value, "false") {
            opt.reason = Some(ReasonType::Need(yes));
            Some(Applied::Taken)
        } else {
            opt.reason = Some(ReasonType::Text(string_of(value)));
            Some(check(ctx, value))
        }
    } else if is_text(key, "last") {
        opt.last = Some(is_text(value, "true"));
        Some(Applied::Taken)
    } else if is_text(key, "syslog") {
        opt.syslog = Some(is_text(value, "true"));
        Some(Applied::Taken)
    } else if is_text(key, "timeout") {
        match parse_integer(value, 10, 0, u32::MAX as i128) {
            Some(n) => {
                opt.timeout = Some(n as u32);
                Some(Applied::Taken)
            },
            None => Some(unread),
        }
    } else if is_text(key, "search_path") {
        opt.search_path = Some(string_of(value));
        Some(Applied::Taken)
    } else if is_text(key, "token_timeout") {
        match parse_integer(value, 10, 0, u64::MAX as i128) {
            Some(n) => {
                opt.token_timeout = Some(n as u64);
                Some(Applied::Taken)
            },
            None => Some(unread),
        }
    } else {
        None
    }
}

/// Applies the entry `key = value` to the rule of its section.
pub fn apply_entry(opt: &mut EnvOptions, key: &Vec<char>, value: &Vec<char>, ctx: &LoadContext) -> (r:
    Applied)
    ensures
        entry_effect(old(opt)@, key@, value@, ctx@) == (final(opt)@, r),
{
    if let Some(a) = special_entry(opt, key, value, ctx) {
        return a;
    }
    if let Some(a) = identity_entry(opt, key, value, ctx) {
        return a;
    }
    if let Some(a) = command_entry(opt, key, value, ctx) {
        return a;
    }
    if let Some(a) = date_entry(opt, key, value, ctx) {
        return a;
    }
    if let Some(a) = edit_entry(opt, key, value, ctx) {
        return a;
    }
    if let Some(a) = session_entry(opt, key, value, ctx) {
        return a;
    }
    Applied::Fault(FaultKind::Entry)
}

} // verus!
