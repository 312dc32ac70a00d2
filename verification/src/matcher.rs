//! The policy engine: whether a rule applies to a request, and which rule
//! decides.
use crate::clock::{moment_written, write_moment, Timestamp};
use crate::path::{
    agree_on, candidates, command_line, command_of, lemma_locate_reads_candidates, search_path,
    search_path_spec, PathSet,
};
use crate::pattern::{accepted, compiled, compiles, finds};
use crate::request::{Request, RunOptions};
use crate::rule::{merge_default, Acltype, EnvOptions, ReasonType, ReasonView, Rule};
use crate::text::{
    append, chars_of, is_text, lemma_replace_after_prefix, lemma_replace_first,
    lemma_replace_nothing, matches_at, replace, replace_from, replaced, same, string_of, Text,
};
use regex::Regex;
use vstd::prelude::*;

verus! {

/// The expression that a rule's `v` stands for: `%{USER}` and `%{HOSTNAME}`
/// replaced by the invoker's name and the host name, and the whole anchored
/// at both ends.
pub open spec fn anchored(v: Text, user: Text, host: Text) -> Text {
    seq!['^'] + replace(replace(v, "%{USER}"@, user), "%{HOSTNAME}"@, host) + seq!['$']
}

/// Whether the expression `v` of a rule compiles and matches `text`, for the
/// invoker and host of `req`.
pub open spec fn expr_matches(v: Text, req: Request, text: Text) -> bool {
    finds(anchored(v, req.name, req.hostname), text)
}

/// Whether the expression `v` of a rule compiles, for the invoker and host of
/// `req`.
pub open spec fn expr_compiles(v: Text, req: Request) -> bool {
    compiles(anchored(v, req.name, req.hostname))
}

/// The expression of `v` as text, for an invoker and a host.
pub fn expression_text(v: &Vec<char>, user: &str, host: &str) -> (pattern: String)
    ensures
        pattern@ == anchored(v@, user@, host@),
{
    let user_macro = chars_of("%{USER}");
    let host_macro = chars_of("%{HOSTNAME}");
    proof {
        reveal_strlit("%{USER}");
        reveal_strlit("%{HOSTNAME}");
    }
    let with_user = replaced(v, &user_macro, &chars_of(user));
    let with_host = replaced(&with_user, &host_macro, &chars_of(host));
    let mut pattern: Vec<char> = Vec::new();
    pattern.push('^');
    append(&mut pattern, &with_host);
    pattern.push('$');
    assert(pattern@ == seq!['^'] + with_host@ + seq!['$']);
    string_of(&pattern)
}

/// Whether the expression `v` compiles, for an invoker and a host.
pub fn expression_compiles(v: &Vec<char>, user: &str, host: &str) -> (r: bool)
    ensures
        r == compiles(anchored(v@, user@, host@)),
{
    let pattern = expression_text(v, user, host);
    match Regex::new(pattern.as_str()) {
        Ok(_) => true,
        Err(_) => false,
    }
}

/// The expression of `v` as text.
pub fn anchored_text(v: &str, ro: &RunOptions) -> (pattern: String)
    ensures
        pattern@ == anchored(v@, ro@.name, ro@.hostname),
{
    expression_text(&chars_of(v), ro.name.as_str(), ro.hostname.as_str())
}

/// Compiles the expression `v` of a rule for the invoker and host of `ro`.
pub fn regex_build(v: &str, ro: &RunOptions) -> (r: Option<Regex>)
    ensures
        match r {
            Some(re) => compiled(anchored(v@, ro@.name, ro@.hostname)) == Some(accepted(re)),
            None => !expr_compiles(v@, ro@),
        },
{
    let pattern = anchored_text(v, ro);
    match Regex::new(pattern.as_str()) {
        Ok(re) => Some(re),
        Err(_) => None,
    }
}

/// Whether the expression `v` of a rule compiles and matches `text`.
pub fn matches_expr(v: &str, ro: &RunOptions, text: &str) -> (r: bool)
    ensures
        r == expr_matches(v@, ro@, text@),
{
    match regex_build(v, ro) {
        Some(re) => re.is_match(text),
        None => false,
    }
}

/// Whether two strings hold the same text.
pub fn same_text(a: &str, b: &str) -> (r: bool)
    ensures
        r == (a@ == b@),
{
    is_text(&chars_of(a), b)
}

/// Whether `host` is one of the names that stand for every host.
pub open spec fn is_host_alias(host: Text) -> bool {
    host == "any"@ || host == "localhost"@
}

/// Whether the host of the request is one for the rule. The names `any` and
/// `localhost` stand for every host: a rule that names one of them fits, and
/// so does a rule whose expression matches one of them.
pub open spec fn host_fits(item: Rule, req: Request) -> bool {
    match item.exact_hostname {
        Some(h) => h == req.hostname || is_host_alias(h),
        None => match item.hostname {
            Some(h) => is_host_alias(h) || expr_matches(h, req, req.hostname) || expr_matches(
                h,
                req,
                "any"@,
            ) || expr_matches(h, req, "localhost"@),
            None => true,
        },
    }
}

/// Whether the target user of the request is one for the rule.
pub open spec fn target_fits(item: Rule, req: Request) -> bool {
    match item.exact_target {
        Some(t) => t == req.target,
        None => match item.target {
            Some(t) => expr_matches(t, req, req.target),
            None => false,
        },
    }
}

/// Whether the target group of the request is one for the rule: a rule that
/// names a group wants the request to name one that fits, and a request that
/// names a group wants the rule to name one.
pub open spec fn target_group_fits(item: Rule, req: Request) -> bool {
    match req.target_group {
        None => item.target_group is None && item.exact_target_group is None,
        Some(g) => match item.exact_target_group {
            Some(t) => t == g,
            None => match item.target_group {
                Some(t) => expr_matches(t, req, g),
                None => false,
            },
        },
    }
}

/// Whether the command of the request is one for the rule.
pub open spec fn command_fits(item: Rule, req: Request) -> bool {
    match item.exact_rule {
        Some(r) => r == req.command,
        None => match item.rule {
            Some(r) => expr_matches(r, req, req.command),
            None => false,
        },
    }
}

/// Whether the directory of the request is one for the rule: a rule that
/// names a directory wants the request to name one that fits, and a rule
/// that names none is for every directory.
pub open spec fn directory_fits(item: Rule, req: Request) -> bool {
    match item.exact_dir {
        Some(d) => req.directory == Some(d),
        None => match item.dir {
            Some(d) => match req.directory {
                Some(r) => expr_matches(d, req, r),
                None => false,
            },
            None => true,
        },
    }
}

/// Whether the rule lets every variable through that the request wants to
/// keep.
pub open spec fn environment_fits(item: Rule, req: Request) -> bool {
    match req.allow_env_list {
        None => true,
        Some(wanted) => match item.env_permit {
            None => false,
            Some(p) => expr_compiles(p, req) && forall|i: int|
                0 <= i < wanted.len() ==> #[trigger] expr_matches(p, req, wanted[i]),
        },
    }
}

/// The format in which the time of a request is matched against `datematch`.
pub open spec fn date_format() -> Text {
    "%a %e %b %T UTC %Y"@
}

/// Whether the time of the request lies in the window of the rule and
/// matches its `datematch`.
pub open spec fn dates_fit(item: Rule, req: Request) -> bool {
    &&& item.notbefore matches Some(nb) ==> !req.date.before(nb)
    &&& item.notafter matches Some(na) ==> !na.before(req.date)
    &&& item.datematch matches Some(d) ==> expr_compiles(d, req) && (moment_written(
        req.date.secs as int,
        req.date.nanos as int,
        date_format(),
    ) matches Some(shown) && expr_matches(d, req, shown))
}

/// Whether the invoker is one for the rule.
pub open spec fn name_fits(item: Rule, req: Request) -> bool {
    match item.exact_name {
        Some(n) => n == req.name,
        None => match item.name {
            Some(n) => expr_matches(n, req, req.name),
            None => false,
        },
    }
}

/// Whether the invoker is in a group that is one for the rule.
pub open spec fn group_fits(item: Rule, req: Request) -> bool {
    match item.exact_name {
        Some(n) => exists|i: int| 0 <= i < req.groups.len() && (#[trigger] req.groups[i]).0 == n,
        None => match item.name {
            Some(n) => exists|i: int|
                0 <= i < req.groups.len() && expr_matches(n, req, (#[trigger] req.groups[i]).0),
            None => false,
        },
    }
}

/// Whether the rule applies as far as the request alone can say: time,
/// invoker, host, directory, environment and target.
pub open spec fn context_fits(item: Rule, req: Request) -> bool {
    &&& dates_fit(item, req)
    &&& if item.group {
        group_fits(item, req)
    } else {
        name_fits(item, req)
    }
    &&& host_fits(item, req)
    &&& directory_fits(item, req)
    &&& environment_fits(item, req)
    &&& target_fits(item, req)
    &&& target_group_fits(item, req)
}

/// Whether the rule applies to the request, and the request as the test
/// leaves it. A rule of type `list` applies on its context. For any other
/// type the command line is built anew: for `run` with the binary that the
/// search found (no binary, no match), for `edit` from the file alone; then
/// the command must fit.
#[verifier::opaque]
pub open spec fn matching_spec(item: Rule, req: Request, fs: Set<Text>) -> (bool, Request) {
    if !context_fits(item, req) {
        (false, req)
    } else if item.acl_type == Acltype::List {
        (true, req)
    } else {
        let plain = Request { cloned_args: None, command: command_line(req.new_args), ..req };
        if item.acl_type == Acltype::Run {
            let (found, searched) = search_path_spec(plain, item, fs);
            match found {
                None => (false, searched),
                Some(binary) => {
                    let args = req.new_args.update(0, binary);
                    let resolved = Request {
                        cloned_args: Some(args),
                        command: command_line(args),
                        ..searched
                    };
                    (command_fits(item, resolved), resolved)
                },
            }
        } else {
            let edit = Request { command: command_line(seq![req.new_args[0]]), ..plain };
            (command_fits(item, edit), edit)
        }
    }
}

/// Whether a section name marks a rule as a default: it begins with
/// `default`.
pub open spec fn is_default_section(section: Text) -> bool {
    "default"@.is_prefix_of(section)
}

/// The decision over the rules from index `i` on, for the decision `opt` and
/// the defaults `default` gathered so far, and the request as it is left.
pub open spec fn decide_from(
    rules: Seq<Rule>,
    i: int,
    opt: Rule,
    default: Rule,
    req: Request,
    fs: Set<Text>,
) -> (Rule, Request)
    decreases rules.len() - i,
{
    if i >= rules.len() || i < 0 {
        (opt, req)
    } else if rules[i].acl_type != req.acl_type {
        decide_from(rules, i + 1, opt, default, req, fs)
    } else {
        let (ok, tested) = matching_spec(rules[i], req, fs);
        if !ok {
            decide_from(rules, i + 1, opt, default, tested, fs)
        } else {
            let gathered = if is_default_section(rules[i].section) {
                Rule::merged(default, rules[i])
            } else {
                default
            };
            let chosen = Rule::merged(gathered, rules[i]);
            if chosen.last == Some(true) {
                (chosen, tested)
            } else {
                decide_from(rules, i + 1, chosen, gathered, tested, fs)
            }
        }
    }
}

/// The decision of the rules on a request: each rule of the request's type
/// that applies replaces the decision, merged with the defaults gathered up
/// to it; a rule whose `last` is set ends the search. Where none applies the
/// decision denies.
pub open spec fn decide(rules: Seq<Rule>, req: Request, fs: Set<Text>) -> (Rule, Request) {
    decide_from(rules, 0, Rule::deny(), Rule::fresh(), req, fs)
}

/// Whether the host of the request is one for the rule.
pub fn hostname_ok(item: &EnvOptions, ro: &RunOptions) -> (r: bool)
    ensures
        r == host_fits(item@, ro@),
{
    match &item.exact_hostname {
        Some(h) => {
            return same_text(h.as_str(), ro.hostname.as_str()) || same_text(h.as_str(), "any")
                || same_text(h.as_str(), "localhost");
        },
        None => {},
    }
    match &item.hostname {
        Some(h) => {
            if same_text(h.as_str(), "any") || same_text(h.as_str(), "localhost") {
                return true;
            }
            match regex_build(h.as_str(), ro) {
                Some(re) => re.is_match(ro.hostname.as_str()) || re.is_match("any")
                    || re.is_match("localhost"),
                None => false,
            }
        },
        None => true,
    }
}

/// Whether the target user of the request is one for the rule.
pub fn target_ok(item: &EnvOptions, ro: &RunOptions) -> (r: bool)
    ensures
        r == target_fits(item@, ro@),
{
    match &item.exact_target {
        Some(t) => {
            return same_text(t.as_str(), ro.target.as_str());
        },
        None => {},
    }
    match &item.target {
        Some(t) => matches_expr(t.as_str(), ro, ro.target.as_str()),
        None => false,
    }
}

/// Whether the target group of the request is one for the rule.
pub fn target_group_ok(item: &EnvOptions, ro: &RunOptions) -> (r: bool)
    ensures
        r == target_group_fits(item@, ro@),
{
    let group = match &ro.target_group {
        Some(g) => g,
        None => {
            return item.target_group.is_none() && item.exact_target_group.is_none();
        },
    };
    match &item.exact_target_group {
        Some(t) => {
            return same_text(t.as_str(), group.as_str());
        },
        None => {},
    }
    match &item.target_group {
        Some(t) => matches_expr(t.as_str(), ro, group.as_str()),
        None => false,
    }
}

/// Whether the command of the request is one for the rule.
pub fn rule_match(item: &EnvOptions, ro: &RunOptions) -> (r: bool)
    ensures
        r == command_fits(item@, ro@),
{
    match &item.exact_rule {
        Some(e) => {
            return same_text(e.as_str(), ro.command.as_str());
        },
        None => {},
    }
    match &item.rule {
        Some(e) => matches_expr(e.as_str(), ro, ro.command.as_str()),
        None => false,
    }
}

/// Whether the directory of the request is one for the rule.
pub fn directory_check_ok(item: &EnvOptions, ro: &RunOptions) -> (r: bool)
    ensures
        r == directory_fits(item@, ro@),
{
    match &item.exact_dir {
        Some(d) => {
            return match &ro.directory {
                Some(r) => same_text(d.as_str(), r.as_str()),
                None => false,
            };
        },
        None => {},
    }
    match &item.dir {
        Some(d) => match &ro.directory {
            Some(r) => matches_expr(d.as_str(), ro, r.as_str()),
            None => false,
        },
        None => true,
    }
}

/// Whether the rule lets every variable through that the request wants to
/// keep.
#[verifier::loop_isolation(false)]
pub fn environment_ok(item: &EnvOptions, ro: &RunOptions) -> (r: bool)
    ensures
        r == environment_fits(item@, ro@),
{
    let wanted = match &ro.allow_env_list {
        Some(w) => w,
        None => {
            return true;
        },
    };
    let permit = match &item.env_permit {
        Some(p) => p,
        None => {
            return false;
        },
    };
    let re = match regex_build(permit.as_str(), ro) {
        Some(re) => re,
        None => {
            return false;
        },
    };
    let ghost names = ro@.allow_env_list->0;
    let mut i: usize = 0;
    while i < wanted.len()
        invariant
            i <= wanted.len(),
            names == crate::text::string_views(wanted@),
            compiled(anchored(permit@, ro@.name, ro@.hostname)) == Some(accepted(re)),
            forall|j: int| 0 <= j < i ==> #[trigger] expr_matches(permit@, ro@, names[j]),
        decreases wanted.len() - i,
    {
        assert(names[i as int] == wanted@[i as int]@);
        if !re.is_match(wanted[i].as_str()) {
            assert(!expr_matches(permit@, ro@, names[i as int]));
            return false;
        }
        i += 1;
    }
    true
}

/// Whether the time of the request lies in the window of the rule and
/// matches its `datematch`.
pub fn permitted_dates_ok(item: &EnvOptions, ro: &RunOptions) -> (r: bool)
    ensures
        r == dates_fit(item@, ro@),
{
    match item.notbefore {
        Some(nb) => {
            if ro.date.is_before(&nb) {
                return false;
            }
        },
        None => {},
    }
    match item.notafter {
        Some(na) => {
            if na.is_before(&ro.date) {
                return false;
            }
        },
        None => {},
    }
    match &item.datematch {
        Some(d) => {
            let re = match regex_build(d.as_str(), ro) {
                Some(re) => re,
                None => {
                    return false;
                },
            };
            match write_moment(&ro.date, "%a %e %b %T UTC %Y") {
                Some(shown) => re.is_match(shown.as_str()),
                None => false,
            }
        },
        None => true,
    }
}

/// Whether the invoker is one for the rule.
pub fn name_matches(item: &EnvOptions, ro: &RunOptions) -> (r: bool)
    ensures
        r == name_fits(item@, ro@),
{
    match &item.exact_name {
        Some(n) => {
            return same_text(n.as_str(), ro.name.as_str());
        },
        None => {},
    }
    match &item.name {
        Some(n) => matches_expr(n.as_str(), ro, ro.name.as_str()),
        None => false,
    }
}

/// Whether the invoker is in a group that is one for the rule.
#[verifier::loop_isolation(false)]
pub fn group_matches(item: &EnvOptions, ro: &RunOptions) -> (r: bool)
    ensures
        r == group_fits(item@, ro@),
{
    match &item.exact_name {
        Some(n) => {
            let mut i: usize = 0;
            while i < ro.groups.len()
                invariant
                    i <= ro.groups.len(),
                    forall|j: int| 0 <= j < i ==> (#[trigger] ro@.groups[j]).0 != n@,
                decreases ro.groups.len() - i,
            {
                assert(ro@.groups[i as int].0 == ro.groups@[i as int].0@);
                if same_text(n.as_str(), ro.groups[i].0.as_str()) {
                    assert(ro@.groups[i as int].0 == n@);
                    return true;
                }
                i += 1;
            }
            return false;
        },
        None => {},
    }
    match &item.name {
        Some(n) => {
            let re = match regex_build(n.as_str(), ro) {
                Some(re) => re,
                None => {
                    return false;
                },
            };
            let mut i: usize = 0;
            while i < ro.groups.len()
                invariant
                    i <= ro.groups.len(),
                    compiled(anchored(n@, ro@.name, ro@.hostname)) == Some(accepted(re)),
                    forall|j: int|
                        0 <= j < i ==> !expr_matches(n@, ro@, (#[trigger] ro@.groups[j]).0),
                decreases ro.groups.len() - i,
            {
                assert(ro@.groups[i as int].0 == ro.groups@[i as int].0@);
                if re.is_match(ro.groups[i].0.as_str()) {
                    assert(expr_matches(n@, ro@, ro@.groups[i as int].0));
                    return true;
                }
                i += 1;
            }
            false
        },
        None => false,
    }
}

/// Whether the rule applies to the request. The request is left with the
/// command line that was tested and with what the search for the binary
/// found.
pub fn matching(item: &EnvOptions, ro: &mut RunOptions, fs: &PathSet) -> (r: bool)
    requires
        item.acl_type != Acltype::List ==> old(ro).new_args.len() > 0,
    ensures
        r == matching_spec(item@, old(ro)@, fs@).0,
        final(ro)@ == matching_spec(item@, old(ro)@, fs@).1,
        final(ro)@.new_args == old(ro)@.new_args,
        final(ro)@.acl_type == old(ro)@.acl_type,
{
    reveal(matching_spec);
    if !permitted_dates_ok(item, ro) {
        return false;
    }
    if !item.group && !name_matches(item, ro) {
        return false;
    }
    if item.group && !group_matches(item, ro) {
        return false;
    }
    if !hostname_ok(item, ro) {
        return false;
    }
    if !directory_check_ok(item, ro) {
        return false;
    }
    if !environment_ok(item, ro) {
        return false;
    }
    if !target_ok(item, ro) {
        return false;
    }
    if !target_group_ok(item, ro) {
        return false;
    }
    if item.acl_type == Acltype::List {
        return true;
    }
    ro.cloned_args = None;
    ro.command = command_of(&ro.new_args);
    if item.acl_type == Acltype::Run {
        match search_path(ro, item, fs) {
            None => {
                return false;
            },
            Some(binary) => {
                let mut args = crate::rule::copy_texts(&ro.new_args);
                let ghost bin = binary@;
                args.set(0, binary);
                assert(crate::text::string_views(args@) =~= old(ro)@.new_args.update(0, bin));
                ro.command = command_of(&args);
                ro.cloned_args = Some(args);
            },
        }
    }
    if item.acl_type == Acltype::Edit {
        let mut file: Vec<String> = Vec::new();
        file.push(ro.new_args[0].clone());
        assert(crate::text::string_views(file@) =~= seq![old(ro)@.new_args[0]]);
        ro.command = command_of(&file);
    }
    rule_match(item, ro)
}

/// Whether the section name of a rule marks it as a default.
pub fn default_section(item: &EnvOptions) -> (r: bool)
    ensures
        r == is_default_section(item@.section),
{
    crate::text::starts_with(&chars_of(item.section.as_str()), &chars_of("default"))
}

/// The rule that decides on the request: the last that applies, or the first
/// that applies and has `last` set, merged with the defaults before it; a
/// denying rule where none applies.
pub fn can(vec_eo: &Vec<EnvOptions>, ro: &mut RunOptions, fs: &PathSet) -> (opt: EnvOptions)
    requires
        old(ro).acl_type != Acltype::List ==> old(ro).new_args.len() > 0,
    ensures
        opt@ == decide(crate::rule::rules_view(vec_eo@), old(ro)@, fs@).0,
        final(ro)@ == decide(crate::rule::rules_view(vec_eo@), old(ro)@, fs@).1,
{
    let mut opt = EnvOptions::new_deny();
    let mut default = EnvOptions::new();
    let ghost rules = crate::rule::rules_view(vec_eo@);
    let mut i: usize = 0;
    while i < vec_eo.len()
        invariant_except_break
            i <= vec_eo.len(),
            decide(rules, old(ro)@, fs@) == decide_from(rules, i as int, opt@, default@, ro@, fs@),
        invariant
            rules == crate::rule::rules_view(vec_eo@),
            ro.acl_type == old(ro).acl_type,
            ro.new_args.len() == old(ro).new_args.len(),
            old(ro).acl_type != Acltype::List ==> old(ro).new_args.len() > 0,
        ensures
            opt@ == decide(rules, old(ro)@, fs@).0,
            ro@ == decide(rules, old(ro)@, fs@).1,
        decreases vec_eo.len() - i,
    {
        let item = &vec_eo[i];
        assert(rules[i as int] == item@);
        if item.acl_type != ro.acl_type {
            i += 1;
            continue ;
        }
        let ghost before = ro@;
        if !matching(item, ro, fs) {
            assert(ro@.new_args.len() == before.new_args.len());
            i += 1;
            continue ;
        }
        assert(ro@.new_args.len() == before.new_args.len());
        if default_section(item) {
            default = merge_default(&default, item);
        }
        opt = merge_default(&default, item);
        match opt.last {
            Some(true) => {
                break ;
            },
            _ => {},
        }
        i += 1;
    }
    opt
}

/// Whether the reason of the request satisfies the rule: no demand is always
/// met, a demanded reason must be given, and an expression must match the
/// reason given.
pub open spec fn reason_fits(item: Rule, req: Request) -> bool {
    match item.reason {
        None => true,
        Some(ReasonView::Need(needed)) => !(needed && req.reason is None),
        Some(ReasonView::Text(e)) => req.reason matches Some(r) && expr_matches(e, req, r),
    }
}

/// Whether the reason of the request satisfies the rule.
pub fn reason_ok(item: &EnvOptions, ro: &RunOptions) -> (r: bool)
    ensures
        r == reason_fits(item@, ro@),
{
    match &item.reason {
        None => true,
        Some(ReasonType::Need(needed)) => !(*needed && ro.reason.is_none()),
        Some(ReasonType::Text(e)) => match &ro.reason {
            Some(r) => matches_expr(e.as_str(), ro, r.as_str()),
            None => false,
        },
    }
}

/// The date window: a rule with a window and no `datematch` is open to a
/// request exactly when the time of the request lies in the window, both ends
/// included.
pub proof fn lemma_date_window(item: Rule, req: Request, nb: Timestamp, na: Timestamp)
    requires
        item.notbefore == Some(nb),
        item.notafter == Some(na),
        item.datematch is None,
    ensures
        dates_fit(item, req) <==> !req.date.before(nb) && !na.before(req.date),
{
}

/// A rule whose window the request misses does not apply, whatever else it
/// says.
pub proof fn lemma_outside_window_no_match(item: Rule, req: Request, fs: Set<Text>)
    requires
        (item.notbefore matches Some(nb) && req.date.before(nb)) || (item.notafter matches Some(
            na,
        ) && na.before(req.date)),
    ensures
        !matching_spec(item, req, fs).0,
{
    reveal(matching_spec);
}

/// Host aliases: a rule whose host is `any` or `localhost`, be it the exact
/// host or the expression, fits the host of every request.
pub proof fn lemma_host_aliases(item: Rule, req: Request)
    requires
        match item.exact_hostname {
            Some(h) => is_host_alias(h),
            None => item.hostname matches Some(h) && is_host_alias(h),
        },
    ensures
        host_fits(item, req),
{
}

/// The request as the search through the rules before index `i` leaves it,
/// where no rule before `i` ended the search.
pub open spec fn request_before(rules: Seq<Rule>, req: Request, fs: Set<Text>, i: int) -> Request
    decreases i,
{
    if i <= 0 {
        req
    } else {
        let before = request_before(rules, req, fs, i - 1);
        if rules[i - 1].acl_type != before.acl_type {
            before
        } else {
            matching_spec(rules[i - 1], before, fs).1
        }
    }
}

/// Whether the rule at index `i` is eligible: it is of the type of the
/// request and applies to the request as the rules before it left it.
pub open spec fn eligible(rules: Seq<Rule>, req: Request, fs: Set<Text>, i: int) -> bool {
    let before = request_before(rules, req, fs, i);
    rules[i].acl_type == before.acl_type && matching_spec(rules[i], before, fs).0
}

/// The defaults that the eligible rules before index `i` have gathered.
pub open spec fn defaults_before(rules: Seq<Rule>, req: Request, fs: Set<Text>, i: int) -> Rule
    decreases i,
{
    if i <= 0 {
        Rule::fresh()
    } else {
        let before = defaults_before(rules, req, fs, i - 1);
        if eligible(rules, req, fs, i - 1) && is_default_section(rules[i - 1].section) {
            Rule::merged(before, rules[i - 1])
        } else {
            before
        }
    }
}

/// The defaults gathered up to and including the rule at index `i`.
pub open spec fn defaults_upto(rules: Seq<Rule>, req: Request, fs: Set<Text>, i: int) -> Rule {
    defaults_before(rules, req, fs, i + 1)
}

/// The decision that the rule at index `i` makes: the rule merged with the
/// defaults gathered up to it.
pub open spec fn decision_at(rules: Seq<Rule>, req: Request, fs: Set<Text>, i: int) -> Rule {
    if eligible(rules, req, fs, i) {
        Rule::merged(defaults_upto(rules, req, fs, i), rules[i])
    } else {
        Rule::merged(defaults_before(rules, req, fs, i), rules[i])
    }
}

/// Whether the rule at index `i` ends the search: it is eligible and its
/// decision has `last` set.
pub open spec fn ends_search(rules: Seq<Rule>, req: Request, fs: Set<Text>, i: int) -> bool {
    eligible(rules, req, fs, i) && decision_at(rules, req, fs, i).last == Some(true)
}

/// Where no rule from index `i` on is eligible, the decision made so far
/// stands.
pub proof fn lemma_none_eligible(
    rules: Seq<Rule>,
    req: Request,
    fs: Set<Text>,
    i: int,
    opt: Rule,
)
    requires
        0 <= i <= rules.len(),
        forall|j: int| i <= j < rules.len() ==> !eligible(rules, req, fs, j),
    ensures
        decide_from(
            rules,
            i,
            opt,
            defaults_before(rules, req, fs, i),
            request_before(rules, req, fs, i),
            fs,
        ).0 == opt,
    decreases rules.len() - i,
{
    if i < rules.len() {
        assert(!eligible(rules, req, fs, i));
        lemma_none_eligible(rules, req, fs, i + 1, opt);
    }
}

/// The search from index `i` on, with no rule in `i..k` ending it, decides
/// as the rule at index `k` does, where `k` is eligible and either ends the
/// search or is the last eligible rule.
pub proof fn lemma_decided_at(
    rules: Seq<Rule>,
    req: Request,
    fs: Set<Text>,
    i: int,
    k: int,
    opt: Rule,
)
    requires
        0 <= i <= k < rules.len(),
        eligible(rules, req, fs, k),
        forall|j: int| i <= j < k ==> !ends_search(rules, req, fs, j),
        ends_search(rules, req, fs, k) || forall|j: int|
            k < j < rules.len() ==> !eligible(rules, req, fs, j),
    ensures
        decide_from(
            rules,
            i,
            opt,
            defaults_before(rules, req, fs, i),
            request_before(rules, req, fs, i),
            fs,
        ).0 == decision_at(rules, req, fs, k),
    decreases k - i,
{
    let before = request_before(rules, req, fs, i);
    let gathered = defaults_upto(rules, req, fs, i);
    if i < k {
        assert(!ends_search(rules, req, fs, i));
        if eligible(rules, req, fs, i) {
            lemma_decided_at(rules, req, fs, i + 1, k, Rule::merged(gathered, rules[i]));
        } else {
            lemma_decided_at(rules, req, fs, i + 1, k, opt);
        }
    } else {
        if !ends_search(rules, req, fs, k) {
            lemma_none_eligible(rules, req, fs, k + 1, Rule::merged(gathered, rules[k]));
        }
    }
}

/// First match with last: the decision is that of the rule at the smallest
/// index `k` that is eligible and either ends the search or is the last
/// eligible rule, merged with the defaults gathered up to `k`.
pub proof fn lemma_first_match_with_last(rules: Seq<Rule>, req: Request, fs: Set<Text>, k: int)
    requires
        0 <= k < rules.len(),
        eligible(rules, req, fs, k),
        forall|j: int| 0 <= j < k ==> !ends_search(rules, req, fs, j),
        ends_search(rules, req, fs, k) || forall|j: int|
            k < j < rules.len() ==> !eligible(rules, req, fs, j),
    ensures
        decide(rules, req, fs).0 == Rule::merged(defaults_upto(rules, req, fs, k), rules[k]),
{
    lemma_decided_at(rules, req, fs, 0, k, Rule::deny());
}

/// Where no rule is eligible the decision denies.
pub proof fn lemma_no_match_denies(rules: Seq<Rule>, req: Request, fs: Set<Text>)
    requires
        forall|j: int| 0 <= j < rules.len() ==> !eligible(rules, req, fs, j),
    ensures
        decide(rules, req, fs).0 == Rule::deny(),
        !decide(rules, req, fs).0.permits(),
{
    lemma_none_eligible(rules, req, fs, 0, Rule::deny());
}

/// Whether a text holds no `%`, the character that every macro begins with.
pub open spec fn macro_free(s: Text) -> bool {
    forall|i: int| 0 <= i < s.len() ==> s[i] != '%'
}

/// Macro expansion of `%{USER}`: in an expression that names the macro once
/// between two texts without macros, the name of the invoker takes its place
/// letter for letter, and the whole is anchored; the braces of the macro never
/// reach the compiler.
pub proof fn lemma_user_macro_expands(pre: Text, post: Text, user: Text, host: Text)
    requires
        macro_free(pre),
        macro_free(post),
        macro_free(user),
    ensures
        anchored(pre + "%{USER}"@ + post, user, host) == seq!['^'] + pre + user + post + seq!['$'],
{
    reveal_strlit("%{USER}");
    reveal_strlit("%{HOSTNAME}");
    let pat = "%{USER}"@;
    let host_pat = "%{HOSTNAME}"@;
    assert(pat[0] == '%');
    assert(host_pat[0] == '%');
    lemma_replace_first(pre, post, pat, user, 0);
    lemma_replace_nothing(post, pat, user, 0);
    assert(pre.subrange(0, pre.len() as int) =~= pre);
    assert(post.subrange(0, post.len() as int) =~= post);
    let once = pre + user + post;
    assert(replace(pre + pat + post, pat, user) == once);
    lemma_replace_nothing(once, host_pat, host, 0);
    assert(once.subrange(0, once.len() as int) =~= once);
}

/// Macro expansion of `%{HOSTNAME}`: in an expression that names the macro
/// once between two texts without macros, the name of the host takes its
/// place letter for letter, and the whole is anchored.
pub proof fn lemma_host_macro_expands(pre: Text, post: Text, user: Text, host: Text)
    requires
        macro_free(pre),
        macro_free(post),
    ensures
        anchored(pre + "%{HOSTNAME}"@ + post, user, host) == seq!['^'] + pre + host + post + seq![
            '$',
        ],
{
    reveal_strlit("%{USER}");
    reveal_strlit("%{HOSTNAME}");
    let pat = "%{USER}"@;
    let host_pat = "%{HOSTNAME}"@;
    assert(pat[0] == '%');
    assert(host_pat[0] == '%');
    let v = pre + host_pat + post;
    assert(v.subrange(0, v.len() as int) =~= v);
    assert(pre.subrange(0, pre.len() as int) =~= pre);
    assert(post.subrange(0, post.len() as int) =~= post);
    lemma_user_macro_absent(pre, post, user);
    lemma_replace_first(pre, post, host_pat, host, 0);
    lemma_replace_nothing(post, host_pat, host, 0);
}

/// The macro `%{USER}` does not stand in an expression that names
/// `%{HOSTNAME}` once between two texts without macros: replacing it leaves
/// the expression as it is.
pub proof fn lemma_user_macro_absent(pre: Text, post: Text, user: Text)
    requires
        macro_free(pre),
        macro_free(post),
    ensures
        replace(pre + "%{HOSTNAME}"@ + post, "%{USER}"@, user) == pre + "%{HOSTNAME}"@ + post,
{
    reveal_strlit("%{USER}");
    reveal_strlit("%{HOSTNAME}");
    let pat = "%{USER}"@;
    let host_pat = "%{HOSTNAME}"@;
    let rest = host_pat.subrange(1, host_pat.len() as int) + post;
    let head = pre + seq!['%'];
    let v = pre + host_pat + post;
    assert(v =~= head + rest);
    assert forall|i: int| 0 <= i < rest.len() implies rest[i] != pat[0] by {
        if i < host_pat.len() - 1 {
            assert(rest[i] == host_pat[i + 1]);
        } else {
            assert(rest[i] == post[i - (host_pat.len() - 1)]);
        }
    }
    lemma_replace_nothing(rest, pat, user, 0);
    assert(rest.subrange(0, rest.len() as int) =~= rest);
    lemma_replace_after_prefix(head, rest, pat, user, 0);
    let at = pre.len() as int;
    assert(!matches_at(v, pat, at)) by {
        if matches_at(v, pat, at) {
            assert(v.subrange(at, at + pat.len())[2] == pat[2]);
            assert(v[at + 2] == host_pat[2]);
        }
    }
    lemma_replace_upto_mismatch(v, pat, user, pre.len() as int, 0);
    assert(v.subrange(0, pre.len() as int + 1) =~= head);
}

/// Replacing up to a place where the pattern does not stand, in a text
/// without `%` before that place, copies the text up to and with that place.
pub proof fn lemma_replace_upto_mismatch(s: Text, pat: Text, with: Text, at: int, from: int)
    requires
        0 <= from <= at < s.len(),
        pat.len() > 0,
        pat[0] == '%',
        forall|i: int| 0 <= i < at ==> s[i] != '%',
        !matches_at(s, pat, at),
    ensures
        replace_from(s, pat, with, from) == s.subrange(from, at + 1) + replace_from(
            s,
            pat,
            with,
            at + 1,
        ),
    decreases at - from,
{
    if from < at && matches_at(s, pat, from) {
        assert(s.subrange(from, from + pat.len())[0] == pat[0]);
    }
    if from < at {
        lemma_replace_upto_mismatch(s, pat, with, at, from + 1);
        assert(seq![s[from]] + (s.subrange(from + 1, at + 1) + replace_from(s, pat, with, at + 1))
            =~= s.subrange(from, at + 1) + replace_from(s, pat, with, at + 1));
    } else {
        assert(seq![s[from]] =~= s.subrange(from, at + 1));
    }
}

/// Whether two sets of paths agree on every path that the search for
/// `binary` may look at under one of the rules.
pub open spec fn agree_for(rules: Seq<Rule>, binary: Text, a: Set<Text>, b: Set<Text>) -> bool {
    forall|i: int|
        0 <= i < rules.len() ==> agree_on(
            a,
            b,
            #[trigger] candidates(binary, rules[i].search_path),
        )
}

/// Whether a rule applies depends on the paths that the search may look at,
/// and on no others.
pub proof fn lemma_matching_reads_candidates(item: Rule, req: Request, a: Set<Text>, b: Set<Text>)
    requires
        agree_on(a, b, candidates(req.new_args[0], item.search_path)),
    ensures
        matching_spec(item, req, a) == matching_spec(item, req, b),
        matching_spec(item, req, a).1.new_args == req.new_args,
        matching_spec(item, req, a).1.acl_type == req.acl_type,
{
    reveal(matching_spec);
    lemma_locate_reads_candidates(req.new_args[0], item.search_path, a, b);
}

/// The decision depends on the paths that the search for the binary of the
/// request may look at under the rules, and on no others: a caller who knows
/// which of those exist knows enough.
pub proof fn lemma_decision_reads_candidates(
    rules: Seq<Rule>,
    i: int,
    opt: Rule,
    default: Rule,
    req: Request,
    a: Set<Text>,
    b: Set<Text>,
)
    requires
        0 <= i <= rules.len(),
        agree_for(rules, req.new_args[0], a, b),
    ensures
        decide_from(rules, i, opt, default, req, a) == decide_from(rules, i, opt, default, req, b),
    decreases rules.len() - i,
{
    if i < rules.len() {
        assert(agree_on(a, b, candidates(req.new_args[0], rules[i].search_path)));
        if rules[i].acl_type != req.acl_type {
            lemma_decision_reads_candidates(rules, i + 1, opt, default, req, a, b);
        } else {
            lemma_matching_reads_candidates(rules[i], req, a, b);
            let (ok, tested) = matching_spec(rules[i], req, a);
            if !ok {
                lemma_decision_reads_candidates(rules, i + 1, opt, default, tested, a, b);
            } else {
                let gathered = if is_default_section(rules[i].section) {
                    Rule::merged(default, rules[i])
                } else {
                    default
                };
                let chosen = Rule::merged(gathered, rules[i]);
                if chosen.last != Some(true) {
                    lemma_decision_reads_candidates(rules, i + 1, chosen, gathered, tested, a, b);
                }
            }
        }
    }
}

/// The paths that the search for `binary` may look at under the first `n`
/// rules, rule by rule.
pub open spec fn probes_upto(rules: Seq<Rule>, n: int, binary: Text) -> Seq<Text>
    decreases n,
{
    if n <= 0 {
        Seq::empty()
    } else {
        probes_upto(rules, n - 1, binary) + candidates(binary, rules[n - 1].search_path)
    }
}

/// The paths whose existence the decision on the request may depend on: the
/// caller finds out which of them exist and hands those to `can`.
pub fn paths_to_probe(vec_eo: &Vec<EnvOptions>, ro: &RunOptions) -> (out: Vec<String>)
    requires
        ro.new_args.len() > 0,
    ensures
        crate::text::string_views(out@) == probes_upto(
            crate::rule::rules_view(vec_eo@),
            vec_eo.len() as int,
            ro@.new_args[0],
        ),
{
    let ghost rules = crate::rule::rules_view(vec_eo@);
    let ghost binary = ro@.new_args[0];
    assert(binary == ro.new_args@[0]@);
    let mut out: Vec<String> = Vec::new();
    let mut i: usize = 0;
    assert(crate::text::string_views(out@) =~= probes_upto(rules, 0, binary));
    while i < vec_eo.len()
        invariant
            i <= vec_eo.len(),
            ro.new_args.len() > 0,
            rules == crate::rule::rules_view(vec_eo@),
            binary == ro.new_args@[0]@,
            crate::text::string_views(out@) == probes_upto(rules, i as int, binary),
        decreases vec_eo.len() - i,
    {
        assert(rules[i as int] == vec_eo@[i as int]@);
        let mut more = crate::path::search_candidates(ro.new_args[0].as_str(), &vec_eo[i]);
        let ghost before = out@;
        let ghost added = more@;
        out.append(&mut more);
        assert(crate::text::string_views(out@) =~= crate::text::string_views(before)
            + crate::text::string_views(added));
        i += 1;
    }
    out
}

/// The paths to probe are enough: two sets of paths that agree on them give
/// the same decision.
pub proof fn lemma_probes_suffice(rules: Seq<Rule>, req: Request, a: Set<Text>, b: Set<Text>)
    requires
        agree_on(a, b, probes_upto(rules, rules.len() as int, req.new_args[0])),
    ensures
        decide(rules, req, a) == decide(rules, req, b),
{
    let binary = req.new_args[0];
    let all = probes_upto(rules, rules.len() as int, binary);
    assert forall|i: int| 0 <= i < rules.len() implies agree_on(
        a,
        b,
        #[trigger] candidates(binary, rules[i].search_path),
    ) by {
        let own = candidates(binary, rules[i].search_path);
        assert forall|k: int| 0 <= k < own.len() implies (a.contains(#[trigger] own[k])
            <==> b.contains(own[k])) by {
            lemma_probe_listed(rules, rules.len() as int, binary, i, k);
            let j = choose|j: int| 0 <= j < all.len() && all[j] == own[k];
            assert(a.contains(all[j]) <==> b.contains(all[j]));
        }
    }
    lemma_decision_reads_candidates(rules, 0, Rule::deny(), Rule::fresh(), req, a, b);
}

/// Every path that the search may look at under one of the first `n` rules
/// is among the paths to probe.
pub proof fn lemma_probe_listed(rules: Seq<Rule>, n: int, binary: Text, i: int, k: int)
    requires
        0 <= i < n <= rules.len(),
        0 <= k < candidates(binary, rules[i].search_path).len(),
    ensures
        exists|j: int|
            0 <= j < probes_upto(rules, n, binary).len() && (#[trigger] probes_upto(
                rules,
                n,
                binary,
            )[j]) == candidates(binary, rules[i].search_path)[k],
    decreases n,
{
    let before = probes_upto(rules, n - 1, binary);
    let all = probes_upto(rules, n, binary);
    if i == n - 1 {
        assert(all[before.len() + k] == candidates(binary, rules[i].search_path)[k]);
    } else {
        lemma_probe_listed(rules, n - 1, binary, i, k);
        let j = choose|j: int|
            0 <= j < before.len() && (#[trigger] before[j]) == candidates(
                binary,
                rules[i].search_path,
            )[k];
        assert(all[j] == before[j]);
    }
}

/// A rule that names no directory is for every directory, and for a request
/// that names none.
pub proof fn lemma_unset_directory_fits(item: Rule, req: Request)
    requires
        item.dir is None,
        item.exact_dir is None,
    ensures
        directory_fits(item, req),
{
}

} // verus!
