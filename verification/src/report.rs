//! The listing of the rules that concern a user.
use crate::clock::{moment_shown, show_moment, Timestamp};
use crate::matcher::{
    group_fits, group_matches, host_fits, hostname_ok, name_fits, name_matches,
};
use crate::request::{Request, RunOptions};
use crate::rule::{rules_view, Acltype, EnvOptions, ReasonType, ReasonView, Rule};
use crate::text::{append, chars_of, join, joined, put, string_of, string_views, views, Text};
use vstd::prelude::*;

verus! {

/// One of a pair of fields of a rule as the listing shows it: the exact one
/// as `exact(..)`, else the expression, else nothing.
pub open spec fn shown_pair(exact: Option<Text>, expression: Option<Text>) -> Text {
    match exact {
        Some(e) => "exact("@ + e + ")"@,
        None => match expression {
            Some(e) => e,
            None => Seq::empty(),
        },
    }
}

/// One of a pair of fields of a rule as the listing shows it.
fn show_pair(exact: &Option<String>, expression: &Option<String>) -> (s: String)
    ensures
        s@ == shown_pair(crate::text::opt_view(*exact), crate::text::opt_view(*expression)),
{
    match exact {
        Some(e) => {
            let mut out = chars_of("exact(");
            put(&mut out, e.as_str());
            put(&mut out, ")");
            string_of(&out)
        },
        None => match expression {
            Some(e) => e.clone(),
            None => String::new(),
        },
    }
}

/// The command of a rule as the listing shows it.
pub fn list_rule(eo: &EnvOptions) -> (s: String)
    ensures
        s@ == shown_pair(eo@.exact_rule, eo@.rule),
{
    show_pair(&eo.exact_rule, &eo.rule)
}

/// The target of a rule as the listing shows it.
pub fn list_target(eo: &EnvOptions) -> (s: String)
    ensures
        s@ == shown_pair(eo@.exact_target, eo@.target),
{
    show_pair(&eo.exact_target, &eo.target)
}

/// The directory of a rule as the listing shows it.
pub fn list_dir(eo: &EnvOptions) -> (s: String)
    ensures
        s@ == shown_pair(eo@.exact_dir, eo@.dir),
{
    show_pair(&eo.exact_dir, &eo.dir)
}

/// The request whose rules are listed: where the request names a target, the
/// rules that concern that user are listed in place of the invoker's.
pub open spec fn listed_for(req: Request) -> Request {
    if req.target.len() > 0 {
        Request { name: req.target, ..req }
    } else {
        req
    }
}

/// A point in time as the listing shows it; nothing for a point outside the
/// calendar.
pub open spec fn shown_time(t: Timestamp) -> Text {
    match moment_shown(t.secs as int, t.nanos as int) {
        Some(s) => s,
        None => Seq::empty(),
    }
}

/// The remark on a rule whose window is still to come.
pub open spec fn upcoming(item: Rule, req: Request) -> Seq<Text> {
    match item.notbefore {
        Some(nb) => if req.date.before(nb) {
            seq!["upcomming("@ + shown_time(nb) + ")"@]
        } else {
            Seq::empty()
        },
        None => Seq::empty(),
    }
}

/// The remark on a rule whose window is gone.
pub open spec fn expired(item: Rule, req: Request) -> Seq<Text> {
    match item.notafter {
        Some(na) => if na.before(req.date) {
            seq!["expired("@ + shown_time(na) + ")"@]
        } else {
            Seq::empty()
        },
        None => Seq::empty(),
    }
}

/// What the listing says of a rule before its target: that its window is
/// still to come or gone, that it wants a reason, that it does not permit,
/// that it is the last.
pub open spec fn remarks(item: Rule, req: Request) -> Seq<Text> {
    upcoming(item, req) + expired(item, req) + (if item.reason is Some && item.reason != Some(ReasonView::Need(false)) {
        seq!["reason_required"@]
    } else {
        Seq::empty()
    }) + (if !item.permits() {
        seq!["not permitted"@]
    } else {
        Seq::empty()
    }) + (if item.last == Some(true) {
        seq!["last"@]
    } else {
        Seq::empty()
    })
}

/// The remarks on a rule as they stand in its line.
pub open spec fn prefix(item: Rule, req: Request) -> Text {
    let all = join(remarks(item, req), ", "@);
    if all.len() == 0 {
        all
    } else if item.acl_type != Acltype::List {
        " "@ + all + " as "@
    } else {
        " "@ + all + " to "@
    }
}

/// Whether a rule is listed for a request: it is of the type asked for, and
/// it fits the user and the host.
pub open spec fn is_listed(item: Rule, req: Request) -> bool {
    &&& if item.group {
        group_fits(item, req)
    } else {
        name_fits(item, req)
    }
    &&& item.acl_type == req.acl_type
    &&& host_fits(item, req)
}

/// `true` or `false`.
pub open spec fn shown_bool(b: bool) -> Text {
    if b {
        "true"@
    } else {
        "false"@
    }
}

/// The line of a rule.
pub open spec fn rule_line(item: Rule, req: Request) -> Text {
    if item.acl_type == Acltype::List {
        "    "@ + item.section + ":"@ + prefix(item, req) + "list: "@ + item.target.unwrap_or(
            Seq::empty(),
        )
    } else {
        "    "@ + item.section + ":"@ + prefix(item, req) + shown_pair(
            item.exact_target,
            item.target,
        ) + " (pass="@ + shown_bool(item.requires_pass()) + ",dirs="@ + shown_pair(
            item.exact_dir,
            item.dir,
        ) + "): "@ + shown_pair(item.exact_rule, item.rule)
    }
}

/// The line that opens the rules of a file.
pub open spec fn file_line(file: Text) -> Text {
    "  in file: "@ + file
}

/// The file of the last rule listed among the first `n`, or the empty text
/// where none was listed.
pub open spec fn last_file(rules: Seq<Rule>, req: Request, n: int) -> Text
    decreases n,
{
    if n <= 0 {
        Seq::empty()
    } else if is_listed(rules[n - 1], req) {
        rules[n - 1].file_name
    } else {
        last_file(rules, req, n - 1)
    }
}

/// The lines of the first `n` rules: each rule that is listed has a line, and
/// a line names its file before it wherever the file changes.
pub open spec fn listing_upto(rules: Seq<Rule>, req: Request, n: int) -> Seq<Text>
    decreases n,
{
    if n <= 0 {
        Seq::empty()
    } else {
        let before = listing_upto(rules, req, n - 1);
        let item = rules[n - 1];
        if !is_listed(item, req) {
            before
        } else if last_file(rules, req, n - 1) != item.file_name {
            before.push(file_line(item.file_name)).push(rule_line(item, req))
        } else {
            before.push(rule_line(item, req))
        }
    }
}

/// The listing of the rules for a request.
pub open spec fn listing(rules: Seq<Rule>, req: Request) -> Seq<Text> {
    listing_upto(rules, listed_for(req), rules.len() as int)
}

/// A point in time as the listing shows it.
fn show_time(t: &Timestamp) -> (s: String)
    ensures
        s@ == shown_time(*t),
{
    match show_moment(t) {
        Some(s) => s,
        None => String::new(),
    }
}

/// The remarks on a rule.
fn remarks_of(item: &EnvOptions, ro: &RunOptions) -> (out: Vec<Vec<char>>)
    ensures
        views(out@) == remarks(item@, ro@),
{
    let mut out: Vec<Vec<char>> = Vec::new();
    assert(views(out@) =~= Seq::empty());
    match item.notbefore {
        Some(nb) => {
            if ro.date.is_before(&nb) {
                let mut remark = chars_of("upcomming(");
                put(&mut remark, show_time(&nb).as_str());
                put(&mut remark, ")");
                out.push(remark);
            }
        },
        None => {},
    }
    let ghost first = views(out@);
    assert(first =~= upcoming(item@, ro@));
    match item.notafter {
        Some(na) => {
            if na.is_before(&ro.date) {
                let mut remark = chars_of("expired(");
                put(&mut remark, show_time(&na).as_str());
                put(&mut remark, ")");
                out.push(remark);
            }
        },
        None => {},
    }
    let ghost second = views(out@);
    assert(second =~= first + expired(item@, ro@));
    let wanted = match &item.reason {
        Some(ReasonType::Need(false)) => false,
        Some(_) => true,
        None => false,
    };
    if wanted {
        out.push(chars_of("reason_required"));
    }
    let ghost third = views(out@);
    assert(third =~= second + (if item@.reason is Some && item@.reason != Some(
        ReasonView::Need(false),
    ) {
        seq!["reason_required"@]
    } else {
        Seq::empty()
    }));
    if !item.permit() {
        out.push(chars_of("not permitted"));
    }
    let ghost fourth = views(out@);
    assert(fourth =~= third + (if !item@.permits() {
        seq!["not permitted"@]
    } else {
        Seq::empty()
    }));
    match item.last {
        Some(true) => {
            out.push(chars_of("last"));
        },
        _ => {},
    }
    assert(views(out@) =~= fourth + (if item@.last == Some(true) {
        seq!["last"@]
    } else {
        Seq::empty()
    }));
    out
}

/// The line of a rule.
fn line_of(item: &EnvOptions, ro: &RunOptions) -> (line: String)
    ensures
        line@ == rule_line(item@, ro@),
{
    let all = joined(&remarks_of(item, ro), &chars_of(", "));
    let mut out = chars_of("    ");
    put(&mut out, item.section.as_str());
    put(&mut out, ":");
    let ghost head = out@;
    if all.len() > 0 {
        put(&mut out, " ");
        append(&mut out, &all);
        if item.acl_type != Acltype::List {
            put(&mut out, " as ");
        } else {
            put(&mut out, " to ");
        }
        assert(out@ == head + (" "@ + all@ + (if item.acl_type != Acltype::List {
            " as "@
        } else {
            " to "@
        })));
    } else {
        assert(out@ == head + all@);
    }
    assert(out@ == "    "@ + item@.section + ":"@ + prefix(item@, ro@));
    if item.acl_type == Acltype::List {
        put(&mut out, "list: ");
        match &item.target {
            Some(t) => put(&mut out, t.as_str()),
            None => {
                assert(out@ == out@ + Seq::<char>::empty());
            },
        }
        return string_of(&out);
    }
    put(&mut out, list_target(item).as_str());
    put(&mut out, " (pass=");
    if item.require_pass() {
        put(&mut out, "true");
    } else {
        put(&mut out, "false");
    }
    put(&mut out, ",dirs=");
    put(&mut out, list_dir(item).as_str());
    put(&mut out, "): ");
    put(&mut out, list_rule(item).as_str());
    string_of(&out)
}

/// A copy of the request, made for the user whose rules are listed.
fn request_for_listing(ro: &RunOptions) -> (r: RunOptions)
    ensures
        r@.name == listed_for(ro@).name,
        r@.hostname == ro@.hostname,
        r@.groups == ro@.groups,
        r@.date == ro@.date,
        r@.acl_type == ro@.acl_type,
{
    let mut r = RunOptions::new(ro.original_uid, ro.original_gid, ro.date);
    assert(r.groups@.len() == r@.groups.len());
    r.name = if ro.target.as_str().unicode_len() > 0 {
        ro.target.clone()
    } else {
        ro.name.clone()
    };
    r.hostname = ro.hostname.clone();
    r.acl_type = ro.acl_type;
    let mut i: usize = 0;
    while i < ro.groups.len()
        invariant
            i <= ro.groups.len(),
            r.groups.len() == i,
            forall|j: int| 0 <= j < i ==> r.groups@[j].0@ == ro.groups@[j].0@ && r.groups@[j].1
                == ro.groups@[j].1,
            r@.name == listed_for(ro@).name,
            r@.hostname == ro@.hostname,
            r@.date == ro@.date,
            r@.acl_type == ro@.acl_type,
        decreases ro.groups.len() - i,
    {
        r.groups.push((ro.groups[i].0.clone(), ro.groups[i].1));
        i += 1;
    }
    assert(r@.groups =~= ro@.groups);
    r
}

/// The listing depends on the user, the host, the groups, the time and the
/// type of a request, and on nothing else of it.
pub proof fn lemma_listing_reads(rules: Seq<Rule>, a: Request, b: Request, n: int)
    requires
        a.name == b.name,
        a.hostname == b.hostname,
        a.groups == b.groups,
        a.date == b.date,
        a.acl_type == b.acl_type,
        0 <= n <= rules.len(),
    ensures
        listing_upto(rules, a, n) == listing_upto(rules, b, n),
        last_file(rules, a, n) == last_file(rules, b, n),
    decreases n,
{
    if n > 0 {
        lemma_listing_reads(rules, a, b, n - 1);
        let item = rules[n - 1];
        assert(is_listed(item, a) == is_listed(item, b));
        assert(remarks(item, a) == remarks(item, b));
    }
}

/// The lines that list the rules for a request: those of its type that fit
/// its user and host, each with the remarks on it, under the name of its
/// file.
pub fn produce_list(vec_eo: &Vec<EnvOptions>, ro: &RunOptions) -> (lines: Vec<String>)
    ensures
        string_views(lines@) == listing(rules_view(vec_eo@), ro@),
{
    let user = request_for_listing(ro);
    let ghost rules = rules_view(vec_eo@);
    let ghost req = listed_for(ro@);
    proof {
        lemma_listing_reads(rules, user@, req, rules.len() as int);
    }
    let mut lines: Vec<String> = Vec::new();
    let mut file: String = String::new();
    let mut i: usize = 0;
    assert(string_views(lines@) =~= listing_upto(rules, user@, 0));
    while i < vec_eo.len()
        invariant
            i <= vec_eo.len(),
            rules == rules_view(vec_eo@),
            string_views(lines@) == listing_upto(rules, user@, i as int),
            file@ == last_file(rules, user@, i as int),
        decreases vec_eo.len() - i,
    {
        let item = &vec_eo[i];
        assert(rules[i as int] == item@);
        let fits = if item.group {
            group_matches(item, &user)
        } else {
            name_matches(item, &user)
        };
        if fits && item.acl_type == user.acl_type && hostname_ok(item, &user) {
            let ghost before = lines@;
            if !crate::matcher::same_text(file.as_str(), item.file_name.as_str()) {
                let mut head = chars_of("  in file: ");
                put(&mut head, item.file_name.as_str());
                let head = string_of(&head);
                let line = line_of(item, &user);
                lines.push(head);
                lines.push(line);
                assert(string_views(lines@) =~= string_views(before).push(
                    file_line(item@.file_name),
                ).push(rule_line(item@, user@)));
                file = item.file_name.clone();
            } else {
                let line = line_of(item, &user);
                lines.push(line);
                assert(string_views(lines@) =~= string_views(before).push(
                    rule_line(item@, user@),
                ));
            }
        }
        i += 1;
    }
    lines
}

/// The text of the first `n` lines, each ended by a line feed.
pub open spec fn printed_upto(lines: Seq<Text>, n: int) -> Text
    decreases n,
{
    if n <= 0 {
        Seq::empty()
    } else {
        printed_upto(lines, n - 1) + lines[n - 1] + "\n"@
    }
}

/// The listing of the rules for a request, as it is printed.
pub fn list(vec_eo: &Vec<EnvOptions>, ro: &RunOptions) -> (text: String)
    ensures
        text@ == printed_upto(
            listing(rules_view(vec_eo@), ro@),
            listing(rules_view(vec_eo@), ro@).len() as int,
        ),
{
    let lines = produce_list(vec_eo, ro);
    let mut out: Vec<char> = Vec::new();
    let mut i: usize = 0;
    while i < lines.len()
        invariant
            i <= lines.len(),
            out@ == printed_upto(string_views(lines@), i as int),
        decreases lines.len() - i,
    {
        assert(string_views(lines@)[i as int] == lines@[i as int]@);
        put(&mut out, lines[i].as_str());
        put(&mut out, "\n");
        i += 1;
    }
    string_of(&out)
}

} // verus!
