//! The policy in its one-line form: each line holds the attributes of a rule
//! and the expression for its command.
use crate::clock::{
    day_end, day_start, moment_shown, parse_day_end, parse_day_start, parse_second, second_named,
    show_moment, Timestamp,
};
use crate::config::byte_len;
use crate::path::{PathSet, candidate};
use crate::pattern::{compiles, finds};
use crate::text::{
    append, chars_of, is_text, join, joined, opt_view, put, replace, replaced, split,
    split_at_char, string_of, string_views, views, Text,
};
use regex::Regex;
use vstd::prelude::*;

verus! {

/// What `Regex::captures` finds for the first match of `pattern` in `text`:
/// for each group of the pattern, the whole match first, the text that the
/// group matched, if it took part. `None` where the pattern does not compile
/// or finds no match.
pub uninterp spec fn first_groups(pattern: Seq<char>, text: Seq<char>) -> Option<
    Seq<Option<Seq<char>>>,
>;

/// What `Regex::captures_iter` finds for `pattern` in `text`: the groups of
/// each match, as `first_groups` gives them, in the order of the matches.
/// Empty where the pattern does not compile.
pub uninterp spec fn all_groups(pattern: Seq<char>, text: Seq<char>) -> Seq<Seq<Option<Seq<char>>>>;

/// The groups of a match in specifications.
pub open spec fn groups_text(v: Seq<Option<String>>) -> Seq<Option<Text>> {
    Seq::new(v.len(), |i: int| opt_view(v[i]))
}

/// The groups of the matches in specifications.
pub open spec fn matches_text(v: Seq<Vec<Option<String>>>) -> Seq<Seq<Option<Text>>> {
    Seq::new(v.len(), |i: int| groups_text(v[i]@))
}

/// Compiles `pattern` and calls `Regex::captures` on `text`. The contract
/// names the result.
#[verifier::external_body]
fn capture_first(pattern: &str, text: &str) -> (r: Option<Vec<Option<String>>>)
    ensures
        first_groups(pattern@, text@) == match r {
            Some(g) => Some(groups_text(g@)),
            None => None,
        },
{
    let re = Regex::new(pattern).ok()?;
    let found = re.captures(text)?;
    Some(found.iter().map(|g| g.map(|m| m.as_str().to_string())).collect())
}

/// Compiles `pattern` and calls `Regex::captures_iter` on `text`. The
/// contract names the result.
#[verifier::external_body]
fn capture_all(pattern: &str, text: &str) -> (r: Vec<Vec<Option<String>>>)
    ensures
        matches_text(r@) == all_groups(pattern@, text@),
{
    match Regex::new(pattern) {
        Ok(re) => re.captures_iter(text).map(
            |c| c.iter().map(|g| g.map(|m| m.as_str().to_string())).collect(),
        ).collect(),
        Err(_) => Vec::new(),
    }
}

/// A rule of the one-line policy.
#[derive(Clone, Debug)]
pub struct EnvOptions {
    pub rule: String,
    pub not_before: Timestamp,
    pub not_after: Timestamp,
    pub target: String,
    pub hostname: String,
    pub permit: bool,
    pub require_pass: bool,
    pub env_list: Vec<String>,
    pub edit: bool,
    pub from_where: String,
}

/// A rule of the one-line policy in specifications.
pub struct LineRule {
    pub rule: Text,
    pub not_before: Timestamp,
    pub not_after: Timestamp,
    pub target: Text,
    pub hostname: Text,
    pub permit: bool,
    pub require_pass: bool,
    pub env_list: Seq<Text>,
    pub edit: bool,
    pub from_where: Text,
}

impl View for EnvOptions {
    type V = LineRule;

    open spec fn view(&self) -> LineRule {
        LineRule {
            rule: self.rule@,
            not_before: self.not_before,
            not_after: self.not_after,
            target: self.target@,
            hostname: self.hostname@,
            permit: self.permit,
            require_pass: self.require_pass,
            env_list: string_views(self.env_list@),
            edit: self.edit,
            from_where: self.from_where@,
        }
    }
}

/// The rules of one user.
#[derive(Clone, Debug)]
pub struct UserData {
    pub option_list: Vec<EnvOptions>,
}

/// The views of a list of rules.
pub open spec fn line_rules(v: Seq<EnvOptions>) -> Seq<LineRule> {
    Seq::new(v.len(), |i: int| v[i]@)
}

impl View for UserData {
    type V = Seq<LineRule>;

    open spec fn view(&self) -> Seq<LineRule> {
        line_rules(self.option_list@)
    }
}

/// The rules of every user, by name, in specifications.
pub type Users = Seq<(Text, Seq<LineRule>)>;

/// The view of the rules of every user.
pub open spec fn users_view(v: Seq<(String, UserData)>) -> Users {
    Seq::new(v.len(), |i: int| (v[i].0@, v[i].1@))
}

/// The last second that a time of thirty-two bits can hold.
pub const LAST_SECOND: i64 = 2_147_483_647;

impl LineRule {
    /// The rule that a line starts from: open from the epoch to the last
    /// second of thirty-two bits, for `root` on `localhost`, with a password.
    pub open spec fn fresh() -> LineRule {
        LineRule {
            rule: Seq::empty(),
            not_before: Timestamp { secs: 0, nanos: 0 },
            not_after: Timestamp { secs: LAST_SECOND, nanos: 0 },
            target: "root"@,
            hostname: "localhost"@,
            permit: true,
            require_pass: true,
            env_list: Seq::empty(),
            edit: false,
            from_where: Seq::empty(),
        }
    }

    /// The decision where no rule of the user applies.
    pub open spec fn deny() -> LineRule {
        LineRule { permit: false, rule: "."@, ..LineRule::fresh() }
    }

    /// The decision for a user without rules.
    pub open spec fn stranger() -> LineRule {
        LineRule { target: Seq::empty(), edit: true, ..LineRule::deny() }
    }

    /// Whether the rule applies to a request: the time lies in its window,
    /// the kind and the target are the same, the host is that of the rule
    /// unless the rule is for `any` host or `localhost`, and the expression
    /// finds a match in the command.
    pub open spec fn applies(
        self,
        target: Text,
        date: Timestamp,
        hostname: Text,
        command: Text,
        edit: bool,
    ) -> bool {
        &&& !date.before(self.not_before)
        &&& !self.not_after.before(date)
        &&& self.edit == edit
        &&& self.hostname == hostname || self.hostname == "any"@ || self.hostname == "localhost"@
        &&& self.target == target
        &&& finds(self.rule, command)
    }
}

impl EnvOptions {
    /// The rule that a line starts from.
    pub fn new() -> (r: EnvOptions)
        ensures
            r@ == LineRule::fresh(),
    {
        let r = EnvOptions {
            rule: String::new(),
            target: "root".to_string(),
            not_before: Timestamp { secs: 0, nanos: 0 },
            not_after: Timestamp { secs: LAST_SECOND, nanos: 0 },
            permit: true,
            hostname: "localhost".to_string(),
            require_pass: true,
            env_list: Vec::new(),
            edit: false,
            from_where: String::new(),
        };
        assert(r@.env_list =~= Seq::empty());
        r
    }

    /// A copy of the rule.
    pub fn duplicate(&self) -> (r: EnvOptions)
        ensures
            r@ == self@,
    {
        EnvOptions {
            rule: self.rule.clone(),
            target: self.target.clone(),
            not_before: self.not_before,
            not_after: self.not_after,
            permit: self.permit,
            hostname: self.hostname.clone(),
            require_pass: self.require_pass,
            env_list: crate::rule::copy_texts(&self.env_list),
            edit: self.edit,
            from_where: self.from_where.clone(),
        }
    }
}

/// The expression that cuts a line into its attributes and its rule.
pub open spec fn line_pattern() -> Text {
    r"^\s*(?P<options>\S*[^\\])\s+(?P<rule>.*)\s*$"@
}

/// The expression that cuts the attributes into labels and values.
pub open spec fn attribute_pattern() -> Text {
    r"\s*(?P<label>[^:]+)\s*=\s*(?P<value>[^:]+\s*):?"@
}

/// The text of a group, or the empty text where there is no such group or it
/// took no part in the match.
pub open spec fn group(groups: Seq<Option<Text>>, i: int) -> Text {
    if 0 <= i < groups.len() {
        match groups[i] {
            Some(t) => t,
            None => Seq::empty(),
        }
    } else {
        Seq::empty()
    }
}

/// A line as it is being read: its rule, its user, and whether it is faulty.
pub struct Draft {
    pub opt: LineRule,
    pub user: Text,
    pub faulty: bool,
}

/// What the attribute `label = value` does to a line. A label that is not
/// known, and a window's end that cannot be read, is a fault.
pub open spec fn attribute_effect(draft: Draft, label: Text, value: Text) -> Draft {
    let opt = draft.opt;
    if label == "user"@ {
        Draft { user: value, ..draft }
    } else if label == "hostname"@ {
        Draft { opt: LineRule { hostname: value, ..opt }, ..draft }
    } else if label == "target"@ {
        Draft { opt: LineRule { target: value, ..opt }, ..draft }
    } else if label == "permit"@ {
        Draft { opt: LineRule { permit: value == "true"@, ..opt }, ..draft }
    } else if label == "require_pass"@ {
        Draft { opt: LineRule { require_pass: value != "false"@, ..opt }, ..draft }
    } else if label == "edit"@ {
        Draft { opt: LineRule { edit: value == "true"@, ..opt }, ..draft }
    } else if label == "notbefore"@ && byte_len(value) == 8 {
        match day_start(value) {
            Some(t) => Draft { opt: LineRule { not_before: t, ..opt }, ..draft },
            None => Draft { faulty: true, ..draft },
        }
    } else if label == "notafter"@ && byte_len(value) == 8 {
        match day_end(value) {
            Some(t) => Draft { opt: LineRule { not_after: t, ..opt }, ..draft },
            None => Draft { faulty: true, ..draft },
        }
    } else if label == "notbefore"@ && byte_len(value) == 14 {
        match second_named(value) {
            Some(t) => Draft { opt: LineRule { not_before: t, ..opt }, ..draft },
            None => Draft { faulty: true, ..draft },
        }
    } else if label == "notafter"@ && byte_len(value) == 14 {
        match second_named(value) {
            Some(t) => Draft { opt: LineRule { not_after: t, ..opt }, ..draft },
            None => Draft { faulty: true, ..draft },
        }
    } else {
        Draft { faulty: true, ..draft }
    }
}

/// The line after the first `n` of its attributes.
pub open spec fn attributes_upto(parts: Seq<Seq<Option<Text>>>, n: int, start: Draft) -> Draft
    decreases n,
{
    if n <= 0 {
        start
    } else {
        attribute_effect(
            attributes_upto(parts, n - 1, start),
            group(parts[n - 1], 1),
            group(parts[n - 1], 2),
        )
    }
}

/// The first index at or after `from` where `users` holds the user `name`,
/// or the length of `users`.
pub open spec fn user_index(users: Users, name: Text, from: int) -> int
    decreases users.len() - from,
{
    if from >= users.len() {
        users.len() as int
    } else if users[from].0 == name {
        from
    } else {
        user_index(users, name, from + 1)
    }
}

/// `users` with `opt` added to the rules of `name`.
pub open spec fn with_rule(users: Users, name: Text, opt: LineRule) -> Users {
    let i = user_index(users, name, 0);
    if 0 <= i < users.len() {
        users.update(i, (name, users[i].1.push(opt)))
    } else {
        users.push((name, seq![opt]))
    }
}

/// The policy as it is being read: the rules of every user, and whether a
/// fault was found.
pub struct Reading {
    pub users: Users,
    pub faulty: bool,
}

/// The expression of a rule for a user: `%\{USER\}` stands for the name of
/// the user.
pub open spec fn rule_for(rule: Text, user: Text) -> Text {
    replace(rule, r"%\{USER\}"@, user)
}

/// What one line does to the policy. A line that the line pattern does not
/// match does nothing. An expression that does not compile is a fault and
/// ends the line. The attributes are taken in order; a line without a user
/// gives no rule.
pub open spec fn line_effect(reading: Reading, line: Text, config_path: Text, user: Text) -> Reading {
    match first_groups(line_pattern(), line) {
        None => reading,
        Some(groups) => {
            let rule = rule_for(group(groups, 2), user);
            if !compiles(rule) {
                Reading { faulty: true, ..reading }
            } else {
                let parts = all_groups(attribute_pattern(), group(groups, 1));
                let start = Draft {
                    opt: LineRule { rule, ..LineRule::fresh() },
                    user: Seq::empty(),
                    faulty: reading.faulty,
                };
                let draft = attributes_upto(parts, parts.len() as int, start);
                if draft.user.len() == 0 {
                    Reading { faulty: draft.faulty, ..reading }
                } else {
                    Reading {
                        users: with_rule(
                            reading.users,
                            draft.user,
                            LineRule { from_where: config_path + ", "@ + draft.user, ..draft.opt },
                        ),
                        faulty: draft.faulty,
                    }
                }
            }
        },
    }
}

/// The policy after the first `n` lines.
pub open spec fn lines_upto(
    lines: Seq<Text>,
    n: int,
    start: Reading,
    config_path: Text,
    user: Text,
) -> Reading
    decreases n,
{
    if n <= 0 {
        start
    } else {
        line_effect(lines_upto(lines, n - 1, start, config_path, user), lines[n - 1], config_path, user)
    }
}

/// The text of a group.
fn group_of(groups: &Vec<Option<String>>, i: usize) -> (r: Vec<char>)
    ensures
        r@ == group(groups_text(groups@), i as int),
{
    if i < groups.len() {
        match &groups[i] {
            Some(t) => chars_of(t.as_str()),
            None => Vec::new(),
        }
    } else {
        Vec::new()
    }
}

/// Applies the attribute `label = value` to a line. Returns whether it is a
/// fault.
fn apply_attribute(opt: &mut EnvOptions, user: &mut Vec<char>, label: &Vec<char>, value: &Vec<char>) -> (fault:
    bool)
    ensures
        ({
            let before = Draft { opt: old(opt)@, user: old(user)@, faulty: false };
            let after = attribute_effect(before, label@, value@);
            &&& final(opt)@ == after.opt
            &&& final(user)@ == after.user
            &&& fault == after.faulty
        }),
{
    let text = string_of(value);
    let bytes = text.as_str().as_bytes().len();
    let not_before = is_text(label, "notbefore");
    let not_after = is_text(label, "notafter");
    if is_text(label, "user") {
        *user = chars_of(text.as_str());
        false
    } else if is_text(label, "hostname") {
        opt.hostname = text;
        false
    } else if is_text(label, "target") {
        opt.target = text;
        false
    } else if is_text(label, "permit") {
        opt.permit = is_text(value, "true");
        false
    } else if is_text(label, "require_pass") {
        opt.require_pass = !is_text(value, "false");
        false
    } else if is_text(label, "edit") {
        opt.edit = is_text(value, "true");
        false
    } else if not_before && bytes == 8 {
        match parse_day_start(text.as_str()) {
            Some(t) => {
                opt.not_before = t;
                false
            },
            None => true,
        }
    } else if not_after && bytes == 8 {
        match parse_day_end(text.as_str()) {
            Some(t) => {
                opt.not_after = t;
                false
            },
            None => true,
        }
    } else if not_before && bytes == 14 {
        match parse_second(text.as_str()) {
            Some(t) => {
                opt.not_before = t;
                false
            },
            None => true,
        }
    } else if not_after && bytes == 14 {
        match parse_second(text.as_str()) {
            Some(t) => {
                opt.not_after = t;
                false
            },
            None => true,
        }
    } else {
        true
    }
}

/// A fault that was found stays: the attributes never clear it.
pub proof fn lemma_attribute_fault(draft: Draft, label: Text, value: Text)
    ensures
        attribute_effect(draft, label, value).faulty == (draft.faulty || attribute_effect(
            Draft { faulty: false, ..draft },
            label,
            value,
        ).faulty),
        attribute_effect(draft, label, value).opt == attribute_effect(
            Draft { faulty: false, ..draft },
            label,
            value,
        ).opt,
        attribute_effect(draft, label, value).user == attribute_effect(
            Draft { faulty: false, ..draft },
            label,
            value,
        ).user,
{
}

/// Adds `opt` to the rules of the user `name`.
fn add_rule(hm: &mut Vec<(String, UserData)>, name: &Vec<char>, opt: EnvOptions)
    ensures
        users_view(final(hm)@) == with_rule(users_view(old(hm)@), name@, opt@),
{
    let ghost before = users_view(hm@);
    let mut i: usize = 0;
    while i < hm.len()
        invariant
            i <= hm.len(),
            *hm == *old(hm),
            before == users_view(hm@),
            user_index(before, name@, 0) == user_index(before, name@, i as int),
        decreases hm.len() - i,
    {
        assert(before[i as int].0 == hm@[i as int].0@);
        if is_text(name, hm[i].0.as_str()) {
            let mut entry = hm.remove(i);
            let ghost rules = entry.1.option_list@;
            entry.1.option_list.push(opt);
            assert(line_rules(entry.1.option_list@) =~= line_rules(rules).push(opt@));
            hm.insert(i, entry);
            assert(users_view(hm@) =~= before.update(i as int, (name@, before[i as int].1.push(opt@))));
            return ;
        }
        i += 1;
    }
    let ghost old_hm = hm@;
    let mut list: Vec<EnvOptions> = Vec::new();
    list.push(opt);
    assert(line_rules(list@) =~= seq![opt@]);
    hm.push((string_of(name), UserData { option_list: list }));
    assert(users_view(hm@) =~= before.push((name@, seq![opt@])));
}

/// Reads one line of the policy. Returns whether the policy is faulty after
/// it.
fn parse_line(
    hm: &mut Vec<(String, UserData)>,
    faulty: bool,
    line: &Vec<char>,
    config_path: &str,
    execute_user: &str,
) -> (r: bool)
    ensures
        ({
            let after = line_effect(
                Reading { users: users_view(old(hm)@), faulty },
                line@,
                config_path@,
                execute_user@,
            );
            &&& users_view(final(hm)@) == after.users
            &&& r == after.faulty
        }),
{
    let groups = match capture_first(
        r"^\s*(?P<options>\S*[^\\])\s+(?P<rule>.*)\s*$",
        string_of(line).as_str(),
    ) {
        Some(g) => g,
        None => {
            return faulty;
        },
    };
    let user_macro = chars_of(r"%\{USER\}");
    proof {
        reveal_strlit(r"%\{USER\}");
    }
    let rule = string_of(&replaced(&group_of(&groups, 2), &user_macro, &chars_of(execute_user)));
    match Regex::new(rule.as_str()) {
        Ok(_) => {},
        Err(_) => {
            return true;
        },
    }
    let options = string_of(&group_of(&groups, 1));
    let parts = capture_all(r"\s*(?P<label>[^:]+)\s*=\s*(?P<value>[^:]+\s*):?", options.as_str());
    let mut opt = EnvOptions::new();
    opt.rule = rule;
    let mut user: Vec<char> = Vec::new();
    let mut fault = faulty;
    let ghost all = matches_text(parts@);
    let ghost start = Draft { opt: opt@, user: user@, faulty };
    let mut i: usize = 0;
    while i < parts.len()
        invariant
            i <= parts.len(),
            all == matches_text(parts@),
            attributes_upto(all, i as int, start) == (Draft { opt: opt@, user: user@, faulty: fault }),
        decreases parts.len() - i,
    {
        assert(all[i as int] == groups_text(parts@[i as int]@));
        let label = group_of(&parts[i], 1);
        let value = group_of(&parts[i], 2);
        proof {
            lemma_attribute_fault(Draft { opt: opt@, user: user@, faulty: fault }, label@, value@);
        }
        if apply_attribute(&mut opt, &mut user, &label, &value) {
            fault = true;
        }
        i += 1;
    }
    if user.len() == 0 {
        return fault;
    }
    let mut from_where = chars_of(config_path);
    put(&mut from_where, ", ");
    append(&mut from_where, &user);
    opt.from_where = string_of(&from_where);
    add_rule(hm, &user, opt);
    fault
}

/// Reads the policy `lines` for the user `execute_user` into `hm`. Returns
/// whether a fault was found, where faults count.
pub fn parse_config(
    lines: &str,
    hm: &mut Vec<(String, UserData)>,
    config_path: &str,
    execute_user: &str,
    fail_error: bool,
) -> (faulty: bool)
    ensures
        ({
            let all = split(lines@, '\n');
            let read = lines_upto(
                all,
                all.len() as int,
                Reading { users: users_view(old(hm)@), faulty: false },
                config_path@,
                execute_user@,
            );
            &&& users_view(final(hm)@) == read.users
            &&& faulty == (fail_error && read.faulty)
        }),
{
    let all = split_at_char(&chars_of(lines), '\n');
    let ghost start = Reading { users: users_view(old(hm)@), faulty: false };
    let mut fault = false;
    let mut i: usize = 0;
    while i < all.len()
        invariant
            i <= all.len(),
            lines_upto(views(all@), i as int, start, config_path@, execute_user@) == (Reading {
                users: users_view(hm@),
                faulty: fault,
            }),
        decreases all.len() - i,
    {
        assert(views(all@)[i as int] == all@[i as int]@);
        fault = parse_line(hm, fault, &all[i], config_path, execute_user);
        i += 1;
    }
    fail_error && fault
}

/// The decision among the first `n` rules of a user: the last that applies,
/// or `start` where none does.
pub open spec fn decided_upto(
    rules: Seq<LineRule>,
    n: int,
    start: LineRule,
    target: Text,
    date: Timestamp,
    hostname: Text,
    command: Text,
    edit: bool,
) -> LineRule
    decreases n,
{
    if n <= 0 {
        start
    } else if rules[n - 1].applies(target, date, hostname, command, edit) {
        rules[n - 1]
    } else {
        decided_upto(rules, n - 1, start, target, date, hostname, command, edit)
    }
}

/// The decision of the policy on a request: that of the last rule of the
/// user that applies; a denial where none applies or the user has no rules.
pub open spec fn decision(
    users: Users,
    user: Text,
    target: Text,
    date: Timestamp,
    hostname: Text,
    command: Text,
    edit: bool,
) -> LineRule {
    let i = user_index(users, user, 0);
    if 0 <= i < users.len() {
        decided_upto(
            users[i].1,
            users[i].1.len() as int,
            LineRule::deny(),
            target,
            date,
            hostname,
            command,
            edit,
        )
    } else {
        LineRule::stranger()
    }
}

/// Whether a rule applies to a request.
fn rule_applies(
    item: &EnvOptions,
    target: &str,
    date: &Timestamp,
    hostname: &str,
    command: &str,
    edit: bool,
) -> (r: bool)
    ensures
        r == item@.applies(target@, *date, hostname@, command@, edit),
{
    if date.is_before(&item.not_before) {
        return false;
    }
    if item.not_after.is_before(date) {
        return false;
    }
    if item.edit != edit {
        return false;
    }
    let host = chars_of(item.hostname.as_str());
    if !is_text(&host, hostname) && !is_text(&host, "any") && !is_text(&host, "localhost") {
        return false;
    }
    if !crate::matcher::same_text(item.target.as_str(), target) {
        return false;
    }
    match Regex::new(item.rule.as_str()) {
        Ok(re) => re.is_match(command),
        Err(_) => false,
    }
}

/// The decision of the policy on a request.
pub fn can(
    hm: &Vec<(String, UserData)>,
    user: &str,
    target: &str,
    date: &Timestamp,
    hostname: &str,
    command: &str,
    edit: bool,
) -> (r: Result<EnvOptions, ()>)
    ensures
        r matches Ok(opt) && opt@ == decision(
            users_view(hm@),
            user@,
            target@,
            *date,
            hostname@,
            command@,
            edit,
        ),
{
    let ghost users = users_view(hm@);
    let name = chars_of(user);
    let mut i: usize = 0;
    while i < hm.len()
        invariant
            i <= hm.len(),
            users == users_view(hm@),
            name@ == user@,
            user_index(users, user@, 0) == user_index(users, user@, i as int),
        decreases hm.len() - i,
    {
        assert(users[i as int] == (hm@[i as int].0@, hm@[i as int].1@));
        if is_text(&name, hm[i].0.as_str()) {
            let list = &hm[i].1.option_list;
            let mut opt = EnvOptions::new();
            opt.permit = false;
            opt.rule = ".".to_string();
            let ghost rules = line_rules(list@);
            let mut n: usize = 0;
            while n < list.len()
                invariant
                    n <= list.len(),
                    rules == line_rules(list@),
                    opt@ == decided_upto(
                        rules,
                        n as int,
                        LineRule::deny(),
                        target@,
                        *date,
                        hostname@,
                        command@,
                        edit,
                    ),
                decreases list.len() - n,
            {
                assert(rules[n as int] == list@[n as int]@);
                if rule_applies(&list[n], target, date, hostname, command, edit) {
                    opt = list[n].duplicate();
                }
                n += 1;
            }
            return Ok(opt);
        }
        i += 1;
    }
    let mut opt = EnvOptions::new();
    opt.permit = false;
    opt.rule = ".".to_string();
    opt.target = String::new();
    opt.edit = true;
    Ok(opt)
}

/// The decision of the policy on a request to run a command.
pub fn can_run(
    hm: &Vec<(String, UserData)>,
    user: &str,
    target: &str,
    date: &Timestamp,
    hostname: &str,
    command: &str,
) -> (r: Result<EnvOptions, ()>)
    ensures
        r matches Ok(opt) && opt@ == decision(
            users_view(hm@),
            user@,
            target@,
            *date,
            hostname@,
            command@,
            false,
        ),
{
    can(hm, user, target, date, hostname, command, false)
}

/// The decision of the policy on a request to edit a file.
pub fn can_edit(
    hm: &Vec<(String, UserData)>,
    user: &str,
    target: &str,
    date: &Timestamp,
    hostname: &str,
    command: &str,
) -> (r: Result<EnvOptions, ()>)
    ensures
        r matches Ok(opt) && opt@ == decision(
            users_view(hm@),
            user@,
            target@,
            *date,
            hostname@,
            command@,
            true,
        ),
{
    can(hm, user, target, date, hostname, command, true)
}

/// A point in time as the listing shows it; nothing for a point outside the
/// calendar.
pub open spec fn shown(t: Timestamp) -> Text {
    match moment_shown(t.secs as int, t.nanos as int) {
        Some(s) => s,
        None => Seq::empty(),
    }
}

/// Whether a rule is listed: it is of the kind asked for, and for the host.
pub open spec fn listed(item: LineRule, hostname: Text, edit: bool) -> bool {
    item.edit == edit && (item.hostname == hostname || item.hostname == "any"@ || item.hostname
        == "localhost"@)
}

/// What the listing says of a rule before its target.
pub open spec fn line_remarks(item: LineRule, date: Timestamp) -> Seq<Text> {
    (if date.before(item.not_before) {
        seq!["upcomming("@ + shown(item.not_before) + ")"@]
    } else {
        Seq::empty()
    }) + (if item.not_after.before(date) {
        seq!["expired("@ + shown(item.not_after) + ")"@]
    } else {
        Seq::empty()
    }) + (if !item.permit {
        seq!["not permitted"@]
    } else {
        Seq::empty()
    })
}

/// The second line of a rule in the listing.
pub open spec fn line_shown(item: LineRule, date: Timestamp) -> Text {
    let all = join(line_remarks(item, date), ", "@);
    "  "@ + (if all.len() > 0 {
        all + " as "@
    } else {
        all
    }) + item.target + ": "@ + item.rule
}

/// The lines that list the first `n` rules.
pub open spec fn listing_upto(
    rules: Seq<LineRule>,
    n: int,
    date: Timestamp,
    hostname: Text,
    edit: bool,
) -> Seq<Text>
    decreases n,
{
    if n <= 0 {
        Seq::empty()
    } else if listed(rules[n - 1], hostname, edit) {
        listing_upto(rules, n - 1, date, hostname, edit).push(
            "from "@ + rules[n - 1].from_where + ":"@,
        ).push(line_shown(rules[n - 1], date))
    } else {
        listing_upto(rules, n - 1, date, hostname, edit)
    }
}

/// The lines that list the rules of a user.
pub open spec fn listing(users: Users, user: Text, date: Timestamp, hostname: Text, edit: bool) -> Seq<
    Text,
> {
    let i = user_index(users, user, 0);
    if 0 <= i < users.len() {
        listing_upto(users[i].1, users[i].1.len() as int, date, hostname, edit)
    } else {
        Seq::empty()
    }
}

/// A point in time as the listing shows it.
fn show(t: &Timestamp) -> (s: String)
    ensures
        s@ == shown(*t),
{
    match show_moment(t) {
        Some(s) => s,
        None => String::new(),
    }
}

/// The second line of a rule in the listing.
fn show_line(item: &EnvOptions, date: &Timestamp) -> (line: String)
    ensures
        line@ == line_shown(item@, *date),
{
    let mut remarks: Vec<Vec<char>> = Vec::new();
    assert(views(remarks@) =~= Seq::empty());
    if date.is_before(&item.not_before) {
        let mut remark = chars_of("upcomming(");
        put(&mut remark, show(&item.not_before).as_str());
        put(&mut remark, ")");
        remarks.push(remark);
    }
    let ghost first = views(remarks@);
    assert(first =~= if date.before(item.not_before) {
        seq!["upcomming("@ + shown(item.not_before) + ")"@]
    } else {
        Seq::empty()
    });
    if item.not_after.is_before(date) {
        let mut remark = chars_of("expired(");
        put(&mut remark, show(&item.not_after).as_str());
        put(&mut remark, ")");
        remarks.push(remark);
    }
    let ghost second = views(remarks@);
    assert(second =~= first + (if item.not_after.before(*date) {
        seq!["expired("@ + shown(item.not_after) + ")"@]
    } else {
        Seq::empty()
    }));
    if !item.permit {
        remarks.push(chars_of("not permitted"));
    }
    assert(views(remarks@) =~= second + (if !item.permit {
        seq!["not permitted"@]
    } else {
        Seq::empty()
    }));
    let all = joined(&remarks, &chars_of(", "));
    let mut out = chars_of("  ");
    let ghost head = out@;
    append(&mut out, &all);
    if all.len() > 0 {
        put(&mut out, " as ");
        assert(out@ == head + (all@ + " as "@));
    }
    put(&mut out, item.target.as_str());
    put(&mut out, ": ");
    put(&mut out, item.rule.as_str());
    string_of(&out)
}

/// The lines that list the rules of `user` of one kind for a host.
pub fn list(hm: &Vec<(String, UserData)>, user: &str, date: &Timestamp, hostname: &str, edit: bool) -> (lines:
    Vec<String>)
    ensures
        string_views(lines@) == listing(users_view(hm@), user@, *date, hostname@, edit),
{
    let ghost users = users_view(hm@);
    let name = chars_of(user);
    let mut lines: Vec<String> = Vec::new();
    let mut i: usize = 0;
    while i < hm.len()
        invariant
            i <= hm.len(),
            users == users_view(hm@),
            name@ == user@,
            lines.len() == 0,
            user_index(users, user@, 0) == user_index(users, user@, i as int),
        decreases hm.len() - i,
    {
        assert(users[i as int] == (hm@[i as int].0@, hm@[i as int].1@));
        if is_text(&name, hm[i].0.as_str()) {
            let list = &hm[i].1.option_list;
            let ghost rules = line_rules(list@);
            let mut n: usize = 0;
            assert(string_views(lines@) =~= listing_upto(rules, 0, *date, hostname@, edit));
            while n < list.len()
                invariant
                    n <= list.len(),
                    rules == line_rules(list@),
                    string_views(lines@) == listing_upto(rules, n as int, *date, hostname@, edit),
                decreases list.len() - n,
            {
                let item = &list[n];
                assert(rules[n as int] == item@);
                let host = chars_of(item.hostname.as_str());
                if item.edit == edit && (is_text(&host, hostname) || is_text(&host, "any")
                    || is_text(&host, "localhost")) {
                    let mut head = chars_of("from ");
                    put(&mut head, item.from_where.as_str());
                    put(&mut head, ":");
                    let ghost before = lines@;
                    let head = string_of(&head);
                    let line = show_line(item, date);
                    lines.push(head);
                    lines.push(line);
                    assert(string_views(lines@) =~= string_views(before).push(head@).push(line@));
                }
                n += 1;
            }
            return lines;
        }
        i += 1;
    }
    assert(string_views(lines@) =~= Seq::empty());
    lines
}

/// The lines that list the rules of `user` to edit files.
pub fn list_edit(hm: &Vec<(String, UserData)>, user: &str, date: &Timestamp, hostname: &str) -> (lines:
    Vec<String>)
    ensures
        string_views(lines@) == listing(users_view(hm@), user@, *date, hostname@, true),
{
    list(hm, user, date, hostname, true)
}

/// The lines that list the rules of `user` to run commands.
pub fn list_run(hm: &Vec<(String, UserData)>, user: &str, date: &Timestamp, hostname: &str) -> (lines:
    Vec<String>)
    ensures
        string_views(lines@) == listing(users_view(hm@), user@, *date, hostname@, false),
{
    list(hm, user, date, hostname, false)
}

/// Where `binary` would be in the directory `dir`, which is taken as it
/// stands.
pub open spec fn in_dir(dir: Text, binary: Text) -> Text {
    dir + "/"@ + binary
}

/// The first of `dirs`, from index `i` on, that holds `binary`, with
/// `binary` in it; `binary` itself where none does.
pub open spec fn found_in(dirs: Seq<Text>, i: int, binary: Text, fs: Set<Text>) -> Text
    decreases dirs.len() - i,
{
    if i >= dirs.len() || i < 0 {
        binary
    } else if fs.contains(in_dir(dirs[i], binary)) {
        in_dir(dirs[i], binary)
    } else {
        found_in(dirs, i + 1, binary, fs)
    }
}

/// Where `binary` is: itself if it starts with `/`, else in the first
/// directory of `path` that holds it, else itself.
pub open spec fn located(binary: Text, path: Option<Text>, fs: Set<Text>) -> Text {
    if seq!['/'].is_prefix_of(binary) {
        binary
    } else {
        match path {
            Some(p) => found_in(split(p, ':'), 0, binary, fs),
            None => binary,
        }
    }
}

/// Where `binary` is, for the search path `path` of the invoker.
#[verifier::loop_isolation(false)]
pub fn search_path(binary: &str, path: Option<&str>, fs: &PathSet) -> (r: String)
    ensures
        r@ == located(
            binary@,
            match path {
                Some(p) => Some(p@),
                None => None,
            },
            fs@,
        ),
{
    let name = chars_of(binary);
    let mut slash: Vec<char> = Vec::new();
    slash.push('/');
    assert(slash@ == seq!['/']);
    if crate::text::starts_with(&name, &slash) {
        return binary.to_string();
    }
    let path = match path {
        Some(p) => p,
        None => {
            return binary.to_string();
        },
    };
    let dirs = split_at_char(&chars_of(path), ':');
    let ghost all = views(dirs@);
    let mut i: usize = 0;
    while i < dirs.len()
        invariant
            i <= dirs.len(),
            found_in(all, 0, binary@, fs@) == found_in(all, i as int, binary@, fs@),
        decreases dirs.len() - i,
    {
        assert(all[i as int] == dirs@[i as int]@);
        let mut candidate = crate::text::slice_of(&dirs[i], 0, dirs[i].len());
        assert(candidate@ == dirs@[i as int]@) by {
            assert(dirs@[i as int]@.subrange(0, dirs@[i as int]@.len() as int) == dirs@[i as int]@);
        }
        put(&mut candidate, "/");
        append(&mut candidate, &name);
        if fs.holds(&candidate) {
            return string_of(&candidate);
        }
        i += 1;
    }
    binary.to_string()
}

/// What a challenge does next.
#[derive(Clone, Copy, Debug, PartialEq, Eq, Structural)]
pub enum Challenge {
    /// Ask for the password and try it.
    Ask,
    /// Let the invoker pass.
    Granted,
    /// Turn the invoker away.
    Denied,
}

/// One step of the challenge of a user under a rule. `failures` counts the
/// attempts that failed so far, and `last` is the outcome of the attempt
/// just made, if one was made. A rule that asks for no password lets the
/// user pass; else the user has three attempts.
pub open spec fn challenge(rule: LineRule, failures: u8, last: Option<bool>) -> Challenge {
    if !rule.require_pass {
        Challenge::Granted
    } else {
        match last {
            None => Challenge::Ask,
            Some(true) => Challenge::Granted,
            Some(false) => if failures >= 3 {
                Challenge::Denied
            } else {
                Challenge::Ask
            },
        }
    }
}

/// One step of the challenge of a user under the rule `entry`.
pub fn challenge_password(entry: &EnvOptions, failures: u8, last: Option<bool>) -> (r: Challenge)
    ensures
        r == challenge(entry@, failures, last),
{
    if !entry.require_pass {
        return Challenge::Granted;
    }
    match last {
        None => Challenge::Ask,
        Some(true) => Challenge::Granted,
        Some(false) => if failures >= 3 {
            Challenge::Denied
        } else {
            Challenge::Ask
        },
    }
}

/// The editor of the invoker, from the values of `VISUAL` and `EDITOR`.
pub fn get_editor(visual: Option<&str>, editor: Option<&str>) -> (r: String)
    ensures
        r@ == crate::edit::editor_chosen(
            match visual {
                Some(v) => Some(v@),
                None => None,
            },
            match editor {
                Some(e) => Some(e@),
                None => None,
            },
        ),
{
    crate::edit::get_editor(visual, editor)
}

} // verus!
