//! The environment of the child: what is taken out of the invoker's
//! environment, and what is set for the target.
use crate::config::{assign, assign_first, assigns};
use crate::number::{decimal, decimal_of};
use crate::request::{Request, RunOptions};
use crate::rule::{pairs_view, Acltype, EnvOptions, Pairs, Rule};
use crate::text::{chars_of, is_text, put, string_of, string_views, Text};
use vstd::prelude::*;

verus! {

/// The mask under which the files of a request are created.
pub const SAFE_UMASK: u32 = 0o077;

/// What is known of a user of the system.
#[derive(Clone, Debug)]
pub struct Account {
    pub name: String,
    pub uid: u32,
    pub gid: u32,
    pub home: String,
    pub shell: String,
}

/// `Account` in specifications.
pub struct AccountView {
    pub name: Text,
    pub uid: u32,
    pub gid: u32,
    pub home: Text,
    pub shell: Text,
}

impl View for Account {
    type V = AccountView;

    open spec fn view(&self) -> AccountView {
        AccountView {
            name: self.name@,
            uid: self.uid,
            gid: self.gid,
            home: self.home@,
            shell: self.shell@,
        }
    }
}

/// The variables of display and locale that every child keeps.
pub open spec fn always_kept(name: Text) -> bool {
    name == "LANGUAGE"@ || name == "XAUTHORITY"@ || name == "LANG"@ || name == "LS_COLORS"@
        || name == "TERM"@ || name == "DISPLAY"@ || name == "LOGNAME"@
}

/// Whether the request wants to carry the variable `name` through.
pub open spec fn passes_through(req: Request, name: Text) -> bool {
    req.allow_env_list matches Some(list) && list.contains(name)
}

/// Whether the scrub leaves the variable `name`: it is one that every child
/// keeps, or the request carries it through, or it names the editor of an
/// edit.
pub open spec fn kept(req: Request, name: Text) -> bool {
    always_kept(name) || passes_through(req, name) || (req.acl_type == Acltype::Edit && (name
        == "EDITOR"@ || name == "VISUAL"@))
}

/// The names of the first `n` of `vars` that the scrub removes.
pub open spec fn removed_upto(vars: Pairs, req: Request, n: int) -> Seq<Text>
    decreases n,
{
    if n <= 0 {
        Seq::empty()
    } else if kept(req, vars[n - 1].0) {
        removed_upto(vars, req, n - 1)
    } else {
        removed_upto(vars, req, n - 1).push(vars[n - 1].0)
    }
}

/// The environment saved for the editor after the first `n` of `vars`: each
/// variable with the value that it had first.
pub open spec fn saved_upto(vars: Pairs, start: Option<Pairs>, n: int) -> Option<Pairs>
    decreases n,
{
    if n <= 0 {
        start
    } else {
        Some(
            assign_first(
                match saved_upto(vars, start, n - 1) {
                    Some(p) => p,
                    None => Seq::empty(),
                },
                vars[n - 1].0,
                vars[n - 1].1,
            ),
        )
    }
}

/// The request after the scrub: it remembers the mask that was in force, and
/// an edit remembers the environment as it was.
pub open spec fn scrubbed_request(req: Request, vars: Pairs, old_umask: u32) -> Request {
    Request {
        old_umask: Some(old_umask),
        old_envs: if req.acl_type == Acltype::Edit {
            saved_upto(vars, req.old_envs, vars.len() as int)
        } else {
            req.old_envs
        },
        ..req
    }
}

/// Whether the request wants to carry the variable `name` through.
#[verifier::loop_isolation(false)]
pub fn carried(ro: &RunOptions, name: &Vec<char>) -> (r: bool)
    ensures
        r == passes_through(ro@, name@),
{
    match &ro.allow_env_list {
        Some(list) => {
            let mut i: usize = 0;
            while i < list.len()
                invariant
                    i <= list.len(),
                    forall|j: int| 0 <= j < i ==> string_views(list@)[j] != name@,
                decreases list.len() - i,
            {
                assert(string_views(list@)[i as int] == list@[i as int]@);
                if is_text(name, list[i].as_str()) {
                    assert(string_views(list@).contains(name@));
                    return true;
                }
                i += 1;
            }
            false
        },
        None => false,
    }
}

/// Whether the scrub leaves the variable `name`.
pub fn keeps(ro: &RunOptions, name: &Vec<char>) -> (r: bool)
    ensures
        r == kept(ro@, name@),
{
    if is_text(name, "LANGUAGE") || is_text(name, "XAUTHORITY") || is_text(name, "LANG")
        || is_text(name, "LS_COLORS") || is_text(name, "TERM") || is_text(name, "DISPLAY")
        || is_text(name, "LOGNAME") {
        return true;
    }
    if carried(ro, name) {
        return true;
    }
    ro.acl_type == Acltype::Edit && (is_text(name, "EDITOR") || is_text(name, "VISUAL"))
}

/// Scrubs the environment `vars` of the invoker: returns the names of the
/// variables to remove, and notes in the request the mask that was in force
/// and, for an edit, the environment as it was.
pub fn clean_environment(ro: &mut RunOptions, vars: &Vec<(String, String)>, old_umask: u32) -> (remove:
    Vec<String>)
    ensures
        string_views(remove@) == removed_upto(pairs_view(vars@), old(ro)@, vars.len() as int),
        final(ro)@ == scrubbed_request(old(ro)@, pairs_view(vars@), old_umask),
{
    let ghost all = pairs_view(vars@);
    let ghost start = old(ro)@.old_envs;
    ro.old_umask = Some(old_umask);
    let edit = ro.acl_type == Acltype::Edit;
    let mut remove: Vec<String> = Vec::new();
    let mut i: usize = 0;
    assert(string_views(remove@) =~= removed_upto(all, old(ro)@, 0));
    while i < vars.len()
        invariant
            i <= vars.len(),
            all == pairs_view(vars@),
            start == old(ro)@.old_envs,
            edit == (old(ro)@.acl_type == Acltype::Edit),
            string_views(remove@) == removed_upto(all, old(ro)@, i as int),
            ro@ == (Request {
                old_umask: Some(old_umask),
                old_envs: if edit {
                    saved_upto(all, start, i as int)
                } else {
                    start
                },
                ..old(ro)@
            }),
        decreases vars.len() - i,
    {
        let name = chars_of(vars[i].0.as_str());
        let value = chars_of(vars[i].1.as_str());
        assert(all[i as int] == (name@, value@));
        if edit {
            let mut saved: Vec<(String, String)> = match ro.old_envs.take() {
                Some(p) => p,
                None => Vec::new(),
            };
            assert(saved_upto(all, start, i as int) is None ==> pairs_view(saved@) =~= Seq::empty());
            assign(&mut saved, &name, &value);
            ro.old_envs = Some(saved);
        }
        assert(kept(ro@, name@) == kept(old(ro)@, name@));
        if !keeps(ro, &name) {
            let ghost before = remove@;
            remove.push(string_of(&name));
            assert(string_views(remove@) =~= string_views(before).push(name@));
        }
        i += 1;
    }
    remove
}

/// The assignment of `value` to `key`, unless the request carries `key`
/// through.
pub open spec fn unless_carried(req: Request, key: Text, value: Text) -> Pairs {
    if passes_through(req, key) {
        Seq::empty()
    } else {
        seq![(key, value)]
    }
}

/// The assignment of `value` to `key` that is to be made, or `None` where
/// the request carries `key` through.
pub fn set_env_if_not_passed_through(ro: &RunOptions, key: &str, value: &str) -> (r: Option<
    (String, String),
>)
    ensures
        unless_carried(ro@, key@, value@) == match r {
            Some(p) => seq![(p.0@, p.1@)],
            None => Seq::empty(),
        },
{
    if carried(ro, &chars_of(key)) {
        None
    } else {
        Some((key.to_string(), value.to_string()))
    }
}

/// The search path that a child gets.
pub open spec fn child_path() -> Text {
    "/usr/local/sbin:/usr/local/bin:/usr/sbin:/usr/bin:/sbin:/bin"@
}

/// What is said of the invoker and the command, under the names of this
/// program and under those of `sudo`.
pub open spec fn invoker_set(req: Request, invoker: AccountView, uid: u32) -> Pairs {
    seq![
        ("PLEASE_USER"@, invoker.name),
        ("PLEASE_UID"@, decimal(uid as nat)),
        ("PLEASE_GID"@, decimal(invoker.gid as nat)),
        ("PLEASE_COMMAND"@, req.command),
        ("SUDO_USER"@, invoker.name),
        ("SUDO_UID"@, decimal(uid as nat)),
        ("SUDO_GID"@, decimal(invoker.gid as nat)),
        ("SUDO_COMMAND"@, req.command),
    ]
}

/// What is said of the target, unless the request carries it through.
pub open spec fn target_set(req: Request, target: AccountView) -> Pairs {
    unless_carried(req, "PATH"@, child_path()) + unless_carried(req, "HOME"@, target.home)
        + unless_carried(req, "MAIL"@, "/var/mail/"@ + req.target) + unless_carried(
        req,
        "SHELL"@,
        target.shell,
    ) + unless_carried(req, "USER"@, req.target) + unless_carried(req, "LOGNAME"@, req.target)
}

/// What the rule assigns.
pub open spec fn rule_set(rule: Rule) -> Pairs {
    match rule.env_assign {
        Some(p) => p,
        None => Seq::empty(),
    }
}

/// The assignments that make the environment of the child, in the order in
/// which they are made: what is said of the invoker, what is said of the
/// target, and last what the rule assigns.
pub open spec fn environment_set(
    req: Request,
    rule: Rule,
    invoker: AccountView,
    uid: u32,
    target: AccountView,
) -> Pairs {
    invoker_set(req, invoker, uid) + target_set(req, target) + rule_set(rule)
}

/// Adds to `out` the assignment of `value` to `key`, unless the request
/// carries `key` through.
fn set_unless_carried(out: &mut Vec<(String, String)>, ro: &RunOptions, key: &str, value: &str)
    ensures
        pairs_view(final(out)@) == pairs_view(old(out)@) + unless_carried(ro@, key@, value@),
{
    let ghost before = out@;
    match set_env_if_not_passed_through(ro, key, value) {
        Some(p) => {
            out.push(p);
            assert(pairs_view(out@) =~= pairs_view(before) + seq![(key@, value@)]);
        },
        None => {
            assert(pairs_view(out@) =~= pairs_view(before) + Seq::empty());
        },
    }
}

/// Adds to `out` the assignment of `value` to `key`.
fn set(out: &mut Vec<(String, String)>, key: &str, value: &str)
    ensures
        pairs_view(final(out)@) == pairs_view(old(out)@).push((key@, value@)),
{
    let ghost before = out@;
    out.push((key.to_string(), value.to_string()));
    assert(pairs_view(out@) =~= pairs_view(before).push((key@, value@)));
}

/// What is said of the invoker and the command.
fn set_for_invoker(ro: &RunOptions, original_user: &Account, original_uid: u32) -> (out: Vec<
    (String, String),
>)
    ensures
        pairs_view(out@) == invoker_set(ro@, original_user@, original_uid),
{
    let uid = string_of(&decimal_of(original_uid as u64));
    let gid = string_of(&decimal_of(original_user.gid as u64));
    let mut out: Vec<(String, String)> = Vec::new();
    assert(pairs_view(out@) =~= Seq::empty());
    set(&mut out, "PLEASE_USER", original_user.name.as_str());
    set(&mut out, "PLEASE_UID", uid.as_str());
    set(&mut out, "PLEASE_GID", gid.as_str());
    set(&mut out, "PLEASE_COMMAND", ro.command.as_str());
    set(&mut out, "SUDO_USER", original_user.name.as_str());
    set(&mut out, "SUDO_UID", uid.as_str());
    set(&mut out, "SUDO_GID", gid.as_str());
    set(&mut out, "SUDO_COMMAND", ro.command.as_str());
    assert(pairs_view(out@) =~= invoker_set(ro@, original_user@, original_uid));
    out
}

/// What is said of the target, unless the request carries it through.
fn set_for_target(ro: &RunOptions, lookup_name: &Account) -> (out: Vec<(String, String)>)
    ensures
        pairs_view(out@) == target_set(ro@, lookup_name@),
{
    let mut mail = chars_of("/var/mail/");
    put(&mut mail, ro.target.as_str());
    let mail = string_of(&mail);
    let mut out: Vec<(String, String)> = Vec::new();
    assert(pairs_view(out@) =~= Seq::empty());
    set_unless_carried(
        &mut out,
        ro,
        "PATH",
        "/usr/local/sbin:/usr/local/bin:/usr/sbin:/usr/bin:/sbin:/bin",
    );
    let ghost a = pairs_view(out@);
    set_unless_carried(&mut out, ro, "HOME", lookup_name.home.as_str());
    let ghost b = pairs_view(out@);
    set_unless_carried(&mut out, ro, "MAIL", mail.as_str());
    let ghost c = pairs_view(out@);
    set_unless_carried(&mut out, ro, "SHELL", lookup_name.shell.as_str());
    let ghost d = pairs_view(out@);
    set_unless_carried(&mut out, ro, "USER", ro.target.as_str());
    let ghost e = pairs_view(out@);
    set_unless_carried(&mut out, ro, "LOGNAME", ro.target.as_str());
    assert(a =~= unless_carried(ro@, "PATH"@, child_path()));
    out
}

/// Appends copies of `more` to `out`.
fn extend(out: &mut Vec<(String, String)>, more: &Vec<(String, String)>)
    ensures
        pairs_view(final(out)@) == pairs_view(old(out)@) + pairs_view(more@),
{
    let ghost before = pairs_view(out@);
    let mut i: usize = 0;
    assert(pairs_view(out@) =~= before + pairs_view(more@).subrange(0, 0));
    while i < more.len()
        invariant
            i <= more.len(),
            pairs_view(out@) == before + pairs_view(more@).subrange(0, i as int),
        decreases more.len() - i,
    {
        let ghost so_far = out@;
        out.push((more[i].0.clone(), more[i].1.clone()));
        assert(pairs_view(out@) =~= pairs_view(so_far).push(pairs_view(more@)[i as int]));
        assert(pairs_view(more@).subrange(0, i + 1) =~= pairs_view(more@).subrange(
            0,
            i as int,
        ).push(pairs_view(more@)[i as int]));
        i += 1;
    }
    assert(pairs_view(more@).subrange(0, more.len() as int) =~= pairs_view(more@));
}

/// The assignments that make the environment of the child, in the order in
/// which they are to be made.
pub fn set_environment(
    ro: &RunOptions,
    entry: &EnvOptions,
    original_user: &Account,
    original_uid: u32,
    lookup_name: &Account,
) -> (out: Vec<(String, String)>)
    ensures
        pairs_view(out@) == environment_set(
            ro@,
            entry@,
            original_user@,
            original_uid,
            lookup_name@,
        ),
{
    let mut out = set_for_invoker(ro, original_user, original_uid);
    let target = set_for_target(ro, lookup_name);
    extend(&mut out, &target);
    match &entry.env_assign {
        Some(pairs) => {
            extend(&mut out, pairs);
        },
        None => {
            assert(pairs_view(out@) =~= pairs_view(out@) + Seq::empty());
        },
    }
    out
}

/// The names that are set for every child.
pub open spec fn canonical(name: Text) -> bool {
    name == "PATH"@ || name == "HOME"@ || name == "MAIL"@ || name == "SHELL"@ || name == "USER"@
        || name == "LOGNAME"@ || name == "PLEASE_USER"@ || name == "PLEASE_UID"@ || name
        == "PLEASE_GID"@ || name == "PLEASE_COMMAND"@ || name == "SUDO_USER"@ || name
        == "SUDO_UID"@ || name == "SUDO_GID"@ || name == "SUDO_COMMAND"@
}

/// Whether the child sees the variable `name`, when the invoker had the
/// environment `parent`: it was left by the scrub, or it is set.
pub open spec fn child_sees(
    parent: Pairs,
    req: Request,
    rule: Rule,
    invoker: AccountView,
    uid: u32,
    target: AccountView,
    name: Text,
) -> bool {
    (assigns(parent, name) && !removed_upto(parent, req, parent.len() as int).contains(name))
        || assigns(environment_set(req, rule, invoker, uid, target), name)
}

/// The scrub removes a variable of the invoker exactly when it is not kept.
pub proof fn lemma_scrub_removes(vars: Pairs, req: Request, n: int, name: Text)
    requires
        0 <= n <= vars.len(),
    ensures
        removed_upto(vars, req, n).contains(name) <==> !kept(req, name) && exists|i: int|
            0 <= i < n && (#[trigger] vars[i]).0 == name,
    decreases n,
{
    if n > 0 {
        lemma_scrub_removes(vars, req, n - 1, name);
        let before = removed_upto(vars, req, n - 1);
        if !kept(req, vars[n - 1].0) {
            let pushed = before.push(vars[n - 1].0);
            assert(pushed[before.len() as int] == vars[n - 1].0);
            if pushed.contains(name) && !before.contains(name) {
                let k = choose|k: int| 0 <= k < pushed.len() && pushed[k] == name;
                if k < before.len() {
                    assert(before[k] == name);
                }
            }
            if before.contains(name) {
                let k = choose|k: int| 0 <= k < before.len() && before[k] == name;
                assert(pushed[k] == name);
            }
        }
    }
}

/// Every name that is set is one of the names set for every child, or one
/// that the rule assigns.
pub proof fn lemma_set_names(
    req: Request,
    rule: Rule,
    invoker: AccountView,
    uid: u32,
    target: AccountView,
    name: Text,
)
    requires
        assigns(environment_set(req, rule, invoker, uid, target), name),
    ensures
        canonical(name) || assigns(rule_set(rule), name),
{
    let all = environment_set(req, rule, invoker, uid, target);
    let first = invoker_set(req, invoker, uid);
    let second = target_set(req, target);
    let i = choose|i: int| 0 <= i < all.len() && (#[trigger] all[i]).0 == name;
    if i < first.len() {
        assert(all[i] == first[i]);
    } else if i < first.len() + second.len() {
        assert(all[i] == second[i - first.len()]);
        lemma_target_names(req, target, i - first.len());
    } else {
        assert(all[i] == rule_set(rule)[i - first.len() - second.len()]);
    }
}

/// Every name that is set for the target is one of the names set for every
/// child.
pub proof fn lemma_target_names(req: Request, target: AccountView, i: int)
    requires
        0 <= i < target_set(req, target).len(),
    ensures
        canonical(target_set(req, target)[i].0),
{
    let a = unless_carried(req, "PATH"@, child_path());
    let b = unless_carried(req, "HOME"@, target.home);
    let c = unless_carried(req, "MAIL"@, "/var/mail/"@ + req.target);
    let d = unless_carried(req, "SHELL"@, target.shell);
    let e = unless_carried(req, "USER"@, req.target);
    let f = unless_carried(req, "LOGNAME"@, req.target);
    let all = a + b + c + d + e + f;
    assert(all == target_set(req, target));
    if i < a.len() {
        assert(all[i] == a[i]);
    } else if i < a.len() + b.len() {
        assert(all[i] == b[i - a.len()]);
    } else if i < a.len() + b.len() + c.len() {
        assert(all[i] == c[i - a.len() - b.len()]);
    } else if i < a.len() + b.len() + c.len() + d.len() {
        assert(all[i] == d[i - a.len() - b.len() - c.len()]);
    } else if i < a.len() + b.len() + c.len() + d.len() + e.len() {
        assert(all[i] == e[i - a.len() - b.len() - c.len() - d.len()]);
    } else {
        assert(all[i] == f[i - a.len() - b.len() - c.len() - d.len() - e.len()]);
    }
}

/// The environment scrub: the child sees only variables that the scrub
/// keeps, the names set for every child, and what the rule assigns. Any
/// other variable of the invoker is absent.
pub proof fn lemma_child_sees_only_permitted(
    parent: Pairs,
    req: Request,
    rule: Rule,
    invoker: AccountView,
    uid: u32,
    target: AccountView,
    name: Text,
)
    ensures
        child_sees(parent, req, rule, invoker, uid, target, name) ==> kept(req, name) || canonical(
            name,
        ) || assigns(rule_set(rule), name),
{
    if child_sees(parent, req, rule, invoker, uid, target, name) {
        if assigns(environment_set(req, rule, invoker, uid, target), name) {
            lemma_set_names(req, rule, invoker, uid, target, name);
        } else {
            lemma_scrub_removes(parent, req, parent.len() as int, name);
        }
    }
}

} // verus!
