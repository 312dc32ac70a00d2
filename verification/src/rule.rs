//! The rule model: one section of the policy, and how defaults merge into it.
use crate::clock::Timestamp;
use crate::text::{opt_view, Text};
use vstd::prelude::*;

verus! {

/// What a rule or a request is about: running a command, listing rules, or
/// editing a file.
#[derive(Clone, Copy, Debug, PartialEq, Eq, Structural)]
pub enum Acltype {
    Run,
    List,
    Edit,
}

impl Acltype {
    /// The name of the type, as a policy file writes it.
    pub open spec fn label(self) -> Text {
        match self {
            Acltype::Run => "run"@,
            Acltype::List => "list"@,
            Acltype::Edit => "edit"@,
        }
    }

    /// The name of the type, as a policy file writes it.
    pub fn to_string(&self) -> (s: String)
        ensures
            s@ == self.label(),
    {
        match self {
            Acltype::Run => "run".to_string(),
            Acltype::List => "list".to_string(),
            Acltype::Edit => "edit".to_string(),
        }
    }
}

/// The mode of an edited file: a literal mode, or that of the file replaced.
#[derive(Clone, Copy, Debug, PartialEq, Eq, Structural)]
pub enum EditMode {
    Mode(i32),
    Keep(bool),
}

/// Whether a reason must be given, or the expression that it must match.
#[derive(Clone, Debug, PartialEq, Eq)]
pub enum ReasonType {
    Need(bool),
    Text(String),
}

/// `ReasonType` in specifications.
pub enum ReasonView {
    Need(bool),
    Text(Text),
}

impl View for ReasonType {
    type V = ReasonView;

    open spec fn view(&self) -> ReasonView {
        match self {
            ReasonType::Need(b) => ReasonView::Need(*b),
            ReasonType::Text(t) => ReasonView::Text(t@),
        }
    }
}

/// A list of named values in specifications.
pub type Pairs = Seq<(Text, Text)>;

/// The view of a list of named values.
pub open spec fn pairs_view(v: Seq<(String, String)>) -> Pairs {
    Seq::new(v.len(), |i: int| (v[i].0@, v[i].1@))
}

/// The view of an optional list of named values.
pub open spec fn opt_pairs_view(v: Option<Vec<(String, String)>>) -> Option<Pairs> {
    match v {
        Some(p) => Some(pairs_view(p@)),
        None => None,
    }
}

/// The view of an optional reason.
pub open spec fn opt_reason_view(r: Option<ReasonType>) -> Option<ReasonView> {
    match r {
        Some(x) => Some(x@),
        None => None,
    }
}

/// One rule of the policy.
#[derive(Clone, Debug)]
pub struct EnvOptions {
    pub name: Option<String>,
    pub exact_name: Option<String>,
    pub rule: Option<String>,
    pub exact_rule: Option<String>,
    pub notbefore: Option<Timestamp>,
    pub notafter: Option<Timestamp>,
    pub datematch: Option<String>,
    pub target: Option<String>,
    pub exact_target: Option<String>,
    pub target_group: Option<String>,
    pub exact_target_group: Option<String>,
    pub hostname: Option<String>,
    pub exact_hostname: Option<String>,
    pub permit: Option<bool>,
    pub require_pass: Option<bool>,
    pub acl_type: Acltype,
    pub file_name: String,
    pub section: String,
    pub group: bool,
    pub configured: bool,
    pub dir: Option<String>,
    pub exact_dir: Option<String>,
    pub exitcmd: Option<String>,
    pub edit_mode: Option<EditMode>,
    pub reason: Option<ReasonType>,
    pub last: Option<bool>,
    pub syslog: Option<bool>,
    pub env_permit: Option<String>,
    pub env_assign: Option<Vec<(String, String)>>,
    pub timeout: Option<u32>,
    pub search_path: Option<String>,
    pub token_timeout: Option<u64>,
}

/// A rule in specifications.
pub struct Rule {
    pub name: Option<Text>,
    pub exact_name: Option<Text>,
    pub rule: Option<Text>,
    pub exact_rule: Option<Text>,
    pub notbefore: Option<Timestamp>,
    pub notafter: Option<Timestamp>,
    pub datematch: Option<Text>,
    pub target: Option<Text>,
    pub exact_target: Option<Text>,
    pub target_group: Option<Text>,
    pub exact_target_group: Option<Text>,
    pub hostname: Option<Text>,
    pub exact_hostname: Option<Text>,
    pub permit: Option<bool>,
    pub require_pass: Option<bool>,
    pub acl_type: Acltype,
    pub file_name: Text,
    pub section: Text,
    pub group: bool,
    pub configured: bool,
    pub dir: Option<Text>,
    pub exact_dir: Option<Text>,
    pub exitcmd: Option<Text>,
    pub edit_mode: Option<EditMode>,
    pub reason: Option<ReasonView>,
    pub last: Option<bool>,
    pub syslog: Option<bool>,
    pub env_permit: Option<Text>,
    pub env_assign: Option<Pairs>,
    pub timeout: Option<u32>,
    pub search_path: Option<Text>,
    pub token_timeout: Option<u64>,
}

impl View for EnvOptions {
    type V = Rule;

    open spec fn view(&self) -> Rule {
        Rule {
            name: opt_view(self.name),
            exact_name: opt_view(self.exact_name),
            rule: opt_view(self.rule),
            exact_rule: opt_view(self.exact_rule),
            notbefore: self.notbefore,
            notafter: self.notafter,
            datematch: opt_view(self.datematch),
            target: opt_view(self.target),
            exact_target: opt_view(self.exact_target),
            target_group: opt_view(self.target_group),
            exact_target_group: opt_view(self.exact_target_group),
            hostname: opt_view(self.hostname),
            exact_hostname: opt_view(self.exact_hostname),
            permit: self.permit,
            require_pass: self.require_pass,
            acl_type: self.acl_type,
            file_name: self.file_name@,
            section: self.section@,
            group: self.group,
            configured: self.configured,
            dir: opt_view(self.dir),
            exact_dir: opt_view(self.exact_dir),
            exitcmd: opt_view(self.exitcmd),
            edit_mode: self.edit_mode,
            reason: opt_reason_view(self.reason),
            last: self.last,
            syslog: self.syslog,
            env_permit: opt_view(self.env_permit),
            env_assign: opt_pairs_view(self.env_assign),
            timeout: self.timeout,
            search_path: opt_view(self.search_path),
            token_timeout: self.token_timeout,
        }
    }
}

/// The views of a list of rules.
pub open spec fn rules_view(v: Seq<EnvOptions>) -> Seq<Rule> {
    Seq::new(v.len(), |i: int| v[i]@)
}

impl Rule {
    /// The rule that a new section starts from: it targets `root`, is of type
    /// `run` and has a command expression that matches the empty command only.
    pub open spec fn fresh() -> Rule {
        Rule {
            name: None,
            exact_name: None,
            rule: Some("^$"@),
            exact_rule: None,
            notbefore: None,
            notafter: None,
            datematch: None,
            target: Some("root"@),
            exact_target: None,
            target_group: None,
            exact_target_group: None,
            hostname: None,
            exact_hostname: None,
            permit: None,
            require_pass: None,
            acl_type: Acltype::Run,
            file_name: Seq::empty(),
            section: Seq::empty(),
            group: false,
            configured: false,
            dir: None,
            exact_dir: None,
            exitcmd: None,
            edit_mode: None,
            reason: None,
            last: None,
            syslog: None,
            env_permit: None,
            env_assign: None,
            timeout: None,
            search_path: None,
            token_timeout: None,
        }
    }

    /// The decision where no rule matched: it permits nothing.
    pub open spec fn deny() -> Rule {
        Rule {
            permit: Some(false),
            rule: Some("."@),
            target: Some("^$"@),
            acl_type: Acltype::List,
            ..Rule::fresh()
        }
    }

    /// Whether the rule permits: it does unless it says `permit = false`.
    pub open spec fn permits(self) -> bool {
        self.permit != Some(false)
    }

    /// Whether the rule asks for a password: it does unless it says
    /// `require_pass = false`.
    pub open spec fn requires_pass(self) -> bool {
        self.require_pass != Some(false)
    }

    /// `item` with each effect that it leaves unset taken from `default`.
    pub open spec fn merged(default: Rule, item: Rule) -> Rule {
        Rule {
            syslog: if item.syslog is None { default.syslog } else { item.syslog },
            reason: if item.reason is None { default.reason } else { item.reason },
            require_pass: if item.require_pass is None {
                default.require_pass
            } else {
                item.require_pass
            },
            last: if item.last is None { default.last } else { item.last },
            exitcmd: if item.exitcmd is None { default.exitcmd } else { item.exitcmd },
            edit_mode: if item.edit_mode is None { default.edit_mode } else { item.edit_mode },
            timeout: if item.timeout is None { default.timeout } else { item.timeout },
            env_permit: if item.env_permit is None { default.env_permit } else { item.env_permit },
            env_assign: if item.env_assign is None { default.env_assign } else { item.env_assign },
            permit: if item.permit is None { default.permit } else { item.permit },
            search_path: if item.search_path is None {
                default.search_path
            } else {
                item.search_path
            },
            token_timeout: if item.token_timeout is None {
                default.token_timeout
            } else {
                item.token_timeout
            },
            ..item
        }
    }
}

/// A copy of an optional string.
pub fn copy_text(s: &Option<String>) -> (r: Option<String>)
    ensures
        opt_view(r) == opt_view(*s),
{
    match s {
        Some(t) => Some(t.clone()),
        None => None,
    }
}

/// A copy of a list of strings.
pub fn copy_texts(v: &Vec<String>) -> (r: Vec<String>)
    ensures
        crate::text::string_views(r@) == crate::text::string_views(v@),
{
    let mut r: Vec<String> = Vec::new();
    let mut i: usize = 0;
    while i < v.len()
        invariant
            i <= v.len(),
            r.len() == i,
            forall|j: int| 0 <= j < i ==> r@[j]@ == v@[j]@,
        decreases v.len() - i,
    {
        r.push(v[i].clone());
        i += 1;
    }
    assert(crate::text::string_views(r@) =~= crate::text::string_views(v@));
    r
}

/// A copy of a list of named values.
pub fn copy_pairs(v: &Vec<(String, String)>) -> (r: Vec<(String, String)>)
    ensures
        pairs_view(r@) == pairs_view(v@),
{
    let mut r: Vec<(String, String)> = Vec::new();
    let mut i: usize = 0;
    while i < v.len()
        invariant
            i <= v.len(),
            r.len() == i,
            forall|j: int| 0 <= j < i ==> r@[j].0@ == v@[j].0@ && r@[j].1@ == v@[j].1@,
        decreases v.len() - i,
    {
        r.push((v[i].0.clone(), v[i].1.clone()));
        i += 1;
    }
    assert(pairs_view(r@) =~= pairs_view(v@));
    r
}

/// A copy of an optional list of named values.
pub fn copy_opt_pairs(v: &Option<Vec<(String, String)>>) -> (r: Option<Vec<(String, String)>>)
    ensures
        opt_pairs_view(r) == opt_pairs_view(*v),
{
    match v {
        Some(p) => Some(copy_pairs(p)),
        None => None,
    }
}

/// A copy of an optional reason.
pub fn copy_reason(v: &Option<ReasonType>) -> (r: Option<ReasonType>)
    ensures
        opt_reason_view(r) == opt_reason_view(*v),
{
    match v {
        Some(ReasonType::Need(b)) => Some(ReasonType::Need(*b)),
        Some(ReasonType::Text(t)) => Some(ReasonType::Text(t.clone())),
        None => None,
    }
}

impl EnvOptions {
    /// The rule that a new section starts from.
    pub fn new() -> (r: EnvOptions)
        ensures
            r@ == Rule::fresh(),
    {
        EnvOptions {
            name: None,
            exact_name: None,
            rule: Some("^$".to_string()),
            exact_rule: None,
            target: Some("root".to_string()),
            exact_target: None,
            target_group: None,
            exact_target_group: None,
            notbefore: None,
            notafter: None,
            datematch: None,
            hostname: None,
            exact_hostname: None,
            file_name: String::new(),
            section: String::new(),
            permit: None,
            require_pass: None,
            acl_type: Acltype::Run,
            group: false,
            configured: false,
            dir: None,
            exact_dir: None,
            exitcmd: None,
            edit_mode: None,
            reason: None,
            last: None,
            syslog: None,
            env_permit: None,
            env_assign: None,
            timeout: None,
            search_path: None,
            token_timeout: None,
        }
    }

    /// The decision where no rule matched.
    pub fn new_deny() -> (r: EnvOptions)
        ensures
            r@ == Rule::deny(),
            !r@.permits(),
    {
        let mut opt = EnvOptions::new();
        opt.permit = Some(false);
        opt.rule = Some(".".to_string());
        opt.target = Some("^$".to_string());
        opt.acl_type = Acltype::List;
        opt
    }

    /// Whether the rule permits.
    pub fn permit(&self) -> (r: bool)
        ensures
            r == self@.permits(),
    {
        match self.permit {
            Some(p) => p,
            None => true,
        }
    }

    /// Whether the rule asks for a password.
    pub fn require_pass(&self) -> (r: bool)
        ensures
            r == self@.requires_pass(),
    {
        match self.require_pass {
            Some(p) => p,
            None => true,
        }
    }

    /// A copy of the rule.
    pub fn duplicate(&self) -> (r: EnvOptions)
        ensures
            r@ == self@,
    {
        EnvOptions {
            name: copy_text(&self.name),
            exact_name: copy_text(&self.exact_name),
            rule: copy_text(&self.rule),
            exact_rule: copy_text(&self.exact_rule),
            notbefore: self.notbefore,
            notafter: self.notafter,
            datematch: copy_text(&self.datematch),
            target: copy_text(&self.target),
            exact_target: copy_text(&self.exact_target),
            target_group: copy_text(&self.target_group),
            exact_target_group: copy_text(&self.exact_target_group),
            hostname: copy_text(&self.hostname),
            exact_hostname: copy_text(&self.exact_hostname),
            permit: self.permit,
            require_pass: self.require_pass,
            acl_type: self.acl_type,
            file_name: self.file_name.clone(),
            section: self.section.clone(),
            group: self.group,
            configured: self.configured,
            dir: copy_text(&self.dir),
            exact_dir: copy_text(&self.exact_dir),
            exitcmd: copy_text(&self.exitcmd),
            edit_mode: self.edit_mode,
            reason: copy_reason(&self.reason),
            last: self.last,
            syslog: self.syslog,
            env_permit: copy_text(&self.env_permit),
            env_assign: copy_opt_pairs(&self.env_assign),
            timeout: self.timeout,
            search_path: copy_text(&self.search_path),
            token_timeout: self.token_timeout,
        }
    }
}

impl Default for EnvOptions {
    fn default() -> (r: EnvOptions)
        ensures
            r@ == Rule::fresh(),
    {
        EnvOptions::new()
    }
}

/// `own` where it is set, else a copy of `inherited`.
fn pick_text(own: &Option<String>, inherited: &Option<String>) -> (r: Option<String>)
    ensures
        opt_view(r) == if opt_view(*own) is None {
            opt_view(*inherited)
        } else {
            opt_view(*own)
        },
{
    match own {
        Some(t) => Some(t.clone()),
        None => copy_text(inherited),
    }
}

/// `own` where it is set, else `inherited`.
fn pick<T: Copy>(own: Option<T>, inherited: Option<T>) -> (r: Option<T>)
    ensures
        r == if own is None {
            inherited
        } else {
            own
        },
{
    match own {
        Some(t) => Some(t),
        None => inherited,
    }
}

/// `own` where it is set, else a copy of `inherited`.
fn pick_reason(own: &Option<ReasonType>, inherited: &Option<ReasonType>) -> (r: Option<ReasonType>)
    ensures
        opt_reason_view(r) == if opt_reason_view(*own) is None {
            opt_reason_view(*inherited)
        } else {
            opt_reason_view(*own)
        },
{
    match own {
        Some(_) => copy_reason(own),
        None => copy_reason(inherited),
    }
}

/// `own` where it is set, else a copy of `inherited`.
fn pick_pairs(own: &Option<Vec<(String, String)>>, inherited: &Option<Vec<(String, String)>>) -> (r:
    Option<Vec<(String, String)>>)
    ensures
        opt_pairs_view(r) == if opt_pairs_view(*own) is None {
            opt_pairs_view(*inherited)
        } else {
            opt_pairs_view(*own)
        },
{
    match own {
        Some(_) => copy_opt_pairs(own),
        None => copy_opt_pairs(inherited),
    }
}

/// `item` with each effect that it leaves unset taken from `default`.
pub fn merge_default(default: &EnvOptions, item: &EnvOptions) -> (merged: EnvOptions)
    ensures
        merged@ == Rule::merged(default@, item@),
{
    EnvOptions {
        name: copy_text(&item.name),
        exact_name: copy_text(&item.exact_name),
        rule: copy_text(&item.rule),
        exact_rule: copy_text(&item.exact_rule),
        notbefore: item.notbefore,
        notafter: item.notafter,
        datematch: copy_text(&item.datematch),
        target: copy_text(&item.target),
        exact_target: copy_text(&item.exact_target),
        target_group: copy_text(&item.target_group),
        exact_target_group: copy_text(&item.exact_target_group),
        hostname: copy_text(&item.hostname),
        exact_hostname: copy_text(&item.exact_hostname),
        permit: pick(item.permit, default.permit),
        require_pass: pick(item.require_pass, default.require_pass),
        acl_type: item.acl_type,
        file_name: item.file_name.clone(),
        section: item.section.clone(),
        group: item.group,
        configured: item.configured,
        dir: copy_text(&item.dir),
        exact_dir: copy_text(&item.exact_dir),
        exitcmd: pick_text(&item.exitcmd, &default.exitcmd),
        edit_mode: pick(item.edit_mode, default.edit_mode),
        reason: pick_reason(&item.reason, &default.reason),
        last: pick(item.last, default.last),
        syslog: pick(item.syslog, default.syslog),
        env_permit: pick_text(&item.env_permit, &default.env_permit),
        env_assign: pick_pairs(&item.env_assign, &default.env_assign),
        timeout: pick(item.timeout, default.timeout),
        search_path: pick_text(&item.search_path, &default.search_path),
        token_timeout: pick(item.token_timeout, default.token_timeout),
    }
}

/// Merging changes no predicate: whom, where, when and what a rule is for
/// stays that of the rule, whatever the defaults say.
pub proof fn lemma_merge_keeps_predicates(default: Rule, item: Rule)
    ensures
        ({
            let m = Rule::merged(default, item);
            &&& m.name == item.name && m.exact_name == item.exact_name && m.group == item.group
            &&& m.rule == item.rule && m.exact_rule == item.exact_rule
            &&& m.target == item.target && m.exact_target == item.exact_target
            &&& m.target_group == item.target_group && m.exact_target_group
                == item.exact_target_group
            &&& m.hostname == item.hostname && m.exact_hostname == item.exact_hostname
            &&& m.dir == item.dir && m.exact_dir == item.exact_dir
            &&& m.notbefore == item.notbefore && m.notafter == item.notafter && m.datematch
                == item.datematch
            &&& m.acl_type == item.acl_type && m.section == item.section && m.file_name
                == item.file_name
        }),
{
}

/// Later defaults override earlier ones for the effects that they set, and
/// for no others: merging a rule with defaults that were themselves merged
/// takes each effect from the rule, else from the later default, else from
/// the earlier.
pub proof fn lemma_later_default_overrides(earlier: Rule, later: Rule, item: Rule)
    ensures
        ({
            let m = Rule::merged(Rule::merged(earlier, later), item);
            &&& m.permit == if item.permit is Some {
                item.permit
            } else if later.permit is Some {
                later.permit
            } else {
                earlier.permit
            }
            &&& m.require_pass == if item.require_pass is Some {
                item.require_pass
            } else if later.require_pass is Some {
                later.require_pass
            } else {
                earlier.require_pass
            }
            &&& m == Rule::merged(earlier, Rule::merged(later, item))
        }),
{
}

/// Merging the same defaults in twice changes nothing more.
pub proof fn lemma_merge_is_idempotent(default: Rule, item: Rule)
    ensures
        Rule::merged(default, Rule::merged(default, item)) == Rule::merged(default, item),
{
}

/// A rule that says nothing on permission permits, and one that says
/// nothing on the password asks for it; the denial where no rule matched
/// permits nothing.
pub proof fn lemma_permission_defaults()
    ensures
        Rule::fresh().permits(),
        Rule::fresh().requires_pass(),
        !Rule::deny().permits(),
{
}

} // verus!
