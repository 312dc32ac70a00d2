//! The request: who asks, for what, from where and when.
use crate::clock::Timestamp;
use crate::rule::{opt_pairs_view, Acltype, EnvOptions, Pairs, Rule};
use crate::text::{opt_view, string_views, Text};
use vstd::prelude::*;

verus! {

/// What is remembered of the search for one binary: where it was found, or
/// that it was not.
pub type Located = Seq<(Text, Option<Text>)>;

/// The view of the remembered searches.
pub open spec fn located_view(v: Seq<(String, Option<String>)>) -> Located {
    Seq::new(v.len(), |i: int| (v[i].0@, opt_view(v[i].1)))
}

/// The view of the groups of the invoker.
pub open spec fn groups_view(v: Seq<(String, u32)>) -> Seq<(Text, u32)> {
    Seq::new(v.len(), |i: int| (v[i].0@, v[i].1))
}

/// The view of an optional list of strings.
pub open spec fn opt_texts_view(v: Option<Vec<String>>) -> Option<Seq<Text>> {
    match v {
        Some(l) => Some(string_views(l@)),
        None => None,
    }
}

/// The view of an optional rule.
pub open spec fn opt_rule_view(v: Option<EnvOptions>) -> Option<Rule> {
    match v {
        Some(r) => Some(r@),
        None => None,
    }
}

/// One request of one invoker.
#[derive(Clone, Debug)]
pub struct RunOptions {
    pub name: String,
    pub original_uid: u32,
    pub original_gid: u32,
    pub target: String,
    pub target_group: Option<String>,
    pub command: String,
    pub original_command: Vec<String>,
    pub hostname: String,
    pub directory: Option<String>,
    pub groups: Vec<(String, u32)>,
    pub date: Timestamp,
    pub acl_type: Acltype,
    pub reason: Option<String>,
    pub syslog: bool,
    pub prompt: bool,
    pub purge_token: bool,
    pub warm_token: bool,
    pub new_args: Vec<String>,
    pub old_umask: Option<u32>,
    pub old_envs: Option<Vec<(String, String)>>,
    pub allow_env_list: Option<Vec<String>>,
    pub env_options: Option<EnvOptions>,
    pub cloned_args: Option<Vec<String>>,
    pub located_bin: Vec<(String, Option<String>)>,
    pub resume: Option<bool>,
}

/// A request in specifications.
pub struct Request {
    pub name: Text,
    pub original_uid: u32,
    pub original_gid: u32,
    pub target: Text,
    pub target_group: Option<Text>,
    pub command: Text,
    pub original_command: Seq<Text>,
    pub hostname: Text,
    pub directory: Option<Text>,
    pub groups: Seq<(Text, u32)>,
    pub date: Timestamp,
    pub acl_type: Acltype,
    pub reason: Option<Text>,
    pub syslog: bool,
    pub prompt: bool,
    pub purge_token: bool,
    pub warm_token: bool,
    pub new_args: Seq<Text>,
    pub old_umask: Option<u32>,
    pub old_envs: Option<Pairs>,
    pub allow_env_list: Option<Seq<Text>>,
    pub env_options: Option<Rule>,
    pub cloned_args: Option<Seq<Text>>,
    pub located_bin: Located,
    pub resume: Option<bool>,
}

impl View for RunOptions {
    type V = Request;

    open spec fn view(&self) -> Request {
        Request {
            name: self.name@,
            original_uid: self.original_uid,
            original_gid: self.original_gid,
            target: self.target@,
            target_group: opt_view(self.target_group),
            command: self.command@,
            original_command: string_views(self.original_command@),
            hostname: self.hostname@,
            directory: opt_view(self.directory),
            groups: groups_view(self.groups@),
            date: self.date,
            acl_type: self.acl_type,
            reason: opt_view(self.reason),
            syslog: self.syslog,
            prompt: self.prompt,
            purge_token: self.purge_token,
            warm_token: self.warm_token,
            new_args: string_views(self.new_args@),
            old_umask: self.old_umask,
            old_envs: opt_pairs_view(self.old_envs),
            allow_env_list: opt_texts_view(self.allow_env_list),
            env_options: opt_rule_view(self.env_options),
            cloned_args: opt_texts_view(self.cloned_args),
            located_bin: located_view(self.located_bin@),
            resume: self.resume,
        }
    }
}

impl Request {
    /// The request that a front-end starts from: made by `root` on
    /// `localhost`, to run something, with a prompt and an audit record.
    pub open spec fn fresh(uid: u32, gid: u32, date: Timestamp) -> Request {
        Request {
            name: "root"@,
            original_uid: uid,
            original_gid: gid,
            target: Seq::empty(),
            target_group: None,
            command: Seq::empty(),
            original_command: Seq::empty(),
            hostname: "localhost"@,
            directory: None,
            groups: Seq::empty(),
            date,
            acl_type: Acltype::Run,
            reason: None,
            syslog: true,
            prompt: true,
            purge_token: false,
            warm_token: false,
            new_args: Seq::empty(),
            old_umask: None,
            old_envs: None,
            allow_env_list: None,
            env_options: None,
            cloned_args: None,
            located_bin: Seq::empty(),
            resume: None,
        }
    }
}

impl RunOptions {
    /// The request that a front-end starts from, for the invoker's ids and the
    /// current time.
    pub fn new(original_uid: u32, original_gid: u32, date: Timestamp) -> (r: RunOptions)
        ensures
            r@ == Request::fresh(original_uid, original_gid, date),
    {
        let r = RunOptions {
            name: "root".to_string(),
            original_uid,
            original_gid,
            target: String::new(),
            target_group: None,
            command: String::new(),
            original_command: Vec::new(),
            hostname: "localhost".to_string(),
            date,
            groups: Vec::new(),
            directory: None,
            acl_type: Acltype::Run,
            reason: None,
            syslog: true,
            prompt: true,
            purge_token: false,
            warm_token: false,
            new_args: Vec::new(),
            old_umask: None,
            old_envs: None,
            allow_env_list: None,
            env_options: None,
            cloned_args: None,
            located_bin: Vec::new(),
            resume: None,
        };
        assert(r@.original_command =~= Seq::empty());
        assert(r@.groups =~= Seq::empty());
        assert(r@.new_args =~= Seq::empty());
        assert(r@.located_bin =~= Seq::empty());
        r
    }
}

} // verus!
