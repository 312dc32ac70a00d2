//! What the command line of a front-end asks for, once it is parsed.
use crate::request::{groups_view, Request, RunOptions};
use crate::rule::copy_texts;
use crate::text::{is_text, chars_of, opt_view, string_views, Text};
use vstd::prelude::*;

verus! {

/// The command line of a front-end after parsing.
#[derive(Clone, Debug)]
pub struct ParsedArgs {
    /// What stands after the options.
    pub free: Vec<String>,
    /// The value of `-r`.
    pub reason: Option<String>,
    /// The value of `-t`.
    pub target: Option<String>,
    /// The value of `-g`.
    pub group: Option<String>,
    /// The value of `-u`.
    pub user: Option<String>,
    /// Whether `-p` is there.
    pub purge: bool,
    /// Whether `-v` is there.
    pub version: bool,
    /// Whether `-w` is there.
    pub warm: bool,
    /// Whether `-n` is there.
    pub noprompt: bool,
    /// Whether `-h` is there.
    pub help: bool,
    /// Whether `--resume` is there.
    pub resume: bool,
}

/// `ParsedArgs` in specifications.
pub struct Args {
    pub free: Seq<Text>,
    pub reason: Option<Text>,
    pub target: Option<Text>,
    pub group: Option<Text>,
    pub user: Option<Text>,
    pub purge: bool,
    pub version: bool,
    pub warm: bool,
    pub noprompt: bool,
    pub help: bool,
    pub resume: bool,
}

impl View for ParsedArgs {
    type V = Args;

    open spec fn view(&self) -> Args {
        Args {
            free: string_views(self.free@),
            reason: opt_view(self.reason),
            target: opt_view(self.target),
            group: opt_view(self.group),
            user: opt_view(self.user),
            purge: self.purge,
            version: self.version,
            warm: self.warm,
            noprompt: self.noprompt,
            help: self.help,
            resume: self.resume,
        }
    }
}

/// What a front-end does after reading its command line.
#[derive(Clone, Copy, Debug, PartialEq, Eq, Structural)]
pub enum CliOutcome {
    /// Go on with the request.
    Proceed,
    /// `-t` and `-u` name different users: say so, show the usage, fail.
    Conflict,
    /// Show the version and leave.
    Version,
    /// Show the credits and leave.
    Credits,
    /// Show the usage and the version and leave.
    Help,
    /// Remove the token of the invoker and leave.
    Purge,
    /// Challenge the invoker if the flag says so, and leave.
    Warm(bool),
    /// There is not exactly one file to edit: say so, show the usage, fail.
    OneFileNeeded,
}

/// The target that the command line names: `-u` before `-t`.
pub open spec fn target_named(args: Args) -> Option<Text> {
    match args.user {
        Some(u) => Some(u),
        None => args.target,
    }
}

/// The request as the command line fills it in, before the host is known.
pub open spec fn filled_request(req: Request, args: Args) -> Request {
    Request {
        new_args: args.free,
        reason: if args.reason is Some {
            args.reason
        } else {
            req.reason
        },
        target: match target_named(args) {
            Some(t) => t,
            None => req.target,
        },
        target_group: if args.group is Some {
            args.group
        } else {
            req.target_group
        },
        purge_token: req.purge_token || args.purge,
        warm_token: req.warm_token || args.warm,
        prompt: req.prompt && !args.noprompt,
        ..req
    }
}

/// Whether `-t` and `-u` contradict each other.
pub open spec fn conflicting(args: Args) -> bool {
    args.user is Some && args.target is Some && args.user != args.target
}

/// What the options that both front-ends share ask for, in the order in
/// which they are looked at: a conflict of targets, the version, help or
/// credits, the purge of the token, the warming of the token; else the
/// request goes on.
pub open spec fn common_outcome(req: Request, args: Args) -> CliOutcome {
    let filled = filled_request(req, args);
    if conflicting(args) {
        CliOutcome::Conflict
    } else if args.version {
        CliOutcome::Version
    } else if args.help {
        if args.free == seq!["credits"@] {
            CliOutcome::Credits
        } else {
            CliOutcome::Help
        }
    } else if filled.purge_token {
        CliOutcome::Purge
    } else if filled.warm_token {
        CliOutcome::Warm(filled.prompt)
    } else {
        CliOutcome::Proceed
    }
}

/// The request after the shared options: filled in from the command line,
/// and on the host `hostname` where it goes on.
pub open spec fn common_request(req: Request, args: Args, hostname: Text) -> Request {
    let filled = filled_request(req, args);
    if common_outcome(req, args) == CliOutcome::Proceed {
        Request { hostname, ..filled }
    } else {
        filled
    }
}

/// Takes the options that both front-ends share into the request. `hostname`
/// is the name of this host.
pub fn common_opt_arguments(matches: &ParsedArgs, ro: &mut RunOptions, hostname: &str) -> (outcome:
    CliOutcome)
    ensures
        outcome == common_outcome(old(ro)@, matches@),
        final(ro)@ == common_request(old(ro)@, matches@, hostname@),
{
    ro.new_args = copy_texts(&matches.free);
    match &matches.reason {
        Some(r) => {
            ro.reason = Some(r.clone());
        },
        None => {},
    }
    match &matches.target {
        Some(t) => {
            ro.target = t.clone();
        },
        None => {},
    }
    match &matches.group {
        Some(g) => {
            ro.target_group = Some(g.clone());
        },
        None => {},
    }
    match &matches.user {
        Some(u) => {
            ro.target = u.clone();
        },
        None => {},
    }
    if matches.purge {
        ro.purge_token = true;
    }
    if matches.warm {
        ro.warm_token = true;
    }
    if matches.noprompt {
        ro.prompt = false;
    }
    assert(ro@ == filled_request(old(ro)@, matches@));
    let conflict = match (&matches.user, &matches.target) {
        (Some(u), Some(t)) => !crate::matcher::same_text(u.as_str(), t.as_str()),
        _ => false,
    };
    if conflict {
        return CliOutcome::Conflict;
    }
    if matches.version {
        return CliOutcome::Version;
    }
    if matches.help {
        let credits = matches.free.len() == 1 && crate::matcher::same_text(
            matches.free[0].as_str(),
            "credits",
        );
        proof {
            let free = string_views(matches.free@);
            if credits {
                assert(free =~= seq!["credits"@]);
            } else if free == seq!["credits"@] {
                assert(free.len() == 1);
                assert(free[0] == "credits"@);
            }
        }
        if credits {
            return CliOutcome::Credits;
        }
        return CliOutcome::Help;
    }
    if ro.purge_token {
        return CliOutcome::Purge;
    }
    if ro.warm_token {
        return CliOutcome::Warm(ro.prompt);
    }
    ro.hostname = hostname.to_string();
    CliOutcome::Proceed
}

/// What the command line of the edit front-end asks for: the shared options
/// first; then the edit wants exactly one file.
pub open spec fn edit_outcome(req: Request, args: Args) -> CliOutcome {
    let common = common_outcome(req, args);
    if common != CliOutcome::Proceed {
        common
    } else if args.free.len() != 1 {
        CliOutcome::OneFileNeeded
    } else {
        CliOutcome::Proceed
    }
}

/// The request after the command line of the edit front-end.
pub open spec fn edit_request(req: Request, args: Args, hostname: Text) -> Request {
    let common = common_request(req, args, hostname);
    if common_outcome(req, args) == CliOutcome::Proceed && args.resume {
        Request { resume: Some(true), ..common }
    } else {
        common
    }
}

/// Takes the command line of the edit front-end into the request.
pub fn general_options(ro: &mut RunOptions, args: &ParsedArgs, hostname: &str) -> (outcome:
    CliOutcome)
    ensures
        outcome == edit_outcome(old(ro)@, args@),
        final(ro)@ == edit_request(old(ro)@, args@, hostname@),
{
    let common = common_opt_arguments(args, ro, hostname);
    match common {
        CliOutcome::Proceed => {},
        _ => {
            return common;
        },
    }
    if args.resume {
        ro.resume = Some(true);
    }
    if ro.new_args.len() != 1 {
        return CliOutcome::OneFileNeeded;
    }
    CliOutcome::Proceed
}

/// The groups among the first `n` of `groups`, each name with the id that it
/// had first.
pub open spec fn groups_upto(groups: Seq<(Text, u32)>, n: int) -> Seq<(Text, u32)>
    decreases n,
{
    if n <= 0 {
        Seq::empty()
    } else {
        let before = groups_upto(groups, n - 1);
        if exists|i: int| 0 <= i < before.len() && (#[trigger] before[i]).0 == groups[n - 1].0 {
            before
        } else {
            before.push(groups[n - 1])
        }
    }
}

/// The groups of the invoker by name: each name once, with the id that it
/// had first.
pub fn group_hash(groups: Vec<(String, u32)>) -> (hm: Vec<(String, u32)>)
    ensures
        groups_view(hm@) == groups_upto(groups_view(groups@), groups.len() as int),
{
    let ghost all = groups_view(groups@);
    let mut hm: Vec<(String, u32)> = Vec::new();
    let mut n: usize = 0;
    assert(groups_view(hm@) =~= groups_upto(all, 0));
    while n < groups.len()
        invariant
            n <= groups.len(),
            all == groups_view(groups@),
            groups_view(hm@) == groups_upto(all, n as int),
        decreases groups.len() - n,
    {
        let name = chars_of(groups[n].0.as_str());
        assert(all[n as int] == (name@, groups@[n as int].1));
        let ghost before = groups_view(hm@);
        let mut known = false;
        let mut i: usize = 0;
        while i < hm.len() && !known
            invariant
                i <= hm.len(),
                before == groups_view(hm@),
                known ==> exists|j: int| 0 <= j < before.len() && (#[trigger] before[j]).0 == name@,
                !known ==> forall|j: int| 0 <= j < i ==> (#[trigger] before[j]).0 != name@,
            decreases hm.len() - i + if known { 0int } else { 1int },
        {
            assert(before[i as int].0 == hm@[i as int].0@);
            if is_text(&name, hm[i].0.as_str()) {
                known = true;
            } else {
                i += 1;
            }
        }
        if !known {
            let ghost old_hm = hm@;
            hm.push((groups[n].0.clone(), groups[n].1));
            assert(groups_view(hm@) =~= groups_view(old_hm).push(all[n as int]));
        }
        n += 1;
    }
    hm
}

/// The group that the result of a request is given to: the group that the
/// request names, if the system knows it, else the group of the target.
pub open spec fn target_gid(req: Request, primary: u32, named: Option<u32>) -> Option<u32> {
    match req.target_group {
        Some(_) => named,
        None => Some(primary),
    }
}

/// The group that the result of the request is given to. `primary` is the
/// group of the target and `named` the id of the group that the request
/// names, if the system knows it. `None` says that the group cannot be
/// assigned.
pub fn runopt_target_gid(ro: &RunOptions, primary: u32, named: Option<u32>) -> (gid: Option<u32>)
    ensures
        gid == target_gid(ro@, primary, named),
{
    match &ro.target_group {
        Some(_) => named,
        None => Some(primary),
    }
}

/// What the system says of the terminal on one of the standard streams.
#[derive(Clone, Debug, PartialEq, Eq)]
pub enum TtyProbe {
    /// The stream is no terminal.
    Absent,
    /// The stream is the terminal of this name.
    Named(String),
    /// The stream is a terminal whose name cannot be read.
    Unreadable,
}

/// The terminal that the first `n` probes found: the first stream that is a
/// terminal decides, and a name that cannot be read is none.
pub open spec fn tty_upto(probes: Seq<TtyProbe>, n: int) -> Option<Option<Text>>
    decreases n,
{
    if n <= 0 {
        None
    } else {
        match tty_upto(probes, n - 1) {
            Some(found) => Some(found),
            None => match probes[n - 1] {
                TtyProbe::Absent => None,
                TtyProbe::Named(name) => Some(Some(name@)),
                TtyProbe::Unreadable => Some(None),
            },
        }
    }
}

/// The terminal of the invoker, from what the system says of the standard
/// streams in order.
pub fn tty_name(probes: &Vec<TtyProbe>) -> (name: Option<String>)
    ensures
        opt_view(name) == match tty_upto(probes@, probes.len() as int) {
            Some(found) => found,
            None => None,
        },
{
    let mut i: usize = 0;
    while i < probes.len()
        invariant
            i <= probes.len(),
            tty_upto(probes@, i as int) is None,
        decreases probes.len() - i,
    {
        match &probes[i] {
            TtyProbe::Absent => {},
            TtyProbe::Named(name) => {
                proof {
                    lemma_tty_found(probes@, i + 1, probes.len() as int);
                }
                return Some(name.clone());
            },
            TtyProbe::Unreadable => {
                proof {
                    lemma_tty_found(probes@, i + 1, probes.len() as int);
                }
                return None;
            },
        }
        i += 1;
    }
    None
}

/// Once a terminal is found, later probes change nothing.
pub proof fn lemma_tty_found(probes: Seq<TtyProbe>, n: int, m: int)
    requires
        0 <= n <= m,
        tty_upto(probes, n) is Some,
    ensures
        tty_upto(probes, m) == tty_upto(probes, n),
    decreases m,
{
    if m > n {
        lemma_tty_found(probes, n, m - 1);
    }
}

} // verus!
