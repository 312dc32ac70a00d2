use pleaser::audit::{bad_priv_msg, escape_log, log_action, print_may_not, reason_refusal};
use pleaser::auth::{challenge_password, AuthAction, AuthEvent, AuthState, Verdict};
use pleaser::cli::{
    common_opt_arguments, general_options, group_hash, runopt_target_gid, tty_name, CliOutcome,
    ParsedArgs, TtyProbe,
};
use pleaser::clock::Timestamp;
use pleaser::environ::{
    clean_environment, set_env_if_not_passed_through, set_environment, Account, SAFE_UMASK,
};
use pleaser::privs::{drop_privs, esc_privs, set_eprivs, set_privs, all_succeeded, PrivCall};
use pleaser::report::{list, list_dir, list_rule, list_target, produce_list};
use pleaser::request::RunOptions;
use pleaser::rule::{Acltype, EnvOptions, ReasonType};
use pleaser::token::{
    token_dir, token_path, token_path_tmp, update_token, valid_token, TokenTimes,
};

fn request(name: &str) -> RunOptions {
    let mut ro = RunOptions::new(1000, 100, Timestamp::at(1_591_360_215));
    ro.name = name.to_string();
    ro.target = "root".to_string();
    ro
}

fn pairs(items: &[(&str, &str)]) -> Vec<(String, String)> {
    items.iter().map(|(k, v)| (k.to_string(), v.to_string())).collect()
}

#[test]
fn new_request_has_the_defaults() {
    let ro = RunOptions::new(7, 8, Timestamp::at(9));
    assert_eq!(ro.name, "root");
    assert_eq!(ro.original_uid, 7);
    assert_eq!(ro.original_gid, 8);
    assert_eq!(ro.hostname, "localhost");
    assert_eq!(ro.target, "");
    assert_eq!(ro.acl_type, Acltype::Run);
    assert!(ro.syslog && ro.prompt && !ro.purge_token && !ro.warm_token);
    assert_eq!(ro.date, Timestamp { secs: 9, nanos: 0 });
    let rule = EnvOptions::default();
    assert_eq!(rule.rule.as_deref(), Some("^$"));
    assert_eq!(rule.target.as_deref(), Some("root"));
    assert!(rule.permit() && rule.require_pass());
    assert!(!rule.configured);
}

#[test]
fn token_path_names_user_terminal_and_parent() {
    assert_eq!(token_dir(), "/var/run/please/token");
    assert_eq!(
        token_path("ed", Some("/dev/pts/3"), 4242).as_deref(),
        Some("/var/run/please/token/ed:_dev_pts_3:4242")
    );
    assert_eq!(token_path("ed", Some("/dev/tty1"), 0).as_deref(), Some("/var/run/please/token/ed:_dev_tty1:0"));
    assert_eq!(token_path("ed", None, 4242), None);
    assert_eq!(token_path_tmp("/var/run/please/token/ed:x:1"), "/var/run/please/token/ed:x:1.tmp");
}

#[test]
fn fresh_token_is_valid_until_it_times_out() {
    let rule = EnvOptions::new();
    let written = update_token(5_000, 1_600_000_000);
    assert_eq!(written, TokenTimes { modified: 5_000, accessed: 1_600_000_000 });
    assert!(valid_token(&rule, Some(written), 5_000, 1_600_000_000));
    assert!(valid_token(&rule, Some(written), 5_599, 1_600_000_599));
    assert!(!valid_token(&rule, Some(written), 5_600, 1_600_000_000));
    assert!(!valid_token(&rule, Some(written), 5_000, 1_600_000_600));
    assert!(!valid_token(&rule, None, 5_000, 1_600_000_000));
    let mut short = EnvOptions::new();
    short.token_timeout = Some(10);
    assert!(valid_token(&short, Some(written), 5_009, 1_600_000_009));
    assert!(!valid_token(&short, Some(written), 5_010, 1_600_000_009));
    short.token_timeout = Some(0);
    assert!(!valid_token(&short, Some(written), 5_000, 1_600_000_000));
}

#[test]
fn reboot_and_clock_changes_invalidate_a_token() {
    let rule = EnvOptions::new();
    let written = update_token(5_000, 1_600_000_000);
    assert!(!valid_token(&rule, Some(written), 30, 1_600_000_010));
    assert!(!valid_token(&rule, Some(written), 4_999, 1_600_000_000));
    assert!(!valid_token(&rule, Some(written), 5_010, 1_599_999_999));
}

fn run_challenge(
    ro: &RunOptions,
    rule: &EnvOptions,
    has_tty: bool,
    token: Option<TokenTimes>,
    boot: u64,
    wall: u64,
    attempts: &[(bool, bool)],
) -> (usize, AuthAction) {
    let (mut state, mut action) = challenge_password(AuthState::Start, AuthEvent::Begin(has_tty), ro, rule);
    let mut asked = 0;
    let mut next = attempts.iter();
    loop {
        let event = match action {
            AuthAction::ReadToken => AuthEvent::Token(token, boot, wall),
            AuthAction::Ask(_) => {
                asked += 1;
                let (ok, typed) = *next.next().unwrap();
                AuthEvent::Attempt(ok, typed)
            }
            AuthAction::Finish(..) => return (asked, action),
        };
        let step = challenge_password(state, event, ro, rule);
        state = step.0;
        action = step.1;
    }
}

#[test]
fn second_invocation_is_not_prompted_until_the_token_times_out() {
    let ro = request("ed");
    let rule = EnvOptions::new();
    let (asked, done) = run_challenge(&ro, &rule, true, None, 100, 1_000_000, &[(true, true)]);
    assert_eq!(asked, 1);
    assert_eq!(done, AuthAction::Finish(true, true, Verdict::Authenticated));
    let token = update_token(100, 1_000_000);
    let (asked, done) = run_challenge(&ro, &rule, true, Some(token), 130, 1_000_030, &[]);
    assert_eq!(asked, 0);
    assert_eq!(done, AuthAction::Finish(true, true, Verdict::ValidToken));
    let touched = update_token(130, 1_000_030);
    let (asked, done) =
        run_challenge(&ro, &rule, true, Some(touched), 130 + 600, 1_000_030 + 600, &[(true, true)]);
    assert_eq!(asked, 1);
    assert_eq!(done, AuthAction::Finish(true, true, Verdict::Authenticated));
}

#[test]
fn three_failed_attempts_deny() {
    let ro = request("ed");
    let mut rule = EnvOptions::new();
    rule.timeout = Some(20);
    let fails = [(false, true), (false, true), (false, true), (true, true)];
    let (asked, done) = run_challenge(&ro, &rule, true, None, 1, 1, &fails);
    assert_eq!(asked, 3);
    assert_eq!(done, AuthAction::Finish(false, false, Verdict::Failed));
    let (asked, done) = run_challenge(&ro, &rule, true, None, 1, 1, &[(false, true), (true, false)]);
    assert_eq!(asked, 2);
    assert_eq!(done, AuthAction::Finish(true, false, Verdict::Authenticated));
    let (state, action) = challenge_password(AuthState::TokenAsked, AuthEvent::Token(None, 1, 1), &ro, &rule);
    assert_eq!(state, AuthState::Prompting(0));
    assert_eq!(action, AuthAction::Ask(Some(20)));
}

#[test]
fn challenge_without_prompt_terminal_or_need() {
    let mut ro = request("ed");
    let rule = EnvOptions::new();
    let (asked, done) = run_challenge(&ro, &rule, false, None, 1, 1, &[]);
    assert_eq!((asked, done), (0, AuthAction::Finish(false, false, Verdict::NoTerminal)));
    ro.prompt = false;
    let (asked, done) = run_challenge(&ro, &rule, true, None, 1, 1, &[]);
    assert_eq!((asked, done), (0, AuthAction::Finish(false, false, Verdict::NoPrompt)));
    let mut open = EnvOptions::new();
    open.require_pass = Some(false);
    let (asked, done) = run_challenge(&ro, &open, false, None, 1, 1, &[]);
    assert_eq!((asked, done), (0, AuthAction::Finish(true, false, Verdict::NotRequired)));
    let step = challenge_password(AuthState::Finished, AuthEvent::Attempt(true, true), &ro, &rule);
    assert_eq!(step, (AuthState::Finished, AuthAction::Finish(false, false, Verdict::Unexpected)));
}

#[test]
fn scrub_removes_all_but_the_kept_variables() {
    let parent = pairs(&[
        ("LANG", "C"),
        ("SECRET", "x"),
        ("TERM", "xterm"),
        ("EDITOR", "vi"),
        ("HOME", "/home/ed"),
        ("LD_PRELOAD", "/tmp/evil.so"),
        ("LOGNAME", "ed"),
        ("KEEP_ME", "1"),
        ("SECRET", "again"),
    ]);
    let mut ro = request("ed");
    ro.allow_env_list = Some(vec!["KEEP_ME".to_string()]);
    let removed = clean_environment(&mut ro, &parent, 0o022);
    assert_eq!(removed, vec!["SECRET", "EDITOR", "HOME", "LD_PRELOAD", "SECRET"]);
    assert_eq!(ro.old_umask, Some(0o022));
    assert_eq!(ro.old_envs, None);
    assert_eq!(SAFE_UMASK, 0o077);
    let mut edit = request("ed");
    edit.acl_type = Acltype::Edit;
    let removed = clean_environment(&mut edit, &parent, 0o002);
    assert_eq!(removed, vec!["SECRET", "HOME", "LD_PRELOAD", "KEEP_ME", "SECRET"]);
    let saved = edit.old_envs.unwrap();
    assert_eq!(saved.len(), 8);
    assert_eq!(saved[1], ("SECRET".to_string(), "x".to_string()));
}

#[test]
fn child_environment_is_set_for_the_target() {
    let mut ro = request("ed");
    ro.command = "/bin/ls -l".to_string();
    ro.target = "oracle".to_string();
    ro.allow_env_list = Some(vec!["HOME".to_string()]);
    let mut rule = EnvOptions::new();
    rule.env_assign = Some(pairs(&[("ORACLE_SID", "prod"), ("PATH", "/opt/oracle/bin")]));
    let invoker = Account {
        name: "ed".to_string(),
        uid: 1000,
        gid: 100,
        home: "/home/ed".to_string(),
        shell: "/bin/bash".to_string(),
    };
    let target = Account {
        name: "oracle".to_string(),
        uid: 54321,
        gid: 54321,
        home: "/home/oracle".to_string(),
        shell: "/bin/ksh".to_string(),
    };
    let set = set_environment(&ro, &rule, &invoker, 1000, &target);
    let expected = pairs(&[
        ("PLEASE_USER", "ed"),
        ("PLEASE_UID", "1000"),
        ("PLEASE_GID", "100"),
        ("PLEASE_COMMAND", "/bin/ls -l"),
        ("SUDO_USER", "ed"),
        ("SUDO_UID", "1000"),
        ("SUDO_GID", "100"),
        ("SUDO_COMMAND", "/bin/ls -l"),
        ("PATH", "/usr/local/sbin:/usr/local/bin:/usr/sbin:/usr/bin:/sbin:/bin"),
        ("MAIL", "/var/mail/oracle"),
        ("SHELL", "/bin/ksh"),
        ("USER", "oracle"),
        ("LOGNAME", "oracle"),
        ("ORACLE_SID", "prod"),
        ("PATH", "/opt/oracle/bin"),
    ]);
    assert_eq!(set, expected);
    assert_eq!(set_env_if_not_passed_through(&ro, "HOME", "/root"), None);
    assert_eq!(
        set_env_if_not_passed_through(&ro, "USER", "root"),
        Some(("USER".to_string(), "root".to_string()))
    );
}

#[test]
fn audit_record_escapes_quotes() {
    assert_eq!(escape_log("say \"hi\""), "say \\\"hi\\\"");
    assert_eq!(escape_log("plain"), "plain");
    let mut ro = request("e\"d");
    ro.reason = Some("a \"good\" one".to_string());
    let mut rule = EnvOptions::new();
    rule.file_name = "/etc/please.ini".to_string();
    rule.section = "ls".to_string();
    ro.env_options = Some(rule);
    let record = log_action("permit", &ro, "please ls \"x\"", "/home/ed", Some("/dev/pts/1")).unwrap();
    assert_eq!(
        record,
        "user=\"e\\\"d\" cwd=\"/home/ed\" tty=\"/dev/pts/1\" action=\"permit\" target=\"root\" \
         type=\"run\" reason=\"a \\\"good\\\" one\" command=\"please ls \\\"x\\\"\" \
         matching_section=\"/etc/please.ini:ls\""
    );
    let mut bare = request("ed");
    bare.acl_type = Acltype::Edit;
    assert_eq!(
        log_action("deny", &bare, "pleaseedit /etc/hosts", "/", None).unwrap(),
        "user=\"ed\" cwd=\"/\" tty=\"no_tty\" action=\"deny\" target=\"root\" type=\"edit\" \
         reason=\"\" command=\"pleaseedit /etc/hosts\" matching_section=\"\""
    );
    bare.syslog = false;
    assert_eq!(log_action("deny", &bare, "x", "/", None), None);
}

#[test]
fn refusal_names_what_was_asked() {
    let mut ro = request("ed");
    ro.command = "/etc/hosts".to_string();
    ro.acl_type = Acltype::Edit;
    assert_eq!(print_may_not(&ro), "You may not edit \"/etc/hosts\" on localhost as root");
    ro.acl_type = Acltype::List;
    ro.hostname = "web1".to_string();
    assert_eq!(print_may_not(&ro), "You may not list \"/etc/hosts\" on web1 as root");
    assert_eq!(Acltype::Run.to_string(), "run");
    let mut rule = EnvOptions::new();
    rule.reason = Some(ReasonType::Need(true));
    assert_eq!(
        reason_refusal(&rule, &ro),
        "Sorry but no reason was given to list \"root\" on web1 as root"
    );
    ro.acl_type = Acltype::Run;
    assert_eq!(
        reason_refusal(&rule, &ro),
        "Sorry but no reason was given to run \"/etc/hosts\" on web1 as root"
    );
    rule.reason = Some(ReasonType::Text("ticket".to_string()));
    assert_eq!(
        reason_refusal(&rule, &ro),
        "Sorry but there is no reason match to run \"/etc/hosts\" on web1 as root"
    );
    assert_eq!(bad_priv_msg(), "I cannot set privs. Exiting as not installed correctly.");
}

#[test]
fn listing_shows_the_rules_of_a_user() {
    let mut ro = request("ed");
    ro.target = String::new();
    let mut first = EnvOptions::new();
    first.name = Some("ed".to_string());
    first.rule = Some("/bin/ls".to_string());
    first.file_name = "/etc/please.ini".to_string();
    first.section = "ls".to_string();
    first.notbefore = Some(Timestamp::at(1_609_459_200));
    first.last = Some(true);
    let mut second = EnvOptions::new();
    second.exact_name = Some("ed".to_string());
    second.exact_rule = Some("/bin/cat".to_string());
    second.exact_target = Some("oracle".to_string());
    second.exact_dir = Some("/tmp".to_string());
    second.require_pass = Some(false);
    second.permit = Some(false);
    second.reason = Some(ReasonType::Need(true));
    second.notafter = Some(Timestamp::at(1_577_836_800));
    second.file_name = "/etc/please.ini".to_string();
    second.section = "cat".to_string();
    let mut other = EnvOptions::new();
    other.name = Some("bob".to_string());
    other.file_name = "/etc/please.d/bob.ini".to_string();
    other.section = "bob".to_string();
    let mut third = EnvOptions::new();
    third.name = Some("ed".to_string());
    third.dir = Some("/var/.*".to_string());
    third.file_name = "/etc/please.d/ed.ini".to_string();
    third.section = "var".to_string();
    let mut lister = EnvOptions::new();
    lister.name = Some("ed".to_string());
    lister.acl_type = Acltype::List;
    lister.target = Some("bob".to_string());
    lister.file_name = "/etc/please.d/ed.ini".to_string();
    lister.section = "who".to_string();
    let all = vec![first, second, other, third, lister];
    let lines = produce_list(&all, &ro);
    assert_eq!(
        lines,
        vec![
            "  in file: /etc/please.ini",
            "    ls: upcomming(2021-01-01 00:00:00), last as root (pass=true,dirs=): /bin/ls",
            "    cat: expired(2020-01-01 00:00:00), reason_required, not permitted as exact(oracle) (pass=false,dirs=exact(/tmp)): exact(/bin/cat)",
            "  in file: /etc/please.d/ed.ini",
            "    var:root (pass=true,dirs=/var/.*): ^$",
        ]
    );
    ro.acl_type = Acltype::List;
    assert_eq!(
        list(&all, &ro),
        "  in file: /etc/please.d/ed.ini\n    who:list: bob\n"
    );
    ro.target = "bob".to_string();
    ro.acl_type = Acltype::Run;
    assert_eq!(
        produce_list(&all, &ro),
        vec!["  in file: /etc/please.d/bob.ini", "    bob:root (pass=true,dirs=): ^$"]
    );
    assert_eq!(list_rule(&all[1]), "exact(/bin/cat)");
    assert_eq!(list_target(&all[0]), "root");
    assert_eq!(list_dir(&all[0]), "");
}

fn args(free: &[&str]) -> ParsedArgs {
    ParsedArgs {
        free: free.iter().map(|a| a.to_string()).collect(),
        reason: None,
        target: None,
        group: None,
        user: None,
        purge: false,
        version: false,
        warm: false,
        noprompt: false,
        help: false,
        resume: false,
    }
}

#[test]
fn command_line_fills_the_request() {
    let mut parsed = args(&["/bin/ls", "-l"]);
    parsed.reason = Some("ticket".to_string());
    parsed.target = Some("oracle".to_string());
    parsed.group = Some("dba".to_string());
    parsed.noprompt = true;
    let mut ro = request("ed");
    assert_eq!(common_opt_arguments(&parsed, &mut ro, "web1"), CliOutcome::Proceed);
    assert_eq!(ro.new_args, vec!["/bin/ls", "-l"]);
    assert_eq!(ro.reason.as_deref(), Some("ticket"));
    assert_eq!(ro.target, "oracle");
    assert_eq!(ro.target_group.as_deref(), Some("dba"));
    assert!(!ro.prompt);
    assert_eq!(ro.hostname, "web1");
}

#[test]
fn command_line_outcomes_in_order() {
    let mut parsed = args(&[]);
    parsed.target = Some("a".to_string());
    parsed.user = Some("b".to_string());
    parsed.version = true;
    let mut ro = request("ed");
    assert_eq!(common_opt_arguments(&parsed, &mut ro, "web1"), CliOutcome::Conflict);
    assert_eq!(ro.hostname, "localhost");
    parsed.user = Some("a".to_string());
    parsed.help = true;
    assert_eq!(common_opt_arguments(&parsed, &mut request("ed"), "web1"), CliOutcome::Version);
    parsed.version = false;
    parsed.purge = true;
    assert_eq!(common_opt_arguments(&parsed, &mut request("ed"), "web1"), CliOutcome::Help);
    parsed.free = vec!["credits".to_string()];
    assert_eq!(common_opt_arguments(&parsed, &mut request("ed"), "web1"), CliOutcome::Credits);
    parsed.help = false;
    parsed.warm = true;
    assert_eq!(common_opt_arguments(&parsed, &mut request("ed"), "web1"), CliOutcome::Purge);
    parsed.purge = false;
    assert_eq!(common_opt_arguments(&parsed, &mut request("ed"), "web1"), CliOutcome::Warm(true));
    parsed.noprompt = true;
    assert_eq!(common_opt_arguments(&parsed, &mut request("ed"), "web1"), CliOutcome::Warm(false));
}

#[test]
fn edit_wants_exactly_one_file() {
    let mut ro = request("ed");
    assert_eq!(general_options(&mut ro, &args(&[]), "web1"), CliOutcome::OneFileNeeded);
    assert_eq!(general_options(&mut request("ed"), &args(&["a", "b"]), "web1"), CliOutcome::OneFileNeeded);
    let mut parsed = args(&["/etc/hosts"]);
    parsed.resume = true;
    let mut ro = request("ed");
    assert_eq!(general_options(&mut ro, &parsed, "web1"), CliOutcome::Proceed);
    assert_eq!(ro.resume, Some(true));
    assert_eq!(ro.new_args, vec!["/etc/hosts"]);
    let mut ro = request("ed");
    assert_eq!(general_options(&mut ro, &args(&["/etc/hosts"]), "web1"), CliOutcome::Proceed);
    assert_eq!(ro.resume, None);
}

#[test]
fn groups_terminal_and_target_group() {
    let groups = vec![("wheel".to_string(), 10), ("staff".to_string(), 50), ("wheel".to_string(), 11)];
    assert_eq!(group_hash(groups), vec![("wheel".to_string(), 10), ("staff".to_string(), 50)]);
    let mut ro = request("ed");
    assert_eq!(runopt_target_gid(&ro, 0, Some(4)), Some(0));
    ro.target_group = Some("dba".to_string());
    assert_eq!(runopt_target_gid(&ro, 0, Some(4)), Some(4));
    assert_eq!(runopt_target_gid(&ro, 0, None), None);
    let probes = vec![TtyProbe::Absent, TtyProbe::Named("/dev/pts/2".to_string()), TtyProbe::Unreadable];
    assert_eq!(tty_name(&probes).as_deref(), Some("/dev/pts/2"));
    let probes = vec![TtyProbe::Unreadable, TtyProbe::Named("/dev/pts/2".to_string())];
    assert_eq!(tty_name(&probes), None);
    assert_eq!(tty_name(&vec![TtyProbe::Absent, TtyProbe::Absent, TtyProbe::Absent]), None);
}

#[test]
fn privilege_calls_come_in_order() {
    assert_eq!(
        set_privs("oracle", 54321, 54322),
        vec![
            PrivCall::ClearGroups,
            PrivCall::InitGroups("oracle".to_string(), 54322),
            PrivCall::SetGid(54322),
            PrivCall::SetUid(54321),
        ]
    );
    assert_eq!(set_eprivs(5, 6), vec![PrivCall::SetEgid(6), PrivCall::SetEuid(5)]);
    assert_eq!(esc_privs(), vec![PrivCall::SetEgid(0), PrivCall::SetEuid(0)]);
    assert_eq!(
        drop_privs(&request("ed")),
        vec![PrivCall::SetEgid(0), PrivCall::SetEuid(0), PrivCall::SetEgid(100), PrivCall::SetEuid(1000)]
    );
    assert!(all_succeeded(&vec![true, true]));
    assert!(!all_succeeded(&vec![true, false, true]));
    assert!(all_succeeded(&vec![]));
}
