use chrono::NaiveDate;
use pleaser::clock::Timestamp;
use pleaser::loader::{read_ini_config_str, LoadAction, Loader};
use pleaser::matcher::{
    can, directory_check_ok, environment_ok, group_matches, matching, name_matches,
    paths_to_probe, permitted_dates_ok, reason_ok, rule_match, target_group_ok, target_ok,
};
use pleaser::path::{
    replace_new_args, search_candidates, search_path, search_path_cache, PathSet,
};
use pleaser::request::RunOptions;
use pleaser::rule::{merge_default, Acltype, EditMode, EnvOptions, ReasonType};

fn at(y: i32, m: u32, d: u32, h: u32, mi: u32, s: u32) -> Timestamp {
    let moment = NaiveDate::from_ymd_opt(y, m, d).unwrap().and_hms_opt(h, mi, s).unwrap();
    Timestamp::at(moment.and_utc().timestamp())
}

fn request(name: &str, args: &[&str]) -> RunOptions {
    let mut ro = RunOptions::new(1000, 1000, at(2020, 6, 5, 12, 30, 15));
    ro.name = name.to_string();
    ro.target = "root".to_string();
    ro.new_args = args.iter().map(|a| a.to_string()).collect();
    ro
}

fn rules(config: &str, ro: &RunOptions) -> Vec<EnvOptions> {
    let mut loader = Loader::new(ro, true);
    assert_eq!(read_ini_config_str(&mut loader, config), LoadAction::Done(false));
    loader.rules
}

fn files(paths: &[&str]) -> PathSet {
    PathSet::new(paths.iter().map(|p| p.to_string()).collect())
}

#[test]
fn last_match_wins_unless_a_rule_is_last() {
    let config = "[one]\nname=ed\nrule=.*\nrequire_pass=false\n\
                  [two]\nname=ed\nrule=^/bin/ls$\npermit=false\n\
                  [three]\nname=bob\nrule=.*\n";
    let mut ro = request("ed", &["/bin/ls"]);
    let entry = can(&rules(config, &ro), &mut ro, &files(&["/bin/ls"]));
    assert_eq!(entry.section, "two");
    assert!(!entry.permit());
    let config = "[one]\nname=ed\nrule=.*\nlast=true\n[two]\nname=ed\nrule=^/bin/ls$\npermit=false\n";
    let mut ro = request("ed", &["/bin/ls"]);
    let entry = can(&rules(config, &ro), &mut ro, &files(&["/bin/ls"]));
    assert_eq!(entry.section, "one");
    assert!(entry.permit());
}

#[test]
fn defaults_merge_into_later_matches() {
    let config = "[default_all]\nname=.*\nrule=.*\nrequire_pass=false\nsyslog=false\ntoken_timeout=30\n\
                  [default_more]\nname=.*\nrule=.*\nsyslog=true\ntimeout=5\n\
                  [ls]\nname=ed\nrule=^/bin/ls$\ntoken_timeout=60\n";
    let mut ro = request("ed", &["/bin/ls"]);
    let entry = can(&rules(config, &ro), &mut ro, &files(&["/bin/ls"]));
    assert_eq!(entry.section, "ls");
    assert_eq!(entry.require_pass, Some(false));
    assert_eq!(entry.syslog, Some(true));
    assert_eq!(entry.timeout, Some(5));
    assert_eq!(entry.token_timeout, Some(60));
    assert_eq!(entry.rule.as_deref(), Some("^/bin/ls$"));
}

#[test]
fn last_may_come_from_a_default() {
    let config = "[default]\nname=.*\nrule=.*\nlast=true\n[ls]\nname=ed\nrule=.*\npermit=false\n";
    let mut ro = request("ed", &["/bin/ls"]);
    let entry = can(&rules(config, &ro), &mut ro, &files(&["/bin/ls"]));
    assert_eq!(entry.section, "default");
    assert!(entry.permit());
}

#[test]
fn no_match_denies() {
    let config = "[r]\nname=bob\nrule=.*\n";
    let mut ro = request("ed", &["/bin/ls"]);
    let entry = can(&rules(config, &ro), &mut ro, &files(&["/bin/ls"]));
    assert!(!entry.permit());
    assert_eq!(entry.acl_type, Acltype::List);
    assert_eq!(entry.rule.as_deref(), Some("."));
    assert_eq!(entry.target.as_deref(), Some("^$"));
    assert_eq!(entry.permit, Some(false));
}

#[test]
fn rules_of_another_type_are_passed_over() {
    let config = "[edit]\nname=ed\ntype=edit\nrule=.*\n[list]\nname=ed\ntype=list\ntarget=.*\n";
    let mut ro = request("ed", &["/etc/hosts"]);
    ro.acl_type = Acltype::Edit;
    let all = rules(config, &ro);
    let entry = can(&all, &mut ro, &files(&[]));
    assert_eq!(entry.section, "edit");
    assert_eq!(ro.command, "/etc/hosts");
    let mut ro = request("ed", &[]);
    ro.acl_type = Acltype::List;
    assert_eq!(can(&all, &mut ro, &files(&[])).section, "list");
    let mut ro = request("ed", &["/etc/hosts"]);
    assert!(!can(&all, &mut ro, &files(&["/etc/hosts"])).permit());
}

#[test]
fn edit_matches_the_file_alone() {
    let config = "[hosts]\nname=ed\ntype=edit\nrule=^/etc/hosts$\neditmode=keep\n";
    let mut ro = request("ed", &["/etc/hosts"]);
    ro.acl_type = Acltype::Edit;
    let entry = can(&rules(config, &ro), &mut ro, &files(&[]));
    assert!(entry.permit());
    assert_eq!(entry.edit_mode, Some(EditMode::Keep(true)));
    let mut other = request("ed", &["/etc/passwd"]);
    other.acl_type = Acltype::Edit;
    assert!(!can(&rules(config, &other), &mut other, &files(&[])).permit());
}

#[test]
fn command_line_escapes_backslashes_and_spaces() {
    assert_eq!(replace_new_args(vec![]), "");
    assert_eq!(replace_new_args(vec!["/bin/ls".to_string()]), "/bin/ls");
    let args = vec!["/bin/echo".to_string(), "a b".to_string(), "c\\d".to_string(), "e\\ f".to_string()];
    assert_eq!(replace_new_args(args), "/bin/echo a\\ b c\\\\d e\\\\\\ f");
}

#[test]
fn binary_is_searched_in_the_search_path() {
    let item = EnvOptions::new();
    let fs = files(&["/usr/bin/ls", "/bin/ls", "/opt/tools/ls"]);
    let mut ro = request("ed", &["ls", "-l"]);
    assert_eq!(search_path(&mut ro, &item, &fs).as_deref(), Some("/usr/bin/ls"));
    assert_eq!(search_path_cache(&ro, "ls").as_deref(), Some("/usr/bin/ls"));
    let mut custom = EnvOptions::new();
    custom.search_path = Some(":/nowhere: :/opt/tools///:/bin".to_string());
    let mut ro = request("ed", &["ls"]);
    assert_eq!(search_path(&mut ro, &custom, &fs).as_deref(), Some("/opt/tools/ls"));
    let mut ro = request("ed", &["nothing"]);
    assert_eq!(search_path(&mut ro, &item, &fs), None);
    assert_eq!(ro.located_bin, vec![("nothing".to_string(), None)]);
    let mut blank = EnvOptions::new();
    blank.search_path = Some(": :".to_string());
    let mut ro = request("ed", &["ls"]);
    assert_eq!(search_path(&mut ro, &blank, &fs), None);
    assert!(ro.located_bin.is_empty());
}

#[test]
fn direct_paths_are_used_verbatim() {
    let item = EnvOptions::new();
    let fs = files(&["/bin/ls", "./run.sh"]);
    let mut ro = request("ed", &["/bin/ls"]);
    assert_eq!(search_path(&mut ro, &item, &fs).as_deref(), Some("/bin/ls"));
    let mut ro = request("ed", &["./run.sh"]);
    assert_eq!(search_path(&mut ro, &item, &fs).as_deref(), Some("./run.sh"));
    let mut ro = request("ed", &["/bin/missing"]);
    assert_eq!(search_path(&mut ro, &item, &fs), None);
    assert_eq!(ro.located_bin, vec![("/bin/missing".to_string(), None)]);
}

#[test]
fn second_lookup_returns_what_is_remembered() {
    let item = EnvOptions::new();
    let mut ro = request("ed", &["ls"]);
    assert_eq!(search_path(&mut ro, &item, &files(&["/bin/ls"])).as_deref(), Some("/bin/ls"));
    let before = ro.located_bin.clone();
    assert_eq!(search_path(&mut ro, &item, &files(&[])).as_deref(), Some("/bin/ls"));
    assert_eq!(search_path(&mut ro, &item, &files(&["/usr/bin/ls"])).as_deref(), Some("/bin/ls"));
    assert_eq!(ro.located_bin, before);
    let mut ro = request("ed", &["ls"]);
    assert_eq!(search_path(&mut ro, &item, &files(&[])), None);
    assert_eq!(search_path(&mut ro, &item, &files(&["/bin/ls"])), None);
    assert_eq!(ro.located_bin.len(), 1);
}

#[test]
fn run_resolves_the_binary_before_matching() {
    let mut item = EnvOptions::new();
    item.name = Some("ed".to_string());
    item.rule = Some("/bin/ls -l".to_string());
    let mut ro = request("ed", &["ls", "-l"]);
    assert!(matching(&item, &mut ro, &files(&["/bin/ls"])));
    assert_eq!(ro.command, "/bin/ls -l");
    assert_eq!(ro.cloned_args, Some(vec!["/bin/ls".to_string(), "-l".to_string()]));
    let mut ro = request("ed", &["ls", "-l"]);
    assert!(!matching(&item, &mut ro, &files(&[])));
    assert_eq!(ro.command, "ls -l");
    assert_eq!(ro.cloned_args, None);
}

#[test]
fn name_and_group_predicates() {
    let mut ro = request("ed", &["/bin/ls"]);
    ro.groups = vec![("staff".to_string(), 50), ("wheel".to_string(), 10)];
    let mut item = EnvOptions::new();
    assert!(!name_matches(&item, &ro));
    assert!(!group_matches(&item, &ro));
    item.name = Some("e.".to_string());
    assert!(name_matches(&item, &ro));
    assert!(!group_matches(&item, &ro));
    item.name = Some("wh.*".to_string());
    assert!(group_matches(&item, &ro));
    item.exact_name = Some("ed".to_string());
    assert!(name_matches(&item, &ro));
    assert!(!group_matches(&item, &ro));
    item.exact_name = Some("staff".to_string());
    assert!(!name_matches(&item, &ro));
    assert!(group_matches(&item, &ro));
    item.exact_name = Some("e.".to_string());
    assert!(!name_matches(&item, &ro));
}

#[test]
fn group_rule_applies_to_members() {
    let config = "[admins]\nname=wheel\ngroup=true\nrule=.*\n";
    let mut ro = request("ed", &["/bin/ls"]);
    ro.groups = vec![("wheel".to_string(), 10)];
    assert!(can(&rules(config, &ro), &mut ro, &files(&["/bin/ls"])).permit());
    let mut ro = request("wheel", &["/bin/ls"]);
    assert!(!can(&rules(config, &ro), &mut ro, &files(&["/bin/ls"])).permit());
}

#[test]
fn target_predicates() {
    let mut ro = request("ed", &["/bin/ls"]);
    ro.target = "oracle".to_string();
    let mut item = EnvOptions::new();
    assert!(!target_ok(&item, &ro));
    item.target = Some("ora.*".to_string());
    assert!(target_ok(&item, &ro));
    item.exact_target = Some("root".to_string());
    assert!(!target_ok(&item, &ro));
    item.target = None;
    item.exact_target = None;
    assert!(!target_ok(&item, &ro));
    let mut item = EnvOptions::new();
    assert!(target_group_ok(&item, &ro));
    item.target_group = Some("dba".to_string());
    assert!(!target_group_ok(&item, &ro));
    ro.target_group = Some("dba".to_string());
    assert!(target_group_ok(&item, &ro));
    item.exact_target_group = Some("wheel".to_string());
    assert!(!target_group_ok(&item, &ro));
    let item = EnvOptions::new();
    assert!(!target_group_ok(&item, &ro));
}

#[test]
fn directory_predicates() {
    let mut ro = request("ed", &["/bin/ls"]);
    let mut item = EnvOptions::new();
    assert!(directory_check_ok(&item, &ro));
    ro.directory = Some("/var/www".to_string());
    assert!(directory_check_ok(&item, &ro));
    item.dir = Some("/var/.*".to_string());
    assert!(directory_check_ok(&item, &ro));
    item.dir = Some("/var".to_string());
    assert!(!directory_check_ok(&item, &ro));
    item.dir = Some("/var/.*".to_string());
    item.exact_dir = Some("/var".to_string());
    assert!(!directory_check_ok(&item, &ro));
    item.exact_dir = Some("/var/www".to_string());
    assert!(directory_check_ok(&item, &ro));
    ro.directory = None;
    assert!(!directory_check_ok(&item, &ro));
    item.exact_dir = None;
    assert!(!directory_check_ok(&item, &ro));
    item.dir = None;
    assert!(directory_check_ok(&item, &ro));
}

#[test]
fn rule_without_directory_applies_in_any_directory() {
    let config = "[ls]\nname=ed\nrule=^/bin/ls$\n";
    let mut ro = request("ed", &["/bin/ls"]);
    ro.directory = Some("/tmp".to_string());
    assert!(can(&rules(config, &ro), &mut ro, &files(&["/bin/ls"])).permit());
    let config = "[ls]\nname=ed\nrule=^/bin/ls$\ndir=/srv(/.*)?\n";
    let mut ro = request("ed", &["/bin/ls"]);
    ro.directory = Some("/tmp".to_string());
    assert!(!can(&rules(config, &ro), &mut ro, &files(&["/bin/ls"])).permit());
    ro.directory = Some("/srv/www".to_string());
    assert!(can(&rules(config, &ro), &mut ro, &files(&["/bin/ls"])).permit());
}

#[test]
fn environment_predicate() {
    let mut ro = request("ed", &["/bin/ls"]);
    let mut item = EnvOptions::new();
    assert!(environment_ok(&item, &ro));
    ro.allow_env_list = Some(vec!["HOME".to_string(), "PATH".to_string()]);
    assert!(!environment_ok(&item, &ro));
    item.env_permit = Some("(HOME|PATH)".to_string());
    assert!(environment_ok(&item, &ro));
    item.env_permit = Some("HOME".to_string());
    assert!(!environment_ok(&item, &ro));
    item.env_permit = Some("(".to_string());
    assert!(!environment_ok(&item, &ro));
    ro.allow_env_list = Some(vec![]);
    assert!(!environment_ok(&item, &ro));
}

#[test]
fn datematch_sees_the_formatted_time() {
    let ro = request("ed", &["/bin/ls"]);
    let mut item = EnvOptions::new();
    item.datematch = Some("Fri  5 Jun 12:30:15 UTC 2020".to_string());
    assert!(permitted_dates_ok(&item, &ro));
    item.datematch = Some("Fri.*".to_string());
    assert!(permitted_dates_ok(&item, &ro));
    item.datematch = Some("Sat.*".to_string());
    assert!(!permitted_dates_ok(&item, &ro));
    item.datematch = Some("(".to_string());
    assert!(!permitted_dates_ok(&item, &ro));
    item.datematch = None;
    item.notbefore = Some(at(2020, 6, 5, 12, 30, 15));
    item.notafter = Some(at(2020, 6, 5, 12, 30, 15));
    assert!(permitted_dates_ok(&item, &ro));
    item.notbefore = Some(at(2020, 6, 5, 12, 30, 16));
    assert!(!permitted_dates_ok(&item, &ro));
    item.notbefore = None;
    item.notafter = Some(at(2020, 6, 5, 12, 30, 14));
    assert!(!permitted_dates_ok(&item, &ro));
}

#[test]
fn nanoseconds_count_at_the_edge_of_the_window() {
    let mut ro = request("ed", &["/bin/ls"]);
    let edge = at(2020, 6, 5, 12, 30, 15);
    ro.date = Timestamp { secs: edge.secs, nanos: 500_000_000 };
    let mut item = EnvOptions::new();
    item.notafter = Some(edge);
    assert!(!permitted_dates_ok(&item, &ro));
    item.notafter = None;
    item.notbefore = Some(edge);
    assert!(permitted_dates_ok(&item, &ro));
}

#[test]
fn exact_rule_compares_the_command_line() {
    let mut ro = request("ed", &["/bin/ls"]);
    ro.command = "/bin/ls -l".to_string();
    let mut item = EnvOptions::new();
    item.exact_rule = Some("/bin/ls -l".to_string());
    assert!(rule_match(&item, &ro));
    item.exact_rule = Some("/bin/ls.*".to_string());
    assert!(!rule_match(&item, &ro));
    item.exact_rule = None;
    item.rule = Some("/bin/ls.*".to_string());
    assert!(rule_match(&item, &ro));
    item.rule = None;
    assert!(!rule_match(&item, &ro));
}

#[test]
fn reason_is_checked_after_the_decision() {
    let mut ro = request("ed", &["/bin/ls"]);
    let mut item = EnvOptions::new();
    assert!(reason_ok(&item, &ro));
    item.reason = Some(ReasonType::Need(true));
    assert!(!reason_ok(&item, &ro));
    item.reason = Some(ReasonType::Need(false));
    assert!(reason_ok(&item, &ro));
    item.reason = Some(ReasonType::Text(".*ticket [0-9]+.*".to_string()));
    assert!(!reason_ok(&item, &ro));
    ro.reason = Some("for ticket 42".to_string());
    assert!(reason_ok(&item, &ro));
    ro.reason = Some("because".to_string());
    assert!(!reason_ok(&item, &ro));
    item.reason = Some(ReasonType::Need(true));
    assert!(reason_ok(&item, &ro));
}

#[test]
fn merge_takes_unset_effects_from_the_default() {
    let mut default = EnvOptions::new();
    default.syslog = Some(false);
    default.reason = Some(ReasonType::Need(true));
    default.exitcmd = Some("/bin/true".to_string());
    default.edit_mode = Some(EditMode::Mode(0o600));
    default.env_assign = Some(vec![("A".to_string(), "1".to_string())]);
    default.permit = Some(false);
    default.name = Some("default-name".to_string());
    default.target = Some("default-target".to_string());
    let mut item = EnvOptions::new();
    item.name = Some("ed".to_string());
    item.syslog = Some(true);
    item.exitcmd = Some("/bin/false".to_string());
    item.section = "item".to_string();
    let merged = merge_default(&default, &item);
    assert_eq!(merged.syslog, Some(true));
    assert_eq!(merged.exitcmd.as_deref(), Some("/bin/false"));
    assert_eq!(merged.reason, Some(ReasonType::Need(true)));
    assert_eq!(merged.edit_mode, Some(EditMode::Mode(0o600)));
    assert_eq!(merged.env_assign, Some(vec![("A".to_string(), "1".to_string())]));
    assert_eq!(merged.permit, Some(false));
    assert_eq!(merged.name.as_deref(), Some("ed"));
    assert_eq!(merged.target.as_deref(), Some("root"));
    assert_eq!(merged.section, "item");
}

#[test]
fn probes_list_every_place_that_is_looked_at() {
    let mut first = EnvOptions::new();
    first.search_path = Some("/opt/bin/:: /sbin".to_string());
    let second = EnvOptions::new();
    assert_eq!(search_candidates("ls", &first), vec!["/opt/bin/ls", " /sbin/ls"]);
    assert_eq!(search_candidates("/bin/ls", &first), vec!["/bin/ls"]);
    assert_eq!(search_candidates("./ls", &second), vec!["./ls"]);
    assert_eq!(
        search_candidates("ls", &second),
        vec![
            "/usr/local/sbin/ls",
            "/usr/local/bin/ls",
            "/usr/sbin/ls",
            "/usr/bin/ls",
            "/sbin/ls",
            "/bin/ls"
        ]
    );
    let ro = request("ed", &["ls"]);
    let probes = paths_to_probe(&vec![first, second], &ro);
    assert_eq!(probes.len(), 8);
    assert_eq!(probes[0], "/opt/bin/ls");
    assert_eq!(probes[7], "/bin/ls");
    let config = "[ls]\nname=ed\nrule=^/usr/bin/ls$\n";
    let mut ro = request("ed", &["ls"]);
    let all = rules(config, &ro);
    let existing: Vec<String> =
        paths_to_probe(&all, &ro).into_iter().filter(|p| p == "/usr/bin/ls" || p == "/bin/ls").collect();
    assert!(can(&all, &mut ro, &PathSet::new(existing)).permit());
    assert_eq!(ro.command, "/usr/bin/ls");
}
