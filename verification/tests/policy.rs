use chrono::NaiveDate;
use pleaser::clock::Timestamp;
use pleaser::loader::{read_ini_config_str, LoadAction, Loader};
use pleaser::matcher::{can, hostname_ok, regex_build};
use pleaser::path::PathSet;
use pleaser::request::RunOptions;
use pleaser::rule::{Acltype, EnvOptions};

fn at(y: i32, m: u32, d: u32, h: u32, mi: u32, s: u32) -> Timestamp {
    let moment = NaiveDate::from_ymd_opt(y, m, d).unwrap().and_hms_opt(h, mi, s).unwrap();
    Timestamp::at(moment.and_utc().timestamp())
}

fn request(name: &str, args: &[&str], date: Timestamp) -> RunOptions {
    let mut ro = RunOptions::new(1000, 1000, date);
    ro.name = name.to_string();
    ro.target = "root".to_string();
    ro.acl_type = Acltype::Run;
    ro.new_args = args.iter().map(|a| a.to_string()).collect();
    ro
}

fn load(config: &str, ro: &RunOptions, fail_error: bool) -> (Vec<EnvOptions>, LoadAction) {
    let mut loader = Loader::new(ro, fail_error);
    let action = read_ini_config_str(&mut loader, config);
    (loader.rules, action)
}

fn files(paths: &[&str]) -> PathSet {
    PathSet::new(paths.iter().map(|p| p.to_string()).collect())
}

#[test]
fn permits_listed_command_without_password() {
    let config = "[r]\nname=ed\ntarget=root\nrule=^/bin/ls( .*)?$\nrequire_pass=false\n";
    let mut ro = request("ed", &["/bin/ls", "-l"], at(2020, 6, 1, 0, 0, 0));
    let (rules, action) = load(config, &ro, true);
    assert_eq!(action, LoadAction::Done(false));
    assert_eq!(rules.len(), 1);
    let entry = can(&rules, &mut ro, &files(&["/bin/ls"]));
    assert!(entry.permit());
    assert!(!entry.require_pass());
    assert_eq!(ro.command, "/bin/ls -l");
    assert_eq!(entry.section, "r");
    assert_eq!(entry.file_name, "static");
}

#[test]
fn denies_command_that_no_rule_lists() {
    let config = "[r]\nname=ed\ntarget=root\nrule=^/bin/ls( .*)?$\nrequire_pass=false\n";
    let mut ro = request("ed", &["/bin/cat", "/etc/shadow"], at(2020, 6, 1, 0, 0, 0));
    let (rules, _) = load(config, &ro, true);
    let entry = can(&rules, &mut ro, &files(&["/bin/cat", "/bin/ls"]));
    assert!(!entry.permit());
    assert_eq!(ro.command, "/bin/cat /etc/shadow");
    assert_eq!(
        pleaser::audit::print_may_not(&ro),
        "You may not execute \"/bin/cat /etc/shadow\" on localhost as root"
    );
}

#[test]
fn date_window_decides() {
    let config = "[r]\nname=ed\nrule=.*\nnotbefore=20200101\nnotafter=20201225\n";
    let ro = request("ed", &["/bin/ls"], at(2019, 12, 31, 0, 0, 0));
    let (rules, action) = load(config, &ro, true);
    assert_eq!(action, LoadAction::Done(false));
    assert_eq!(rules[0].notbefore, Some(at(2020, 1, 1, 0, 0, 0)));
    assert_eq!(rules[0].notafter, Some(at(2020, 12, 25, 23, 59, 59)));
    let fs = files(&["/bin/ls"]);
    let mut early = request("ed", &["/bin/ls"], at(2019, 12, 31, 0, 0, 0));
    assert!(!can(&rules, &mut early, &fs).permit());
    let mut inside = request("ed", &["/bin/ls"], at(2020, 6, 1, 0, 0, 0));
    assert!(can(&rules, &mut inside, &fs).permit());
    let mut last = request("ed", &["/bin/ls"], at(2020, 12, 25, 23, 59, 59));
    assert!(can(&rules, &mut last, &fs).permit());
    let mut late = request("ed", &["/bin/ls"], at(2020, 12, 26, 0, 0, 0));
    assert!(!can(&rules, &mut late, &fs).permit());
}

#[test]
fn hostname_any_and_localhost_match_every_host() {
    let mut ro = request("ed", &["/bin/ls"], at(2020, 6, 1, 0, 0, 0));
    ro.hostname = "web1".to_string();
    for alias in ["any", "localhost"] {
        let mut item = EnvOptions::new();
        item.hostname = Some(alias.to_string());
        assert!(hostname_ok(&item, &ro));
        let mut exact = EnvOptions::new();
        exact.exact_hostname = Some(alias.to_string());
        assert!(hostname_ok(&exact, &ro));
    }
    let mut other = EnvOptions::new();
    other.hostname = Some("web2".to_string());
    assert!(!hostname_ok(&other, &ro));
    other.hostname = Some("web[0-9]".to_string());
    assert!(hostname_ok(&other, &ro));
}

#[test]
fn macros_are_replaced_before_compilation() {
    let mut ro = request("ed", &["/bin/ls"], at(2020, 6, 1, 0, 0, 0));
    ro.hostname = "web1".to_string();
    let re = regex_build("/home/%{USER}/%{HOSTNAME}", &ro).unwrap();
    assert_eq!(re.as_str(), "^/home/ed/web1$");
    assert!(re.is_match("/home/ed/web1"));
    assert!(!re.is_match("/home/%{USER}/%{HOSTNAME}"));
    assert!(regex_build("(", &ro).is_none());
}
