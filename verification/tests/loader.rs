use pleaser::clock::Timestamp;
use pleaser::config::FaultKind;
use pleaser::listing::{can_dir_include, can_include_file_pattern, files_to_include};
use pleaser::loader::{
    read_ini, read_ini_config_file, read_ini_config_str, LoadAction, LoadReply, Loader, BYTE_LIMIT,
};
use pleaser::request::RunOptions;
use pleaser::rule::{Acltype, EditMode, EnvOptions, ReasonType};
use pleaser::text::string_of;

fn invoker() -> RunOptions {
    let mut ro = RunOptions::new(1000, 1000, Timestamp::at(1_600_000_000));
    ro.name = "ed".to_string();
    ro.hostname = "web1".to_string();
    ro
}

fn parse(config: &str, fail_error: bool) -> (Loader, LoadAction) {
    let mut loader = Loader::new(&invoker(), fail_error);
    let action = read_ini_config_str(&mut loader, config);
    (loader, action)
}

fn only_rule(config: &str) -> EnvOptions {
    let (loader, action) = parse(config, true);
    assert_eq!(action, LoadAction::Done(false));
    assert_eq!(loader.rules.len(), 1);
    loader.rules[0].clone()
}

#[test]
fn sections_become_rules_in_order() {
    let config = "# policy\n\n[first]\nname = ed\n  rule = ^/bin/ls$  \n[second]\nexact_name=bob\n[third]\ntarget=root\n";
    let (loader, action) = parse(config, true);
    assert_eq!(action, LoadAction::Done(false));
    let names: Vec<&str> = loader.rules.iter().map(|r| r.section.as_str()).collect();
    assert_eq!(names, vec!["first", "second"]);
    assert_eq!(loader.rules[0].name.as_deref(), Some("ed"));
    assert_eq!(loader.rules[0].rule.as_deref(), Some("^/bin/ls$"));
    assert_eq!(loader.rules[0].file_name, "static");
    assert_eq!(loader.rules[1].exact_name.as_deref(), Some("bob"));
    assert_eq!(loader.rules[1].rule.as_deref(), Some("^$"));
    assert_eq!(loader.rules[1].target.as_deref(), Some("root"));
}

#[test]
fn rule_regex_that_does_not_compile_is_faulty_iff_faults_count() {
    let config = "[r]\nname=ed\nrule=^/bin/cat /etc/(\n";
    let (strict, action) = parse(config, true);
    assert_eq!(action, LoadAction::Done(true));
    assert_eq!(strict.faults.len(), 1);
    assert_eq!(strict.faults[0].kind, FaultKind::Expression);
    assert_eq!(strict.faults[0].line, 3);
    assert_eq!(strict.faults[0].section, "r");
    assert_eq!(strict.faults[0].file, "static");
    let (lenient, action) = parse(config, false);
    assert_eq!(action, LoadAction::Done(false));
    assert!(lenient.faults.is_empty());
    assert_eq!(lenient.rules.len(), 1);
    let good = "[r]\nname=ed\nrule=^/bin/cat /etc/\n";
    assert_eq!(parse(good, true).1, LoadAction::Done(false));
}

#[test]
fn parsing_goes_on_after_a_fault() {
    let config = "stray=1\n[r]\nname=(\nbogus=1\nhostname=)\nrule=.*\n";
    let (loader, action) = parse(config, true);
    assert_eq!(action, LoadAction::Done(true));
    let lines: Vec<usize> = loader.faults.iter().map(|f| f.line).collect();
    assert_eq!(lines, vec![1, 3, 4, 5]);
    let kinds: Vec<FaultKind> = loader.faults.iter().map(|f| f.kind).collect();
    assert_eq!(
        kinds,
        vec![FaultKind::Entry, FaultKind::Expression, FaultKind::Entry, FaultKind::Expression]
    );
    assert_eq!(loader.rules.len(), 1);
    assert_eq!(loader.rules[0].rule.as_deref(), Some(".*"));
}

#[test]
fn unknown_key_is_ignored_when_faults_do_not_count() {
    let (loader, action) = parse("[r]\nname=ed\nbogus=1\n", false);
    assert_eq!(action, LoadAction::Done(false));
    assert_eq!(loader.faults.len(), 1);
    assert_eq!(loader.faults[0].kind, FaultKind::Entry);
}

#[test]
fn effect_fields_are_read() {
    let rule = only_rule(
        "[r]\nname=ed\npermit=false\nrequire_pass=false\ntype=EDIT\ngroup=true\nlast=true\nsyslog=false\n\
         timeout=30\ntoken_timeout=18446744073709551615\nsearch_path=/opt/bin:/bin\nexitcmd=/usr/bin/test -s %{NEW}\n\
         permit_env=^(HOME|PATH)$\nreason=true\ndir=/tmp\nexact_dir=/var\ndatematch=^Fri.*\n\
         exact_hostname=web1\nexact_target=bob\ntarget_group=wheel\nexact_target_group=staff\nexact_rule=/bin/ls\n",
    );
    assert_eq!(rule.permit, Some(false));
    assert_eq!(rule.require_pass, Some(false));
    assert_eq!(rule.acl_type, Acltype::Edit);
    assert!(rule.group);
    assert_eq!(rule.last, Some(true));
    assert_eq!(rule.syslog, Some(false));
    assert_eq!(rule.timeout, Some(30));
    assert_eq!(rule.token_timeout, Some(u64::MAX));
    assert_eq!(rule.search_path.as_deref(), Some("/opt/bin:/bin"));
    assert_eq!(rule.exitcmd.as_deref(), Some("/usr/bin/test -s %{NEW}"));
    assert_eq!(rule.env_permit.as_deref(), Some("^(HOME|PATH)$"));
    assert_eq!(rule.reason, Some(ReasonType::Need(true)));
    assert_eq!(rule.dir.as_deref(), Some("/tmp"));
    assert_eq!(rule.exact_dir.as_deref(), Some("/var"));
    assert_eq!(rule.datematch.as_deref(), Some("^Fri.*"));
    assert_eq!(rule.exact_hostname.as_deref(), Some("web1"));
    assert_eq!(rule.exact_target.as_deref(), Some("bob"));
    assert_eq!(rule.target_group.as_deref(), Some("wheel"));
    assert_eq!(rule.exact_target_group.as_deref(), Some("staff"));
    assert_eq!(rule.exact_rule.as_deref(), Some("/bin/ls"));
}

#[test]
fn type_is_read_in_any_case_and_defaults_to_run() {
    assert_eq!(only_rule("[r]\nname=ed\ntype=List\n").acl_type, Acltype::List);
    assert_eq!(only_rule("[r]\nname=ed\ntype=edit\n").acl_type, Acltype::Edit);
    assert_eq!(only_rule("[r]\nname=ed\ntype=shell\n").acl_type, Acltype::Run);
}

#[test]
fn reason_is_a_flag_or_an_expression() {
    assert_eq!(only_rule("[r]\nname=ed\nreason=false\n").reason, Some(ReasonType::Need(false)));
    assert_eq!(
        only_rule("[r]\nname=ed\nreason=.*ticket.*\n").reason,
        Some(ReasonType::Text(".*ticket.*".to_string()))
    );
}

#[test]
fn first_env_assign_wins() {
    let rule = only_rule("[r]\nname=ed\nenv_assign.A=1\nenv_assign. B = 2\nenv_assign.A=3\nenv_assign.C=\n");
    assert_eq!(
        rule.env_assign,
        Some(vec![("A".to_string(), "1".to_string()), ("B".to_string(), "2".to_string())])
    );
}

#[test]
fn editmode_is_octal_or_keep() {
    assert_eq!(only_rule("[r]\nname=ed\neditmode=0644\n").edit_mode, Some(EditMode::Mode(0o644)));
    assert_eq!(only_rule("[r]\nname=ed\neditmode=600\n").edit_mode, Some(EditMode::Mode(0o600)));
    assert_eq!(only_rule("[r]\nname=ed\neditmode=Keep\n").edit_mode, Some(EditMode::Keep(true)));
    assert_eq!(only_rule("[r]\nname=ed\neditmode=\n").edit_mode, None);
    let (loader, action) = parse("[r]\nname=ed\neditmode=rw\n", true);
    assert_eq!(action, LoadAction::Done(true));
    assert_eq!(loader.faults[0].kind, FaultKind::Mode);
    let (loader, action) = parse("[r]\nname=ed\neditmode=0999\nrule=.*\n", false);
    assert_eq!(action, LoadAction::Done(true));
    assert_eq!(loader.faults[0].kind, FaultKind::Value);
    assert!(loader.rules.is_empty());
}

#[test]
fn dates_are_days_or_seconds() {
    let rule = only_rule("[r]\nname=ed\nnotbefore=20200808\nnotafter=20200810235959\n");
    assert_eq!(rule.notbefore, Some(Timestamp::at(1_596_844_800)));
    assert_eq!(rule.notafter, Some(Timestamp::at(1_597_103_999)));
    let rule = only_rule("[r]\nname=ed\nnotbefore=20200808000001\nnotafter=20200810\n");
    assert_eq!(rule.notbefore, Some(Timestamp::at(1_596_844_801)));
    assert_eq!(rule.notafter, Some(Timestamp::at(1_597_103_999)));
    let (loader, action) = parse("[r]\nname=ed\nnotbefore=2020\n", true);
    assert_eq!(action, LoadAction::Done(true));
    assert_eq!(loader.faults[0].kind, FaultKind::Entry);
    let (loader, action) = parse("[r]\nname=ed\nnotbefore=20201341\n", false);
    assert_eq!(action, LoadAction::Done(true));
    assert_eq!(loader.faults[0].kind, FaultKind::Value);
}

#[test]
fn numbers_that_cannot_be_read() {
    let (loader, action) = parse("[r]\nname=ed\ntimeout=soon\n", true);
    assert_eq!(action, LoadAction::Done(true));
    assert!(loader.faults.is_empty());
    assert_eq!(loader.rules[0].timeout, None);
    let (_, action) = parse("[r]\nname=ed\ntoken_timeout=-1\n", false);
    assert_eq!(action, LoadAction::Done(true));
    assert_eq!(only_rule("[r]\nname=ed\ntimeout=+7\n").timeout, Some(7));
    let (_, action) = parse("[r]\nname=ed\ntimeout=4294967296\n", true);
    assert_eq!(action, LoadAction::Done(true));
}

#[test]
fn include_reads_the_file_before_the_open_section_ends() {
    let mut loader = Loader::new(&invoker(), true);
    let action = read_ini_config_file(&mut loader, "/etc/please.ini");
    assert_eq!(action, LoadAction::Open("/etc/please.ini".to_string()));
    let action = loader.resume(LoadReply::Opened(Some(0o100644)));
    assert_eq!(action, LoadAction::Read("/etc/please.ini".to_string()));
    let root = "[outer]\nname=ed\ninclude = /etc/please.d/a.ini\nrule=.*\n";
    let action = loader.resume(LoadReply::Content(Some(root.to_string())));
    assert_eq!(action, LoadAction::Open("/etc/please.d/a.ini".to_string()));
    let action = loader.resume(LoadReply::Opened(Some(0o100600)));
    assert_eq!(action, LoadAction::Read("/etc/please.d/a.ini".to_string()));
    let action = loader.resume(LoadReply::Content(Some("[inner]\nname=bob\n".to_string())));
    assert_eq!(action, LoadAction::Done(false));
    let names: Vec<&str> = loader.rules.iter().map(|r| r.section.as_str()).collect();
    assert_eq!(names, vec!["inner", "outer"]);
    assert_eq!(loader.rules[0].file_name, "/etc/please.d/a.ini");
    assert_eq!(loader.rules[1].file_name, "/etc/please.ini");
    assert_eq!(loader.rules[1].rule.as_deref(), Some(".*"));
    assert_eq!(loader.bytes, (root.len() + "[inner]\nname=bob\n".len()) as u64);
}

#[test]
fn include_must_be_absolute() {
    for key in ["include", "includedir"] {
        let (loader, action) = parse(&format!("[r]\nname=ed\n{} = etc/other.ini\n", key), false);
        assert_eq!(action, LoadAction::Done(true));
        assert_eq!(loader.faults[0].kind, FaultKind::RelativeInclude);
    }
}

#[test]
fn file_that_was_read_is_not_read_again() {
    let mut loader = Loader::new(&invoker(), true);
    assert_eq!(read_ini(&mut loader, "[a]\nname=ed\n", "/etc/a.ini"), LoadAction::Done(false));
    assert_eq!(read_ini(&mut loader, "[b]\nname=ed\n", "/etc/a.ini"), LoadAction::Done(false));
    assert_eq!(loader.rules.len(), 1);
    assert_eq!(loader.faults.len(), 1);
    assert_eq!(loader.faults[0].kind, FaultKind::AlreadyRead);
}

#[test]
fn files_must_be_regular_and_not_writable_by_others() {
    let cases = [
        (None, FaultKind::CannotOpen),
        (Some(0o040755), FaultKind::NotRegular),
        (Some(0o020600), FaultKind::NotRegular),
        (Some(0o120644), FaultKind::NotRegular),
        (Some(0o100664), FaultKind::Writable),
        (Some(0o100646), FaultKind::Writable),
    ];
    for (mode, kind) in cases {
        let mut loader = Loader::new(&invoker(), false);
        read_ini_config_file(&mut loader, "/etc/please.ini");
        assert_eq!(loader.resume(LoadReply::Opened(mode)), LoadAction::Done(true));
        assert_eq!(loader.faults[0].kind, kind);
    }
    let mut loader = Loader::new(&invoker(), false);
    read_ini_config_file(&mut loader, "/etc/please.ini");
    assert_eq!(
        loader.resume(LoadReply::Opened(Some(0o104755))),
        LoadAction::Read("/etc/please.ini".to_string())
    );
    assert_eq!(loader.resume(LoadReply::Content(None)), LoadAction::Done(true));
    assert_eq!(loader.faults[0].kind, FaultKind::CannotRead);
}

#[test]
fn byte_budget_is_enforced() {
    let mut loader = Loader::new(&invoker(), true);
    loader.bytes = BYTE_LIMIT - 10;
    read_ini_config_file(&mut loader, "/etc/please.ini");
    loader.resume(LoadReply::Opened(Some(0o100644)));
    assert_eq!(
        loader.resume(LoadReply::Content(Some("[r]\nname=ed\n".to_string()))),
        LoadAction::TooMuch
    );
    let mut loader = Loader::new(&invoker(), true);
    loader.bytes = BYTE_LIMIT;
    read_ini_config_file(&mut loader, "/etc/please.ini");
    assert_eq!(loader.resume(LoadReply::Opened(Some(0o100644))), LoadAction::TooMuch);
    let mut loader = Loader::new(&invoker(), true);
    read_ini_config_file(&mut loader, "/etc/please.ini");
    loader.resume(LoadReply::Opened(Some(0o100644)));
    let big = "#".repeat(BYTE_LIMIT as usize);
    assert_eq!(loader.resume(LoadReply::Content(Some(big))), LoadAction::TooMuch);
}

#[test]
fn answer_to_something_else_ends_the_reading() {
    let mut loader = Loader::new(&invoker(), true);
    read_ini_config_file(&mut loader, "/etc/please.ini");
    assert_eq!(loader.resume(LoadReply::Content(Some(String::new()))), LoadAction::Done(true));
    let mut loader = Loader::new(&invoker(), true);
    assert_eq!(loader.resume(LoadReply::Opened(Some(0o100644))), LoadAction::Done(true));
}

#[test]
fn includedir_reads_ini_files_in_ascending_order() {
    let mut loader = Loader::new(&invoker(), true);
    let action = read_ini_config_str(&mut loader, "[top]\nname=ed\nincludedir=/etc/please.d\nrule=.*\n");
    assert_eq!(action, LoadAction::List("/etc/please.d".to_string()));
    let entries = vec![
        ("/etc/please.d/b.ini".to_string(), true),
        ("/etc/please.d/README".to_string(), true),
        ("/etc/please.d/a.ini".to_string(), true),
        ("/etc/please.d/.hidden.ini".to_string(), true),
        ("/etc/please.d/dir.ini".to_string(), false),
        ("/etc/please.d/B.ini".to_string(), true),
    ];
    let action = loader.resume(LoadReply::Listing(Some(entries)));
    let mut order = vec![];
    let mut action = action;
    while let LoadAction::Open(path) = action.clone() {
        order.push(path.clone());
        assert_eq!(loader.resume(LoadReply::Opened(Some(0o100644))), LoadAction::Read(path.clone()));
        action = loader.resume(LoadReply::Content(Some(format!("[{}]\nname=ed\n", path))));
    }
    assert_eq!(action, LoadAction::Done(false));
    assert_eq!(order, vec!["/etc/please.d/B.ini", "/etc/please.d/a.ini", "/etc/please.d/b.ini"]);
    let names: Vec<&str> = loader.rules.iter().map(|r| r.section.as_str()).collect();
    assert_eq!(
        names,
        vec!["/etc/please.d/B.ini", "/etc/please.d/a.ini", "/etc/please.d/b.ini", "top"]
    );
}

#[test]
fn directory_that_cannot_be_listed_is_a_fault_of_the_file() {
    let mut loader = Loader::new(&invoker(), true);
    read_ini_config_str(&mut loader, "[top]\nname=ed\nincludedir=/etc/please.d\n");
    assert_eq!(loader.resume(LoadReply::Listing(None)), LoadAction::Done(true));
    assert_eq!(loader.rules.len(), 1);
    let mut loader = Loader::new(&invoker(), false);
    read_ini_config_str(&mut loader, "[top]\nname=ed\nincludedir=/etc/please.d\n");
    assert_eq!(loader.resume(LoadReply::Listing(None)), LoadAction::Done(false));
}

#[test]
fn faulty_include_ends_the_reading() {
    let mut loader = Loader::new(&invoker(), true);
    read_ini_config_str(&mut loader, "[top]\nname=ed\ninclude=/etc/a.ini\n[never]\nname=bob\n");
    loader.resume(LoadReply::Opened(Some(0o100644)));
    let action = loader.resume(LoadReply::Content(Some("[a]\nname=ed\nbogus=1\n".to_string())));
    assert_eq!(action, LoadAction::Done(true));
    let names: Vec<&str> = loader.rules.iter().map(|r| r.section.as_str()).collect();
    assert_eq!(names, vec!["a"]);
    let kinds: Vec<FaultKind> = loader.faults.iter().map(|f| f.kind).collect();
    assert_eq!(kinds, vec![FaultKind::Entry, FaultKind::CannotInclude]);
}

#[test]
fn names_of_included_files() {
    assert!(can_include_file_pattern("/etc/please.d/a.ini"));
    assert!(can_include_file_pattern("a.ini"));
    assert!(!can_include_file_pattern("/etc/please.d/a.conf"));
    assert!(!can_include_file_pattern("/etc/please.d/.a.ini"));
    assert!(!can_include_file_pattern(".ini"));
    assert!(!can_include_file_pattern("/etc/please.d/a.ini.bak"));
    assert!(can_include_file_pattern("/etc/.hidden/a.ini"));
    assert!(can_dir_include("/etc/please.d/a.ini", true));
    assert!(!can_dir_include("/etc/please.d/a.ini", false));
    let listed = vec![
        ("/d/z.ini".to_string(), true),
        ("/d/a.ini".to_string(), true),
        ("/d/a.ini.d".to_string(), true),
        ("/d/m.ini".to_string(), false),
    ];
    let files: Vec<String> = files_to_include(&listed).iter().map(string_of).collect();
    assert_eq!(files, vec!["/d/a.ini", "/d/z.ini"]);
}

#[test]
fn policy_of_exactly_the_limit_is_read() {
    let first = "#".repeat((BYTE_LIMIT - 12) as usize);
    let mut loader = Loader::new(&invoker(), true);
    assert_eq!(read_ini(&mut loader, &first, "/etc/a.ini"), LoadAction::Done(false));
    assert_eq!(loader.bytes, 0);
    loader.bytes = BYTE_LIMIT - 12;
    read_ini_config_file(&mut loader, "/etc/b.ini");
    loader.resume(LoadReply::Opened(Some(0o100644)));
    let action = loader.resume(LoadReply::Content(Some("[r]\nname=ed\n".to_string())));
    assert_eq!(action, LoadAction::Done(false));
    assert_eq!(loader.bytes, BYTE_LIMIT);
    assert_eq!(loader.rules.len(), 1);
    read_ini_config_file(&mut loader, "/etc/c.ini");
    assert_eq!(loader.resume(LoadReply::Opened(Some(0o100644))), LoadAction::TooMuch);
    let mut loader = Loader::new(&invoker(), true);
    loader.bytes = BYTE_LIMIT - 11;
    read_ini_config_file(&mut loader, "/etc/b.ini");
    loader.resume(LoadReply::Opened(Some(0o100644)));
    let action = loader.resume(LoadReply::Content(Some("[r]\nname=ed\n".to_string())));
    assert_eq!(action, LoadAction::TooMuch);
    let mut loader = Loader::new(&invoker(), true);
    read_ini_config_file(&mut loader, "/etc/b.ini");
    loader.resume(LoadReply::Opened(Some(0o100644)));
    let almost = "#".repeat((BYTE_LIMIT - 1) as usize);
    assert_eq!(loader.resume(LoadReply::Content(Some(almost))), LoadAction::Done(false));
    assert_eq!(loader.bytes, BYTE_LIMIT - 1);
}

#[test]
fn every_expression_is_checked_and_no_literal() {
    for entry in [
        "name=(",
        "hostname=(",
        "target=(",
        "target_group=(",
        "rule=(",
        "regex=(",
        "datematch=(",
        "dir=(",
        "permit_env=(",
        "reason=(",
    ] {
        let config = format!("[r]\nexact_name=ed\n{}\n", entry);
        let (strict, action) = parse(&config, true);
        assert_eq!(action, LoadAction::Done(true), "{}", entry);
        assert_eq!(strict.faults.len(), 1);
        assert_eq!(strict.faults[0].kind, FaultKind::Expression);
        assert_eq!(strict.faults[0].line, 3);
        let (lenient, action) = parse(&config, false);
        assert_eq!(action, LoadAction::Done(false), "{}", entry);
        assert!(lenient.faults.is_empty());
    }
    for entry in [
        "exact_name=(",
        "exact_hostname=(",
        "exact_target=(",
        "exact_target_group=(",
        "exact_rule=(",
        "exact_dir=(",
        "search_path=(",
        "exitcmd=(",
        "permit_env=",
        "reason=true",
    ] {
        let config = format!("[r]\nexact_name=ed\n{}\n", entry);
        assert_eq!(parse(&config, true).1, LoadAction::Done(false), "{}", entry);
    }
    assert_eq!(only_rule("[r]\nname=ed\nexact_dir=(\n").exact_dir.as_deref(), Some("("));
}

#[test]
fn file_read_before_is_skipped_while_another_is_open() {
    let mut loader = Loader::new(&invoker(), true);
    assert_eq!(read_ini(&mut loader, "[a]\nname=ed\n", "/etc/a.ini"), LoadAction::Done(false));
    let action = read_ini_config_str(
        &mut loader,
        "[top]\nname=ed\ninclude=/etc/a.ini\nrule=.*\n[next]\nname=bob\n",
    );
    assert_eq!(action, LoadAction::Open("/etc/a.ini".to_string()));
    assert_eq!(
        loader.resume(LoadReply::Opened(Some(0o100644))),
        LoadAction::Read("/etc/a.ini".to_string())
    );
    let bytes = loader.bytes;
    let action = loader.resume(LoadReply::Content(Some("[other]\nname=eve\n".to_string())));
    assert_eq!(action, LoadAction::Done(false));
    let names: Vec<&str> = loader.rules.iter().map(|r| r.section.as_str()).collect();
    assert_eq!(names, vec!["a", "top", "next"]);
    assert_eq!(loader.rules[1].rule.as_deref(), Some(".*"));
    assert_eq!(loader.seen.len(), 2);
    assert_eq!(loader.bytes, bytes + "[other]\nname=eve\n".len() as u64);
    assert_eq!(loader.faults.len(), 1);
    assert_eq!(loader.faults[0].kind, FaultKind::AlreadyRead);
    assert_eq!(loader.faults[0].file, "/etc/a.ini");
}
