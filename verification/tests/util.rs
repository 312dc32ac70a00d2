use chrono::{NaiveDate, NaiveDateTime};
use pleaser::clock::Timestamp;
use pleaser::path::PathSet;
use pleaser::util::{
    can_edit, can_run, challenge_password, get_editor, list_edit, list_run, parse_config,
    search_path, Challenge, EnvOptions, UserData,
};

fn ymd_hms(y: i32, m: u32, d: u32, h: u32, mi: u32, s: u32) -> NaiveDateTime {
    NaiveDate::from_ymd_opt(y, m, d).unwrap().and_hms_opt(h, mi, s).unwrap()
}

fn stamp(date: &NaiveDateTime) -> Timestamp {
    Timestamp::at(date.and_utc().timestamp())
}

#[test]
fn test_execute_config() {
    let config = "user=ed:target=root:notbefore=20200101:notafter=20201225 ^.*$
    user=ed:target=oracle:allow=false ^/bin/bash .*$
    user=ed:target=root ^/bin/bash .*$
    user=m{}:target=^ "
        .to_string();

    let date: NaiveDateTime = ymd_hms(2020, 1, 1, 0, 0, 0);

    let mut hm: Vec<(String, UserData)> = Vec::new();
    parse_config(&config, &mut hm, "static", "ed", false);

    assert_eq!(
        can_run(&hm, "ed", "root", &stamp(&date), "localhost", "/bin/bash")
            .unwrap()
            .permit,
        true
    );
}

#[test]
fn test_execute_user_does_not_exist() {
    let config = "user=ed:target=root:notbefore=20200101:notafter=20201225 ^.*$
    user=ed:target=oracle ^/bin/bash .*$
    user=ed:target=root ^/bin/bash .*$
    user=m{}:target=^ "
        .to_string();

    let date: NaiveDateTime = ymd_hms(2019, 12, 31, 0, 0, 0);

    let mut hm: Vec<(String, UserData)> = Vec::new();
    parse_config(&config, &mut hm, "static", "ed", false);
    assert_eq!(
        can_run(&hm, "gone", "root", &stamp(&date), "localhost", "/bin/bash")
            .unwrap()
            .permit,
        false
    );
}

#[test]
fn test_execute_config_too_early() {
    let config = "user=ed:target=root:notbefore=20200101:notafter=20201225 ^.*$
    user=ed:target=oracle ^/bin/bash .*$
    user=ed:target=root:notbefore=20200101:notafter=20201225  ^/bin/bash .*$
    user=m{}:target=^ "
        .to_string();

    let mut hm: Vec<(String, UserData)> = Vec::new();
    parse_config(&config, &mut hm, "static", "ed", false);
    assert_eq!(
        can_run(
            &hm,
            "ed",
            "root",
            &stamp(&ymd_hms(2019, 12, 31, 0, 0, 0)),
            "localhost",
            "/bin/bash"
        )
        .unwrap()
        .permit,
        false
    );
    assert_eq!(
        can_run(
            &hm,
            "ed",
            "root",
            &stamp(&ymd_hms(2020, 12, 25, 0, 0, 0)),
            "localhost",
            "/bin/bash"
        )
        .unwrap()
        .permit,
        true
    );
    assert_eq!(
        can_run(
            &hm,
            "ed",
            "root",
            &stamp(&ymd_hms(2020, 12, 25, 1, 0, 0)),
            "localhost",
            "/bin/bash"
        )
        .unwrap()
        .permit,
        true
    );
}

#[test]
fn test_execute_config_too_early_long() {
    let config = "user=ed:target=root:notbefore=20200808:notafter=20200810235959 ^
    "
    .to_string();

    let mut hm: Vec<(String, UserData)> = Vec::new();
    parse_config(&config, &mut hm, "static", "ed", false);
    assert_eq!(
        can_run(
            &hm,
            "ed",
            "root",
            &stamp(&ymd_hms(2020, 8, 8, 0, 0, 0)),
            "localhost",
            "/bin/bash"
        )
        .unwrap()
        .permit,
        true
    );
    assert_eq!(
        can_run(
            &hm,
            "ed",
            "root",
            &stamp(&ymd_hms(2020, 8, 10, 0, 0, 0)),
            "localhost",
            "/bin/bash"
        )
        .unwrap()
        .permit,
        true
    );
    assert_eq!(
        can_run(
            &hm,
            "ed",
            "root",
            &stamp(&ymd_hms(2020, 8, 10, 23, 59, 59)),
            "localhost",
            "/bin/bash"
        )
        .unwrap()
        .permit,
        true
    );
    assert_eq!(
        can_run(
            &hm,
            "ed",
            "root",
            &stamp(&ymd_hms(2020, 8, 11, 0, 0, 0)),
            "localhost",
            "/bin/bash"
        )
        .unwrap()
        .permit,
        false
    );
    assert_eq!(
        can_run(
            &hm,
            "ed",
            "root",
            &stamp(&ymd_hms(2020, 8, 7, 0, 0, 0)),
            "localhost",
            "/bin/bash"
        )
        .unwrap()
        .permit,
        false
    );
}

#[test]
fn test_execute_config_oracle() {
    let config = "user=ed:target=oracle:notbefore=20200101:notafter=20201225 ^/bin/bash .*$
    user=ed:target=oracle:notbefore=20190101:notafter=20201225:permit=true ^/bin/bash .*$
    "
    .to_string();

    let date: NaiveDateTime = ymd_hms(2019, 12, 31, 0, 0, 0);

    let mut hm: Vec<(String, UserData)> = Vec::new();
    parse_config(&config, &mut hm, "static", "ed", false);
    assert_eq!(
        can_run(
            &hm,
            "ed",
            "oracle",
            &stamp(&date),
            "localhost",
            "/bin/bash /usr/local/oracle/backup_script"
        )
        .unwrap()
        .permit,
        true
    );
    assert_eq!(
        can_run(
            &hm,
            "ed",
            "oracle",
            &stamp(&date),
            "localhost",
            "/bin/sh /usr/local/oracle/backup_script"
        )
        .unwrap()
        .permit,
        false
    );
    assert_eq!(
        can_run(
            &hm,
            "ed",
            "oracle",
            &stamp(&date),
            "web1",
            "/bin/sh /usr/local/oracle/backup_script"
        )
        .unwrap()
        .permit,
        false
    );
    assert_eq!(
        can_run(
            &hm,
            "ed",
            "oracle",
            &stamp(&date),
            "",
            "/bin/sh /usr/local/oracle/backup_script"
        )
        .unwrap()
        .permit,
        false
    );
    assert_eq!(
        can_run(
            &hm,
            "ed",
            "grid",
            &stamp(&date),
            "",
            "/bin/bash /usr/local/oracle/backup_script"
        )
        .unwrap()
        .permit,
        false
    );
    assert_eq!(
        can_run(
            &hm,
            "ed",
            "root",
            &stamp(&date),
            "",
            "/bin/bash /usr/local/oracle/backup_script"
        )
        .unwrap()
        .permit,
        false
    );
}

#[test]
fn test_execute_config_hostname_any() {
    let config = "user=ed:target=oracle:hostname=any ^/bin/bash\\b.*$
    "
    .to_string();

    let date: NaiveDateTime = ymd_hms(2019, 12, 31, 0, 0, 0);

    let mut hm: Vec<(String, UserData)> = Vec::new();
    parse_config(&config, &mut hm, "static", "ed", false);
    assert_eq!(
        can_run(
            &hm,
            "ed",
            "oracle",
            &stamp(&date),
            "localhost",
            "/bin/bash /usr/local/oracle/backup_script"
        )
        .unwrap()
        .permit,
        true
    );
    assert_eq!(
        can_run(
            &hm,
            "ed",
            "oracle",
            &stamp(&date),
            "localhost",
            "/bin/sh /usr/local/oracle/backup_script"
        )
        .unwrap()
        .permit,
        false
    );
    assert_eq!(
        can_run(
            &hm,
            "ed",
            "oracle",
            &stamp(&date),
            "web1",
            "/bin/sh /usr/local/oracle/backup_script"
        )
        .unwrap()
        .permit,
        false
    );
    assert_eq!(
        can_run(
            &hm,
            "ed",
            "oracle",
            &stamp(&date),
            "",
            "/bin/sh /usr/local/oracle/backup_script"
        )
        .unwrap()
        .permit,
        false
    );
    assert_eq!(
        can_run(
            &hm,
            "ed",
            "grid",
            &stamp(&date),
            "",
            "/bin/bash /usr/local/oracle/backup_script"
        )
        .unwrap()
        .permit,
        false
    );
    assert_eq!(
        can_run(
            &hm,
            "ed",
            "root",
            &stamp(&date),
            "",
            "/bin/bash /usr/local/oracle/backup_script"
        )
        .unwrap()
        .permit,
        false
    );
}

#[test]
fn test_execute_config_hostname_locahost() {
    let config = "user=ed:target=oracle:hostname=web1 ^/bin/bash\\b.*$
    user=ed:target=oracle:hostname=localhost ^/bin/sh\\b.*$
    "
    .to_string();

    let date: NaiveDateTime = ymd_hms(2019, 12, 31, 0, 0, 0);

    let mut hm: Vec<(String, UserData)> = Vec::new();
    parse_config(&config, &mut hm, "static", "ed", false);
    assert_eq!(
        can_run(
            &hm,
            "ed",
            "oracle",
            &stamp(&date),
            "localhost",
            "/bin/bash /usr/local/oracle/backup_script"
        )
        .unwrap()
        .permit,
        false
    );
    assert_eq!(
        can_run(
            &hm,
            "ed",
            "oracle",
            &stamp(&date),
            "web1",
            "/bin/bash /usr/local/oracle/backup_script"
        )
        .unwrap()
        .permit,
        true
    );
    assert_eq!(
        can_run(
            &hm,
            "ed",
            "oracle",
            &stamp(&date),
            "web2",
            "/bin/bash /usr/local/oracle/backup_script"
        )
        .unwrap()
        .permit,
        false
    );

    assert_eq!(
        can_run(
            &hm,
            "ed",
            "oracle",
            &stamp(&date),
            "localhost",
            "/bin/sh /usr/local/oracle/backup_script"
        )
        .unwrap()
        .permit,
        true
    );
    assert_eq!(
        can_run(
            &hm,
            "ed",
            "oracle",
            &stamp(&date),
            "web1",
            "/bin/sh /usr/local/oracle/backup_script"
        )
        .unwrap()
        .permit,
        true
    );
    assert_eq!(
        can_run(
            &hm,
            "ed",
            "oracle",
            &stamp(&date),
            "web2",
            "/bin/sh /usr/local/oracle/backup_script"
        )
        .unwrap()
        .permit,
        true
    );
}

#[test]
fn test_missing_user() {
    let config = "target=oracle:hostname=localhost ^/bin/sh\\b.*$
    "
    .to_string();

    let date: NaiveDateTime = ymd_hms(2019, 12, 31, 0, 0, 0);

    let mut hm: Vec<(String, UserData)> = Vec::new();
    parse_config(&config, &mut hm, "static", "ed", false);
    assert_eq!(
        can_run(
            &hm,
            "",
            "oracle",
            &stamp(&date),
            "localhost",
            "/bin/sh /usr/local/oracle/backup_script"
        )
        .unwrap()
        .permit,
        false
    );
}

#[test]
fn test_regex_line_anchor() {
    let config = "user=ed:target=oracle:hostname=localhost ^
    "
    .to_string();

    let date: NaiveDateTime = ymd_hms(2019, 12, 31, 0, 0, 0);

    let mut hm: Vec<(String, UserData)> = Vec::new();
    parse_config(&config, &mut hm, "static", "ed", false);
    assert_eq!(
        can_run(&hm, "ed", "oracle", &stamp(&date), "localhost", "/bin/bash")
            .unwrap()
            .permit,
        true
    );
}

#[test]
fn test_edit_apache() {
    let config = "user=ed:target=root:notbefore=20200101:notafter=20201225:edit=true ^.*$
    user=ed:target=oracle:allow=false:edit=true ^/etc/apache.*$
    user=ed:target=root:edit=true ^/etc/hosts$
    user=m{}:target=^:edit=true "
        .to_string();

    let date: NaiveDateTime = ymd_hms(2020, 1, 1, 0, 0, 0);

    let mut hm: Vec<(String, UserData)> = Vec::new();
    parse_config(&config, &mut hm, "static", "ed", false);

    assert_eq!(
        can_edit(
            &hm,
            "ed",
            "root",
            &stamp(&date),
            "localhost",
            "/etc/apache/httpd2.conf"
        )
        .unwrap()
        .permit,
        true
    );
}

#[test]
fn test_edit_user_macro() {
    let config = "user=ed:target=root ^/bin/cat /etc/%\\{USER\\}".to_string();

    let date: NaiveDateTime = ymd_hms(2020, 1, 1, 0, 0, 0);

    let mut hm: Vec<(String, UserData)> = Vec::new();
    parse_config(&config, &mut hm, "static", "ed", false);

    assert_eq!(
        can_run(&hm, "ed", "root", &stamp(&date), "localhost", "/bin/cat /etc/ed")
            .unwrap()
            .permit,
        true
    );
}

#[test]
fn test_parse_regex_fail() {
    let mut hm: Vec<(String, UserData)> = Vec::new();

    let config = "user=ed:target=root ^/bin/cat /etc/(".to_string();
    assert_eq!(
        parse_config(&config, &mut hm, "static", "ed", true),
        true
    );

    let config = "user=ed:target=root ^/bin/cat /etc/".to_string();
    assert_eq!(
        parse_config(&config, &mut hm, "static", "ed", true),
        false
    );
}

#[test]
fn one_line_rules_keep_their_attributes() {
    let mut hm: Vec<(String, UserData)> = Vec::new();
    let config = "user=ed:target=oracle:hostname=web1:require_pass=false:edit=true ^/etc/%\\{USER\\}$\n\
                  user=bob:permit=false:notafter=20201225 ^/bin/ls$\n\
                  user=ed:weird=1 ^/bin/true$\n";
    assert_eq!(parse_config(config, &mut hm, "/etc/please.conf", "ed", true), true);
    assert_eq!(parse_config("user=x:weird=1 ^$", &mut Vec::new(), "static", "ed", false), false);
    let names: Vec<&str> = hm.iter().map(|(n, _)| n.as_str()).collect();
    assert_eq!(names, vec!["ed", "bob"]);
    let first: &EnvOptions = &hm[0].1.option_list[0];
    assert_eq!(first.rule, "^/etc/ed$");
    assert_eq!(first.target, "oracle");
    assert_eq!(first.hostname, "web1");
    assert!(!first.require_pass);
    assert!(first.edit);
    assert!(first.permit);
    assert_eq!(first.from_where, "/etc/please.conf, ed");
    assert_eq!(first.not_before, Timestamp::at(0));
    assert_eq!(first.not_after, Timestamp::at(2_147_483_647));
    assert_eq!(hm[0].1.option_list.len(), 2);
    let bob = &hm[1].1.option_list[0];
    assert!(!bob.permit);
    assert_eq!(bob.not_after, stamp(&ymd_hms(2020, 12, 25, 23, 59, 59)));
}

#[test]
fn one_line_listing() {
    let mut hm: Vec<(String, UserData)> = Vec::new();
    let config = "user=ed:target=root:notbefore=20210101 ^/bin/ls$\n\
                  user=ed:target=oracle:permit=false:notafter=20191231:hostname=any ^/bin/cat$\n\
                  user=ed:target=root:edit=true ^/etc/hosts$\n\
                  user=ed:target=root:hostname=web9 ^/bin/true$\n";
    parse_config(config, &mut hm, "static", "ed", false);
    let date = stamp(&ymd_hms(2020, 6, 1, 0, 0, 0));
    assert_eq!(
        list_run(&hm, "ed", &date, "web1"),
        vec![
            "from static, ed:",
            "  upcomming(2021-01-01 00:00:00) as root: ^/bin/ls$",
            "from static, ed:",
            "  expired(2019-12-31 23:59:59), not permitted as oracle: ^/bin/cat$",
        ]
    );
    assert_eq!(list_edit(&hm, "ed", &date, "web1"), vec!["from static, ed:", "  root: ^/etc/hosts$"]);
    assert!(list_run(&hm, "bob", &date, "web1").is_empty());
}

#[test]
fn one_line_search_and_challenge() {
    let fs = PathSet::new(vec!["/usr/bin/ls".to_string(), "/bin/ls".to_string()]);
    assert_eq!(search_path("/opt/ls", Some("/bin"), &fs), "/opt/ls");
    assert_eq!(search_path("ls", Some("/sbin:/bin:/usr/bin"), &fs), "/bin/ls");
    assert_eq!(search_path("ls", Some("/sbin"), &fs), "ls");
    assert_eq!(search_path("ls", None, &fs), "ls");
    let mut rule = EnvOptions::new();
    assert_eq!(challenge_password(&rule, 0, None), Challenge::Ask);
    assert_eq!(challenge_password(&rule, 1, Some(false)), Challenge::Ask);
    assert_eq!(challenge_password(&rule, 2, Some(false)), Challenge::Ask);
    assert_eq!(challenge_password(&rule, 3, Some(false)), Challenge::Denied);
    assert_eq!(challenge_password(&rule, 2, Some(true)), Challenge::Granted);
    rule.require_pass = false;
    assert_eq!(challenge_password(&rule, 0, None), Challenge::Granted);
    assert_eq!(get_editor(None, None), "/usr/bin/vi");
}
