use pleaser::edit::{
    build_exitcmd, edit_mode, editor_command, get_editor, prng_alpha_num_string, random_part,
    source_tmp_file_name, tmp_edit_file_name, RANDOM_PART_LEN,
};
use pleaser::number::{decimal_of, parse_integer};
use pleaser::rule::{EditMode, EnvOptions};
use pleaser::text::{chars_of, string_of};
use pleaser::workflow::{AbortKind, EditAction, EditEvent, EditSession, Phase, Role};

fn session(rule: &EnvOptions, resume: bool) -> EditSession {
    EditSession::new("pleaseedit", "/etc/hosts", "ed", 1000, 100, 0, 0, 0, resume, rule)
}

const TEMP: &str = "/tmp/pleaseedit.ed.AbCd1234._etc_hosts";
const SIBLING: &str = "/etc/hosts.Zz99Yy88.pleaseedit.copy.ed";

fn edit_once(s: &mut EditSession, first: EditEvent, text: &str, random: &str) -> EditAction {
    let temp = match s.step(first) {
        EditAction::RemoveStale(p) => p,
        other => panic!("{:?}", other),
    };
    let mut action = s.step(EditEvent::Done);
    if let EditAction::ReadSource(_) = action {
        action = s.step(EditEvent::Source(Some("old\n".to_string())));
    }
    match action {
        EditAction::CreateTemp(p, 1000, 100, 0o600, _) => assert_eq!(p, temp),
        other => panic!("{:?}", other),
    }
    assert_eq!(s.step(EditEvent::Done), EditAction::RunEditor(temp.clone()));
    assert_eq!(s.step(EditEvent::Edited(true)), EditAction::ReadBack(temp.clone()));
    let action = s.step(EditEvent::Content(text.to_string(), random.to_string()));
    let sibling = format!("/etc/hosts.{}.pleaseedit.copy.ed", random);
    assert_eq!(action, EditAction::CreateSibling(sibling, text.to_string()));
    assert_eq!(s.step(EditEvent::Done), EditAction::RemoveTemp(temp));
    s.step(EditEvent::Done)
}

#[test]
fn clean_edit_renames_the_sibling_over_the_source() {
    let mut rule = EnvOptions::new();
    rule.edit_mode = Some(EditMode::Keep(true));
    let mut s = session(&rule, false);
    assert_eq!(s.phase, Phase::Start);
    let action = s.step(EditEvent::Begin("AbCd1234".to_string()));
    assert_eq!(action, EditAction::RemoveStale(TEMP.to_string()));
    assert_eq!(action.role(), Role::Invoker);
    let action = s.step(EditEvent::Done);
    assert_eq!(action, EditAction::ReadSource("/etc/hosts".to_string()));
    assert_eq!(action.role(), Role::Target);
    let action = s.step(EditEvent::Source(Some("127.0.0.1 localhost\n".to_string())));
    assert_eq!(
        action,
        EditAction::CreateTemp(TEMP.to_string(), 1000, 100, 0o600, "127.0.0.1 localhost\n".to_string())
    );
    assert_eq!(s.step(EditEvent::Done), EditAction::RunEditor(TEMP.to_string()));
    assert_eq!(s.step(EditEvent::Edited(true)), EditAction::ReadBack(TEMP.to_string()));
    let action = s.step(EditEvent::Content("10.0.0.1 web1\n".to_string(), "Zz99Yy88".to_string()));
    assert_eq!(action, EditAction::CreateSibling(SIBLING.to_string(), "10.0.0.1 web1\n".to_string()));
    assert_eq!(action.role(), Role::Target);
    assert_eq!(s.step(EditEvent::Done), EditAction::RemoveTemp(TEMP.to_string()));
    assert_eq!(s.step(EditEvent::Done), EditAction::StatSource("/etc/hosts".to_string()));
    let action = s.step(EditEvent::Mode(Some(0o100644)));
    assert_eq!(action, EditAction::Secure(SIBLING.to_string(), 0, 0, 0o644));
    let action = s.step(EditEvent::Done);
    assert_eq!(action, EditAction::Rename(SIBLING.to_string(), "/etc/hosts".to_string()));
    assert_eq!(action.role(), Role::Target);
    assert_eq!(s.step(EditEvent::Done), EditAction::Finish);
    assert_eq!(s.phase, Phase::Finished);
    assert_eq!(s.step(EditEvent::Failed), EditAction::Finish);
    assert_eq!(s.phase, Phase::Finished);
}

#[test]
fn missing_source_starts_empty_and_ends_private() {
    let rule = EnvOptions::new();
    let mut s = session(&rule, false);
    s.step(EditEvent::Begin("AbCd1234".to_string()));
    s.step(EditEvent::Done);
    let action = s.step(EditEvent::Source(None));
    assert_eq!(action, EditAction::CreateTemp(TEMP.to_string(), 1000, 100, 0o600, String::new()));
    s.step(EditEvent::Done);
    s.step(EditEvent::Edited(true));
    s.step(EditEvent::Content("new\n".to_string(), "Zz99Yy88".to_string()));
    s.step(EditEvent::Done);
    assert_eq!(s.step(EditEvent::Done), EditAction::StatSource("/etc/hosts".to_string()));
    assert_eq!(s.step(EditEvent::Mode(None)), EditAction::Secure(SIBLING.to_string(), 0, 0, 0o600));
}

#[test]
fn editor_that_fails_leaves_the_source_alone() {
    let rule = EnvOptions::new();
    let mut s = session(&rule, true);
    s.step(EditEvent::Begin("AbCd1234".to_string()));
    s.step(EditEvent::Done);
    s.step(EditEvent::Source(Some("old\n".to_string())));
    s.step(EditEvent::Done);
    assert_eq!(s.step(EditEvent::Edited(false)), EditAction::Abort(AbortKind::EditorFailed));
    assert_eq!(s.phase, Phase::Aborted);
    for event in [
        EditEvent::Done,
        EditEvent::Edited(true),
        EditEvent::Content("x".to_string(), "r".to_string()),
        EditEvent::Hook(true),
        EditEvent::Mode(None),
    ] {
        assert_eq!(s.step(event), EditAction::Abort(AbortKind::Unexpected));
    }
}

#[test]
fn failing_exit_hook_without_resume_unlinks_and_aborts() {
    let mut rule = EnvOptions::new();
    rule.exitcmd = Some("/usr/bin/test -s %{NEW}".to_string());
    rule.edit_mode = Some(EditMode::Mode(0o640));
    let mut s = session(&rule, false);
    let action = edit_once(&mut s, EditEvent::Begin("AbCd1234".to_string()), "", "Zz99Yy88");
    assert_eq!(action, EditAction::Secure(SIBLING.to_string(), 0, 0, 0o640));
    let action = s.step(EditEvent::Done);
    assert_eq!(
        action,
        EditAction::RunHook(
            vec!["/usr/bin/test".to_string(), "-s".to_string(), SIBLING.to_string()],
            SIBLING.to_string()
        )
    );
    assert_eq!(s.step(EditEvent::Hook(false)), EditAction::Unlink(SIBLING.to_string()));
    assert_eq!(s.step(EditEvent::Done), EditAction::Abort(AbortKind::HookFailed));
}

#[test]
fn failing_exit_hook_with_resume_edits_again_from_the_buffer() {
    let mut rule = EnvOptions::new();
    rule.exitcmd = Some("/usr/bin/test -s %{NEW}".to_string());
    rule.edit_mode = Some(EditMode::Mode(0o640));
    let mut s = session(&rule, true);
    let texts = ["", "", "filled at last\n"];
    let randoms = ["r1r1r1r1", "r2r2r2r2", "r3r3r3r3"];
    let mut first = EditEvent::Begin("AbCd1234".to_string());
    for round in 0..3 {
        let action = edit_once(&mut s, first, texts[round], randoms[round]);
        let sibling = format!("/etc/hosts.{}.pleaseedit.copy.ed", randoms[round]);
        assert_eq!(action, EditAction::Secure(sibling.clone(), 0, 0, 0o640));
        match s.step(EditEvent::Done) {
            EditAction::RunHook(argv, file) => {
                assert_eq!(argv[2], sibling);
                assert_eq!(file, sibling);
            }
            other => panic!("{:?}", other),
        }
        if round < 2 {
            assert_eq!(s.step(EditEvent::Hook(false)), EditAction::Unlink(sibling));
            assert_eq!(s.buffer.is_some(), round > 0);
            first = EditEvent::Done;
            assert_eq!(s.phase, Phase::UnlinkAsked);
        } else {
            assert_eq!(
                s.step(EditEvent::Hook(true)),
                EditAction::Rename(sibling, "/etc/hosts".to_string())
            );
            assert_eq!(s.edited, "filled at last\n");
            assert_eq!(s.step(EditEvent::Done), EditAction::Finish);
            return;
        }
    }
}

#[test]
fn resumed_round_starts_from_what_the_editor_left() {
    let mut rule = EnvOptions::new();
    rule.exitcmd = Some("/bin/false".to_string());
    rule.edit_mode = Some(EditMode::Mode(0o600));
    let mut s = session(&rule, true);
    edit_once(&mut s, EditEvent::Begin("AbCd1234".to_string()), "draft\n", "Zz99Yy88");
    s.step(EditEvent::Done);
    s.step(EditEvent::Hook(false));
    assert_eq!(s.step(EditEvent::Done), EditAction::RemoveStale(TEMP.to_string()));
    assert_eq!(
        s.step(EditEvent::Done),
        EditAction::CreateTemp(TEMP.to_string(), 1000, 100, 0o600, "draft\n".to_string())
    );
}

#[test]
fn every_failure_gives_the_edit_up() {
    let rule = EnvOptions::new();
    let cases: Vec<(Vec<EditEvent>, AbortKind)> = vec![
        (vec![], AbortKind::StaleCopy),
        (vec![EditEvent::Done], AbortKind::SourceUnreadable),
        (vec![EditEvent::Done, EditEvent::Source(None)], AbortKind::CopyNotCreated),
        (
            vec![EditEvent::Done, EditEvent::Source(None), EditEvent::Done, EditEvent::Edited(true)],
            AbortKind::CopyUnreadable,
        ),
        (
            vec![
                EditEvent::Done,
                EditEvent::Source(None),
                EditEvent::Done,
                EditEvent::Edited(true),
                EditEvent::Content("x".to_string(), "r".to_string()),
            ],
            AbortKind::SiblingNotCreated,
        ),
        (
            vec![
                EditEvent::Done,
                EditEvent::Source(None),
                EditEvent::Done,
                EditEvent::Edited(true),
                EditEvent::Content("x".to_string(), "r".to_string()),
                EditEvent::Done,
            ],
            AbortKind::CopyNotRemoved,
        ),
        (
            vec![
                EditEvent::Done,
                EditEvent::Source(None),
                EditEvent::Done,
                EditEvent::Edited(true),
                EditEvent::Content("x".to_string(), "r".to_string()),
                EditEvent::Done,
                EditEvent::Done,
                EditEvent::Mode(None),
            ],
            AbortKind::SiblingNotSecured,
        ),
        (
            vec![
                EditEvent::Done,
                EditEvent::Source(None),
                EditEvent::Done,
                EditEvent::Edited(true),
                EditEvent::Content("x".to_string(), "r".to_string()),
                EditEvent::Done,
                EditEvent::Done,
                EditEvent::Mode(None),
                EditEvent::Done,
            ],
            AbortKind::NotRenamed,
        ),
    ];
    for (events, kind) in cases {
        let mut s = session(&rule, false);
        s.step(EditEvent::Begin("AbCd1234".to_string()));
        for event in events {
            s.step(event);
        }
        assert_eq!(s.step(EditEvent::Failed), EditAction::Abort(kind));
        assert_eq!(s.phase, Phase::Aborted);
    }
    let mut bad = EnvOptions::new();
    bad.edit_mode = Some(EditMode::Mode(-1));
    let mut s = session(&bad, false);
    let action = edit_once(&mut s, EditEvent::Begin("AbCd1234".to_string()), "x", "r");
    assert_eq!(action, EditAction::Abort(AbortKind::BadMode));
}

#[test]
fn names_of_the_copies() {
    assert_eq!(
        tmp_edit_file_name("/etc/apache/httpd.conf", "pleaseedit", "ed", "a1B2c3D4"),
        "/tmp/pleaseedit.ed.a1B2c3D4._etc_apache_httpd.conf"
    );
    assert_eq!(
        source_tmp_file_name("/etc/hosts", "pleaseedit.copy", "ed", "a1B2c3D4"),
        "/etc/hosts.a1B2c3D4.pleaseedit.copy.ed"
    );
}

#[test]
fn random_part_is_alphanumeric() {
    for n in [0usize, 8, 64] {
        let s = prng_alpha_num_string(n);
        assert_eq!(s.chars().count(), n);
        assert!(s.chars().all(|c| c.is_ascii_alphanumeric()));
    }
    assert_ne!(prng_alpha_num_string(32), prng_alpha_num_string(32));
    assert_eq!(RANDOM_PART_LEN, 8);
    let part = random_part();
    assert_eq!(part.len(), 8);
    assert!(part.chars().all(|c| c.is_ascii_alphanumeric()));
    let name = tmp_edit_file_name("/etc/hosts", "pleaseedit", "ed", &part);
    assert_eq!(name.len(), "/tmp/pleaseedit.ed.".len() + 8 + "._etc_hosts".len());
}

#[test]
fn exit_hook_command_line() {
    let mut rule = EnvOptions::new();
    rule.exitcmd = Some("/usr/sbin/visudo  -c\t-f %{NEW} --old=%{OLD} %{NEW}%{NEW}".to_string());
    assert_eq!(
        build_exitcmd(&rule, "/etc/sudoers", "/etc/sudoers.x"),
        vec!["/usr/sbin/visudo", "-c", "-f", "/etc/sudoers.x", "--old=/etc/sudoers", "/etc/sudoers.x/etc/sudoers.x"]
    );
    rule.exitcmd = Some("%{NEW}".to_string());
    assert_eq!(build_exitcmd(&rule, "a", "b"), vec!["%{NEW}"]);
    rule.exitcmd = Some(" lead trail ".to_string());
    assert_eq!(build_exitcmd(&rule, "a", "b"), vec!["", "lead", "trail", ""]);
}

#[test]
fn editor_and_its_command_line() {
    assert_eq!(get_editor(Some("emacs"), Some("nano")), "emacs");
    assert_eq!(get_editor(None, Some("nano")), "nano");
    assert_eq!(get_editor(None, None), "/usr/bin/vi");
    assert_eq!(editor_command("/usr/bin/vi", "/tmp/x"), vec!["/usr/bin/vi", "/tmp/x"]);
    assert_eq!(editor_command("code --wait  -n", "/tmp/x"), vec!["code", "--wait", "", "-n", "/tmp/x"]);
}

#[test]
fn mode_of_the_result() {
    let mut rule = EnvOptions::new();
    assert_eq!(edit_mode(&rule, Some(0o100640)), Some(0o640));
    assert_eq!(edit_mode(&rule, Some(0o104755)), Some(0o4755));
    assert_eq!(edit_mode(&rule, None), Some(0o600));
    rule.edit_mode = Some(EditMode::Keep(true));
    assert_eq!(edit_mode(&rule, Some(0o100444)), Some(0o444));
    rule.edit_mode = Some(EditMode::Mode(0o644));
    assert_eq!(edit_mode(&rule, Some(0o100444)), Some(0o644));
    assert_eq!(edit_mode(&rule, None), Some(0o644));
    rule.edit_mode = Some(EditMode::Mode(0o10000));
    assert_eq!(edit_mode(&rule, None), None);
    rule.edit_mode = Some(EditMode::Mode(-420));
    assert_eq!(edit_mode(&rule, None), None);
}

#[test]
fn integers_are_read_and_written() {
    let read = |s: &str, radix: u32, min: i128, max: i128| parse_integer(&chars_of(s), radix, min, max);
    assert_eq!(read("0", 10, 0, 255), Some(0));
    assert_eq!(read("255", 10, 0, 255), Some(255));
    assert_eq!(read("256", 10, 0, 255), None);
    assert_eq!(read("+12", 10, 0, 255), Some(12));
    assert_eq!(read("-12", 10, 0, 255), None);
    assert_eq!(read("-12", 10, -128, 127), Some(-12));
    assert_eq!(read("-128", 10, -128, 127), Some(-128));
    assert_eq!(read("-129", 10, -128, 127), None);
    assert_eq!(read("", 10, 0, 255), None);
    assert_eq!(read("+", 10, 0, 255), None);
    assert_eq!(read("-", 10, -1, 1), None);
    assert_eq!(read("1 ", 10, 0, 255), None);
    assert_eq!(read("0x1f", 10, 0, 255), None);
    assert_eq!(read("00000000000000000000000007", 10, 0, 255), Some(7));
    assert_eq!(read("777", 8, 0, 0o7777), Some(0o777));
    assert_eq!(read("778", 8, 0, 0o7777), None);
    assert_eq!(read("18446744073709551615", 10, 0, u64::MAX as i128), Some(u64::MAX as i128));
    assert_eq!(read("18446744073709551616", 10, 0, u64::MAX as i128), None);
    assert_eq!(read("99999999999999999999999999999999999999999999", 10, 0, 255), None);
    assert_eq!(string_of(&decimal_of(0)), "0");
    assert_eq!(string_of(&decimal_of(9)), "9");
    assert_eq!(string_of(&decimal_of(10)), "10");
    assert_eq!(string_of(&decimal_of(4_294_967_295)), "4294967295");
    assert_eq!(string_of(&decimal_of(u64::MAX)), "18446744073709551615");
}
