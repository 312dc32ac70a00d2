//! What is said of a decision: to the invoker, and to the audit log.
use crate::request::{Request, RunOptions};
use crate::rule::{Acltype, EnvOptions, ReasonType, ReasonView, Rule};
use crate::text::{chars_of, put, replace, replaced, string_of, Text};
use vstd::prelude::*;

verus! {

/// What a request asks to do, as a refusal words it.
pub open spec fn verb(acl: Acltype) -> Text {
    if acl == Acltype::Run {
        "execute"@
    } else {
        acl.label()
    }
}

/// The refusal of a request.
pub open spec fn may_not(req: Request) -> Text {
    "You may not "@ + verb(req.acl_type) + " \""@ + req.command + "\" on "@ + req.hostname
        + " as "@ + req.target
}

/// The refusal of a request, for the invoker to read.
pub fn print_may_not(ro: &RunOptions) -> (message: String)
    ensures
        message@ == may_not(ro@),
{
    let mut out: Vec<char> = Vec::new();
    put(&mut out, "You may not ");
    if ro.acl_type == Acltype::Run {
        put(&mut out, "execute");
    } else {
        put(&mut out, ro.acl_type.to_string().as_str());
    }
    put(&mut out, " \"");
    put(&mut out, ro.command.as_str());
    put(&mut out, "\" on ");
    put(&mut out, ro.hostname.as_str());
    put(&mut out, " as ");
    put(&mut out, ro.target.as_str());
    assert(out@ == Seq::<char>::empty() + "You may not "@ + verb(ro@.acl_type) + " \""@
        + ro@.command + "\" on "@ + ro@.hostname + " as "@ + ro@.target);
    assert(Seq::<char>::empty() + "You may not "@ == "You may not "@);
    string_of(&out)
}

/// What is said to an invoker whose reason does not do: that no reason
/// matches, where the rule wants the reason to match an expression, and that
/// none was given, where the rule wants a reason.
pub open spec fn reason_refused(rule: Rule, req: Request) -> Text {
    if rule.reason matches Some(ReasonView::Text(_)) {
        "Sorry but there is no reason match to "@ + req.acl_type.label() + " \""@ + req.command
            + "\" on "@ + req.hostname + " as "@ + req.target
    } else {
        "Sorry but no reason was given to "@ + req.acl_type.label() + " \""@ + (if req.acl_type
            == Acltype::List {
            req.target
        } else {
            req.command
        }) + "\" on "@ + req.hostname + " as "@ + req.target
    }
}

/// What is said to an invoker whose reason does not do.
pub fn reason_refusal(item: &EnvOptions, ro: &RunOptions) -> (message: String)
    ensures
        message@ == reason_refused(item@, ro@),
{
    let mut out: Vec<char> = Vec::new();
    let wants_match = match &item.reason {
        Some(ReasonType::Text(_)) => true,
        _ => false,
    };
    if wants_match {
        put(&mut out, "Sorry but there is no reason match to ");
        put(&mut out, ro.acl_type.to_string().as_str());
        put(&mut out, " \"");
        put(&mut out, ro.command.as_str());
    } else {
        put(&mut out, "Sorry but no reason was given to ");
        put(&mut out, ro.acl_type.to_string().as_str());
        put(&mut out, " \"");
        if ro.acl_type == Acltype::List {
            put(&mut out, ro.target.as_str());
        } else {
            put(&mut out, ro.command.as_str());
        }
    }
    put(&mut out, "\" on ");
    put(&mut out, ro.hostname.as_str());
    put(&mut out, " as ");
    put(&mut out, ro.target.as_str());
    assert(Seq::<char>::empty() + "Sorry but there is no reason match to "@
        == "Sorry but there is no reason match to "@);
    assert(Seq::<char>::empty() + "Sorry but no reason was given to "@
        == "Sorry but no reason was given to "@);
    string_of(&out)
}

/// What tells the invoker that the privileges could not be set.
pub fn bad_priv_msg() -> (message: String)
    ensures
        message@ == "I cannot set privs. Exiting as not installed correctly."@,
{
    "I cannot set privs. Exiting as not installed correctly.".to_string()
}

/// `message` as it stands between double quotes: each double quote has a
/// backslash before it.
pub open spec fn escaped(message: Text) -> Text {
    replace(message, seq!['"'], seq!['\\', '"'])
}

/// `message` as it stands between double quotes in the audit log.
pub fn escape_log(message: &str) -> (out: String)
    ensures
        out@ == escaped(message@),
{
    let mut quote: Vec<char> = Vec::new();
    quote.push('"');
    let mut escaped_quote: Vec<char> = Vec::new();
    escaped_quote.push('\\');
    escaped_quote.push('"');
    assert(quote@ == seq!['"']);
    assert(escaped_quote@ == seq!['\\', '"']);
    string_of(&replaced(&chars_of(message), &quote, &escaped_quote))
}

/// The section that decided on the request, as the audit log names it.
pub open spec fn matching_section(req: Request) -> Text {
    match req.env_options {
        Some(rule) => rule.file_name + ":"@ + rule.section,
        None => Seq::empty(),
    }
}

/// The record of a decision. The invoker, the directory, the target, the
/// reason and the command are escaped; a request without a terminal has the
/// terminal `no_tty`, and one without a reason has an empty reason.
pub open spec fn audit_record(
    req: Request,
    cwd: Text,
    tty: Option<Text>,
    result: Text,
    command: Text,
) -> Text {
    "user=\""@ + escaped(req.name) + "\" cwd=\""@ + escaped(cwd) + "\" tty=\""@ + (match tty {
        Some(t) => t,
        None => "no_tty"@,
    }) + "\" action=\""@ + result + "\" target=\""@ + escaped(req.target) + "\" type=\""@
        + req.acl_type.label() + "\" reason=\""@ + (match req.reason {
        Some(r) => escaped(r),
        None => Seq::empty(),
    }) + "\" command=\""@ + escaped(command) + "\" matching_section=\""@ + matching_section(req)
        + "\""@
}

/// The record of a decision for the audit log, or `None` where the request
/// is not to be logged. `cwd` is the directory of the process and `tty` the
/// name of its terminal.
pub fn log_action(
    result: &str,
    ro: &RunOptions,
    command: &str,
    cwd: &str,
    tty: Option<&str>,
) -> (record: Option<String>)
    ensures
        crate::text::opt_view(record) == if ro@.syslog {
            Some(audit_record(ro@, cwd@, match tty {
                Some(t) => Some(t@),
                None => None,
            }, result@, command@))
        } else {
            None
        },
{
    if !ro.syslog {
        return None;
    }
    let mut out: Vec<char> = Vec::new();
    put(&mut out, "user=\"");
    put(&mut out, escape_log(ro.name.as_str()).as_str());
    put(&mut out, "\" cwd=\"");
    put(&mut out, escape_log(cwd).as_str());
    put(&mut out, "\" tty=\"");
    match tty {
        Some(t) => put(&mut out, t),
        None => put(&mut out, "no_tty"),
    }
    put(&mut out, "\" action=\"");
    put(&mut out, result);
    put(&mut out, "\" target=\"");
    put(&mut out, escape_log(ro.target.as_str()).as_str());
    put(&mut out, "\" type=\"");
    put(&mut out, ro.acl_type.to_string().as_str());
    put(&mut out, "\" reason=\"");
    let ghost before_reason = out@;
    match &ro.reason {
        Some(r) => put(&mut out, escape_log(r.as_str()).as_str()),
        None => {
            assert(out@ == before_reason + Seq::<char>::empty());
        },
    }
    put(&mut out, "\" command=\"");
    put(&mut out, escape_log(command).as_str());
    put(&mut out, "\" matching_section=\"");
    let ghost before_section = out@;
    match &ro.env_options {
        Some(rule) => {
            put(&mut out, rule.file_name.as_str());
            put(&mut out, ":");
            put(&mut out, rule.section.as_str());
            assert(out@ == before_section + (rule@.file_name + ":"@ + rule@.section));
        },
        None => {
            assert(out@ == before_section + Seq::<char>::empty());
        },
    }
    put(&mut out, "\"");
    assert(Seq::<char>::empty() + "user=\""@ == "user=\""@);
    Some(string_of(&out))
}

/// In an escaped message every double quote has a backslash before it, so
/// that none of them ends the field of the record that holds the message.
pub proof fn lemma_quotes_are_escaped(message: Text)
    ensures
        forall|i: int|
            0 <= i < escaped(message).len() && (#[trigger] escaped(message)[i]) == '"' ==> i > 0
                && escaped(message)[i - 1] == '\\',
{
    crate::text::lemma_escaped(message, '"', '\\', seq!['"'], seq!['\\', '"'], 0);
}

} // verus!
