//! The authentication token: where it is kept, and when it is valid.
use crate::number::{decimal, decimal_of};
use crate::rule::{EnvOptions, Rule};
use crate::text::{append, chars_of, put, replace, replaced, string_of, Text};
use vstd::prelude::*;

verus! {

/// The seconds for which a token is valid where the rule names none.
pub const DEFAULT_TOKEN_TIMEOUT: u64 = 600;

/// The times of a token file, in whole seconds: `modified` counts from the
/// start of the machine, `accessed` from the epoch.
#[derive(Clone, Copy, Debug, PartialEq, Eq, Structural)]
pub struct TokenTimes {
    pub modified: u64,
    pub accessed: u64,
}

/// The directory in which tokens are kept.
pub open spec fn token_dir_spec() -> Text {
    "/var/run/please/token"@
}

/// The directory in which tokens are kept.
pub fn token_dir() -> (dir: String)
    ensures
        dir@ == token_dir_spec(),
{
    "/var/run/please/token".to_string()
}

/// The name of a terminal as it stands in the name of a token: each slash is
/// an underscore.
pub open spec fn flat_tty(tty: Text) -> Text {
    replace(tty, seq!['/'], seq!['_'])
}

/// The path of the token of a user on a terminal under a parent process.
pub open spec fn token_path_spec(user: Text, tty: Text, ppid: u32) -> Text {
    token_dir_spec() + "/"@ + user + ":"@ + flat_tty(tty) + ":"@ + decimal(ppid as nat)
}

/// The path of the token of `user`, or `None` for an invoker without a
/// terminal, who has no token.
pub fn token_path(user: &str, tty: Option<&str>, ppid: u32) -> (path: Option<String>)
    ensures
        crate::text::opt_view(path) == match tty {
            Some(t) => Some(token_path_spec(user@, t@, ppid)),
            None => None,
        },
{
    let tty = match tty {
        Some(t) => t,
        None => {
            return None;
        },
    };
    let mut slash: Vec<char> = Vec::new();
    slash.push('/');
    let mut underscore: Vec<char> = Vec::new();
    underscore.push('_');
    assert(slash@ == seq!['/']);
    assert(underscore@ == seq!['_']);
    let mut out: Vec<char> = Vec::new();
    put(&mut out, "/var/run/please/token");
    put(&mut out, "/");
    put(&mut out, user);
    put(&mut out, ":");
    append(&mut out, &replaced(&chars_of(tty), &slash, &underscore));
    put(&mut out, ":");
    append(&mut out, &decimal_of(ppid as u64));
    assert(Seq::<char>::empty() + token_dir_spec() == token_dir_spec());
    Some(string_of(&out))
}

/// The path under which a token is written before it takes its place.
pub fn token_path_tmp(token_path: &str) -> (path: String)
    ensures
        path@ == token_path@ + ".tmp"@,
{
    let mut out = chars_of(token_path);
    put(&mut out, ".tmp");
    string_of(&out)
}

/// The seconds for which a token is valid under a rule.
pub open spec fn token_timeout(rule: Rule) -> u64 {
    match rule.token_timeout {
        Some(s) => s,
        None => DEFAULT_TOKEN_TIMEOUT,
    }
}

/// Whether a token with the times `t` is valid when the machine has run for
/// `boot` seconds and the epoch is `wall` seconds past: its writing lies not
/// in the future and less than `timeout` seconds back, by the clock of the
/// machine, and its last use likewise by the wall clock.
pub open spec fn token_valid(timeout: u64, t: TokenTimes, boot: u64, wall: u64) -> bool {
    &&& t.modified <= boot
    &&& boot - t.modified < timeout
    &&& t.accessed <= wall
    &&& wall - t.accessed < timeout
}

/// The times that a token gets when it is written or used: the clock of the
/// machine as the time of writing, the wall clock as the time of use.
pub open spec fn stamped(boot: u64, wall: u64) -> TokenTimes {
    TokenTimes { modified: boot, accessed: wall }
}

/// Whether the invoker has a valid token under the rule `eo`. `times` are
/// those of the token file, `None` where there is none to be had.
pub fn valid_token(eo: &EnvOptions, times: Option<TokenTimes>, boot: u64, wall: u64) -> (r: bool)
    ensures
        r == match times {
            Some(t) => token_valid(token_timeout(eo@), t, boot, wall),
            None => false,
        },
{
    let secs = match eo.token_timeout {
        Some(s) => s,
        None => DEFAULT_TOKEN_TIMEOUT,
    };
    match times {
        Some(t) => t.modified <= boot && boot - t.modified < secs && t.accessed <= wall && wall
            - t.accessed < secs,
        None => false,
    }
}

/// The times to set on the token of an invoker who has just authenticated or
/// used a valid token.
pub fn update_token(boot: u64, wall: u64) -> (t: TokenTimes)
    ensures
        t == stamped(boot, wall),
{
    TokenTimes { modified: boot, accessed: wall }
}

/// A token that was just written is valid, for any lifetime but zero.
pub proof fn lemma_fresh_token_valid(timeout: u64, boot: u64, wall: u64)
    requires
        timeout > 0,
    ensures
        token_valid(timeout, stamped(boot, wall), boot, wall),
{
}

/// A token is valid through the seconds of its lifetime and no longer: once
/// the machine has run `timeout` seconds more, the token is invalid whatever
/// the wall clock says.
pub proof fn lemma_token_expires(timeout: u64, boot: u64, wall: u64, later: u64, wall_later: u64)
    requires
        later >= boot + timeout,
    ensures
        !token_valid(timeout, stamped(boot, wall), later, wall_later),
{
}

/// After a restart of the machine, when its clock reads less than at the
/// writing of the token, the token is invalid whatever the wall clock says.
pub proof fn lemma_reboot_invalidates(
    timeout: u64,
    boot: u64,
    wall: u64,
    after_reboot: u64,
    wall_later: u64,
)
    requires
        after_reboot < boot,
    ensures
        !token_valid(timeout, stamped(boot, wall), after_reboot, wall_later),
{
}

/// A wall clock that was set back behind the last use of a token makes the
/// token invalid.
pub proof fn lemma_clock_set_back_invalidates(timeout: u64, t: TokenTimes, boot: u64, wall: u64)
    requires
        wall < t.accessed,
    ensures
        !token_valid(timeout, t, boot, wall),
{
}

} // verus!
