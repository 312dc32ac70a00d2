//! The authenticator shim: when the invoker is asked for a password, how
//! often, and when a token stands in for it.
use crate::request::{Request, RunOptions};
use crate::rule::{EnvOptions, Rule};
use crate::token::{token_timeout, token_valid, valid_token, TokenTimes};
use vstd::prelude::*;

verus! {

/// The number of attempts that an invoker has.
pub const MAX_ATTEMPTS: u8 = 3;

/// How far the challenge has come.
#[derive(Clone, Copy, Debug, PartialEq, Eq, Structural)]
pub enum AuthState {
    /// Nothing was asked yet.
    Start,
    /// The token of the invoker was asked for.
    TokenAsked,
    /// The invoker is being asked for the password, after this many failures.
    Prompting(u8),
    /// The challenge is over.
    Finished,
}

/// What the caller found.
#[derive(Clone, Copy, Debug, PartialEq, Eq, Structural)]
pub enum AuthEvent {
    /// The challenge begins; the flag says whether the invoker has a
    /// terminal.
    Begin(bool),
    /// The times of the token, if there is one, and the two clocks.
    Token(Option<TokenTimes>, u64, u64),
    /// An attempt ended: whether it succeeded, and whether a password was
    /// typed.
    Attempt(bool, bool),
}

/// Why a challenge ended as it did.
#[derive(Clone, Copy, Debug, PartialEq, Eq, Structural)]
pub enum Verdict {
    /// The rule asks for no password.
    NotRequired,
    /// A valid token stands in for the password.
    ValidToken,
    /// The authenticator accepted the invoker.
    Authenticated,
    /// The invoker has no terminal.
    NoTerminal,
    /// A password is required and prompting is switched off.
    NoPrompt,
    /// Every attempt failed.
    Failed,
    /// The answer was none to what was asked.
    Unexpected,
}

/// What the caller is to do next.
#[derive(Clone, Copy, Debug, PartialEq, Eq, Structural)]
pub enum AuthAction {
    /// As the superuser, look up the times of the token and read the clocks.
    ReadToken,
    /// As the invoker, run the authenticator once, and give up after this
    /// many seconds if any are given.
    Ask(Option<u32>),
    /// The challenge is over: whether the invoker passed, whether the token
    /// is to be written anew, and why.
    Finish(bool, bool, Verdict),
}

impl Verdict {
    /// Whether the verdict lets the invoker pass.
    pub open spec fn passes(self) -> bool {
        self == Verdict::NotRequired || self == Verdict::ValidToken || self
            == Verdict::Authenticated
    }
}

/// One step of the challenge. A rule that asks for no password lets the
/// invoker pass at once; an invoker without a terminal fails. A valid token
/// lets the invoker pass and is written anew. Without one the invoker is
/// asked, unless prompting is switched off, and has three attempts; a
/// success writes the token anew where a password was typed.
pub open spec fn challenge(state: AuthState, event: AuthEvent, req: Request, rule: Rule) -> (
    AuthState,
    AuthAction,
) {
    match (state, event) {
        (AuthState::Start, AuthEvent::Begin(has_tty)) => if !rule.requires_pass() {
            (AuthState::Finished, AuthAction::Finish(true, false, Verdict::NotRequired))
        } else if !has_tty {
            (AuthState::Finished, AuthAction::Finish(false, false, Verdict::NoTerminal))
        } else {
            (AuthState::TokenAsked, AuthAction::ReadToken)
        },
        (AuthState::TokenAsked, AuthEvent::Token(times, boot, wall)) => if times matches Some(t)
            && token_valid(token_timeout(rule), t, boot, wall) {
            (AuthState::Finished, AuthAction::Finish(true, true, Verdict::ValidToken))
        } else if !req.prompt {
            (AuthState::Finished, AuthAction::Finish(false, false, Verdict::NoPrompt))
        } else {
            (AuthState::Prompting(0), AuthAction::Ask(rule.timeout))
        },
        (AuthState::Prompting(failures), AuthEvent::Attempt(ok, typed)) => if ok {
            (AuthState::Finished, AuthAction::Finish(true, typed, Verdict::Authenticated))
        } else if failures + 1 >= MAX_ATTEMPTS {
            (AuthState::Finished, AuthAction::Finish(false, false, Verdict::Failed))
        } else {
            (AuthState::Prompting((failures + 1) as u8), AuthAction::Ask(rule.timeout))
        },
        _ => (AuthState::Finished, AuthAction::Finish(false, false, Verdict::Unexpected)),
    }
}

/// One step of the challenge of the invoker under the rule `entry`.
pub fn challenge_password(state: AuthState, event: AuthEvent, ro: &RunOptions, entry: &EnvOptions) -> (r:
    (AuthState, AuthAction))
    ensures
        r == challenge(state, event, ro@, entry@),
{
    match (state, event) {
        (AuthState::Start, AuthEvent::Begin(has_tty)) => {
            if !entry.require_pass() {
                (AuthState::Finished, AuthAction::Finish(true, false, Verdict::NotRequired))
            } else if !has_tty {
                (AuthState::Finished, AuthAction::Finish(false, false, Verdict::NoTerminal))
            } else {
                (AuthState::TokenAsked, AuthAction::ReadToken)
            }
        },
        (AuthState::TokenAsked, AuthEvent::Token(times, boot, wall)) => {
            if valid_token(entry, times, boot, wall) {
                (AuthState::Finished, AuthAction::Finish(true, true, Verdict::ValidToken))
            } else if !ro.prompt {
                (AuthState::Finished, AuthAction::Finish(false, false, Verdict::NoPrompt))
            } else {
                (AuthState::Prompting(0), AuthAction::Ask(entry.timeout))
            }
        },
        (AuthState::Prompting(failures), AuthEvent::Attempt(ok, typed)) => {
            if ok {
                (AuthState::Finished, AuthAction::Finish(true, typed, Verdict::Authenticated))
            } else if failures >= MAX_ATTEMPTS - 1 {
                (AuthState::Finished, AuthAction::Finish(false, false, Verdict::Failed))
            } else {
                (AuthState::Prompting(failures + 1), AuthAction::Ask(entry.timeout))
            }
        },
        _ => (AuthState::Finished, AuthAction::Finish(false, false, Verdict::Unexpected)),
    }
}

/// The state after `n` failed attempts in a row, counted from the first
/// prompt, and whether the invoker is asked again.
pub open spec fn after_failures(req: Request, rule: Rule, n: int) -> (AuthState, AuthAction)
    decreases n,
{
    if n <= 0 {
        (AuthState::Prompting(0), AuthAction::Ask(rule.timeout))
    } else {
        challenge(after_failures(req, rule, n - 1).0, AuthEvent::Attempt(false, false), req, rule)
    }
}

/// The retry cap: the invoker is asked again after one and after two failed
/// attempts, and the third failure ends the challenge with a denial.
pub proof fn lemma_three_attempts(req: Request, rule: Rule)
    ensures
        after_failures(req, rule, 1).1 == AuthAction::Ask(rule.timeout),
        after_failures(req, rule, 2).1 == AuthAction::Ask(rule.timeout),
        after_failures(req, rule, 3) == (
            AuthState::Finished,
            AuthAction::Finish(false, false, Verdict::Failed),
        ),
{
    reveal_with_fuel(after_failures, 4);
}

/// A challenge that is over stays over, and lets nobody pass.
pub proof fn lemma_finished_is_final(event: AuthEvent, req: Request, rule: Rule)
    ensures
        challenge(AuthState::Finished, event, req, rule) == (
            AuthState::Finished,
            AuthAction::Finish(false, false, Verdict::Unexpected),
        ),
{
}

/// Whether an event shows a token that is valid under the rule.
pub open spec fn shows_valid_token(event: AuthEvent, rule: Rule) -> bool {
    match event {
        AuthEvent::Token(Some(t), boot, wall) => token_valid(token_timeout(rule), t, boot, wall),
        _ => false,
    }
}

/// Whether an event reports an attempt that succeeded.
pub open spec fn reports_success(event: AuthEvent) -> bool {
    match event {
        AuthEvent::Attempt(ok, _) => ok,
        _ => false,
    }
}

/// The invoker passes only where the rule asks for no password, a valid
/// token was shown, or the authenticator accepted an attempt.
pub proof fn lemma_pass_needs_cause(state: AuthState, event: AuthEvent, req: Request, rule: Rule)
    ensures
        match challenge(state, event, req, rule).1 {
            AuthAction::Finish(granted, _, why) => {
                &&& granted <==> why.passes()
                &&& why == Verdict::NotRequired ==> !rule.requires_pass()
                &&& why == Verdict::ValidToken ==> shows_valid_token(event, rule)
                &&& why == Verdict::Authenticated ==> reports_success(event)
            },
            _ => true,
        },
{
}

} // verus!
