//! The privilege controller: which calls change the identity of the process,
//! in what order, and what identity each leaves.
use crate::request::{Request, RunOptions};
use crate::text::Text;
use vstd::prelude::*;

verus! {

/// The user and group as which the process acts.
#[derive(Clone, Copy, Debug, PartialEq, Eq, Structural)]
pub struct Identity {
    pub uid: u32,
    pub gid: u32,
}

/// The identity of the superuser.
pub open spec fn root() -> Identity {
    Identity { uid: 0, gid: 0 }
}

/// One call that changes the privileges of the process.
#[derive(Clone, Debug, PartialEq, Eq)]
pub enum PrivCall {
    /// Drop every supplementary group.
    ClearGroups,
    /// Take the supplementary groups of this user, and this group.
    InitGroups(String, u32),
    /// Set the real, effective and saved group.
    SetGid(u32),
    /// Set the real, effective and saved user.
    SetUid(u32),
    /// Set the effective group.
    SetEgid(u32),
    /// Set the effective user.
    SetEuid(u32),
}

/// `PrivCall` in specifications.
pub enum CallView {
    ClearGroups,
    InitGroups(Text, u32),
    SetGid(u32),
    SetUid(u32),
    SetEgid(u32),
    SetEuid(u32),
}

impl View for PrivCall {
    type V = CallView;

    open spec fn view(&self) -> CallView {
        match self {
            PrivCall::ClearGroups => CallView::ClearGroups,
            PrivCall::InitGroups(n, g) => CallView::InitGroups(n@, *g),
            PrivCall::SetGid(g) => CallView::SetGid(*g),
            PrivCall::SetUid(u) => CallView::SetUid(*u),
            PrivCall::SetEgid(g) => CallView::SetEgid(*g),
            PrivCall::SetEuid(u) => CallView::SetEuid(*u),
        }
    }
}

/// The views of a list of calls.
pub open spec fn calls_view(v: Seq<PrivCall>) -> Seq<CallView> {
    Seq::new(v.len(), |i: int| v[i]@)
}

/// The effective identity after a call that succeeded.
pub open spec fn after_call(id: Identity, call: CallView) -> Identity {
    match call {
        CallView::ClearGroups => id,
        CallView::InitGroups(_, _) => id,
        CallView::SetGid(g) => Identity { gid: g, ..id },
        CallView::SetUid(u) => Identity { uid: u, ..id },
        CallView::SetEgid(g) => Identity { gid: g, ..id },
        CallView::SetEuid(u) => Identity { uid: u, ..id },
    }
}

/// The effective identity after the first `n` of `calls`, all of which
/// succeeded.
pub open spec fn after_calls(id: Identity, calls: Seq<CallView>, n: int) -> Identity
    decreases n,
{
    if n <= 0 {
        id
    } else {
        after_call(after_calls(id, calls, n - 1), calls[n - 1])
    }
}

/// The calls that commit the process to a user for good: no supplementary
/// groups but those of the user, then the group, then the user.
pub open spec fn commit_calls(user: Text, uid: u32, gid: u32) -> Seq<CallView> {
    seq![
        CallView::ClearGroups,
        CallView::InitGroups(user, gid),
        CallView::SetGid(gid),
        CallView::SetUid(uid),
    ]
}

/// The calls that lend the process an identity: the group first, then the
/// user.
pub open spec fn lend_calls(uid: u32, gid: u32) -> Seq<CallView> {
    seq![CallView::SetEgid(gid), CallView::SetEuid(uid)]
}

/// The calls that commit the process to the user `user`. They are made in
/// order, and the first that fails ends them.
pub fn set_privs(user: &str, target_uid: u32, target_gid: u32) -> (calls: Vec<PrivCall>)
    ensures
        calls_view(calls@) == commit_calls(user@, target_uid, target_gid),
{
    let mut calls: Vec<PrivCall> = Vec::new();
    calls.push(PrivCall::ClearGroups);
    calls.push(PrivCall::InitGroups(user.to_string(), target_gid));
    calls.push(PrivCall::SetGid(target_gid));
    calls.push(PrivCall::SetUid(target_uid));
    assert(calls_view(calls@) =~= commit_calls(user@, target_uid, target_gid));
    calls
}

/// The calls that lend the process the identity of a user and a group.
pub fn set_eprivs(target_uid: u32, target_gid: u32) -> (calls: Vec<PrivCall>)
    ensures
        calls_view(calls@) == lend_calls(target_uid, target_gid),
{
    let mut calls: Vec<PrivCall> = Vec::new();
    calls.push(PrivCall::SetEgid(target_gid));
    calls.push(PrivCall::SetEuid(target_uid));
    assert(calls_view(calls@) =~= lend_calls(target_uid, target_gid));
    calls
}

/// The calls that make the process the superuser again.
pub fn esc_privs() -> (calls: Vec<PrivCall>)
    ensures
        calls_view(calls@) == lend_calls(0, 0),
{
    set_eprivs(0, 0)
}

/// The calls that give the process the identity of the invoker: up to the
/// superuser first, from there down to the invoker.
pub fn drop_privs(ro: &RunOptions) -> (calls: Vec<PrivCall>)
    ensures
        calls_view(calls@) == lend_calls(0, 0) + lend_calls(
            ro@.original_uid,
            ro@.original_gid,
        ),
{
    let mut calls = esc_privs();
    let mut down = set_eprivs(ro.original_uid, ro.original_gid);
    let ghost first = calls@;
    let ghost second = down@;
    calls.append(&mut down);
    assert(calls_view(calls@) =~= calls_view(first) + calls_view(second));
    calls
}

/// Whether a run of calls as a whole succeeded: every call did.
pub fn all_succeeded(outcomes: &Vec<bool>) -> (r: bool)
    ensures
        r == forall|i: int| 0 <= i < outcomes.len() ==> outcomes[i],
{
    let mut i: usize = 0;
    while i < outcomes.len()
        invariant
            i <= outcomes.len(),
            forall|j: int| 0 <= j < i ==> outcomes[j],
        decreases outcomes.len() - i,
    {
        if !outcomes[i] {
            return false;
        }
        i += 1;
    }
    true
}

/// Lending an identity leaves the process with that identity.
pub proof fn lemma_lend_reaches(id: Identity, uid: u32, gid: u32)
    ensures
        after_calls(id, lend_calls(uid, gid), 2) == (Identity { uid, gid }),
{
    reveal_with_fuel(after_calls, 3);
}

/// Dropping privileges leaves the process as the invoker, and on the way it
/// is what it was, the superuser, or the invoker in part: never a third
/// party.
pub proof fn lemma_drop_privs_path(id: Identity, req: Request, n: int)
    requires
        0 <= n <= 4,
    ensures
        ({
            let calls = lend_calls(0, 0) + lend_calls(req.original_uid, req.original_gid);
            let at = after_calls(id, calls, n);
            &&& after_calls(id, calls, 4) == (Identity {
                uid: req.original_uid,
                gid: req.original_gid,
            })
            &&& at.uid == id.uid || at.uid == 0 || at.uid == req.original_uid
            &&& at.gid == id.gid || at.gid == 0 || at.gid == req.original_gid
        }),
{
    reveal_with_fuel(after_calls, 5);
}

/// Committing to a user leaves the process as that user.
pub proof fn lemma_commit_reaches(id: Identity, user: Text, uid: u32, gid: u32)
    ensures
        after_calls(id, commit_calls(user, uid, gid), 4) == (Identity { uid, gid }),
{
    reveal_with_fuel(after_calls, 5);
}

} // verus!
