//! The protocol's guarantees, stated and proved once over the
//! daemon's model.
//!
//! Each law here is a statement about the transition functions of
//! [`crate::daemon`]; the daemon's operations are proved equal to
//! those transitions, so every law carries over to the running
//! daemon.

use vstd::prelude::*;
use vstd::utf8::valid_utf8;
use crate::daemon::{
    spec_close_step, spec_grant, spec_grant_step, spec_open_step, spec_submit_observed,
    spec_submit_step, spec_root_order, DaemonModel, HandshakeState, ProtocolError,
};
use crate::policy::spec_decide;
use crate::store::CredentialStore;

verus! {

/// How far along the handshake a state is: the password stages, then
/// the process-reference stage, then the consumed handle.
pub open spec fn stage(st: HandshakeState) -> int {
    match st {
        HandshakeState::AwaitingPassword { .. } => 0,
        HandshakeState::AwaitingTargetPassword => 0,
        HandshakeState::AwaitingProcessHandle => 1,
        HandshakeState::Terminal => 2,
    }
}

/// A handle only ever moves forward.  A submission either leaves the
/// state exactly where it was — the failed-attempt retry — or advances
/// it one stage, and does the latter exactly when it succeeds.  A
/// grant likewise, and the consumed stage is reached by a successful
/// grant and by nothing else.
pub proof fn handles_only_move_forward(
    st: HandshakeState,
    policy_allows: bool,
    utf8_ok: bool,
    secret_ok: bool,
)
    ensures
        ({
            let (next, res) = spec_submit_observed(st, policy_allows, utf8_ok, secret_ok);
            &&& res is Ok ==> next == HandshakeState::AwaitingProcessHandle && stage(next) == stage(
                st,
            ) + 1
            &&& res is Err ==> next == st
            &&& !(next is Terminal) || st is Terminal
        }),
        ({
            let (next, res) = spec_grant(st);
            &&& res is Ok ==> next is Terminal && stage(next) == stage(st) + 1
            &&& res is Err ==> next == st
            &&& (next is Terminal <==> res is Ok || st is Terminal)
        }),
{
}

/// A uid the policy engine denies cannot elevate: on a freshly opened
/// self-elevation handle, every submission whatsoever — the account's
/// correct secret included — is refused as a permission error, and the
/// daemon is left exactly as the open left it.
pub proof fn denied_uid_never_authenticates(
    store: CredentialStore,
    m: DaemonModel,
    caller_uid: u32,
    data: Seq<u8>,
)
    requires
        m.wf(),
        m.next_id < usize::MAX,
        spec_decide(store, caller_uid) is Deny,
    ensures
        ({
            let (opened, open_res) = spec_open_step(m, Seq::<u8>::empty(), caller_uid);
            let id = open_res->Ok_0;
            let (after, submit_res) = spec_submit_step(store, opened, id, data);
            &&& open_res is Ok
            &&& submit_res == Err::<(), ProtocolError>(ProtocolError::PermissionDenied)
            &&& after == opened
        }),
{
    let (opened, open_res) = spec_open_step(m, Seq::<u8>::empty(), caller_uid);
    let id = open_res->Ok_0;
    let (after, submit_res) = spec_submit_step(store, opened, id, data);
    assert(opened.table[id] == (HandshakeState::AwaitingPassword { uid: caller_uid }));
    assert(after.table =~= opened.table);
    assert(after =~= opened);
}

/// A privileged uid that submits its correct secret moves its handle
/// to the process-reference stage at the first attempt, and any
/// second submission on that handle — whatever its payload — is then
/// out of protocol order.
pub proof fn first_correct_submission_is_final(
    store: CredentialStore,
    m: DaemonModel,
    caller_uid: u32,
    data: Seq<u8>,
    later: Seq<u8>,
)
    requires
        m.wf(),
        m.next_id < usize::MAX,
        spec_decide(store, caller_uid) is Authenticate,
        valid_utf8(data),
        store.spec_user_by_id(caller_uid).credential.spec_matches(data),
    ensures
        ({
            let (opened, open_res) = spec_open_step(m, Seq::<u8>::empty(), caller_uid);
            let id = open_res->Ok_0;
            let (after, submit_res) = spec_submit_step(store, opened, id, data);
            let (again, second_res) = spec_submit_step(store, after, id, later);
            &&& open_res is Ok
            &&& submit_res == Ok::<(), ProtocolError>(())
            &&& after.table[id] is AwaitingProcessHandle
            &&& second_res == Err::<(), ProtocolError>(ProtocolError::InvalidArgument)
            &&& again == after
        }),
{
    let (opened, open_res) = spec_open_step(m, Seq::<u8>::empty(), caller_uid);
    let id = open_res->Ok_0;
    let (after, submit_res) = spec_submit_step(store, opened, id, data);
    let (again, second_res) = spec_submit_step(store, after, id, later);
    assert(opened.table[id] == (HandshakeState::AwaitingPassword { uid: caller_uid }));
    assert(again.table =~= after.table);
    assert(again =~= after);
}

/// The grant is a one-shot capability.  On a handle that has not
/// completed the password stage a grant is refused and changes
/// nothing; on an authenticated handle the first grant issues the
/// root order and consumes the handle, so a second grant is refused
/// too.
pub proof fn grant_is_single_use(m: DaemonModel, id: usize)
    requires
        m.table.contains_key(id),
    ensures
        !(m.table[id] is AwaitingProcessHandle) ==> ({
            let (after, res) = spec_grant_step(m, id);
            &&& res == Err::<crate::daemon::ElevationOrder, ProtocolError>(
                ProtocolError::BadHandle,
            )
            &&& after == m
        }),
        m.table[id] is AwaitingProcessHandle ==> ({
            let (after, res) = spec_grant_step(m, id);
            let (again, second_res) = spec_grant_step(after, id);
            &&& res == Ok::<crate::daemon::ElevationOrder, ProtocolError>(spec_root_order())
            &&& after.table[id] is Terminal
            &&& second_res == Err::<crate::daemon::ElevationOrder, ProtocolError>(
                ProtocolError::BadHandle,
            )
            &&& again == after
        }),
{
    if !(m.table[id] is AwaitingProcessHandle) {
        let (after, _res) = spec_grant_step(m, id);
        assert(after.table =~= m.table);
        assert(after =~= m);
    } else {
        let (after, _res) = spec_grant_step(m, id);
        let (again, _second_res) = spec_grant_step(after, id);
        assert(again.table =~= after.table);
        assert(again =~= after);
    }
}

/// Closing is valid in every state and idempotent: after a close the
/// id is gone, a second close changes nothing, and any submission or
/// grant on the id is refused as a bad handle without further effect.
pub proof fn close_is_idempotent(store: CredentialStore, m: DaemonModel, id: usize, data: Seq<u8>)
    ensures
        !spec_close_step(m, id).table.contains_key(id),
        spec_close_step(spec_close_step(m, id), id) == spec_close_step(m, id),
        ({
            let closed = spec_close_step(m, id);
            let (after_submit, submit_res) = spec_submit_step(store, closed, id, data);
            let (after_grant, grant_res) = spec_grant_step(closed, id);
            &&& submit_res == Err::<(), ProtocolError>(ProtocolError::BadHandle)
            &&& after_submit == closed
            &&& grant_res == Err::<crate::daemon::ElevationOrder, ProtocolError>(
                ProtocolError::BadHandle,
            )
            &&& after_grant == closed
        }),
{
    let closed = spec_close_step(m, id);
    assert(spec_close_step(closed, id).table =~= closed.table);
    assert(spec_close_step(closed, id) =~= closed);
}

/// The daemon after `n` rounds of opening one handle on `path` and
/// closing it at once.
pub open spec fn spec_open_close_cycles(
    m: DaemonModel,
    path: Seq<u8>,
    caller_uid: u32,
    n: nat,
) -> DaemonModel
    decreases n,
{
    if n == 0 {
        m
    } else {
        let (opened, res) = spec_open_step(m, path, caller_uid);
        let next = match res {
            Ok(id) => spec_close_step(opened, id),
            Err(_) => opened,
        };
        spec_open_close_cycles(next, path, caller_uid, (n - 1) as nat)
    }
}

/// Opening any number of handles and closing each at once leaks
/// nothing: the handle table afterwards is exactly the one before, so
/// a daemon that started with no open handles ends with none.
pub proof fn open_close_cycles_leave_no_handle(
    m: DaemonModel,
    path: Seq<u8>,
    caller_uid: u32,
    n: nat,
)
    requires
        m.wf(),
    ensures
        spec_open_close_cycles(m, path, caller_uid, n).table == m.table,
        spec_open_close_cycles(m, path, caller_uid, n).wf(),
    decreases n,
{
    if n == 0 {
    } else {
        let (opened, res) = spec_open_step(m, path, caller_uid);
        let next = match res {
            Ok(id) => spec_close_step(opened, id),
            Err(_) => opened,
        };
        match res {
            Ok(id) => {
                assert(!m.table.contains_key(id));
                assert(next.table =~= m.table);
            },
            Err(_) => {
                assert(next.table =~= m.table);
            },
        }
        open_close_cycles_leave_no_handle(next, path, caller_uid, (n - 1) as nat);
    }
}

} // verus!
