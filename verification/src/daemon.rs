//! The elevation daemon: per-handle handshake state and its
//! transitions.
//!
//! The daemon owns a table from handle id to [`HandshakeState`].  A
//! client opens a handle, submits the account's secret on it, and —
//! once authenticated — asks for the one-shot elevation grant.  The
//! table is mutated only through the operations here, each of which
//! consumes the old state of a handle and installs the next one, so no
//! handle is ever observable between two states.
//!
//! The credential store is passed into every password submission
//! rather than captured at open time: the policy engine and the
//! account's credential are re-read on each attempt, so an edit to the
//! privileged group or to a password takes effect immediately, even in
//! the middle of a handshake.

use std::collections::HashMap;
use vstd::prelude::*;
use vstd::utf8::valid_utf8;
use crate::policy::{spec_decide, decide, Policy};
use crate::store::CredentialStore;
use crate::utf8::validate_utf8;

verus! {

broadcast use vstd::std_specs::hash::group_hash_axioms;

/// Protocol state of one open handle.
///
/// A handle only ever moves forward: password stages to
/// [`HandshakeState::AwaitingProcessHandle`] to
/// [`HandshakeState::Terminal`], except that a failed submission
/// leaves a password stage unchanged so the client may retry on the
/// same handle.
#[derive(Debug, Clone, Copy, PartialEq, Eq, Structural)]
pub enum HandshakeState {
    /// Waiting for the password of the calling uid, captured from the
    /// channel's authenticated caller identity at open time.
    AwaitingPassword { uid: u32 },
    /// Waiting for the password of the target account (root), whatever
    /// the caller's uid; the substitution flow.
    AwaitingTargetPassword,
    /// Authenticated; waiting for the reference to the process whose
    /// credentials are to be raised.
    AwaitingProcessHandle,
    /// The one-shot grant has been used; no further operation is valid.
    Terminal,
}

/// Error classes surfaced on the channel.
///
/// A policy denial and a wrong password are deliberately presented as
/// the one class [`ProtocolError::PermissionDenied`], so a caller
/// cannot tell "not authorized at all" from "wrong secret".
#[derive(Debug, Clone, Copy, PartialEq, Eq, Structural)]
pub enum ProtocolError {
    /// The opened path names no flow.
    NotFound,
    /// Policy denial or failed authentication.
    PermissionDenied,
    /// An operation issued out of protocol order, or a malformed
    /// payload.
    InvalidArgument,
    /// An unknown or already-consumed handle id, or a grant requested
    /// in a state that does not allow one.
    BadHandle,
    /// The handle id space is exhausted.
    OutOfHandles,
}

/// POSIX-style error number for each error class, as put on the wire.
pub open spec fn spec_errno(e: ProtocolError) -> usize {
    match e {
        ProtocolError::PermissionDenied => 1,  // EPERM
        ProtocolError::NotFound => 2,  // ENOENT
        ProtocolError::BadHandle => 9,  // EBADF
        ProtocolError::InvalidArgument => 22,  // EINVAL
        ProtocolError::OutOfHandles => 24,  // EMFILE
    }
}

/// Map an error class to its wire error number.
pub fn errno(e: ProtocolError) -> (n: usize)
    ensures
        n == spec_errno(e),
{
    match e {
        ProtocolError::PermissionDenied => 1,
        ProtocolError::NotFound => 2,
        ProtocolError::BadHandle => 9,
        ProtocolError::InvalidArgument => 22,
        ProtocolError::OutOfHandles => 24,
    }
}

/// The credential change a successful grant orders: real, effective
/// and saved user and group ids for the target process.
#[derive(Debug, Clone, Copy, PartialEq, Eq, Structural)]
pub struct ElevationOrder {
    pub ruid: u32,
    pub euid: u32,
    pub suid: u32,
    pub rgid: u32,
    pub egid: u32,
    pub sgid: u32,
}

/// The order issued by the standard flows: full root identity.
pub open spec fn spec_root_order() -> ElevationOrder {
    ElevationOrder { ruid: 0, euid: 0, suid: 0, rgid: 0, egid: 0, sgid: 0 }
}

/// Wire encoding of an elevation order: the six ids as little-endian
/// 32-bit values, in the order real/effective/saved uid, then
/// real/effective/saved gid.
pub open spec fn spec_encode_order(o: ElevationOrder) -> Seq<u8> {
    vstd::bytes::spec_u32_to_le_bytes(o.ruid) + vstd::bytes::spec_u32_to_le_bytes(o.euid)
        + vstd::bytes::spec_u32_to_le_bytes(o.suid) + vstd::bytes::spec_u32_to_le_bytes(o.rgid)
        + vstd::bytes::spec_u32_to_le_bytes(o.egid) + vstd::bytes::spec_u32_to_le_bytes(o.sgid)
}

impl ElevationOrder {
    /// Encode the order for the wire.
    pub fn encode(&self) -> (r: Vec<u8>)
        ensures
            r@ == spec_encode_order(*self),
            r@.len() == 24,
    {
        let mut out: Vec<u8> = Vec::new();
        let mut part = vstd::bytes::u32_to_le_bytes(self.ruid);
        out.append(&mut part);
        let mut part = vstd::bytes::u32_to_le_bytes(self.euid);
        out.append(&mut part);
        let mut part = vstd::bytes::u32_to_le_bytes(self.suid);
        out.append(&mut part);
        let mut part = vstd::bytes::u32_to_le_bytes(self.rgid);
        out.append(&mut part);
        let mut part = vstd::bytes::u32_to_le_bytes(self.egid);
        out.append(&mut part);
        let mut part = vstd::bytes::u32_to_le_bytes(self.sgid);
        out.append(&mut part);
        proof {
            vstd::bytes::lemma_auto_spec_u32_to_from_le_bytes();
        }
        out
    }
}

/// The state a freshly opened handle starts in, by channel path: the
/// empty path is self-elevation, `"su"` is substitution, anything else
/// is unknown.
pub open spec fn spec_open_state(path: Seq<u8>, caller_uid: u32) -> Option<HandshakeState> {
    if path == Seq::<u8>::empty() {
        Some(HandshakeState::AwaitingPassword { uid: caller_uid })
    } else if path == seq!['s' as u8, 'u' as u8] {
        Some(HandshakeState::AwaitingTargetPassword)
    } else {
        None
    }
}

/// One password-stage transition, from the three observations the
/// submission gives rise to: whether policy admits the attempt at
/// all, whether the payload is UTF-8 text, and whether the secret
/// matched the bound account's credential.
///
/// The order is part of the protocol: a policy denial is reported
/// before the payload is even inspected, so a denied caller learns
/// nothing else; a malformed payload is reported before the secret is
/// compared.  Either failure leaves the handle where it was, so the
/// client may retry.  A submission in any later state is out of
/// protocol order.
pub open spec fn spec_submit_observed(
    st: HandshakeState,
    policy_allows: bool,
    utf8_ok: bool,
    secret_ok: bool,
) -> (HandshakeState, Result<(), ProtocolError>) {
    match st {
        HandshakeState::AwaitingPassword { .. } | HandshakeState::AwaitingTargetPassword => {
            if !policy_allows {
                (st, Err(ProtocolError::PermissionDenied))
            } else if !utf8_ok {
                (st, Err(ProtocolError::InvalidArgument))
            } else if secret_ok {
                (HandshakeState::AwaitingProcessHandle, Ok(()))
            } else {
                (st, Err(ProtocolError::PermissionDenied))
            }
        },
        HandshakeState::AwaitingProcessHandle => (st, Err(ProtocolError::InvalidArgument)),
        HandshakeState::Terminal => (st, Err(ProtocolError::InvalidArgument)),
    }
}

/// One password submission against a handle state: the next state and
/// the reply, with the observations drawn from the credential store.
///
/// In the self-elevation flow the policy engine decides whether the
/// attempt is admitted and the bound caller's credential is checked;
/// in the substitution flow every caller is admitted as long as the
/// target account exists — failing closed when it does not — and the
/// target's credential is checked.
pub open spec fn spec_submit(store: CredentialStore, st: HandshakeState, data: Seq<u8>) -> (
    HandshakeState,
    Result<(), ProtocolError>,
) {
    match st {
        HandshakeState::AwaitingPassword { uid } => spec_submit_observed(
            st,
            spec_decide(store, uid) is Authenticate,
            valid_utf8(data),
            store.spec_has_user_id(uid) && store.spec_user_by_id(uid).credential.spec_matches(
                data,
            ),
        ),
        HandshakeState::AwaitingTargetPassword => spec_submit_observed(
            st,
            store.spec_has_user_id(0),
            valid_utf8(data),
            store.spec_has_user_id(0) && store.spec_user_by_id(0).credential.spec_matches(data),
        ),
        _ => spec_submit_observed(st, false, false, false),
    }
}

/// One grant request against a handle state: the next state and the
/// reply.
///
/// Only a handle that has completed the password stage may grant, and
/// only once: the transition into [`HandshakeState::Terminal`] is what
/// makes possession of an authenticated handle a one-shot capability.
pub open spec fn spec_grant(st: HandshakeState) -> (
    HandshakeState,
    Result<ElevationOrder, ProtocolError>,
) {
    match st {
        HandshakeState::AwaitingProcessHandle => (
            HandshakeState::Terminal,
            Ok(spec_root_order()),
        ),
        _ => (st, Err(ProtocolError::BadHandle)),
    }
}

/// One request arriving on the daemon's channel, as handed over by
/// the transport.  The caller uid of an open is supplied by the
/// transport's own authentication of the peer, never by the payload.
#[derive(Debug, Clone, PartialEq, Eq)]
pub enum Request {
    /// Open a handle on the flow named by `path`.
    Open { path: Vec<u8>, caller_uid: u32 },
    /// Submit a secret on an open handle.
    Write { id: usize, data: Vec<u8> },
    /// Present a process reference on an authenticated handle.
    SendFd { id: usize },
    /// Close a handle.
    Close { id: usize },
}

/// The daemon's reply to one request.
#[derive(Debug, Clone, Copy, PartialEq, Eq, Structural)]
pub enum Reply {
    /// A fresh handle id.
    Handle(usize),
    /// The secret was accepted; the byte count consumed.
    Written(usize),
    /// The one-shot grant: the credential change to apply to the
    /// presented process.
    Granted(ElevationOrder),
    /// A close; closes never fail.
    Closed,
    /// Any refused request, as the error class to put on the wire.
    Failure(ProtocolError),
}

/// Mathematical model of the daemon: the handle table as a map, and
/// the next id to hand out.
#[verifier::ext_equal]
pub struct DaemonModel {
    pub next_id: usize,
    pub table: Map<usize, HandshakeState>,
}

/// Effect of an open on the model: the new model and the reply.
pub open spec fn spec_open_step(m: DaemonModel, path: Seq<u8>, caller_uid: u32) -> (
    DaemonModel,
    Result<usize, ProtocolError>,
) {
    if m.next_id == usize::MAX {
        (m, Err(ProtocolError::OutOfHandles))
    } else {
        let advanced = (m.next_id + 1) as usize;
        match spec_open_state(path, caller_uid) {
            Some(st) => (
                DaemonModel { next_id: advanced, table: m.table.insert(m.next_id, st) },
                Ok(m.next_id),
            ),
            None => (DaemonModel { next_id: advanced, table: m.table }, Err(
                ProtocolError::NotFound,
            )),
        }
    }
}

/// Effect of a password submission on the model.
pub open spec fn spec_submit_step(
    store: CredentialStore,
    m: DaemonModel,
    id: usize,
    data: Seq<u8>,
) -> (DaemonModel, Result<(), ProtocolError>) {
    if !m.table.contains_key(id) {
        (m, Err(ProtocolError::BadHandle))
    } else {
        let (st, res) = spec_submit(store, m.table[id], data);
        (DaemonModel { next_id: m.next_id, table: m.table.insert(id, st) }, res)
    }
}

/// Effect of an observed password-stage transition on the model.
pub open spec fn spec_submit_observed_step(
    m: DaemonModel,
    id: usize,
    policy_allows: bool,
    utf8_ok: bool,
    secret_ok: bool,
) -> (DaemonModel, Result<(), ProtocolError>) {
    if !m.table.contains_key(id) {
        (m, Err(ProtocolError::BadHandle))
    } else {
        let (st, res) = spec_submit_observed(m.table[id], policy_allows, utf8_ok, secret_ok);
        (DaemonModel { next_id: m.next_id, table: m.table.insert(id, st) }, res)
    }
}

/// Effect of a grant request on the model.
pub open spec fn spec_grant_step(m: DaemonModel, id: usize) -> (
    DaemonModel,
    Result<ElevationOrder, ProtocolError>,
) {
    if !m.table.contains_key(id) {
        (m, Err(ProtocolError::BadHandle))
    } else {
        let (st, res) = spec_grant(m.table[id]);
        (DaemonModel { next_id: m.next_id, table: m.table.insert(id, st) }, res)
    }
}

/// Effect of a close on the model: unconditional removal.
pub open spec fn spec_close_step(m: DaemonModel, id: usize) -> DaemonModel {
    DaemonModel { next_id: m.next_id, table: m.table.remove(id) }
}

/// The elevation daemon's whole state: the handle table and the next
/// id to hand out.
pub struct Daemon {
    /// Next handle id to allocate.  Ids grow monotonically, so an id
    /// is never reused while the daemon runs.
    pub next_id: usize,
    /// Handshake state of every open handle.
    pub handles: HashMap<usize, HandshakeState>,
}

impl DaemonModel {
    /// Every open handle id was allocated before `next_id`.
    pub open spec fn wf(self) -> bool {
        forall|id: usize| self.table.contains_key(id) ==> id < self.next_id
    }
}

impl Daemon {
    /// The daemon as its model.
    pub open spec fn model(self) -> DaemonModel {
        DaemonModel { next_id: self.next_id, table: self.handles@ }
    }

    /// Every open handle id was allocated before `next_id`.
    pub open spec fn wf(self) -> bool {
        self.model().wf()
    }

    /// A fresh daemon: no handles, ids starting at one.
    pub fn new() -> (d: Daemon)
        ensures
            d.wf(),
            d.handles@ == Map::<usize, HandshakeState>::empty(),
            d.next_id == 1,
    {
        Daemon { next_id: 1, handles: HashMap::new() }
    }

    /// Number of open handles.
    pub fn open_handles(&self) -> (n: usize)
        ensures
            n == self.handles@.len(),
    {
        self.handles.len()
    }

    /// Open a handle for the flow named by `path`, on behalf of the
    /// caller the transport authenticated as `caller_uid`.
    ///
    /// The uid is bound into the handle here and can never be altered
    /// by a later payload.  An exhausted id space refuses the open and
    /// changes nothing; an unknown path refuses it but still consumes
    /// the id, as the transport allocates the id before the path is
    /// examined.
    pub fn open(&mut self, path: &[u8], caller_uid: u32) -> (r: Result<usize, ProtocolError>)
        requires
            old(self).wf(),
        ensures
            final(self).wf(),
            ({
                let (m, res) = spec_open_step(old(self).model(), path@, caller_uid);
                &&& final(self).model() == m
                &&& r == res
            }),
    {
        let id = self.next_id;
        if id == usize::MAX {
            return Err(ProtocolError::OutOfHandles);
        }
        self.next_id = id + 1;
        let state = if path.len() == 0 {
            proof {
                assert(path@ =~= Seq::<u8>::empty());
            }
            HandshakeState::AwaitingPassword { uid: caller_uid }
        } else {
            let su: [u8; 2] = ['s' as u8, 'u' as u8];
            if crate::bytes::bytes_eq(path, su.as_slice()) {
                proof {
                    assert(su@ =~= seq!['s' as u8, 'u' as u8]);
                }
                HandshakeState::AwaitingTargetPassword
            } else {
                proof {
                    assert(path@ != Seq::<u8>::empty());
                    assert(path@ != seq!['s' as u8, 'u' as u8]);
                }
                return Err(ProtocolError::NotFound);
            }
        };
        self.handles.insert(id, state);
        Ok(id)
    }

    /// Submit a secret on handle `id`, checked against `store`.
    ///
    /// The reply and the handle's next state are exactly
    /// [`spec_submit`] of the handle's current state; an unknown id is
    /// refused without any other effect.
    pub fn submit_secret(&mut self, store: &CredentialStore, id: usize, data: &[u8]) -> (r: Result<
        (),
        ProtocolError,
    >)
        requires
            old(self).wf(),
        ensures
            final(self).wf(),
            ({
                let (m, res) = spec_submit_step(*store, old(self).model(), id, data@);
                &&& final(self).model() == m
                &&& r == res
            }),
    {
        let st = match self.handles.remove(&id) {
            Some(st) => st,
            None => {
                proof {
                    assert(self.handles@ =~= old(self).handles@);
                }
                return Err(ProtocolError::BadHandle);
            },
        };
        let (next, res): (HandshakeState, Result<(), ProtocolError>) = match st {
            HandshakeState::AwaitingPassword { uid } => {
                match decide(store, uid) {
                    Policy::Deny => (st, Err(ProtocolError::PermissionDenied)),
                    Policy::Authenticate => {
                        if !validate_utf8(data) {
                            (st, Err(ProtocolError::InvalidArgument))
                        } else {
                            // Policy granted attempt rights, so the
                            // user record exists.
                            match store.user_by_id(uid) {
                                Some(user) => {
                                    if user.credential.matches(data) {
                                        (HandshakeState::AwaitingProcessHandle, Ok(()))
                                    } else {
                                        (st, Err(ProtocolError::PermissionDenied))
                                    }
                                },
                                None => {
                                    proof {
                                        assert(false);
                                    }
                                    (st, Err(ProtocolError::PermissionDenied))
                                },
                            }
                        }
                    },
                }
            },
            HandshakeState::AwaitingTargetPassword => {
                match store.user_by_id(0) {
                    None => (st, Err(ProtocolError::PermissionDenied)),
                    Some(target) => {
                        if !validate_utf8(data) {
                            (st, Err(ProtocolError::InvalidArgument))
                        } else if target.credential.matches(data) {
                            (HandshakeState::AwaitingProcessHandle, Ok(()))
                        } else {
                            (st, Err(ProtocolError::PermissionDenied))
                        }
                    },
                }
            },
            HandshakeState::AwaitingProcessHandle => (st, Err(ProtocolError::InvalidArgument)),
            HandshakeState::Terminal => (st, Err(ProtocolError::InvalidArgument)),
        };
        self.handles.insert(id, next);
        proof {
            assert(final(self).handles@ =~= old(self).handles@.insert(id, next));
        }
        res
    }

    /// The state of handle `id`, if it is open.
    pub fn handle_state(&self, id: usize) -> (r: Option<HandshakeState>)
        ensures
            r == if self.handles@.contains_key(id) {
                Some(self.handles@[id])
            } else {
                None::<HandshakeState>
            },
    {
        match self.handles.get(&id) {
            Some(st) => Some(*st),
            None => None,
        }
    }

    /// Apply one password submission whose observations were already
    /// made against the system's own credential store.
    ///
    /// This is the entry point for a deployment whose store can only
    /// be consulted, never copied: the request loop reads the handle's
    /// state, asks the policy engine and the store's verifier about
    /// the submission, and hands the three outcomes here.  The handle
    /// bookkeeping and the protocol order stay verified; only the
    /// observations themselves are the embedder's.
    pub fn submit_observed(
        &mut self,
        id: usize,
        policy_allows: bool,
        utf8_ok: bool,
        secret_ok: bool,
    ) -> (r: Result<(), ProtocolError>)
        requires
            old(self).wf(),
        ensures
            final(self).wf(),
            ({
                let (m, res) = spec_submit_observed_step(
                    old(self).model(),
                    id,
                    policy_allows,
                    utf8_ok,
                    secret_ok,
                );
                &&& final(self).model() == m
                &&& r == res
            }),
    {
        let st = match self.handles.remove(&id) {
            Some(st) => st,
            None => {
                proof {
                    assert(self.handles@ =~= old(self).handles@);
                }
                return Err(ProtocolError::BadHandle);
            },
        };
        let (next, res): (HandshakeState, Result<(), ProtocolError>) = match st {
            HandshakeState::AwaitingPassword { .. } | HandshakeState::AwaitingTargetPassword => {
                if !policy_allows {
                    (st, Err(ProtocolError::PermissionDenied))
                } else if !utf8_ok {
                    (st, Err(ProtocolError::InvalidArgument))
                } else if secret_ok {
                    (HandshakeState::AwaitingProcessHandle, Ok(()))
                } else {
                    (st, Err(ProtocolError::PermissionDenied))
                }
            },
            HandshakeState::AwaitingProcessHandle => (st, Err(ProtocolError::InvalidArgument)),
            HandshakeState::Terminal => (st, Err(ProtocolError::InvalidArgument)),
        };
        self.handles.insert(id, next);
        proof {
            assert(final(self).handles@ =~= old(self).handles@.insert(id, next));
        }
        res
    }

    /// Ask for the one-shot elevation grant on handle `id`.
    ///
    /// Valid only in [`HandshakeState::AwaitingProcessHandle`]; the
    /// handle then moves to [`HandshakeState::Terminal`] and the
    /// returned order names the credentials the target process is to
    /// receive.  In any other state, and on any unknown id, the reply
    /// is [`ProtocolError::BadHandle`] and nothing changes.
    pub fn grant(&mut self, id: usize) -> (r: Result<ElevationOrder, ProtocolError>)
        requires
            old(self).wf(),
        ensures
            final(self).wf(),
            ({
                let (m, res) = spec_grant_step(old(self).model(), id);
                &&& final(self).model() == m
                &&& r == res
            }),
    {
        let st = match self.handles.remove(&id) {
            Some(st) => st,
            None => {
                proof {
                    assert(self.handles@ =~= old(self).handles@);
                }
                return Err(ProtocolError::BadHandle);
            },
        };
        let (next, res): (HandshakeState, Result<ElevationOrder, ProtocolError>) = match st {
            HandshakeState::AwaitingProcessHandle => (
                HandshakeState::Terminal,
                Ok(ElevationOrder { ruid: 0, euid: 0, suid: 0, rgid: 0, egid: 0, sgid: 0 }),
            ),
            _ => (st, Err(ProtocolError::BadHandle)),
        };
        self.handles.insert(id, next);
        proof {
            assert(final(self).handles@ =~= old(self).handles@.insert(id, next));
        }
        res
    }

    /// Dispatch one request from the channel.
    ///
    /// This is the daemon's whole request loop body, minus the
    /// transport: the loop blocks on the next request, hands it here
    /// together with a fresh snapshot of the credential store, and
    /// writes the reply back.  Because exactly one request is handled
    /// at a time, mutation of the handle table is serialized and no
    /// handle is ever seen mid-transition.
    pub fn handle_request(&mut self, store: &CredentialStore, req: &Request) -> (r: Reply)
        requires
            old(self).wf(),
        ensures
            final(self).wf(),
            match *req {
                Request::Open { path, caller_uid } => ({
                    let (m, res) = spec_open_step(old(self).model(), path@, caller_uid);
                    &&& final(self).model() == m
                    &&& r == match res {
                        Ok(id) => Reply::Handle(id),
                        Err(e) => Reply::Failure(e),
                    }
                }),
                Request::Write { id, data } => ({
                    let (m, res) = spec_submit_step(*store, old(self).model(), id, data@);
                    &&& final(self).model() == m
                    &&& r == match res {
                        Ok(()) => Reply::Written(data@.len() as usize),
                        Err(e) => Reply::Failure(e),
                    }
                }),
                Request::SendFd { id } => ({
                    let (m, res) = spec_grant_step(old(self).model(), id);
                    &&& final(self).model() == m
                    &&& r == match res {
                        Ok(order) => Reply::Granted(order),
                        Err(e) => Reply::Failure(e),
                    }
                }),
                Request::Close { id } => {
                    &&& final(self).model() == spec_close_step(old(self).model(), id)
                    &&& r == Reply::Closed
                },
            },
    {
        match req {
            Request::Open { path, caller_uid } => {
                match self.open(path.as_slice(), *caller_uid) {
                    Ok(id) => Reply::Handle(id),
                    Err(e) => Reply::Failure(e),
                }
            },
            Request::Write { id, data } => {
                match self.submit_secret(store, *id, data.as_slice()) {
                    Ok(()) => Reply::Written(data.len()),
                    Err(e) => Reply::Failure(e),
                }
            },
            Request::SendFd { id } => {
                match self.grant(*id) {
                    Ok(order) => Reply::Granted(order),
                    Err(e) => Reply::Failure(e),
                }
            },
            Request::Close { id } => {
                self.close(*id);
                Reply::Closed
            },
        }
    }

    /// Close handle `id`, whatever state it is in.
    ///
    /// Removing is unconditional and idempotent: closing an id that is
    /// not open changes nothing, and every later operation on the id
    /// reports [`ProtocolError::BadHandle`].
    pub fn close(&mut self, id: usize)
        requires
            old(self).wf(),
        ensures
            final(self).wf(),
            final(self).model() == spec_close_step(old(self).model(), id),
    {
        self.handles.remove(&id);
        proof {
            assert(final(self).handles@ =~= old(self).handles@.remove(id));
            assert forall|i: usize| self.handles@.contains_key(i) implies i < self.next_id by {
                assert(old(self).model().table.contains_key(i));
                assert(i < old(self).model().next_id);
            }
        }
    }
}

} // verus!
