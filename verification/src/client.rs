//! The interactive clients' decision logic: the self-elevation
//! retry loop and the single-attempt substitution flow.
//!
//! The embedding binary owns the terminal: it prompts, reads a secret
//! with echo suppressed, and finally replaces its own process image
//! with the target command.  Everything between — how many attempts
//! are allowed, what each daemon reply means, when the flow gives up —
//! is decided here, against a live [`crate::daemon::Daemon`].

use vstd::prelude::*;
use vstd::utf8::valid_utf8;
use crate::daemon::{spec_root_order, Daemon, ElevationOrder, HandshakeState, ProtocolError};
use crate::policy::spec_decide;
use crate::store::CredentialStore;

verus! {

/// Failed attempts allowed before the self-elevation client gives up.
pub const MAX_ATTEMPTS: u16 = 3;

/// What the self-elevation flow ends in.
#[derive(Debug, Clone, Copy, PartialEq, Eq, Structural)]
pub enum ElevationOutcome {
    /// The caller is already privileged: run the command directly,
    /// with no handshake at all.
    AlreadyPrivileged,
    /// The handshake succeeded and the one-shot grant was issued: the
    /// caller's process takes this identity and then becomes the
    /// target command.
    Elevated(ElevationOrder),
    /// The attempts are exhausted, or the prompt was abandoned: exit
    /// nonzero, and the target command provably never runs.
    Aborted,
}

/// Whether one submission authenticates `uid` for self-elevation.
pub open spec fn spec_accepted(store: CredentialStore, uid: u32, password: Seq<u8>) -> bool {
    &&& spec_decide(store, uid) is Authenticate
    &&& valid_utf8(password)
    &&& store.spec_user_by_id(uid).credential.spec_matches(password)
}

/// Outcome of the retry loop from attempt number `attempt` on, given
/// the secrets the user would enter: one entry per prompt, `None` for
/// an abandoned prompt.
pub open spec fn spec_retry_outcome(
    store: CredentialStore,
    uid: u32,
    inputs: Seq<Option<Vec<u8>>>,
    attempt: nat,
) -> ElevationOutcome
    decreases MAX_ATTEMPTS - attempt,
{
    if attempt >= MAX_ATTEMPTS {
        ElevationOutcome::Aborted
    } else if attempt >= inputs.len() {
        ElevationOutcome::Aborted
    } else {
        match inputs[attempt as int] {
            None => ElevationOutcome::Aborted,
            Some(password) => {
                if spec_accepted(store, uid, password@) {
                    ElevationOutcome::Elevated(spec_root_order())
                } else if attempt + 1 >= MAX_ATTEMPTS {
                    ElevationOutcome::Aborted
                } else {
                    spec_retry_outcome(store, uid, inputs, attempt + 1)
                }
            },
        }
    }
}

/// Outcome of the whole self-elevation flow.
pub open spec fn spec_elevation_outcome(
    store: CredentialStore,
    caller_uid: u32,
    inputs: Seq<Option<Vec<u8>>>,
) -> ElevationOutcome {
    if caller_uid == 0 {
        ElevationOutcome::AlreadyPrivileged
    } else {
        spec_retry_outcome(store, caller_uid, inputs, 0)
    }
}

/// Run the self-elevation handshake for `caller_uid` against a live
/// daemon.
///
/// `inputs` stands for the interactive prompt: entry `k` is what the
/// user would enter at prompt `k`, with `None` for an abandoned
/// prompt, which ends the flow at once.  Prompts deliver text, so
/// every provided secret is valid UTF-8; and the transport would
/// refuse to open the channel with the id space exhausted, so a free
/// id is required here.
///
/// Each failed attempt retries on the same handle; after
/// [`MAX_ATTEMPTS`] failures the flow aborts without ever asking for
/// the grant.
pub fn run_elevation(
    daemon: &mut Daemon,
    store: &CredentialStore,
    caller_uid: u32,
    inputs: &Vec<Option<Vec<u8>>>,
) -> (r: ElevationOutcome)
    requires
        old(daemon).wf(),
        old(daemon).next_id < usize::MAX,
        forall|k: int|
            0 <= k < inputs@.len() ==> ((#[trigger] inputs@[k]) matches Some(password)
                ==> valid_utf8(password@)),
    ensures
        final(daemon).wf(),
        r == spec_elevation_outcome(*store, caller_uid, inputs@),
        caller_uid == 0 ==> final(daemon).model() == old(daemon).model(),
        caller_uid != 0 ==> final(daemon).next_id == old(daemon).next_id + 1,
        caller_uid != 0 ==> final(daemon).handles@ == old(daemon).handles@.insert(
            old(daemon).next_id,
            if r is Elevated {
                HandshakeState::Terminal
            } else {
                (HandshakeState::AwaitingPassword { uid: caller_uid })
            },
        ),
{
    if caller_uid == 0 {
        // Already root: no handshake is needed.
        return ElevationOutcome::AlreadyPrivileged;
    }
    let empty_path: [u8; 0] = [];
    proof {
        assert(empty_path@ =~= Seq::<u8>::empty());
    }
    let id = match daemon.open(empty_path.as_slice(), caller_uid) {
        Ok(id) => id,
        Err(_) => {
            proof {
                assert(false);
            }
            return ElevationOutcome::Aborted;
        },
    };
    let mut attempt: u16 = 0;
    while attempt < MAX_ATTEMPTS
        invariant
            daemon.wf(),
            attempt <= MAX_ATTEMPTS,
            id == old(daemon).next_id,
            daemon.next_id == old(daemon).next_id + 1,
            daemon.handles@ == old(daemon).handles@.insert(
                id,
                (HandshakeState::AwaitingPassword { uid: caller_uid }),
            ),
            daemon.handles@.contains_key(id),
            daemon.handles@[id] == (HandshakeState::AwaitingPassword { uid: caller_uid }),
            caller_uid != 0,
            forall|k: int|
                0 <= k < inputs@.len() ==> ((#[trigger] inputs@[k]) matches Some(password)
                    ==> valid_utf8(password@)),
            spec_retry_outcome(*store, caller_uid, inputs@, 0) == spec_retry_outcome(
                *store,
                caller_uid,
                inputs@,
                attempt as nat,
            ),
        decreases MAX_ATTEMPTS - attempt,
    {
        if (attempt as usize) >= inputs.len() {
            return ElevationOutcome::Aborted;
        }
        let entry = &inputs[attempt as usize];
        let password = match entry {
            Some(password) => password,
            None => {
                // The prompt was abandoned: give up at once.
                return ElevationOutcome::Aborted;
            },
        };
        match daemon.submit_secret(store, id, password.as_slice()) {
            Ok(()) => {
                let order = match daemon.grant(id) {
                    Ok(order) => order,
                    Err(_) => {
                        // The handle just authenticated, so the grant
                        // cannot be refused.
                        proof {
                            assert(false);
                        }
                        return ElevationOutcome::Aborted;
                    },
                };
                proof {
                    assert(daemon.handles@ =~= old(daemon).handles@.insert(
                        id,
                        HandshakeState::Terminal,
                    ));
                }
                return ElevationOutcome::Elevated(order);
            },
            Err(e) => {
                proof {
                    // With textual input, the only refusal the daemon
                    // has left is the undifferentiated permission
                    // error.
                    assert(e == ProtocolError::PermissionDenied);
                    assert(daemon.handles@ =~= old(daemon).handles@.insert(
                        id,
                        (HandshakeState::AwaitingPassword { uid: caller_uid }),
                    ));
                }
                attempt = attempt + 1;
            },
        }
    }
    ElevationOutcome::Aborted
}

/// What the channel-driven retry loop does after one prompt.
#[derive(Debug, Clone, Copy, PartialEq, Eq, Structural)]
pub enum RetryAction {
    /// Prompt again on the same handle; the count of failures so far.
    AskAgain(u16),
    /// Stop, run nothing, exit nonzero.
    GiveUp,
    /// Authenticated: present the process reference and ask for the
    /// grant.
    Proceed,
}

/// One step of the retry loop, for a client that drives the daemon
/// over a channel rather than in process: `submitted` is `None` for
/// an abandoned prompt, else whether the daemon accepted the secret.
///
/// An abandoned prompt gives up at once; a refusal gives up once
/// [`MAX_ATTEMPTS`] failures have accumulated, and otherwise prompts
/// again on the same handle.
pub fn retry_step(failures: u16, submitted: Option<bool>) -> (r: RetryAction)
    requires
        failures < MAX_ATTEMPTS,
    ensures
        r == match submitted {
            None => RetryAction::GiveUp,
            Some(true) => RetryAction::Proceed,
            Some(false) => {
                if failures + 1 >= MAX_ATTEMPTS {
                    RetryAction::GiveUp
                } else {
                    RetryAction::AskAgain((failures + 1) as u16)
                }
            },
        },
{
    match submitted {
        None => RetryAction::GiveUp,
        Some(true) => RetryAction::Proceed,
        Some(false) => {
            let next = failures + 1;
            if next >= MAX_ATTEMPTS {
                RetryAction::GiveUp
            } else {
                RetryAction::AskAgain(next)
            }
        },
    }
}

/// What the substitution flow ends in.
#[derive(Debug, Clone, Copy, PartialEq, Eq, Structural)]
pub enum SubstitutionOutcome {
    /// Run the target account's shell.
    ShellRuns,
    /// Authentication failed: exit nonzero.
    Denied,
}

/// Outcome of the substitution flow: a privileged caller passes
/// without a password; everyone else authenticates against the target
/// account's credential, an abandoned prompt standing for the empty
/// password.
pub open spec fn spec_substitution_outcome(
    store: CredentialStore,
    caller_uid: u32,
    input: Option<Vec<u8>>,
) -> SubstitutionOutcome {
    if caller_uid == 0 {
        SubstitutionOutcome::ShellRuns
    } else {
        let password = match input {
            None => Seq::<u8>::empty(),
            Some(password) => password@,
        };
        if store.spec_has_user_id(0) && store.spec_user_by_id(0).credential.spec_matches(
            password,
        ) {
            SubstitutionOutcome::ShellRuns
        } else {
            SubstitutionOutcome::Denied
        }
    }
}

/// Run the substitution handshake: one attempt against the target
/// account's credential, on the daemon's substitution path.
///
/// A caller that is already root substitutes without any password.  A
/// blank target credential is deliberately not a client-side bypass:
/// the daemon still verifies it, and it authenticates exactly the
/// empty submission.
pub fn run_substitution(
    daemon: &mut Daemon,
    store: &CredentialStore,
    caller_uid: u32,
    input: Option<Vec<u8>>,
) -> (r: SubstitutionOutcome)
    requires
        old(daemon).wf(),
        old(daemon).next_id < usize::MAX,
        input matches Some(password) ==> valid_utf8(password@),
    ensures
        final(daemon).wf(),
        r == spec_substitution_outcome(*store, caller_uid, input),
        caller_uid == 0 ==> final(daemon).model() == old(daemon).model(),
        caller_uid != 0 ==> final(daemon).next_id == old(daemon).next_id + 1,
        caller_uid != 0 ==> final(daemon).handles@ == old(daemon).handles@.insert(
            old(daemon).next_id,
            if r is ShellRuns {
                HandshakeState::AwaitingProcessHandle
            } else {
                HandshakeState::AwaitingTargetPassword
            },
        ),
{
    if caller_uid == 0 {
        return SubstitutionOutcome::ShellRuns;
    }
    let su_path: [u8; 2] = ['s' as u8, 'u' as u8];
    proof {
        assert(su_path@ =~= seq!['s' as u8, 'u' as u8]);
        assert(su_path@ != Seq::<u8>::empty());
    }
    let id = match daemon.open(su_path.as_slice(), caller_uid) {
        Ok(id) => id,
        Err(_) => {
            proof {
                assert(false);
            }
            return SubstitutionOutcome::Denied;
        },
    };
    let password: Vec<u8> = match input {
        Some(password) => password,
        None => Vec::new(),
    };
    proof {
        assert(valid_utf8(Seq::<u8>::empty()));
    }
    let outcome = match daemon.submit_secret(store, id, password.as_slice()) {
        Ok(()) => SubstitutionOutcome::ShellRuns,
        Err(_) => SubstitutionOutcome::Denied,
    };
    proof {
        if outcome is ShellRuns {
            assert(daemon.handles@ =~= old(daemon).handles@.insert(
                id,
                HandshakeState::AwaitingProcessHandle,
            ));
        } else {
            assert(daemon.handles@ =~= old(daemon).handles@.insert(
                id,
                HandshakeState::AwaitingTargetPassword,
            ));
        }
    }
    outcome
}

} // verus!
