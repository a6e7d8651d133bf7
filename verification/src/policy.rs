//! The policy engine: may a given uid even attempt to authenticate?
//!
//! The decision is a pure function of the credential store and the
//! requesting uid: the user may authenticate exactly when a record for
//! the uid exists and its login name appears in the member list of the
//! privileged group.  A missing or unreadable user or group record
//! fails closed to [`Policy::Deny`].
//!
//! The decision is deliberately not cached anywhere: the daemon asks
//! again on every password submission, so an edit to the group's
//! member list takes effect immediately, even in the middle of a
//! handshake.

use vstd::prelude::*;
use crate::store::CredentialStore;

verus! {

/// Name of the group whose members may attempt elevation.
pub open spec fn spec_privileged_group() -> Seq<u8> {
    seq!['s' as u8, 'u' as u8, 'd' as u8, 'o' as u8]
}

/// Whether a uid may attempt to authenticate for elevation.
#[derive(Debug, Clone, Copy, PartialEq, Eq, Structural)]
pub enum Policy {
    /// The uid may not elevate, whatever secret it submits.
    Deny,
    /// The uid may authenticate with the account's credential.
    Authenticate,
}

/// The policy decision for `uid` against `store`.
pub open spec fn spec_decide(store: CredentialStore, uid: u32) -> Policy {
    if store.spec_has_user_id(uid) && store.spec_has_group_name(spec_privileged_group())
        && store.spec_group_by_name(spec_privileged_group()).spec_has_member(
        store.spec_user_by_id(uid).name@,
    ) {
        Policy::Authenticate
    } else {
        Policy::Deny
    }
}

/// Decide whether `uid` may attempt elevation.
///
/// Fails closed: a uid without a user record, or a system without the
/// privileged group, is denied.
pub fn decide(store: &CredentialStore, uid: u32) -> (r: Policy)
    ensures
        r == spec_decide(*store, uid),
{
    let user = match store.user_by_id(uid) {
        Some(user) => user,
        None => {
            return Policy::Deny;
        },
    };
    let group_name: [u8; 4] = ['s' as u8, 'u' as u8, 'd' as u8, 'o' as u8];
    proof {
        assert(group_name@ =~= spec_privileged_group());
    }
    let group = match store.group_by_name(group_name.as_slice()) {
        Some(group) => group,
        None => {
            return Policy::Deny;
        },
    };
    if group.has_member(user.name.as_slice()) {
        Policy::Authenticate
    } else {
        Policy::Deny
    }
}

} // verus!
