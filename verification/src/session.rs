//! The login utility's account decision.
//!
//! When a login name has been read from the terminal, this decides
//! what the prompt loop does next.  An account whose credential is
//! blank is admitted without a password prompt, as the system has
//! always done for first-boot accounts; a locked or secret-bearing
//! credential requires a prompt, and the submitted secret is then
//! checked with [`crate::store::Credential::matches`] — a locked
//! credential admits nobody.

use vstd::prelude::*;
use crate::store::CredentialStore;

verus! {

/// What the login prompt loop does with a submitted login name.
#[derive(Debug, Clone, Copy, PartialEq, Eq, Structural)]
pub enum LoginDecision {
    /// No account of that name: report an incorrect login and prompt
    /// for a name again.
    UnknownUser,
    /// The account's credential is blank: start the session without a
    /// password prompt.
    NoPasswordNeeded,
    /// Prompt for the password and check it against the account's
    /// credential.
    PasswordRequired,
}

/// The decision for a submitted login name against a store.
pub open spec fn spec_decide_login(store: CredentialStore, name: Seq<u8>) -> LoginDecision {
    if !store.spec_has_user_name(name) {
        LoginDecision::UnknownUser
    } else if store.spec_user_by_name(name).credential.spec_is_blank() {
        LoginDecision::NoPasswordNeeded
    } else {
        LoginDecision::PasswordRequired
    }
}

/// Decide what the login loop does with the submitted name.
pub fn decide_login(store: &CredentialStore, name: &[u8]) -> (r: LoginDecision)
    ensures
        r == spec_decide_login(*store, name@),
{
    match store.user_by_name(name) {
        None => LoginDecision::UnknownUser,
        Some(user) => {
            if user.credential.is_blank() {
                LoginDecision::NoPasswordNeeded
            } else {
                LoginDecision::PasswordRequired
            }
        },
    }
}

} // verus!
