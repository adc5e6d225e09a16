//! Registering a profile.

use crate::errors::ErrorCode;
use crate::identity::Identity;
use crate::layout::{fits, text_fits};
use crate::state::user_profile::{UserProfile, UserProfileView};
use vstd::prelude::*;
use vstd::string::*;

verus! {

/// The records that a registration touches.
#[derive(Clone, Debug, PartialEq, Eq)]
pub struct InitializeUser {
    /// The profile to fill in.
    pub user_profile: UserProfile,
    /// Who registers, and will own the profile.
    pub signer: Identity,
}

/// Whether the inputs are accepted, and if not, which of them is the first
/// that is too long.
pub open spec fn outcome(username: Seq<char>, email: Seq<char>) -> Result<(), ErrorCode> {
    if !fits(username, UserProfile::MAX_USERNAME_LEN as nat) {
        Err(ErrorCode::UsernameTooLong)
    } else if !fits(email, UserProfile::MAX_EMAIL_LEN as nat) {
        Err(ErrorCode::EmailTooLong)
    } else {
        Ok(())
    }
}

/// The profile that a registration at time `now` makes.
pub open spec fn registered(signer: Seq<u8>, username: Seq<char>, email: Seq<char>, now: i64)
    -> UserProfileView {
    UserProfileView { user: signer, username, email, created_at: now, updated_at: now }
}

/// Fills in the profile of the signer, or refuses inputs that are too long
/// and leaves everything as it was.
pub fn handler(ctx: &mut InitializeUser, username: String, email: String, now: i64) -> (r: Result<
    (),
    ErrorCode,
>)
    ensures
        r == outcome(username@, email@),
        r is Ok ==> final(ctx).user_profile@ == registered(
            old(ctx).signer@,
            username@,
            email@,
            now,
        ) && final(ctx).signer == old(ctx).signer,
        r is Err ==> *final(ctx) == *old(ctx),
{
    if !text_fits(username.as_str(), UserProfile::MAX_USERNAME_LEN) {
        return Err(ErrorCode::UsernameTooLong);
    }
    if !text_fits(email.as_str(), UserProfile::MAX_EMAIL_LEN) {
        return Err(ErrorCode::EmailTooLong);
    }
    ctx.user_profile.user = ctx.signer;
    ctx.user_profile.username = username;
    ctx.user_profile.email = email;
    ctx.user_profile.created_at = now;
    ctx.user_profile.updated_at = now;
    Ok(())
}

} // verus!
