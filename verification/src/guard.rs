//! The authorization guard: only the owner of a record may change it.

use crate::errors::ErrorCode;
use crate::identity::{lemma_identity_by_bytes, Identity};
use vstd::prelude::*;

verus! {

/// What the guard says of a caller who asks to change a record.
pub open spec fn verdict(record_owner: Seq<u8>, caller: Seq<u8>) -> Result<(), ErrorCode> {
    if record_owner == caller {
        Ok(())
    } else {
        Err(ErrorCode::Unauthorized)
    }
}

/// Lets the caller through if and only if the caller is the owner that the
/// record names.
pub fn authorize(record_owner: &Identity, caller: &Identity) -> (r: Result<(), ErrorCode>)
    ensures
        r == verdict(record_owner@, caller@),
{
    proof {
        lemma_identity_by_bytes(*record_owner, *caller);
    }
    if *record_owner == *caller {
        Ok(())
    } else {
        Err(ErrorCode::Unauthorized)
    }
}

} // verus!
