//! Access control for the control channel's named pipe and files: an
//! SDDL string restricting an object to the current user alone.

use vstd::prelude::*;

use crate::text::{owned, push_str};

verus! {

/// A protected DACL (inheriting nothing looser) with one ACE granting
/// generic-all to the SID `sid`.
pub open spec fn user_only_sddl(sid: Seq<char>) -> Seq<char> {
    "D:P(A;;GA;;;"@ + sid + ")"@
}

/// SDDL restricting an object to the user whose SID string is `sid`; the
/// shell looks up the current user's SID.
pub fn current_user_only_sddl(sid: &str) -> (r: String)
    ensures
        r@ == user_only_sddl(sid@),
{
    let mut out = owned("D:P(A;;GA;;;");
    push_str(&mut out, sid);
    push_str(&mut out, ")");
    out
}

} // verus!
