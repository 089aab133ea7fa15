//! Cancelling a request's token, and the evidence that it was cancelled.

use vstd::prelude::*;
use tokio_util::sync::CancellationToken;

verus! {

/// Evidence that a cancellation token has been cancelled. Only
/// `token_cancel` makes one, for the token it cancelled; a cancelled token
/// stays cancelled, so the evidence stays true.
#[derive(Clone, Copy)]
pub struct Cancelled {
    token: Ghost<CancellationToken>,
}

impl Cancelled {
    /// The token that was cancelled.
    pub closed spec fn token(&self) -> CancellationToken {
        self.token@
    }
}

/// `CancellationToken::cancel`: marks the shared state cancelled (for every
/// clone) and wakes its waiters. Claimed: the evidence it hands back names
/// the token it was given.
#[verifier::external_body]
pub(crate) fn token_cancel(t: &CancellationToken) -> (c: Cancelled)
    ensures
        c.token() == *t,
{
    t.cancel();
    Cancelled { token: Ghost(*t) }
}

} // verus!
