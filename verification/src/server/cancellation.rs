//! Request cancellation support.
//!
//! Tracks pending requests and allows cancellation via the
//! `notifications/cancelled` notification from clients.

use vstd::prelude::*;
use tokio_util::sync::CancellationToken;
use crate::server::session::SessionId;
use crate::server::token::{Cancelled, token_cancel};
use crate::types::{RequestId, RequestIdView};

verus! {

#[verifier::external_type_specification]
#[verifier::external_body]
pub struct ExCancellationToken(tokio_util::sync::CancellationToken);

/// `CancellationToken::new`: a fresh token. Its state is shared with its
/// clones and lives outside this library, so nothing is claimed of it.
#[verifier::external_body]
fn token_new() -> CancellationToken {
    CancellationToken::new()
}

/// `CancellationToken::clone`: a handle on the same cancellation state
/// (cancelling either cancels both). tokio-util makes two tokens equal
/// exactly when they share that state (`Arc::ptr_eq`), so the clone is
/// claimed to be the same token; the shared state itself is not modelled.
#[verifier::external_body]
fn token_clone(t: &CancellationToken) -> (r: CancellationToken)
    ensures
        r == *t,
{
    t.clone()
}

/// `CancellationToken::is_cancelled`: reads the shared state, which any
/// holder of a clone may change; nothing is claimed of the result.
#[verifier::external_body]
fn token_is_cancelled(t: &CancellationToken) -> bool {
    t.is_cancelled()
}

/// The key of a pending request: its session and its request id.
pub type PendingKey = (Seq<char>, RequestIdView);

/// Request `k` belongs to session `sid`.
pub open spec fn in_session(k: PendingKey, sid: Seq<char>) -> bool {
    k.0 == sid
}

/// A pending request, its cancellation token, and whether this manager has
/// cancelled it.
struct Pending {
    session: SessionId,
    request: RequestId,
    token: CancellationToken,
    receipt: Option<Cancelled>,
}

spec fn key_of(p: Pending) -> PendingKey {
    (p.session@, p.request@)
}

spec fn key_seq(ps: Seq<Pending>) -> Seq<PendingKey> {
    ps.map_values(|p: Pending| key_of(p))
}

/// Entry `i` is under key `k` and has been cancelled by the manager.
spec fn cancelled_at(ps: Seq<Pending>, i: int, k: PendingKey) -> bool {
    0 <= i < ps.len() && key_of(ps[i]) == k && ps[i].receipt is Some
}

spec fn cancelled_set(ps: Seq<Pending>) -> Set<PendingKey> {
    Set::new(|k: PendingKey| exists|i: int| #[trigger] cancelled_at(ps, i, k))
}

/// With distinct keys, the key of entry `x` is cancelled exactly when that
/// entry is marked.
proof fn lemma_cancelled_entry(ps: Seq<Pending>, x: int)
    requires
        key_seq(ps).no_duplicates(),
        0 <= x < ps.len(),
    ensures
        cancelled_set(ps).contains(key_of(ps[x])) == ps[x].receipt is Some,
{
    let k = key_of(ps[x]);
    if ps[x].receipt is Some {
        assert(cancelled_at(ps, x, k));
    }
    if exists|i: int| #[trigger] cancelled_at(ps, i, k) {
        let i = choose|i: int| #[trigger] cancelled_at(ps, i, k);
        assert(key_seq(ps)[i] == key_seq(ps)[x]);
    }
}

/// A key held by no entry is not cancelled.
proof fn lemma_cancelled_absent(ps: Seq<Pending>, k: PendingKey)
    requires
        !key_seq(ps).contains(k),
    ensures
        !cancelled_set(ps).contains(k),
{
    if exists|i: int| #[trigger] cancelled_at(ps, i, k) {
        let i = choose|i: int| #[trigger] cancelled_at(ps, i, k);
        assert(key_seq(ps)[i] == k);
    }
}

/// Entry `j` has the key, the token and the mark of `e`.
spec fn copy_of(ps: Seq<Pending>, j: int, e: Pending) -> bool {
    0 <= j < ps.len() && key_of(ps[j]) == key_of(e) && ps[j].token == e.token && ps[j].receipt == e.receipt
}

/// Every entry's evidence of cancellation, if any, names the entry's token.
spec fn receipts_match(ps: Seq<Pending>) -> bool {
    forall|i: int| 0 <= i < ps.len() ==> ((#[trigger] ps[i]).receipt matches Some(c) ==> c.token() == ps[i].token)
}

/// The position of the entry under key `k` (any position if none holds it).
spec fn index_of_key(ps: Seq<Pending>, k: PendingKey) -> int {
    choose|i: int| 0 <= i < ps.len() && key_of(ps[i]) == k
}

/// With distinct keys, the entry under the key of entry `x` is entry `x`.
proof fn lemma_index_of_key(ps: Seq<Pending>, x: int)
    requires
        key_seq(ps).no_duplicates(),
        0 <= x < ps.len(),
    ensures
        index_of_key(ps, key_of(ps[x])) == x,
{
    let k = key_of(ps[x]);
    assert(0 <= x < ps.len() && key_of(ps[x]) == k);
    let i = index_of_key(ps, k);
    assert(key_seq(ps)[i] == key_seq(ps)[x]);
}

/// Every key is held by some entry, or by none.
proof fn lemma_key_position(ps: Seq<Pending>, k: PendingKey) -> (x: int)
    ensures
        key_seq(ps).contains(k) ==> 0 <= x < ps.len() && key_of(ps[x]) == k,
{
    if key_seq(ps).contains(k) {
        let x = choose|x: int| 0 <= x < key_seq(ps).len() && key_seq(ps)[x] == k;
        x
    } else {
        0
    }
}

/// Manages pending requests and their cancellation tokens.
///
/// When a client sends `notifications/cancelled`, the corresponding
/// in-flight request can be aborted.
pub struct CancellationManager {
    pending: Vec<Pending>,
}

impl CancellationManager {
    /// The keys of the requests being tracked.
    pub closed spec fn view(&self) -> Set<PendingKey> {
        key_seq(self.pending@).to_set()
    }

    /// The tracked requests that this manager has cancelled.
    pub closed spec fn cancelled(&self) -> Set<PendingKey> {
        cancelled_set(self.pending@)
    }

    /// The cancellation token of the tracked request `k`.
    pub closed spec fn token_of(&self, k: PendingKey) -> CancellationToken {
        self.pending@[index_of_key(self.pending@, k)].token
    }

    /// `t` is the token of a tracked request of session `sid`.
    pub open spec fn is_session_token(&self, sid: Seq<char>, t: CancellationToken) -> bool {
        exists|k: PendingKey| self.view().contains(k) && in_session(k, sid) && t == #[trigger] self.token_of(k)
    }

    /// The evidence that the manager cancelled the token of request `k`,
    /// if it did.
    pub closed spec fn cancel_evidence(&self, k: PendingKey) -> Option<Cancelled> {
        self.pending@[index_of_key(self.pending@, k)].receipt
    }

    /// Each request is tracked at most once, and the evidence of each
    /// cancellation names the cancelled request's own token.
    pub closed spec fn wf(&self) -> bool {
        &&& key_seq(self.pending@).no_duplicates()
        &&& receipts_match(self.pending@)
    }

    /// A request the manager cancelled has evidence that its own token,
    /// the one `register` handed out, was cancelled.
    pub proof fn lemma_cancelled_token(&self, k: PendingKey)
        requires
            self.wf(),
            self.cancelled().contains(k),
        ensures
            self.view().contains(k),
            self.cancel_evidence(k) matches Some(c) && c.token() == self.token_of(k),
    {
        let i = choose|i: int| #[trigger] cancelled_at(self.pending@, i, k);
        assert(key_seq(self.pending@)[i] == k);
        lemma_index_of_key(self.pending@, i);
    }

    /// Only tracked requests are cancelled ones.
    pub proof fn lemma_cancelled_are_tracked(&self, k: PendingKey)
        ensures
            self.cancelled().contains(k) ==> self.view().contains(k),
    {
        if self.cancelled().contains(k) {
            let i = choose|i: int| #[trigger] cancelled_at(self.pending@, i, k);
            assert(key_seq(self.pending@)[i] == k);
        }
    }

    /// The tracked requests are finitely many.
    pub proof fn lemma_view_finite(&self)
        ensures
            self.view().finite(),
    {
        vstd::seq_lib::seq_to_set_is_finite(key_seq(self.pending@));
    }

    /// Create a new cancellation manager that tracks nothing.
    pub fn new() -> (m: Self)
        ensures
            m.wf(),
            m.view() == Set::<PendingKey>::empty(),
            m.cancelled() == Set::<PendingKey>::empty(),
    {
        let m = CancellationManager { pending: Vec::new() };
        assert(key_seq(m.pending@) =~= Seq::<PendingKey>::empty());
        assert(m.view() =~= Set::<PendingKey>::empty());
        assert(m.cancelled() =~= Set::<PendingKey>::empty());
        m
    }

    fn position(&self, session_id: &SessionId, request_id: &RequestId) -> (r: Option<usize>)
        ensures
            r matches Some(i) ==> i < self.pending@.len() && key_seq(self.pending@)[i as int] == (session_id@, request_id@),
            r is None ==> !self.view().contains((session_id@, request_id@)),
    {
        let mut i: usize = 0;
        while i < self.pending.len()
            invariant
                i <= self.pending@.len(),
                forall|j: int| 0 <= j < i ==> key_seq(self.pending@)[j] != (session_id@, request_id@),
            decreases self.pending@.len() - i,
        {
            let p = &self.pending[i];
            if p.session.0 == session_id.0 && p.request.same_as(request_id) {
                return Some(i);
            }
            i = i + 1;
        }
        None
    }

    /// Register a new pending request and get a cancellation token.
    ///
    /// A request already tracked under the same key gets a fresh token in
    /// place of its old one. The handler should check the token
    /// periodically to respond to cancellation.
    pub fn register(&mut self, session_id: &SessionId, request_id: &RequestId) -> (t: CancellationToken)
        requires
            old(self).wf(),
        ensures
            final(self).wf(),
            final(self).view() == old(self).view().insert((session_id@, request_id@)),
            final(self).cancelled() == old(self).cancelled().remove((session_id@, request_id@)),
            t == final(self).token_of((session_id@, request_id@)),
            forall|k: PendingKey| k != (session_id@, request_id@) && old(self).view().contains(k)
                ==> #[trigger] final(self).token_of(k) == old(self).token_of(k),
    {
        let ghost ps = self.pending@;
        let ghost ks = key_seq(ps);
        let ghost key = (session_id@, request_id@);
        let token = token_new();
        let handed_out = token_clone(&token);
        let entry = Pending { session: session_id.duplicate(), request: request_id.duplicate(), token, receipt: None };
        match self.position(session_id, request_id) {
            Some(i) => {
                self.pending.remove(i);
                self.pending.insert(i, entry);
                proof {
                    let nps = self.pending@;
                    assert(nps =~= ps.update(i as int, entry));
                    assert(key_seq(nps) =~= ks.update(i as int, key));
                    assert(key_seq(nps) =~= ks);
                    assert(self.view().insert(key) =~= self.view());
                    assert forall|k: PendingKey| cancelled_set(nps).contains(k) <==> old(self).cancelled().remove(key).contains(k) by {
                        let x = lemma_key_position(ps, k);
                        if ks.contains(k) {
                            lemma_cancelled_entry(ps, x);
                            lemma_cancelled_entry(nps, x);
                            if x != i {
                                assert(nps[x] == ps[x]);
                                assert(ks[x] != ks[i as int]);
                            } else {
                                assert(nps[x] == entry);
                                assert(k == key);
                            }
                        } else {
                            lemma_cancelled_absent(ps, k);
                            lemma_cancelled_absent(nps, k);
                        }
                    }
                    assert(self.cancelled() =~= old(self).cancelled().remove(key));
                    lemma_index_of_key(nps, i as int);
                    assert forall|k: PendingKey| k != key && old(self).view().contains(k)
                        implies #[trigger] self.token_of(k) == old(self).token_of(k) by {
                        let x = lemma_key_position(ps, k);
                        lemma_index_of_key(ps, x);
                        lemma_index_of_key(nps, x);
                        assert(ks[x] != ks[i as int]);
                        assert(nps[x] == ps[x]);
                    }
                }
            },
            None => {
                self.pending.push(entry);
                proof {
                    let nps = self.pending@;
                    assert(nps =~= ps.push(entry));
                    assert(key_seq(nps) =~= ks.push(key));
                    assert(!ks.contains(key));
                    vstd::seq_lib::lemma_no_dup_in_concat(ks, seq![key]);
                    assert(ks + seq![key] =~= ks.push(key));
                    ks.lemma_push_to_set_commute(key);
                    assert forall|k: PendingKey| cancelled_set(nps).contains(k) <==> old(self).cancelled().remove(key).contains(k) by {
                        let x = lemma_key_position(ps, k);
                        if ks.contains(k) {
                            lemma_cancelled_entry(ps, x);
                            lemma_cancelled_entry(nps, x);
                            assert(nps[x] == ps[x]);
                        } else if k == key {
                            lemma_cancelled_absent(ps, k);
                            lemma_cancelled_entry(nps, ps.len() as int);
                        } else {
                            lemma_cancelled_absent(ps, k);
                            assert(!key_seq(nps).contains(k)) by {
                                if key_seq(nps).contains(k) {
                                    let y = choose|y: int| 0 <= y < key_seq(nps).len() && key_seq(nps)[y] == k;
                                    assert(y < ps.len());
                                    assert(ks[y] == k);
                                }
                            }
                            lemma_cancelled_absent(nps, k);
                        }
                    }
                    assert(self.cancelled() =~= old(self).cancelled().remove(key));
                    lemma_index_of_key(nps, ps.len() as int);
                    assert forall|k: PendingKey| k != key && old(self).view().contains(k)
                        implies #[trigger] self.token_of(k) == old(self).token_of(k) by {
                        let x = lemma_key_position(ps, k);
                        lemma_index_of_key(ps, x);
                        lemma_index_of_key(nps, x);
                        assert(nps[x] == ps[x]);
                    }
                }
            },
        }
        handed_out
    }

    /// Remove a completed request from tracking.
    ///
    /// Call this when the request completes (success or error).
    pub fn complete(&mut self, session_id: &SessionId, request_id: &RequestId)
        requires
            old(self).wf(),
        ensures
            final(self).wf(),
            final(self).view() == old(self).view().remove((session_id@, request_id@)),
            final(self).cancelled() == old(self).cancelled().remove((session_id@, request_id@)),
            forall|k: PendingKey| final(self).view().contains(k)
                ==> #[trigger] final(self).token_of(k) == old(self).token_of(k),
    {
        let ghost ps = self.pending@;
        let ghost ks = key_seq(ps);
        let ghost key = (session_id@, request_id@);
        match self.position(session_id, request_id) {
            Some(i) => {
                self.pending.remove(i);
                proof {
                    let nps = self.pending@;
                    let nk = key_seq(nps);
                    assert(nk =~= ks.remove(i as int));
                    assert forall|a: int, b: int| 0 <= a < nk.len() && 0 <= b < nk.len() && a != b implies nk[a] != nk[b] by {
                        let a0 = if a < i { a } else { a + 1 };
                        let b0 = if b < i { b } else { b + 1 };
                        assert(ks[a0] != ks[b0]);
                    }
                    assert forall|k: PendingKey| nk.contains(k) <==> (ks.contains(k) && k != key) by {
                        if nk.contains(k) {
                            let a = choose|a: int| 0 <= a < nk.len() && nk[a] == k;
                            let a0 = if a < i { a } else { a + 1 };
                            assert(ks[a0] == k);
                            assert(a0 != i);
                        }
                        if ks.contains(k) && k != key {
                            let a = choose|a: int| 0 <= a < ks.len() && ks[a] == k;
                            assert(a != i);
                            let a2 = if a < i { a } else { a - 1 };
                            assert(nk[a2] == k);
                        }
                    }
                    assert(self.view() =~= old(self).view().remove(key));
                    assert forall|k: PendingKey| cancelled_set(nps).contains(k) <==> old(self).cancelled().remove(key).contains(k) by {
                        if nk.contains(k) {
                            let a = choose|a: int| 0 <= a < nk.len() && nk[a] == k;
                            let a0 = if a < i { a } else { a + 1 };
                            assert(nps[a] == ps[a0]);
                            lemma_cancelled_entry(nps, a);
                            lemma_cancelled_entry(ps, a0);
                        } else {
                            lemma_cancelled_absent(nps, k);
                            if k != key {
                                lemma_cancelled_absent(ps, k);
                            }
                        }
                    }
                    assert(self.cancelled() =~= old(self).cancelled().remove(key));
                    assert forall|k: PendingKey| self.view().contains(k)
                        implies #[trigger] self.token_of(k) == old(self).token_of(k) by {
                        let a = choose|a: int| 0 <= a < nk.len() && nk[a] == k;
                        let a0 = if a < i { a } else { a + 1 };
                        assert(nps[a] == ps[a0]);
                        lemma_index_of_key(nps, a);
                        lemma_index_of_key(ps, a0);
                    }
                }
            },
            None => {
                proof {
                    assert(self.view().remove(key) =~= self.view());
                    lemma_cancelled_absent(ps, key);
                    assert(self.cancelled().remove(key) =~= self.cancelled());
                }
            },
        }
    }

    /// Cancel a pending request.
    ///
    /// Returns `true` if the request was found (its token is then
    /// cancelled), `false` otherwise. The request stays tracked until it
    /// completes.
    pub fn cancel(&mut self, session_id: &SessionId, request_id: &RequestId) -> (found: bool)
        requires
            old(self).wf(),
        ensures
            final(self).wf(),
            found == old(self).view().contains((session_id@, request_id@)),
            final(self).view() == old(self).view(),
            final(self).cancelled() == (if found {
                old(self).cancelled().insert((session_id@, request_id@))
            } else {
                old(self).cancelled()
            }),
            forall|k: PendingKey| old(self).view().contains(k)
                ==> #[trigger] final(self).token_of(k) == old(self).token_of(k),
            found ==> (final(self).cancel_evidence((session_id@, request_id@)) matches Some(c)
                && c.token() == old(self).token_of((session_id@, request_id@))),
    {
        let ghost ps = self.pending@;
        let ghost ks = key_seq(ps);
        let ghost key = (session_id@, request_id@);
        match self.position(session_id, request_id) {
            Some(i) => {
                let mut p = self.pending.remove(i);
                let c = token_cancel(&p.token);
                p.receipt = Some(c);
                self.pending.insert(i, p);
                proof {
                    let nps = self.pending@;
                    assert(nps =~= ps.update(i as int, p));
                    assert(key_seq(nps) =~= ks);
                    assert(ks.contains(key));
                    assert forall|k: PendingKey| cancelled_set(nps).contains(k) <==> old(self).cancelled().insert(key).contains(k) by {
                        let x = lemma_key_position(ps, k);
                        if ks.contains(k) {
                            lemma_cancelled_entry(ps, x);
                            lemma_cancelled_entry(nps, x);
                            if x != i {
                                assert(nps[x] == ps[x]);
                                assert(ks[x] != ks[i as int]);
                            } else {
                                assert(nps[x] == p);
                                assert(k == key);
                            }
                        } else {
                            lemma_cancelled_absent(ps, k);
                            lemma_cancelled_absent(nps, k);
                        }
                    }
                    assert(self.cancelled() =~= old(self).cancelled().insert(key));
                    assert forall|k: PendingKey| old(self).view().contains(k)
                        implies #[trigger] self.token_of(k) == old(self).token_of(k) by {
                        let x = lemma_key_position(ps, k);
                        lemma_index_of_key(ps, x);
                        lemma_index_of_key(nps, x);
                    }
                    lemma_index_of_key(nps, i as int);
                    lemma_index_of_key(ps, i as int);
                }
                true
            },
            None => false,
        }
    }

    /// Stop tracking every request of a session and hand back their tokens:
    /// one per request of the session, each the token that request was
    /// tracked with.
    pub fn remove_session(&mut self, session_id: &SessionId) -> (removed: Vec<CancellationToken>)
        requires
            old(self).wf(),
        ensures
            final(self).wf(),
            final(self).view() == old(self).view().filter(|k: PendingKey| k.0 != session_id@),
            final(self).cancelled() == old(self).cancelled().filter(|k: PendingKey| k.0 != session_id@),
            forall|k: PendingKey| final(self).view().contains(k)
                ==> #[trigger] final(self).token_of(k) == old(self).token_of(k),
            forall|a: int| 0 <= a < removed@.len() ==> old(self).is_session_token(session_id@, #[trigger] removed@[a]),
            forall|k: PendingKey| old(self).view().contains(k) && k.0 == session_id@
                ==> removed@.contains(#[trigger] old(self).token_of(k)),
            removed@.len() + final(self).view().len() == old(self).view().len(),
    {
        let ghost ps = self.pending@;
        let ghost ks = key_seq(ps);
        let ghost sid = session_id@;
        let mut kept: Vec<Pending> = Vec::new();
        let mut removed: Vec<CancellationToken> = Vec::new();
        let ghost mut origin: Seq<int> = Seq::empty();
        let ghost mut rorigin: Seq<int> = Seq::empty();
        let mut i: usize = 0;
        while i < self.pending.len()
            invariant
                sid == session_id@,
                ps == self.pending@,
                ks == key_seq(ps),
                ks.no_duplicates(),
                i <= ks.len(),
                key_seq(kept@).no_duplicates(),
                origin.len() == kept@.len(),
                forall|a: int| 0 <= a < kept@.len() ==> #[trigger] origin[a] < i,
                forall|a: int| 0 <= a < kept@.len() ==> #[trigger] copy_of(ps, origin[a], kept@[a]),
                forall|a: int| 0 <= a < kept@.len() ==> (#[trigger] key_of(kept@[a])).0 != sid,
                forall|j: int| 0 <= j < i && (#[trigger] ks[j]).0 != sid ==> key_seq(kept@).contains(ks[j]),
                rorigin.len() == removed@.len(),
                removed@.len() + kept@.len() == i,
                forall|a: int| 0 <= a < removed@.len() ==> 0 <= #[trigger] rorigin[a] < i
                    && ks[rorigin[a]].0 == sid && removed@[a] == ps[rorigin[a]].token,
                forall|j: int| 0 <= j < i && (#[trigger] ks[j]).0 == sid ==> removed@.contains(ps[j].token),
            decreases ks.len() - i,
        {
            let p = &self.pending[i];
            proof {
                assert(ks[i as int] == key_of(*p));
            }
            if p.session.0 == session_id.0 {
                let ghost rb = removed@;
                let ghost rob = rorigin;
                removed.push(token_clone(&p.token));
                proof {
                    rorigin = rorigin.push(i as int);
                    assert forall|a: int| 0 <= a < removed@.len() implies 0 <= #[trigger] rorigin[a] < i + 1
                        && ks[rorigin[a]].0 == sid && removed@[a] == ps[rorigin[a]].token by {
                        if a < rb.len() {
                            assert(rorigin[a] == rob[a]);
                            assert(removed@[a] == rb[a]);
                        }
                    }
                    assert forall|j: int| 0 <= j < i + 1 && (#[trigger] ks[j]).0 == sid implies removed@.contains(ps[j].token) by {
                        if j < i {
                            let a = choose|a: int| 0 <= a < rb.len() && rb[a] == ps[j].token;
                            assert(removed@[a] == rb[a]);
                        } else {
                            assert(removed@[rb.len() as int] == ps[j].token);
                        }
                    }
                    assert forall|j: int| 0 <= j < i + 1 && (#[trigger] ks[j]).0 != sid implies key_seq(kept@).contains(ks[j]) by {
                        assert(j < i);
                    }
                }
            } else {
                let ghost kb = kept@;
                let q = Pending {
                    session: p.session.duplicate(),
                    request: p.request.duplicate(),
                    token: token_clone(&p.token),
                    receipt: p.receipt,
                };
                kept.push(q);
                proof {
                    let x = ks[i as int];
                    let nk = key_seq(kept@);
                    assert(key_seq(kept@) =~= key_seq(kb).push(x));
                    assert(!key_seq(kb).contains(x)) by {
                        if key_seq(kb).contains(x) {
                            let a = choose|a: int| 0 <= a < key_seq(kb).len() && key_seq(kb)[a] == x;
                            let j = origin[a];
                            assert(copy_of(ps, j, kb[a]));
                            assert(ks[j] == ks[i as int]);
                        }
                    }
                    assert forall|a: int, b: int| 0 <= a < nk.len() && 0 <= b < nk.len() && a != b implies nk[a] != nk[b] by {
                        if a < kb.len() && b < kb.len() {
                            assert(key_seq(kb)[a] != key_seq(kb)[b]);
                        } else if a < kb.len() {
                            assert(key_seq(kb).contains(key_seq(kb)[a]));
                        } else {
                            assert(key_seq(kb).contains(key_seq(kb)[b]));
                        }
                    }
                    let ob = origin;
                    origin = origin.push(i as int);
                    assert(kept@ =~= kb.push(q));
                    assert forall|a: int| 0 <= a < kept@.len() implies #[trigger] origin[a] < i + 1 by {
                        if a < kb.len() {
                            assert(origin[a] == ob[a]);
                        }
                    }
                    assert forall|a: int| 0 <= a < kept@.len() implies #[trigger] copy_of(ps, origin[a], kept@[a]) by {
                        if a < kb.len() {
                            assert(kept@[a] == kb[a]);
                            assert(origin[a] == ob[a]);
                            assert(copy_of(ps, ob[a], kb[a]));
                        }
                    }
                    assert forall|a: int| 0 <= a < kept@.len() implies (#[trigger] key_of(kept@[a])).0 != sid by {
                        if a < kb.len() {
                            assert(kept@[a] == kb[a]);
                        }
                    }
                    assert forall|j: int| 0 <= j < i + 1 && (#[trigger] ks[j]).0 == sid implies removed@.contains(ps[j].token) by {
                        assert(j < i);
                    }
                    assert forall|j: int| 0 <= j < i + 1 && (#[trigger] ks[j]).0 != sid implies nk.contains(ks[j]) by {
                        if j < i {
                            assert(key_seq(kb).contains(ks[j]));
                            let a = choose|a: int| 0 <= a < key_seq(kb).len() && key_seq(kb)[a] == ks[j];
                            assert(nk[a] == ks[j]);
                        } else {
                            assert(nk[kb.len() as int] == x);
                        }
                    }
                }
            }
            i = i + 1;
        }
        self.pending = kept;
        proof {
            let nps = self.pending@;
            let nk = key_seq(nps);
            assert forall|k: PendingKey| nk.contains(k) <==> (ks.contains(k) && k.0 != sid) by {
                if nk.contains(k) {
                    let a = choose|a: int| 0 <= a < nk.len() && nk[a] == k;
                    let j = origin[a];
                    assert(copy_of(ps, j, nps[a]));
                    assert(ks[j] == k);
                }
                if ks.contains(k) && k.0 != sid {
                    let j = choose|j: int| 0 <= j < ks.len() && ks[j] == k;
                    assert(nk.contains(ks[j]));
                }
            }
            assert(self.view() =~= old(self).view().filter(|k: PendingKey| k.0 != sid));
            assert forall|k: PendingKey| cancelled_set(nps).contains(k) <==> old(self).cancelled().filter(|k: PendingKey| k.0 != sid).contains(k) by {
                if nk.contains(k) {
                    let a = choose|a: int| 0 <= a < nk.len() && nk[a] == k;
                    let j = origin[a];
                    assert(copy_of(ps, j, nps[a]));
                    lemma_cancelled_entry(nps, a);
                    lemma_cancelled_entry(ps, j);
                    assert(key_of(nps[a]).0 != sid);
                } else {
                    lemma_cancelled_absent(nps, k);
                    if k.0 != sid && ks.contains(k) {
                        assert(nk.contains(k));
                    }
                    if !ks.contains(k) {
                        lemma_cancelled_absent(ps, k);
                    }
                }
            }
            assert(self.cancelled() =~= old(self).cancelled().filter(|k: PendingKey| k.0 != sid));
            assert forall|k: PendingKey| self.view().contains(k)
                implies #[trigger] self.token_of(k) == old(self).token_of(k) by {
                let a = choose|a: int| 0 <= a < nk.len() && nk[a] == k;
                let j = origin[a];
                assert(copy_of(ps, j, nps[a]));
                lemma_index_of_key(nps, a);
                lemma_index_of_key(ps, j);
            }
            assert forall|a: int| 0 <= a < removed@.len() implies old(self).is_session_token(session_id@, #[trigger] removed@[a]) by {
                let j = rorigin[a];
                lemma_index_of_key(ps, j);
                assert(ks.contains(ks[j]));
                assert(old(self).view().contains(ks[j]));
                assert(ks[j].0 == session_id@);
                assert(removed@[a] == old(self).token_of(ks[j]));
                assert(in_session(ks[j], session_id@));
            }
            assert forall|k: PendingKey| old(self).view().contains(k) && k.0 == sid
                implies removed@.contains(#[trigger] old(self).token_of(k)) by {
                let j = choose|j: int| 0 <= j < ks.len() && ks[j] == k;
                lemma_index_of_key(ps, j);
            }
            ks.unique_seq_to_set();
            nk.unique_seq_to_set();
            assert forall|a: int| 0 <= a < nps.len() implies ((#[trigger] nps[a]).receipt matches Some(c) ==> c.token() == nps[a].token) by {
                let j = origin[a];
                assert(copy_of(ps, j, nps[a]));
                assert(receipts_match(ps));
                assert(ps[j].receipt matches Some(c) ==> c.token() == ps[j].token);
            }
        }
        removed
    }

    /// Cancel all pending requests for a session and stop tracking them.
    ///
    /// Call this when a session disconnects.
    pub fn cancel_all(&mut self, session_id: &SessionId)
        requires
            old(self).wf(),
        ensures
            final(self).wf(),
            final(self).view() == old(self).view().filter(|k: PendingKey| k.0 != session_id@),
            final(self).cancelled() == old(self).cancelled().filter(|k: PendingKey| k.0 != session_id@),
            forall|k: PendingKey| final(self).view().contains(k)
                ==> #[trigger] final(self).token_of(k) == old(self).token_of(k),
    {
        let removed = self.remove_session(session_id);
        let mut j: usize = 0;
        while j < removed.len()
            invariant
                j <= removed@.len(),
            decreases removed@.len() - j,
        {
            token_cancel(&removed[j]);
            j = j + 1;
        }
    }

    /// Get the number of pending requests.
    pub fn pending_count(&self) -> (n: usize)
        requires
            self.wf(),
        ensures
            n == self.view().len(),
    {
        proof {
            key_seq(self.pending@).unique_seq_to_set();
        }
        self.pending.len()
    }

    /// Check if a request is still pending: tracked, and its token not
    /// cancelled. A request this manager has cancelled is not pending;
    /// whether another holder of the token cancelled it is read from the
    /// token itself.
    pub fn is_pending(&self, session_id: &SessionId, request_id: &RequestId) -> (r: bool)
        requires
            self.wf(),
        ensures
            r ==> self.view().contains((session_id@, request_id@)),
            self.cancelled().contains((session_id@, request_id@)) ==> !r,
    {
        let manager_cancelled = self.cancelled_by_manager(session_id, request_id);
        match self.token_for(session_id, request_id) {
            Some(t) => {
                if manager_cancelled {
                    pending_status(true, true, true)
                } else {
                    let token_cancelled = token_is_cancelled(t);
                    pending_status(true, false, token_cancelled)
                }
            },
            None => pending_status(false, false, false),
        }
    }

    /// The cancellation token of a tracked request, or `None` when the
    /// request is not tracked.
    pub fn token_for(&self, session_id: &SessionId, request_id: &RequestId) -> (t: Option<&CancellationToken>)
        requires
            self.wf(),
        ensures
            t is Some == self.view().contains((session_id@, request_id@)),
            t matches Some(x) ==> *x == self.token_of((session_id@, request_id@)),
    {
        match self.position(session_id, request_id) {
            Some(i) => {
                proof {
                    assert(key_seq(self.pending@).contains((session_id@, request_id@)));
                    lemma_index_of_key(self.pending@, i as int);
                }
                Some(&self.pending[i].token)
            },
            None => None,
        }
    }

    /// Whether this manager has cancelled the request.
    fn cancelled_by_manager(&self, session_id: &SessionId, request_id: &RequestId) -> (r: bool)
        requires
            self.wf(),
        ensures
            r == self.cancelled().contains((session_id@, request_id@)),
    {
        match self.position(session_id, request_id) {
            Some(i) => {
                proof {
                    lemma_cancelled_entry(self.pending@, i as int);
                }
                self.pending[i].receipt.is_some()
            },
            None => {
                proof {
                    lemma_cancelled_absent(self.pending@, (session_id@, request_id@));
                }
                false
            },
        }
    }
}

/// Whether a request is pending, from whether it is tracked, whether the
/// manager has cancelled it, and whether its token reads as cancelled: it is
/// pending when tracked and cancelled by no one.
pub fn pending_status(is_tracked: bool, cancelled_by_manager: bool, token_cancelled: bool) -> (r: bool)
    ensures
        r == (is_tracked && !cancelled_by_manager && !token_cancelled),
{
    is_tracked && !cancelled_by_manager && !token_cancelled
}

/// A pending request held by its handler: it registers the request when
/// made and completes it when given back. (The automatic completion when
/// the guard is dropped, which needs an asynchronous task, is done by the
/// code that owns the shared manager.)
pub struct RequestGuard {
    session_id: SessionId,
    request_id: RequestId,
    token: CancellationToken,
}

impl RequestGuard {
    /// The key of the guarded request.
    pub closed spec fn key(&self) -> PendingKey {
        (self.session_id@, self.request_id@)
    }

    /// The guard's cancellation token.
    pub closed spec fn spec_token(&self) -> CancellationToken {
        self.token
    }

    /// Create a new request guard: registers the request with `manager`.
    pub fn new(manager: &mut CancellationManager, session_id: SessionId, request_id: RequestId) -> (g: RequestGuard)
        requires
            old(manager).wf(),
        ensures
            final(manager).wf(),
            g.key() == (session_id@, request_id@),
            g.spec_token() == final(manager).token_of((session_id@, request_id@)),
            final(manager).view() == old(manager).view().insert((session_id@, request_id@)),
            final(manager).cancelled() == old(manager).cancelled().remove((session_id@, request_id@)),
    {
        let token = manager.register(&session_id, &request_id);
        RequestGuard { session_id, request_id, token }
    }

    /// Get the cancellation token.
    pub fn token(&self) -> (t: &CancellationToken)
        ensures
            *t == self.spec_token(),
    {
        &self.token
    }

    /// Check if the request has been cancelled (read from the shared
    /// token).
    pub fn is_cancelled(&self) -> bool {
        token_is_cancelled(&self.token)
    }

    /// The request is done: stop tracking it.
    pub fn complete(self, manager: &mut CancellationManager)
        requires
            old(manager).wf(),
        ensures
            final(manager).wf(),
            final(manager).view() == old(manager).view().remove(self.key()),
            final(manager).cancelled() == old(manager).cancelled().remove(self.key()),
    {
        manager.complete(&self.session_id, &self.request_id);
    }

    /// The guarded request's session.
    pub fn session_id(&self) -> (s: &SessionId)
        ensures
            s@ == self.key().0,
    {
        &self.session_id
    }

    /// The guarded request's id.
    pub fn request_id(&self) -> (r: &RequestId)
        ensures
            r@ == self.key().1,
    {
        &self.request_id
    }
}

/// Cancelling reaches the handler's token: `before` tracks request `k`
/// under the token `t` that `register` handed out; `after` is what
/// `cancel` of `k` leaves (it keeps every tracked token and marks `k`
/// cancelled). Then `after` holds evidence that `t` itself was cancelled.
pub proof fn law_cancel_reaches_registered_token(
    before: CancellationManager,
    after: CancellationManager,
    k: PendingKey,
    t: CancellationToken,
)
    requires
        before.wf(),
        before.view().contains(k),
        before.token_of(k) == t,
        after.wf(),
        after.view() == before.view(),
        after.cancelled() == before.cancelled().insert(k),
        forall|x: PendingKey| before.view().contains(x) ==> #[trigger] after.token_of(x) == before.token_of(x),
    ensures
        after.cancel_evidence(k) matches Some(c) && c.token() == t,
{
    after.lemma_cancelled_token(k);
}

/// Registering a request that was not tracked and completing it gives back
/// the tracked requests there were before.
pub proof fn law_register_then_complete_restores(v: Set<PendingKey>, k: PendingKey)
    requires
        !v.contains(k),
    ensures
        v.insert(k).remove(k) == v,
{
    assert(v.insert(k).remove(k) =~= v);
}

/// Registering adds one pending request unless it was already tracked;
/// completing removes one when it was tracked.
pub proof fn law_pending_counts(v: Set<PendingKey>, k: PendingKey)
    requires
        v.finite(),
    ensures
        v.insert(k).len() == v.len() + (if v.contains(k) { 0int } else { 1int }),
        v.remove(k).len() == v.len() - (if v.contains(k) { 1int } else { 0int }),
{
}

/// A request that the manager cancelled is marked cancelled, which
/// `is_pending` reports as not pending, until it is registered afresh or
/// completed.
pub proof fn law_cancel_then_not_pending(cancelled: Set<PendingKey>, k: PendingKey)
    ensures
        cancelled.insert(k).contains(k),
        !cancelled.insert(k).remove(k).contains(k),
{
}

/// Cancelling everything of one session leaves none of its requests and
/// keeps every request of the other sessions.
pub proof fn law_cancel_all_only_that_session(v: Set<PendingKey>, session: Seq<char>, k: PendingKey)
    ensures
        k.0 == session ==> !v.filter(|x: PendingKey| x.0 != session).contains(k),
        k.0 != session ==> v.filter(|x: PendingKey| x.0 != session).contains(k) == v.contains(k),
{
}

} // verus!
