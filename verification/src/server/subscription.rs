//! Resource subscription management.
//!
//! Tracks which resources clients have subscribed to, enabling the server to
//! send targeted `notifications/resources/updated` when resources change.

use vstd::prelude::*;
use crate::server::pair_index::{PairIndex, sum_nats};
use crate::server::session::SessionId;
use crate::text::to_string;

verus! {

/// The same pairs with their two components swapped.
pub open spec fn flip(s: Set<(Seq<char>, Seq<char>)>) -> Set<(Seq<char>, Seq<char>)> {
    Set::new(|p: (Seq<char>, Seq<char>)| s.contains((p.1, p.0)))
}

/// Manages resource subscriptions across all sessions: one table from
/// resource URI to subscribed sessions and its mirror from session to URIs.
pub struct SubscriptionManager {
    /// resource URI -> subscribed session ids
    by_resource: PairIndex,
    /// session id -> subscribed resource URIs
    by_session: PairIndex,
}

impl SubscriptionManager {
    /// The active subscriptions, as (resource URI, session id) pairs.
    pub closed spec fn view(&self) -> Set<(Seq<char>, Seq<char>)> {
        self.by_resource.view()
    }

    /// The per-session table, as (session id, resource URI) pairs.
    pub closed spec fn session_view(&self) -> Set<(Seq<char>, Seq<char>)> {
        self.by_session.view()
    }

    /// Both tables are well formed and each is the mirror of the other.
    pub closed spec fn wf(&self) -> bool {
        &&& self.by_resource.wf()
        &&& self.by_session.wf()
        &&& self.by_session.view() == flip(self.by_resource.view())
    }

    /// The sessions subscribed to `uri`.
    pub open spec fn subscribers_of(&self, uri: Seq<char>) -> Set<Seq<char>> {
        Set::new(|s: Seq<char>| self.view().contains((uri, s)))
    }

    /// The resources `session` is subscribed to.
    pub open spec fn subscriptions_of(&self, session: Seq<char>) -> Set<Seq<char>> {
        Set::new(|u: Seq<char>| self.view().contains((u, session)))
    }

    /// The subscriptions are finitely many.
    pub proof fn lemma_view_finite(&self)
        requires
            self.wf(),
        ensures
            self.view().finite(),
    {
        self.by_resource.lemma_view_finite();
    }

    /// The total number of subscriptions is the sum of the subscriber counts
    /// of the resources that have subscribers. Returns those resources, each
    /// once.
    pub proof fn law_total_is_sum_of_subscriber_counts(&self) -> (resources: Seq<Seq<char>>)
        requires
            self.wf(),
        ensures
            resources.no_duplicates(),
            forall|u: Seq<char>| resources.contains(u) <==> exists|s: Seq<char>| self.view().contains((u, s)),
            self.view().len() == sum_nats(resources.map_values(|u: Seq<char>| self.subscribers_of(u).len())),
    {
        let ks = self.by_resource.lemma_len_is_sum_of_counts();
        assert forall|u: Seq<char>| #[trigger] self.subscribers_of(u) == self.by_resource.members_of(u) by {
            assert(self.subscribers_of(u) =~= self.by_resource.members_of(u));
        }
        assert(ks.map_values(|u: Seq<char>| self.subscribers_of(u).len())
            =~= ks.map_values(|k: Seq<char>| self.by_resource.members_of(k).len()));
        ks
    }

    /// The total number of subscriptions is the sum, over the sessions that
    /// hold subscriptions, of the number of resources each is subscribed
    /// to. Returns those sessions, each once.
    pub proof fn law_total_is_sum_over_sessions(&self) -> (sessions: Seq<Seq<char>>)
        requires
            self.wf(),
        ensures
            sessions.no_duplicates(),
            forall|s: Seq<char>| sessions.contains(s) <==> exists|u: Seq<char>| self.view().contains((u, s)),
            self.view().len() == sum_nats(sessions.map_values(|s: Seq<char>| self.subscriptions_of(s).len())),
    {
        let ks = self.by_session.lemma_len_is_sum_of_counts();
        assert forall|s: Seq<char>| #[trigger] self.subscriptions_of(s) == self.by_session.members_of(s) by {
            assert forall|u: Seq<char>| self.subscriptions_of(s).contains(u) == self.by_session.members_of(s).contains(u) by {
                assert(flip(self.view()).contains((s, u)) == self.view().contains((u, s)));
            }
            assert(self.subscriptions_of(s) =~= self.by_session.members_of(s));
        }
        assert forall|s: Seq<char>| ks.contains(s) <==> exists|u: Seq<char>| self.view().contains((u, s)) by {
            if exists|u: Seq<char>| self.view().contains((u, s)) {
                let u = choose|u: Seq<char>| self.view().contains((u, s));
                assert(flip(self.view()).contains((s, u)));
            }
            if ks.contains(s) {
                let u = choose|u: Seq<char>| self.by_session.view().contains((s, u));
                assert(self.view().contains((u, s)));
            }
        }
        assert(ks.map_values(|s: Seq<char>| self.subscriptions_of(s).len())
            =~= ks.map_values(|k: Seq<char>| self.by_session.members_of(k).len()));
        let swap = |p: (Seq<char>, Seq<char>)| (p.1, p.0);
        self.by_resource.lemma_view_finite();
        assert(self.view().map(swap) =~= self.session_view());
        vstd::set_lib::lemma_map_size(self.view(), self.session_view(), swap);
        ks
    }

    /// The per-session table always mirrors the per-resource table.
    pub proof fn law_tables_mirror_each_other(&self)
        requires
            self.wf(),
        ensures
            forall|u: Seq<char>, s: Seq<char>|
                self.view().contains((u, s)) <==> #[trigger] self.session_view().contains((s, u)),
    {
    }

    /// Create a new subscription manager.
    pub fn new() -> (m: Self)
        ensures
            m.wf(),
            m.view() == Set::<(Seq<char>, Seq<char>)>::empty(),
    {
        let r = PairIndex::new();
        let s = PairIndex::new();
        assert(flip(r.view()) =~= s.view());
        SubscriptionManager { by_resource: r, by_session: s }
    }

    /// Subscribe a session to a resource.
    ///
    /// Returns `true` if this is a new subscription, `false` if already
    /// subscribed.
    pub fn subscribe(&mut self, session_id: &SessionId, uri: &str) -> (is_new: bool)
        requires
            old(self).wf(),
        ensures
            final(self).wf(),
            is_new == !old(self).view().contains((uri@, session_id@)),
            final(self).view() == old(self).view().insert((uri@, session_id@)),
    {
        let ghost old_r = self.by_resource.view();
        let ghost old_s = self.by_session.view();
        let is_new = self.by_resource.insert(to_string(uri), session_id.0.clone());
        if is_new {
            self.by_session.insert(session_id.0.clone(), to_string(uri));
            proof {
                assert(old_s.contains((session_id@, uri@)) == old_r.contains((uri@, session_id@)));
                assert(self.by_session.view() =~= flip(self.by_resource.view()));
            }
        } else {
            proof {
                assert(self.by_resource.view() =~= old_r);
            }
        }
        is_new
    }

    /// Unsubscribe a session from a resource.
    ///
    /// Returns `true` if the subscription existed, `false` otherwise.
    pub fn unsubscribe(&mut self, session_id: &SessionId, uri: &str) -> (removed: bool)
        requires
            old(self).wf(),
        ensures
            final(self).wf(),
            removed == old(self).view().contains((uri@, session_id@)),
            final(self).view() == old(self).view().remove((uri@, session_id@)),
    {
        let ghost old_r = self.by_resource.view();
        let ghost old_s = self.by_session.view();
        let removed = self.by_resource.remove(uri, session_id.0.as_str());
        if removed {
            self.by_session.remove(session_id.0.as_str(), uri);
            proof {
                assert(self.by_session.view() =~= flip(self.by_resource.view()));
            }
        } else {
            proof {
                assert(self.by_resource.view() =~= old_r);
            }
        }
        removed
    }

    /// Unsubscribe a session from all resources.
    ///
    /// Call this when a session disconnects.
    pub fn unsubscribe_all(&mut self, session_id: &SessionId)
        requires
            old(self).wf(),
        ensures
            final(self).wf(),
            final(self).view() == old(self).view().filter(|p: (Seq<char>, Seq<char>)| p.1 != session_id@),
    {
        let ghost old_r = self.by_resource.view();
        let ghost sid = session_id@;
        let uris = self.by_session.take_key(session_id.0.as_str());
        let ghost uv = uris@.map_values(|s: String| s@);
        proof {
            assert forall|u: Seq<char>| uv.contains(u) <==> old_r.contains((u, sid)) by {
                assert(flip(old_r).contains((sid, u)) == old_r.contains((u, sid)));
            }
        }
        let mut i: usize = 0;
        while i < uris.len()
            invariant
                self.by_resource.wf(),
                self.by_session.wf(),
                sid == session_id@,
                uv == uris@.map_values(|s: String| s@),
                i <= uris@.len(),
                forall|u: Seq<char>| uv.contains(u) <==> old_r.contains((u, sid)),
                self.by_session.view() == flip(old_r).filter(|p: (Seq<char>, Seq<char>)| p.0 != sid),
                self.by_resource.view() == old_r.filter(|p: (Seq<char>, Seq<char>)| !(p.1 == sid && uv.take(i as int).contains(p.0))),
            decreases uris@.len() - i,
        {
            self.by_resource.remove(uris[i].as_str(), session_id.0.as_str());
            proof {
                assert(uv[i as int] == uris@[i as int]@);
                assert forall|p: (Seq<char>, Seq<char>)| self.by_resource.view().contains(p) <==>
                    old_r.filter(|p: (Seq<char>, Seq<char>)| !(p.1 == sid && uv.take(i + 1).contains(p.0))).contains(p) by {
                    assert(uv.take(i + 1) =~= uv.take(i as int).push(uv[i as int]));
                    if uv.take(i + 1).contains(p.0) && !uv.take(i as int).contains(p.0) {
                        assert(p.0 == uv[i as int]);
                    }
                    if p.0 == uv[i as int] {
                        assert(uv.take(i + 1)[i as int] == p.0);
                    }
                    if uv.take(i as int).contains(p.0) {
                        let x = choose|x: int| 0 <= x < i && uv.take(i as int)[x] == p.0;
                        assert(uv.take(i + 1)[x] == p.0);
                    }
                }
                assert(self.by_resource.view() =~= old_r.filter(|p: (Seq<char>, Seq<char>)| !(p.1 == sid && uv.take(i + 1).contains(p.0))));
            }
            i = i + 1;
        }
        proof {
            assert(uv.take(uris@.len() as int) =~= uv);
            assert(self.by_resource.view() =~= old_r.filter(|p: (Seq<char>, Seq<char>)| p.1 != sid));
            assert(self.by_session.view() =~= flip(self.by_resource.view()));
        }
    }

    /// Get all session IDs subscribed to a resource, each once.
    pub fn subscribers(&self, uri: &str) -> (r: Vec<SessionId>)
        requires
            self.wf(),
        ensures
            r@.map_values(|s: SessionId| s@).no_duplicates(),
            r@.map_values(|s: SessionId| s@).to_set() == self.subscribers_of(uri@),
    {
        let ids = self.by_resource.members(uri);
        let ghost iv = ids@.map_values(|s: String| s@);
        let mut r: Vec<SessionId> = Vec::new();
        let mut i: usize = 0;
        while i < ids.len()
            invariant
                i <= ids@.len(),
                iv == ids@.map_values(|s: String| s@),
                r@.map_values(|s: SessionId| s@) == iv.take(i as int),
            decreases ids@.len() - i,
        {
            r.push(SessionId(ids[i].clone()));
            assert(iv.take(i + 1) =~= iv.take(i as int).push(iv[i as int]));
            assert(r@.map_values(|s: SessionId| s@) =~= iv.take(i + 1));
            i = i + 1;
        }
        assert(iv.take(ids@.len() as int) =~= iv);
        assert(iv.to_set() =~= self.subscribers_of(uri@));
        r
    }

    /// Get all resources a session is subscribed to, each once.
    pub fn subscriptions(&self, session_id: &SessionId) -> (r: Vec<String>)
        requires
            self.wf(),
        ensures
            r@.map_values(|s: String| s@).no_duplicates(),
            r@.map_values(|s: String| s@).to_set() == self.subscriptions_of(session_id@),
    {
        let r = self.by_session.members(session_id.0.as_str());
        assert forall|u: Seq<char>| r@.map_values(|s: String| s@).contains(u) <==> self.view().contains((u, session_id@)) by {
            assert(flip(self.view()).contains((session_id@, u)) == self.view().contains((u, session_id@)));
        }
        assert(r@.map_values(|s: String| s@).to_set() =~= self.subscriptions_of(session_id@));
        r
    }

    /// Check if a session is subscribed to a resource.
    pub fn is_subscribed(&self, session_id: &SessionId, uri: &str) -> (r: bool)
        requires
            self.wf(),
        ensures
            r == self.view().contains((uri@, session_id@)),
    {
        self.by_resource.contains(uri, session_id.0.as_str())
    }

    /// Get the number of subscribers for a resource.
    pub fn subscriber_count(&self, uri: &str) -> (n: usize)
        requires
            self.wf(),
        ensures
            n == self.subscribers_of(uri@).len(),
    {
        let n = self.by_resource.count(uri);
        assert(self.by_resource.members_of(uri@) =~= self.subscribers_of(uri@));
        n
    }

    /// Get total number of active subscriptions (`usize::MAX` if that
    /// number does not fit).
    pub fn total_subscriptions(&self) -> (n: usize)
        requires
            self.wf(),
        ensures
            n == (if self.view().len() <= usize::MAX { self.view().len() } else { usize::MAX as nat }),
    {
        self.by_resource.total()
    }
}

/// Subscribing a session to a resource it was not subscribed to, then
/// unsubscribing it, gives back the subscriptions there were before.
pub proof fn law_subscribe_then_unsubscribe_restores(v: Set<(Seq<char>, Seq<char>)>, uri: Seq<char>, session: Seq<char>)
    requires
        !v.contains((uri, session)),
    ensures
        v.insert((uri, session)).remove((uri, session)) == v,
{
    assert(v.insert((uri, session)).remove((uri, session)) =~= v);
}

/// A second subscription of the same session to the same resource reports
/// that it is not new and changes nothing.
pub proof fn law_subscribe_is_idempotent(v: Set<(Seq<char>, Seq<char>)>, uri: Seq<char>, session: Seq<char>)
    ensures
        v.insert((uri, session)).contains((uri, session)),
        v.insert((uri, session)).insert((uri, session)) == v.insert((uri, session)),
{
    assert(v.insert((uri, session)).insert((uri, session)) =~= v.insert((uri, session)));
}

/// After a session unsubscribes from everything it holds no subscription,
/// and the subscriptions of every other session are untouched.
pub proof fn law_unsubscribe_all_clears_only_that_session(
    v: Set<(Seq<char>, Seq<char>)>,
    session: Seq<char>,
    uri: Seq<char>,
    other: Seq<char>,
)
    requires
        other != session,
    ensures
        !v.filter(|p: (Seq<char>, Seq<char>)| p.1 != session).contains((uri, session)),
        v.filter(|p: (Seq<char>, Seq<char>)| p.1 != session).contains((uri, other)) == v.contains((uri, other)),
{
}

/// A subscription is new exactly when it was not already there, and then
/// it adds one to the total; unsubscribing removes one exactly when it
/// existed.
pub proof fn law_subscription_counts(v: Set<(Seq<char>, Seq<char>)>, uri: Seq<char>, session: Seq<char>)
    requires
        v.finite(),
    ensures
        v.insert((uri, session)).len() == v.len() + (if v.contains((uri, session)) { 0int } else { 1int }),
        v.remove((uri, session)).len() == v.len() - (if v.contains((uri, session)) { 1int } else { 0int }),
{
}

} // verus!
