//! A one-to-many index from string keys to sets of string members, the
//! building block of the two-way subscription tables.

use vstd::prelude::*;
use crate::text::str_eq;

verus! {

broadcast use vstd::seq_lib::group_seq_properties;

/// The members registered under one key.
pub struct Group {
    pub key: String,
    pub members: Vec<String>,
}

impl Group {
    pub open spec fn member_views(&self) -> Seq<Seq<char>> {
        self.members@.map_values(|s: String| s@)
    }

    pub open spec fn pairs(&self) -> Seq<(Seq<char>, Seq<char>)> {
        self.member_views().map_values(|m: Seq<char>| (self.key@, m))
    }
}

/// The (key, member) pairs of a sequence of groups, group by group.
pub open spec fn pair_seq(gs: Seq<Group>) -> Seq<(Seq<char>, Seq<char>)>
    decreases gs.len(),
{
    if gs.len() == 0 {
        Seq::empty()
    } else {
        pair_seq(gs.drop_last()) + gs.last().pairs()
    }
}

/// Group `i` of `gs` holds member `m` under key `k`.
pub open spec fn in_group(gs: Seq<Group>, i: int, k: Seq<char>, m: Seq<char>) -> bool {
    &&& 0 <= i < gs.len()
    &&& gs[i].key@ == k
    &&& gs[i].member_views().contains(m)
}

pub open spec fn keys_distinct(gs: Seq<Group>) -> bool {
    forall|i: int, j: int| 0 <= i < gs.len() && 0 <= j < gs.len() && i != j ==> gs[i].key@ != gs[j].key@
}

pub open spec fn groups_wf(gs: Seq<Group>) -> bool {
    &&& keys_distinct(gs)
    &&& forall|i: int| 0 <= i < gs.len() ==> #[trigger] gs[i].members@.len() > 0
    &&& forall|i: int| 0 <= i < gs.len() ==> #[trigger] gs[i].member_views().no_duplicates()
}

pub proof fn lemma_pair_seq_contains(gs: Seq<Group>, k: Seq<char>, m: Seq<char>)
    ensures
        pair_seq(gs).contains((k, m)) <==> exists|i: int| #[trigger] in_group(gs, i, k, m),
    decreases gs.len(),
{
    if gs.len() > 0 {
        let init = gs.drop_last();
        let g = gs.last();
        lemma_pair_seq_contains(init, k, m);
        let ps = pair_seq(init) + g.pairs();
        if ps.contains((k, m)) {
            let idx = choose|idx: int| 0 <= idx < ps.len() && ps[idx] == (k, m);
            if idx < pair_seq(init).len() {
                assert(pair_seq(init).contains((k, m)));
                let i = choose|i: int| #[trigger] in_group(init, i, k, m);
                assert(in_group(gs, i, k, m));
            } else {
                let j = idx - pair_seq(init).len();
                assert(g.pairs()[j] == (k, m));
                assert(g.member_views()[j] == m);
                assert(in_group(gs, gs.len() - 1, k, m));
            }
        }
        if exists|i: int| #[trigger] in_group(gs, i, k, m) {
            let i = choose|i: int| #[trigger] in_group(gs, i, k, m);
            if i < gs.len() - 1 {
                assert(in_group(init, i, k, m));
                let idx = choose|idx: int| 0 <= idx < pair_seq(init).len() && pair_seq(init)[idx] == (k, m);
                assert(ps[idx] == (k, m));
            } else {
                let j = choose|j: int| 0 <= j < g.member_views().len() && g.member_views()[j] == m;
                assert(g.pairs()[j] == (k, m));
                assert(ps[pair_seq(init).len() + j] == (k, m));
            }
        }
    }
}

/// The key of group `i` lives in no other group.
pub proof fn lemma_key_owner(gs: Seq<Group>, i: int, m: Seq<char>)
    requires
        keys_distinct(gs),
        0 <= i < gs.len(),
    ensures
        (exists|j: int| #[trigger] in_group(gs, j, gs[i].key@, m)) <==> gs[i].member_views().contains(m),
{
    if exists|j: int| #[trigger] in_group(gs, j, gs[i].key@, m) {
        let j = choose|j: int| #[trigger] in_group(gs, j, gs[i].key@, m);
        assert(j == i);
    }
    if gs[i].member_views().contains(m) {
        assert(in_group(gs, i, gs[i].key@, m));
    }
}

/// Replacing group `i` by a group with the same key.
pub proof fn lemma_update_group(gs: Seq<Group>, i: int, g2: Group, k: Seq<char>, m: Seq<char>)
    requires
        keys_distinct(gs),
        0 <= i < gs.len(),
        g2.key@ == gs[i].key@,
    ensures
        keys_distinct(gs.update(i, g2)),
        (exists|j: int| #[trigger] in_group(gs.update(i, g2), j, k, m)) <==> (if k == gs[i].key@ {
            g2.member_views().contains(m)
        } else {
            exists|j: int| #[trigger] in_group(gs, j, k, m)
        }),
{
    let gs2 = gs.update(i, g2);
    assert forall|a: int, b: int| 0 <= a < gs2.len() && 0 <= b < gs2.len() && a != b implies gs2[a].key@ != gs2[b].key@ by {
        assert(gs2[a].key@ == gs[a].key@);
        assert(gs2[b].key@ == gs[b].key@);
    }
    if k == gs[i].key@ {
        assert(gs2[i] == g2);
        lemma_key_owner(gs2, i, m);
    } else {
        if exists|j: int| #[trigger] in_group(gs2, j, k, m) {
            let j = choose|j: int| #[trigger] in_group(gs2, j, k, m);
            assert(j != i);
            assert(in_group(gs, j, k, m));
        }
        if exists|j: int| #[trigger] in_group(gs, j, k, m) {
            let j = choose|j: int| #[trigger] in_group(gs, j, k, m);
            assert(j != i);
            assert(in_group(gs2, j, k, m));
        }
    }
}

/// Dropping group `i`.
pub proof fn lemma_remove_group(gs: Seq<Group>, i: int, k: Seq<char>, m: Seq<char>)
    requires
        keys_distinct(gs),
        0 <= i < gs.len(),
    ensures
        keys_distinct(gs.remove(i)),
        (exists|j: int| #[trigger] in_group(gs.remove(i), j, k, m)) <==> (k != gs[i].key@
            && exists|j: int| #[trigger] in_group(gs, j, k, m)),
{
    let gs2 = gs.remove(i);
    assert forall|a: int, b: int| 0 <= a < gs2.len() && 0 <= b < gs2.len() && a != b implies gs2[a].key@ != gs2[b].key@ by {
        let a0 = if a < i { a } else { a + 1 };
        let b0 = if b < i { b } else { b + 1 };
        assert(gs2[a] == gs[a0]);
        assert(gs2[b] == gs[b0]);
    }
    if exists|j: int| #[trigger] in_group(gs2, j, k, m) {
        let j = choose|j: int| #[trigger] in_group(gs2, j, k, m);
        let j0 = if j < i { j } else { j + 1 };
        assert(gs2[j] == gs[j0]);
        assert(in_group(gs, j0, k, m));
        assert(j0 != i);
    }
    if k != gs[i].key@ && exists|j: int| #[trigger] in_group(gs, j, k, m) {
        let j = choose|j: int| #[trigger] in_group(gs, j, k, m);
        assert(j != i);
        let j2 = if j < i { j } else { j - 1 };
        assert(gs2[j2] == gs[j]);
        assert(in_group(gs2, j2, k, m));
    }
}

/// Appending a group.
pub proof fn lemma_push_group(gs: Seq<Group>, g: Group, k: Seq<char>, m: Seq<char>)
    ensures
        (exists|j: int| #[trigger] in_group(gs.push(g), j, k, m)) <==> ((exists|j: int|
            #[trigger] in_group(gs, j, k, m)) || (k == g.key@ && g.member_views().contains(m))),
{
    let gs2 = gs.push(g);
    if exists|j: int| #[trigger] in_group(gs2, j, k, m) {
        let j = choose|j: int| #[trigger] in_group(gs2, j, k, m);
        if j < gs.len() {
            assert(in_group(gs, j, k, m));
        }
    }
    if exists|j: int| #[trigger] in_group(gs, j, k, m) {
        let j = choose|j: int| #[trigger] in_group(gs, j, k, m);
        assert(in_group(gs2, j, k, m));
    }
    if k == g.key@ && g.member_views().contains(m) {
        assert(in_group(gs2, gs.len() as int, k, m));
    }
}

pub proof fn lemma_pair_seq_no_duplicates(gs: Seq<Group>)
    requires
        groups_wf(gs),
    ensures
        pair_seq(gs).no_duplicates(),
    decreases gs.len(),
{
    if gs.len() > 0 {
        let init = gs.drop_last();
        let g = gs.last();
        assert(groups_wf(init)) by {
            assert forall|i: int| 0 <= i < init.len() implies #[trigger] init[i].members@.len() > 0 by {
                assert(init[i] == gs[i]);
            }
            assert forall|i: int| 0 <= i < init.len() implies #[trigger] init[i].member_views().no_duplicates() by {
                assert(init[i] == gs[i]);
            }
        }
        lemma_pair_seq_no_duplicates(init);
        assert(g.member_views().no_duplicates());
        assert(g.pairs().no_duplicates()) by {
            assert forall|a: int, b: int| 0 <= a < g.pairs().len() && 0 <= b < g.pairs().len() && a != b
                implies g.pairs()[a] != g.pairs()[b] by {
                assert(g.member_views()[a] != g.member_views()[b]);
            }
        }
        assert forall|a: int, b: int| 0 <= a < pair_seq(init).len() && 0 <= b < g.pairs().len()
            implies pair_seq(init)[a] != g.pairs()[b] by {
            let p = pair_seq(init)[a];
            assert(pair_seq(init).contains(p));
            lemma_pair_seq_contains(init, p.0, p.1);
            let i = choose|i: int| #[trigger] in_group(init, i, p.0, p.1);
            assert(gs[i].key@ != gs[gs.len() - 1].key@);
            assert(g.pairs()[b].0 == g.key@);
        }
        vstd::seq_lib::lemma_no_dup_in_concat(pair_seq(init), g.pairs());
    }
}

/// The sum of a sequence of counts.
pub open spec fn sum_nats(s: Seq<nat>) -> nat
    decreases s.len(),
{
    if s.len() == 0 { 0 } else { sum_nats(s.drop_last()) + s.last() }
}

proof fn lemma_pair_seq_len_is_sum(gs: Seq<Group>)
    ensures
        pair_seq(gs).len() == sum_nats(gs.map_values(|g: Group| g.members@.len())),
    decreases gs.len(),
{
    if gs.len() > 0 {
        lemma_pair_seq_len_is_sum(gs.drop_last());
        assert(gs.map_values(|g: Group| g.members@.len()).drop_last() =~= gs.drop_last().map_values(|g: Group| g.members@.len()));
    }
}

/// A one-to-many index: each key maps to a non-empty set of members.
pub struct PairIndex {
    groups: Vec<Group>,
}

impl PairIndex {
    /// The (key, member) pairs that the index holds.
    pub closed spec fn view(&self) -> Set<(Seq<char>, Seq<char>)> {
        pair_seq(self.groups@).to_set()
    }

    pub closed spec fn wf(&self) -> bool {
        groups_wf(self.groups@)
    }

    /// The members registered under `k`.
    pub open spec fn members_of(&self, k: Seq<char>) -> Set<Seq<char>> {
        Set::new(|m: Seq<char>| self.view().contains((k, m)))
    }

    proof fn lemma_view_contains(&self, k: Seq<char>, m: Seq<char>)
        ensures
            self.view().contains((k, m)) <==> exists|i: int| #[trigger] in_group(self.groups@, i, k, m),
    {
        lemma_pair_seq_contains(self.groups@, k, m);
    }

    /// The number of pairs is the sum, over the keys in use, of the number
    /// of members under each key. Returns those keys.
    pub proof fn lemma_len_is_sum_of_counts(&self) -> (ks: Seq<Seq<char>>)
        requires
            self.wf(),
        ensures
            ks.no_duplicates(),
            forall|k: Seq<char>| ks.contains(k) <==> exists|m: Seq<char>| self.view().contains((k, m)),
            self.view().len() == sum_nats(ks.map_values(|k: Seq<char>| self.members_of(k).len())),
    {
        let gs = self.groups@;
        let ks = gs.map_values(|g: Group| g.key@);
        assert(ks.no_duplicates()) by {
            assert forall|a: int, b: int| 0 <= a < ks.len() && 0 <= b < ks.len() && a != b implies ks[a] != ks[b] by {
                assert(gs[a].key@ != gs[b].key@);
            }
        }
        assert forall|k: Seq<char>| ks.contains(k) <==> exists|m: Seq<char>| self.view().contains((k, m)) by {
            if ks.contains(k) {
                let i = choose|i: int| 0 <= i < ks.len() && ks[i] == k;
                assert(gs[i].members@.len() > 0);
                let m = gs[i].member_views()[0];
                assert(in_group(gs, i, k, m));
                self.lemma_view_contains(k, m);
            }
            if exists|m: Seq<char>| self.view().contains((k, m)) {
                let m = choose|m: Seq<char>| self.view().contains((k, m));
                self.lemma_view_contains(k, m);
                let i = choose|i: int| #[trigger] in_group(gs, i, k, m);
                assert(ks[i] == k);
            }
        }
        let counts = ks.map_values(|k: Seq<char>| self.members_of(k).len());
        let lens = gs.map_values(|g: Group| g.members@.len());
        assert forall|i: int| 0 <= i < gs.len() implies counts[i] == lens[i] by {
            let mv = gs[i].member_views();
            assert(mv.no_duplicates());
            assert forall|m: Seq<char>| mv.to_set().contains(m) <==> self.members_of(gs[i].key@).contains(m) by {
                self.lemma_view_contains(gs[i].key@, m);
                lemma_key_owner(gs, i, m);
            }
            assert(mv.to_set() =~= self.members_of(gs[i].key@));
            mv.unique_seq_to_set();
        }
        assert(counts =~= lens);
        lemma_pair_seq_len_is_sum(gs);
        lemma_pair_seq_no_duplicates(gs);
        pair_seq(gs).unique_seq_to_set();
        ks
    }

    pub proof fn lemma_view_finite(&self)
        ensures
            self.view().finite(),
    {
        vstd::seq_lib::seq_to_set_is_finite(pair_seq(self.groups@));
    }

    pub fn new() -> (r: Self)
        ensures
            r.wf(),
            r.view() == Set::<(Seq<char>, Seq<char>)>::empty(),
    {
        let r = PairIndex { groups: Vec::new() };
        assert(pair_seq(r.groups@) =~= Seq::empty());
        assert(r.view() =~= Set::<(Seq<char>, Seq<char>)>::empty());
        r
    }

    /// Whether member `m` is registered under key `k`.
    pub fn contains(&self, k: &str, m: &str) -> (r: bool)
        requires
            self.wf(),
        ensures
            r == self.view().contains((k@, m@)),
    {
        proof {
            self.lemma_view_contains(k@, m@);
        }
        match self.find(k) {
            None => false,
            Some(i) => {
                proof {
                    lemma_key_owner(self.groups@, i as int, m@);
                }
                member_pos(&self.groups[i], m).is_some()
            },
        }
    }

    /// Registers `m` under `k`. Returns whether the pair is new.
    pub fn insert(&mut self, k: String, m: String) -> (r: bool)
        requires
            old(self).wf(),
        ensures
            final(self).wf(),
            r == !old(self).view().contains((k@, m@)),
            final(self).view() == old(self).view().insert((k@, m@)),
    {
        let ghost gs = self.groups@;
        let ghost ks = k@;
        let ghost ms = m@;
        proof {
            self.lemma_view_contains(ks, ms);
        }
        match self.find(k.as_str()) {
            Some(i) => {
                proof {
                    lemma_key_owner(gs, i as int, ms);
                }
                if member_pos(&self.groups[i], m.as_str()).is_some() {
                    proof {
                        assert(self.view().insert((ks, ms)) =~= self.view());
                    }
                    return false;
                }
                let mut g = self.groups.remove(i);
                let ghost old_mv = g.member_views();
                g.members.push(m);
                assert(g.member_views() =~= old_mv.push(ms));
                self.groups.insert(i, g);
                proof {
                    assert(self.groups@ =~= gs.update(i as int, g));
                    assert forall|x: int| 0 <= x < self.groups@.len() implies #[trigger] self.groups@[x].members@.len() > 0 by {
                        if x != i { assert(self.groups@[x] == gs[x]); }
                    }
                    assert(old_mv == gs[i as int].member_views());
                    assert(!old_mv.contains(ms));
                    assert(gs[i as int].member_views().no_duplicates());
                    assert(g.member_views().no_duplicates()) by {
                        let mv = g.member_views();
                        assert forall|a: int, b: int| 0 <= a < mv.len() && 0 <= b < mv.len() && a != b
                            implies mv[a] != mv[b] by {
                            if a < old_mv.len() && b < old_mv.len() {
                                assert(old_mv[a] != old_mv[b]);
                            } else if a < old_mv.len() {
                                assert(old_mv[a] != ms);
                            } else {
                                assert(old_mv[b] != ms);
                            }
                        }
                    }
                    assert forall|x: int| 0 <= x < self.groups@.len() implies #[trigger] self.groups@[x].member_views().no_duplicates() by {
                        if x != i { assert(self.groups@[x] == gs[x]); }
                    }
                    assert forall|p: (Seq<char>, Seq<char>)| self.view().contains(p) <==> old(self).view().insert((ks, ms)).contains(p) by {
                        lemma_pair_seq_contains(gs, p.0, p.1);
                        lemma_pair_seq_contains(self.groups@, p.0, p.1);
                        lemma_update_group(gs, i as int, g, p.0, p.1);
                        lemma_key_owner(gs, i as int, p.1);
                    }
                    assert(self.view() =~= old(self).view().insert((ks, ms)));
                }
                true
            },
            None => {
                let mut members: Vec<String> = Vec::new();
                members.push(m);
                let g = Group { key: k, members };
                assert(g.member_views() =~= seq![ms]);
                self.groups.push(g);
                proof {
                    assert(self.groups@ =~= gs.push(g));
                    assert forall|a: int, b: int| 0 <= a < self.groups@.len() && 0 <= b < self.groups@.len() && a != b
                        implies self.groups@[a].key@ != self.groups@[b].key@ by {
                        if a < gs.len() && b < gs.len() {
                            assert(gs[a].key@ != gs[b].key@);
                        }
                    }
                    assert forall|x: int| 0 <= x < self.groups@.len() implies #[trigger] self.groups@[x].members@.len() > 0 by {
                        if x < gs.len() { assert(self.groups@[x] == gs[x]); }
                    }
                    assert forall|x: int| 0 <= x < self.groups@.len() implies #[trigger] self.groups@[x].member_views().no_duplicates() by {
                        if x < gs.len() {
                            assert(self.groups@[x] == gs[x]);
                        } else {
                            assert(self.groups@[x] == g);
                            assert(g.member_views().no_duplicates()) by {
                                assert(g.member_views() =~= seq![ms]);
                                assert forall|a: int, b: int| 0 <= a < g.member_views().len() && 0 <= b < g.member_views().len() && a != b
                                    implies g.member_views()[a] != g.member_views()[b] by {
                                    assert(g.member_views().len() == 1);
                                }
                            }
                        }
                    }
                    assert forall|p: (Seq<char>, Seq<char>)| self.view().contains(p) <==> old(self).view().insert((ks, ms)).contains(p) by {
                        lemma_pair_seq_contains(gs, p.0, p.1);
                        lemma_pair_seq_contains(self.groups@, p.0, p.1);
                        lemma_push_group(gs, g, p.0, p.1);
                        if p.0 == ks && exists|j: int| #[trigger] in_group(gs, j, p.0, p.1) {
                            let j = choose|j: int| #[trigger] in_group(gs, j, p.0, p.1);
                            assert(gs[j].key@ == ks);
                        }
                    }
                    assert(self.view() =~= old(self).view().insert((ks, ms)));
                }
                true
            },
        }
    }

    /// Unregisters `m` from `k`, dropping `k` when no member is left.
    /// Returns whether the pair was present.
    pub fn remove(&mut self, k: &str, m: &str) -> (r: bool)
        requires
            old(self).wf(),
        ensures
            final(self).wf(),
            r == old(self).view().contains((k@, m@)),
            final(self).view() == old(self).view().remove((k@, m@)),
    {
        let ghost gs = self.groups@;
        let ghost ks = k@;
        let ghost ms = m@;
        proof {
            self.lemma_view_contains(ks, ms);
        }
        match self.find(k) {
            None => {
                assert(self.view().remove((ks, ms)) =~= self.view());
                false
            },
            Some(i) => {
                proof {
                    lemma_key_owner(gs, i as int, ms);
                }
                match member_pos(&self.groups[i], m) {
                    None => {
                        assert(self.view().remove((ks, ms)) =~= self.view());
                        false
                    },
                    Some(j) => {
                        let mut g = self.groups.remove(i);
                        let ghost old_mv = g.member_views();
                        proof {
                            assert(old_mv == gs[i as int].member_views());
                            assert(gs[i as int].member_views().no_duplicates());
                            assert(gs[i as int].members@.len() > 0);
                        }
                        g.members.remove(j);
                        let ghost new_mv = g.member_views();
                        proof {
                            assert(new_mv =~= old_mv.remove(j as int));
                            assert forall|x: Seq<char>| new_mv.contains(x) <==> (old_mv.contains(x) && x != ms) by {
                                if new_mv.contains(x) {
                                    let a = choose|a: int| 0 <= a < new_mv.len() && new_mv[a] == x;
                                    let a0 = if a < j { a } else { a + 1 };
                                    assert(old_mv[a0] == x);
                                    assert(a0 != j);
                                    assert(old_mv[j as int] == ms);
                                }
                                if old_mv.contains(x) && x != ms {
                                    let a = choose|a: int| 0 <= a < old_mv.len() && old_mv[a] == x;
                                    assert(a != j);
                                    let a2 = if a < j { a } else { a - 1 };
                                    assert(new_mv[a2] == x);
                                }
                            }
                            assert(new_mv.no_duplicates()) by {
                                assert forall|a: int, b: int| 0 <= a < new_mv.len() && 0 <= b < new_mv.len() && a != b
                                    implies new_mv[a] != new_mv[b] by {
                                    let a0 = if a < j { a } else { a + 1 };
                                    let b0 = if b < j { b } else { b + 1 };
                                    assert(old_mv[a0] != old_mv[b0]);
                                }
                            }
                        }
                        if g.members.len() > 0 {
                            self.groups.insert(i, g);
                            proof {
                                assert(self.groups@ =~= gs.update(i as int, g));
                                assert forall|x: int| 0 <= x < self.groups@.len() implies #[trigger] self.groups@[x].members@.len() > 0 by {
                                    if x != i { assert(self.groups@[x] == gs[x]); }
                                }
                                assert forall|x: int| 0 <= x < self.groups@.len() implies #[trigger] self.groups@[x].member_views().no_duplicates() by {
                                    if x != i { assert(self.groups@[x] == gs[x]); }
                                }
                                assert forall|p: (Seq<char>, Seq<char>)| self.view().contains(p) <==> old(self).view().remove((ks, ms)).contains(p) by {
                                    lemma_pair_seq_contains(gs, p.0, p.1);
                                    lemma_pair_seq_contains(self.groups@, p.0, p.1);
                                    lemma_update_group(gs, i as int, g, p.0, p.1);
                                    lemma_key_owner(gs, i as int, p.1);
                                }
                                assert(self.view() =~= old(self).view().remove((ks, ms)));
                            }
                        } else {
                            proof {
                                assert(self.groups@ =~= gs.remove(i as int));
                                assert(old_mv.len() == 1);
                                assert forall|x: int| 0 <= x < self.groups@.len() implies #[trigger] self.groups@[x].members@.len() > 0 by {
                                    let x0 = if x < i { x } else { x + 1 };
                                    assert(self.groups@[x] == gs[x0]);
                                }
                                assert forall|x: int| 0 <= x < self.groups@.len() implies #[trigger] self.groups@[x].member_views().no_duplicates() by {
                                    let x0 = if x < i { x } else { x + 1 };
                                    assert(self.groups@[x] == gs[x0]);
                                }
                                assert forall|p: (Seq<char>, Seq<char>)| self.view().contains(p) <==> old(self).view().remove((ks, ms)).contains(p) by {
                                    lemma_pair_seq_contains(gs, p.0, p.1);
                                    lemma_pair_seq_contains(self.groups@, p.0, p.1);
                                    lemma_remove_group(gs, i as int, p.0, p.1);
                                    lemma_key_owner(gs, i as int, p.1);
                                    if old_mv.contains(p.1) {
                                        let a = choose|a: int| 0 <= a < old_mv.len() && old_mv[a] == p.1;
                                        assert(a == 0);
                                        assert(old_mv[j as int] == ms);
                                    }
                                }
                                assert(self.view() =~= old(self).view().remove((ks, ms)));
                            }
                        }
                        true
                    },
                }
            },
        }
    }

    /// Drops key `k` with all its members, and returns those members.
    pub fn take_key(&mut self, k: &str) -> (r: Vec<String>)
        requires
            old(self).wf(),
        ensures
            final(self).wf(),
            r@.map_values(|s: String| s@).no_duplicates(),
            forall|m: Seq<char>| r@.map_values(|s: String| s@).contains(m) <==> old(self).view().contains((k@, m)),
            final(self).view() == old(self).view().filter(|p: (Seq<char>, Seq<char>)| p.0 != k@),
    {
        let ghost gs = self.groups@;
        let ghost ks = k@;
        match self.find(k) {
            None => {
                proof {
                    assert forall|m: Seq<char>| !old(self).view().contains((ks, m)) by {
                        self.lemma_view_contains(ks, m);
                    }
                    assert forall|p: (Seq<char>, Seq<char>)| self.view().contains(p) implies p.0 != ks by {
                        self.lemma_view_contains(p.0, p.1);
                    }
                    assert(self.view().filter(|p: (Seq<char>, Seq<char>)| p.0 != ks) =~= self.view());
                }
                let r: Vec<String> = Vec::new();
                assert(r@.map_values(|s: String| s@) =~= Seq::<Seq<char>>::empty());
                r
            },
            Some(i) => {
                let g = self.groups.remove(i);
                proof {
                    assert(g == gs[i as int]);
                    assert(gs[i as int].member_views().no_duplicates());
                    assert(self.groups@ =~= gs.remove(i as int));
                    assert forall|x: int| 0 <= x < self.groups@.len() implies #[trigger] self.groups@[x].members@.len() > 0 by {
                        let x0 = if x < i { x } else { x + 1 };
                        assert(self.groups@[x] == gs[x0]);
                    }
                    assert forall|x: int| 0 <= x < self.groups@.len() implies #[trigger] self.groups@[x].member_views().no_duplicates() by {
                        let x0 = if x < i { x } else { x + 1 };
                        assert(self.groups@[x] == gs[x0]);
                    }
                    assert forall|m: Seq<char>| g.member_views().contains(m) <==> old(self).view().contains((ks, m)) by {
                        lemma_pair_seq_contains(gs, ks, m);
                        lemma_key_owner(gs, i as int, m);
                    }
                    assert forall|p: (Seq<char>, Seq<char>)| self.view().contains(p) <==> old(self).view().filter(|p: (Seq<char>, Seq<char>)| p.0 != ks).contains(p) by {
                        lemma_pair_seq_contains(gs, p.0, p.1);
                        lemma_pair_seq_contains(self.groups@, p.0, p.1);
                        lemma_remove_group(gs, i as int, p.0, p.1);
                    }
                    assert(self.view() =~= old(self).view().filter(|p: (Seq<char>, Seq<char>)| p.0 != ks));
                }
                g.members
            },
        }
    }

    /// The members registered under `k`, each once.
    pub fn members(&self, k: &str) -> (r: Vec<String>)
        requires
            self.wf(),
        ensures
            r@.map_values(|s: String| s@).no_duplicates(),
            forall|m: Seq<char>| r@.map_values(|s: String| s@).contains(m) <==> self.view().contains((k@, m)),
    {
        match self.find(k) {
            None => {
                proof {
                    assert forall|m: Seq<char>| !self.view().contains((k@, m)) by {
                        self.lemma_view_contains(k@, m);
                    }
                }
                let r: Vec<String> = Vec::new();
                assert(r@.map_values(|s: String| s@) =~= Seq::<Seq<char>>::empty());
                r
            },
            Some(i) => {
                let r = clone_strings(&self.groups[i].members);
                proof {
                    assert(r@.map_values(|s: String| s@) =~= self.groups@[i as int].member_views());
                    assert(self.groups@[i as int].member_views().no_duplicates());
                    assert forall|m: Seq<char>| self.groups@[i as int].member_views().contains(m) <==> self.view().contains((k@, m)) by {
                        self.lemma_view_contains(k@, m);
                        lemma_key_owner(self.groups@, i as int, m);
                    }
                }
                r
            },
        }
    }

    /// The number of members registered under `k`.
    pub fn count(&self, k: &str) -> (r: usize)
        requires
            self.wf(),
        ensures
            r == self.members_of(k@).len(),
    {
        match self.find(k) {
            None => {
                proof {
                    assert forall|m: Seq<char>| !self.view().contains((k@, m)) by {
                        self.lemma_view_contains(k@, m);
                    }
                    assert(self.members_of(k@) =~= Set::<Seq<char>>::empty());
                }
                0
            },
            Some(i) => {
                proof {
                    let mv = self.groups@[i as int].member_views();
                    assert(mv.no_duplicates());
                    assert forall|m: Seq<char>| mv.to_set().contains(m) <==> self.members_of(k@).contains(m) by {
                        self.lemma_view_contains(k@, m);
                        lemma_key_owner(self.groups@, i as int, m);
                    }
                    assert(mv.to_set() =~= self.members_of(k@));
                    mv.unique_seq_to_set();
                }
                self.groups[i].members.len()
            },
        }
    }

    /// The number of pairs held; `usize::MAX` if that number does not fit.
    pub fn total(&self) -> (r: usize)
        requires
            self.wf(),
        ensures
            r == (if self.view().len() <= usize::MAX { self.view().len() } else { usize::MAX as nat }),
    {
        let ghost gs = self.groups@;
        let mut acc: usize = 0;
        let mut i: usize = 0;
        while i < self.groups.len()
            invariant
                gs == self.groups@,
                i <= gs.len(),
                acc == (if pair_seq(gs.take(i as int)).len() <= usize::MAX {
                    pair_seq(gs.take(i as int)).len()
                } else {
                    usize::MAX as nat
                }),
            decreases gs.len() - i,
        {
            let n = self.groups[i].members.len();
            proof {
                assert(gs.take(i + 1).drop_last() =~= gs.take(i as int));
                assert(gs.take(i + 1).last() == gs[i as int]);
                assert(pair_seq(gs.take(i + 1)).len() == pair_seq(gs.take(i as int)).len() + n);
            }
            if acc <= usize::MAX - n {
                acc = acc + n;
            } else {
                acc = usize::MAX;
            }
            i = i + 1;
        }
        proof {
            assert(gs.take(gs.len() as int) =~= gs);
            lemma_pair_seq_no_duplicates(gs);
            pair_seq(gs).unique_seq_to_set();
        }
        acc
    }

    fn find(&self, k: &str) -> (r: Option<usize>)
        ensures
            r matches Some(i) ==> i < self.groups@.len() && self.groups@[i as int].key@ == k@,
            r is None ==> forall|i: int| 0 <= i < self.groups@.len() ==> self.groups@[i].key@ != k@,
    {
        let mut i: usize = 0;
        while i < self.groups.len()
            invariant
                i <= self.groups@.len(),
                forall|j: int| 0 <= j < i ==> self.groups@[j].key@ != k@,
            decreases self.groups@.len() - i,
        {
            if str_eq(self.groups[i].key.as_str(), k) {
                return Some(i);
            }
            i = i + 1;
        }
        None
    }
}

/// A copy of a vector of strings.
pub fn clone_strings(v: &Vec<String>) -> (r: Vec<String>)
    ensures
        r@.map_values(|s: String| s@) == v@.map_values(|s: String| s@),
        r@.len() == v@.len(),
{
    let mut r: Vec<String> = Vec::new();
    let mut i: usize = 0;
    while i < v.len()
        invariant
            i <= v@.len(),
            r@.len() == i,
            forall|x: int| 0 <= x < i ==> r@[x]@ == v@[x]@,
        decreases v@.len() - i,
    {
        r.push(v[i].clone());
        i = i + 1;
    }
    assert(r@.map_values(|s: String| s@) =~= v@.map_values(|s: String| s@));
    r
}

/// Position of `m` among the members of `g`.
fn member_pos(g: &Group, m: &str) -> (r: Option<usize>)
    ensures
        r matches Some(j) ==> j < g.members@.len() && g.member_views()[j as int] == m@,
        r is None ==> !g.member_views().contains(m@),
{
    let mut j: usize = 0;
    while j < g.members.len()
        invariant
            j <= g.members@.len(),
            forall|x: int| 0 <= x < j ==> g.members@[x]@ != m@,
        decreases g.members@.len() - j,
    {
        if str_eq(g.members[j].as_str(), m) {
            return Some(j);
        }
        j = j + 1;
    }
    None
}

} // verus!
