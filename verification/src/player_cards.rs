//! A map from each player to a stack of cards: the hands of a match and the cards
//! revealed in a round. The top of a stack is its last card.
use vstd::multiset::Multiset;
use vstd::prelude::*;

use crate::card::{Card, min_nat, pushed_to_front, top_cards};
use crate::lobby::PlayerId;

verus! {

/// Cards per player. Each player occurs at most once; the entries keep the order in
/// which players were first given a stack.
pub struct PlayerCards {
    entries: Vec<(PlayerId, Vec<Card>)>,
}

impl View for PlayerCards {
    type V = Map<PlayerId, Seq<Card>>;

    /// Each player with a stack, mapped to that stack.
    closed spec fn view(&self) -> Map<PlayerId, Seq<Card>> {
        Map::new(|p: PlayerId| self.has(p), |p: PlayerId| self.stack(p))
    }
}

/// All the cards of a sequence of stacks, stack after stack.
pub open spec fn flatten_stacks(stacks: Seq<Seq<Card>>) -> Seq<Card>
    decreases stacks.len(),
{
    if stacks.len() == 0 {
        Seq::empty()
    } else {
        flatten_stacks(stacks.drop_last()) + stacks.last()
    }
}

/// All the cards in the stacks of the players of `keys`, counted as a multiset.
pub open spec fn cards_of(keys: Seq<PlayerId>, stacks: Map<PlayerId, Seq<Card>>) -> Multiset<Card>
    decreases keys.len(),
{
    if keys.len() == 0 {
        Multiset::empty()
    } else {
        cards_of(keys.drop_last(), stacks).add(stacks[keys.last()].to_multiset())
    }
}

/// Only the stacks of the players of `keys` count.
pub proof fn lemma_cards_of_frame(keys: Seq<PlayerId>, s1: Map<PlayerId, Seq<Card>>, s2: Map<PlayerId, Seq<Card>>)
    requires
        forall|i: int| 0 <= i < keys.len() ==> s1[#[trigger] keys[i]] == s2[keys[i]],
    ensures
        cards_of(keys, s1) == cards_of(keys, s2),
    decreases keys.len(),
{
    if keys.len() > 0 {
        let t = keys.drop_last();
        assert forall|i: int| 0 <= i < t.len() implies s1[#[trigger] t[i]] == s2[t[i]] by {
            assert(t[i] == keys[i]);
        }
        lemma_cards_of_frame(t, s1, s2);
        assert(keys.last() == keys[keys.len() - 1]);
    }
}

/// Giving a player of `keys` (who occurs there once) a new stack trades the cards of
/// the old stack for those of the new one.
pub proof fn lemma_cards_of_insert(keys: Seq<PlayerId>, stacks: Map<PlayerId, Seq<Card>>, p: PlayerId, v: Seq<Card>)
    requires
        keys.no_duplicates(),
        keys.contains(p),
    ensures
        cards_of(keys, stacks.insert(p, v)).add(stacks[p].to_multiset()) == cards_of(keys, stacks).add(v.to_multiset()),
    decreases keys.len(),
{
    let t = keys.drop_last();
    let x = keys.last();
    let ins = stacks.insert(p, v);
    assert(x == keys[keys.len() - 1]);
    if x == p {
        assert forall|i: int| 0 <= i < t.len() implies ins[#[trigger] t[i]] == stacks[t[i]] by {
            assert(t[i] == keys[i]);
            assert(keys[i] != keys[keys.len() - 1]);
        }
        lemma_cards_of_frame(t, ins, stacks);
        assert(cards_of(keys, ins) == cards_of(t, ins).add(ins[x].to_multiset()));
        assert(cards_of(keys, stacks) == cards_of(t, stacks).add(stacks[x].to_multiset()));
        assert(ins[x] == v);
        let c = cards_of(t, stacks);
        assert(cards_of(keys, ins) == c.add(v.to_multiset()));
        assert(cards_of(keys, stacks) == c.add(stacks[p].to_multiset()));
        assert(c.add(v.to_multiset()).add(stacks[p].to_multiset()) =~= c.add(stacks[p].to_multiset()).add(v.to_multiset()));
    } else {
        assert(t.no_duplicates()) by {
            assert forall|i: int, j: int| 0 <= i < t.len() && 0 <= j < t.len() && i != j implies t[i] != t[j] by {
                assert(t[i] == keys[i] && t[j] == keys[j]);
            }
        }
        assert(t.contains(p)) by {
            let j = choose|j: int| 0 <= j < keys.len() && keys[j] == p;
            assert(j != keys.len() - 1);
            assert(t[j] == p);
        }
        lemma_cards_of_insert(t, stacks, p, v);
        assert(ins[x] == stacks[x]);
        let c1 = cards_of(t, ins);
        let c0 = cards_of(t, stacks);
        let sx = stacks[x].to_multiset();
        let sp = stacks[p].to_multiset();
        let sv = v.to_multiset();
        assert(cards_of(keys, ins) == c1.add(sx));
        assert(cards_of(keys, stacks) == c0.add(sx));
        assert(c1.add(sp) == c0.add(sv));
        assert(c1.add(sx).add(sp) =~= c1.add(sp).add(sx));
        assert(c0.add(sv).add(sx) =~= c0.add(sx).add(sv));
    }
}

/// A player added after `keys` adds the cards of their stack.
pub proof fn lemma_cards_of_push(keys: Seq<PlayerId>, stacks: Map<PlayerId, Seq<Card>>, p: PlayerId, v: Seq<Card>)
    requires
        !keys.contains(p),
    ensures
        cards_of(keys.push(p), stacks.insert(p, v)) == cards_of(keys, stacks).add(v.to_multiset()),
{
    assert(keys.push(p).drop_last() =~= keys);
    assert forall|i: int| 0 <= i < keys.len() implies stacks.insert(p, v)[#[trigger] keys[i]] == stacks[keys[i]] by {
        assert(keys.contains(keys[i]));
    }
    lemma_cards_of_frame(keys, stacks.insert(p, v), stacks);
}

/// Leaving out a player of `keys` (who occurs there once) leaves out the cards of
/// their stack.
pub proof fn lemma_cards_of_others(keys: Seq<PlayerId>, stacks: Map<PlayerId, Seq<Card>>, p: PlayerId)
    requires
        keys.no_duplicates(),
        keys.contains(p),
    ensures
        cards_of(others(keys, p), stacks.remove(p)).add(stacks[p].to_multiset()) == cards_of(keys, stacks),
    decreases keys.len(),
{
    let t = keys.drop_last();
    let x = keys.last();
    let rem = stacks.remove(p);
    assert(t.push(x) =~= keys);
    assert(x == keys[keys.len() - 1]);
    lemma_others_push(t, p, x);
    if x == p {
        assert(!t.contains(p)) by {
            if t.contains(p) {
                let j = choose|j: int| 0 <= j < t.len() && t[j] == p;
                assert(keys[j] == p);
            }
        }
        lemma_filter_absent(t, p);
        assert forall|i: int| 0 <= i < t.len() implies rem[#[trigger] t[i]] == stacks[t[i]] by {
            assert(t.contains(t[i]));
        }
        lemma_cards_of_frame(t, rem, stacks);
    } else {
        assert(t.no_duplicates()) by {
            assert forall|i: int, j: int| 0 <= i < t.len() && 0 <= j < t.len() && i != j implies t[i] != t[j] by {
                assert(t[i] == keys[i] && t[j] == keys[j]);
            }
        }
        assert(t.contains(p)) by {
            let j = choose|j: int| 0 <= j < keys.len() && keys[j] == p;
            assert(j != keys.len() - 1);
            assert(t[j] == p);
        }
        lemma_cards_of_others(t, stacks, p);
        let o = others(t, p);
        assert(o.push(x).drop_last() =~= o);
        assert(rem[x] == stacks[x]);
        assert(cards_of(o.push(x), rem).add(stacks[p].to_multiset()) =~= cards_of(keys, stacks));
    }
}

/// Stacks laid out one after another hold the cards of the stacks of `keys`, when the
/// stacks are those of `keys` in order.
pub proof fn lemma_flatten_cards_of(stacks: Seq<Seq<Card>>, keys: Seq<PlayerId>, m: Map<PlayerId, Seq<Card>>)
    requires
        stacks.len() == keys.len(),
        forall|i: int| 0 <= i < keys.len() ==> #[trigger] stacks[i] == m[keys[i]],
    ensures
        flatten_stacks(stacks).to_multiset() == cards_of(keys, m),
    decreases keys.len(),
{
    broadcast use vstd::seq_lib::group_to_multiset_ensures;
    if keys.len() == 0 {
        assert(flatten_stacks(stacks) =~= Seq::<Card>::empty());
        assert(flatten_stacks(stacks).to_multiset() =~= Multiset::<Card>::empty());
    } else {
        let t = stacks.drop_last();
        let k = keys.drop_last();
        assert forall|i: int| 0 <= i < k.len() implies #[trigger] t[i] == m[k[i]] by {
            assert(t[i] == stacks[i]);
        }
        lemma_flatten_cards_of(t, k, m);
        assert(stacks.last() == stacks[stacks.len() - 1]);
        assert(stacks.last() == m[keys.last()]);
        assert(flatten_stacks(stacks) == flatten_stacks(t) + stacks.last());
        vstd::seq_lib::lemma_multiset_commutative(flatten_stacks(t), stacks.last());
        assert(cards_of(keys, m) == cards_of(k, m).add(m[keys.last()].to_multiset()));
    }
}

/// Cards put one by one onto the front of a sequence add to its cards.
pub proof fn lemma_pushed_to_front_cards(cards: Seq<Card>, s: Seq<Card>)
    ensures
        pushed_to_front(cards, s).to_multiset() == cards.to_multiset().add(s.to_multiset()),
{
    let front = Seq::new(cards.len(), |i: int| cards[cards.len() - 1 - i]);
    assert(front =~= cards.reverse());
    cards.lemma_reverse_to_multiset();
    vstd::seq_lib::lemma_multiset_commutative(front, s);
}

/// The players of `s` but `p`, in order.
pub open spec fn others(s: Seq<PlayerId>, p: PlayerId) -> Seq<PlayerId> {
    s.filter(|q: PlayerId| q != p)
}

/// A player added at the end is among the others, unless it is `p`.
pub proof fn lemma_others_push(s: Seq<PlayerId>, p: PlayerId, x: PlayerId)
    ensures
        others(s.push(x), p) == if x != p { others(s, p).push(x) } else { others(s, p) },
{
    reveal_with_fuel(Seq::filter, 1);
    assert(s.push(x).drop_last() =~= s);
}

/// A player is among the others exactly when they are in `s` and are not `p`.
pub proof fn lemma_others_contains(s: Seq<PlayerId>, p: PlayerId, q: PlayerId)
    ensures
        others(s, p).contains(q) <==> (s.contains(q) && q != p),
    decreases s.len(),
{
    if s.len() == 0 {
        reveal_with_fuel(Seq::filter, 1);
        assert(others(s, p) =~= Seq::<PlayerId>::empty());
    } else {
        let t = s.drop_last();
        let x = s.last();
        lemma_others_contains(t, p, q);
        lemma_others_push(t, p, x);
        assert(t.push(x) =~= s);
        assert(s.contains(q) <==> (t.contains(q) || x == q)) by {
            if s.contains(q) && x != q {
                let j = choose|j: int| 0 <= j < s.len() && s[j] == q;
                assert(j != s.len() - 1);
                assert(t[j] == q);
            }
            if t.contains(q) {
                let j = choose|j: int| 0 <= j < t.len() && t[j] == q;
                assert(s[j] == q);
            }
            if x == q {
                assert(s[s.len() - 1] == q);
            }
        }
        let o = others(t, p);
        if x != p {
            assert(o.push(x).contains(q) <==> (o.contains(q) || x == q)) by {
                if o.push(x).contains(q) && x != q {
                    let j = choose|j: int| 0 <= j < o.push(x).len() && o.push(x)[j] == q;
                    assert(j != o.len());
                    assert(o[j] == q);
                }
                if o.contains(q) {
                    let j = choose|j: int| 0 <= j < o.len() && o[j] == q;
                    assert(o.push(x)[j] == q);
                }
                if x == q {
                    assert(o.push(x)[o.len() as int] == q);
                }
            }
        }
    }
}

/// Leaving out a value that occurs only at position `i` is removing position `i`.
pub proof fn lemma_filter_remove_unique(s: Seq<PlayerId>, p: PlayerId, i: int)
    requires
        s.no_duplicates(),
        0 <= i < s.len(),
        s[i] == p,
    ensures
        others(s, p) == s.remove(i),
    decreases s.len(),
{
    reveal_with_fuel(Seq::filter, 1);
    let f = |q: PlayerId| q != p;
    if i == s.len() - 1 {
        lemma_filter_absent(s.drop_last(), p);
        assert(s.drop_last() =~= s.remove(i));
    } else {
        assert(s.drop_last().no_duplicates());
        lemma_filter_remove_unique(s.drop_last(), p, i);
        assert(s.drop_last().remove(i).push(s.last()) =~= s.remove(i));
    }
}

/// Leaving out a value that does not occur changes nothing.
pub proof fn lemma_filter_absent(s: Seq<PlayerId>, p: PlayerId)
    requires
        !s.contains(p),
    ensures
        others(s, p) == s,
    decreases s.len(),
{
    reveal_with_fuel(Seq::filter, 1);
    if s.len() > 0 {
        assert(!s.drop_last().contains(p)) by {
            if s.drop_last().contains(p) {
                let j = choose|j: int| 0 <= j < s.drop_last().len() && s.drop_last()[j] == p;
                assert(s[j] == p);
            }
        }
        lemma_filter_absent(s.drop_last(), p);
        assert(s.drop_last().push(s.last()) =~= s);
        assert(s.last() != p) by {
            assert(s[s.len() - 1] == s.last());
        }
    } else {
        assert(others(s, p) =~= s);
    }
}

impl PlayerCards {
    /// The players that have a stack, in the order of the entries.
    pub closed spec fn key_seq(self) -> Seq<PlayerId> {
        self.entries@.map_values(|e: (PlayerId, Vec<Card>)| e.0)
    }

    /// The stacks, in the order of `key_seq`.
    pub closed spec fn stack_seq(self) -> Seq<Seq<Card>> {
        self.entries@.map_values(|e: (PlayerId, Vec<Card>)| e.1@)
    }

    /// No player has two stacks.
    pub closed spec fn wf(self) -> bool {
        self.key_seq().no_duplicates()
    }

    /// Where a player's stack stands among the entries.
    pub closed spec fn pos(self, p: PlayerId) -> int {
        choose|i: int| 0 <= i < self.key_seq().len() && self.key_seq()[i] == p
    }

    /// Whether a player has a stack.
    pub open spec fn has(self, p: PlayerId) -> bool {
        self.key_seq().contains(p)
    }

    /// The stack of a player that has one.
    pub closed spec fn stack(self, p: PlayerId) -> Seq<Card> {
        self.stack_seq()[self.pos(p)]
    }

    /// The number of players with a stack.
    pub closed spec fn count(self) -> nat {
        self.entries@.len()
    }

    proof fn lemma_pos(self, p: PlayerId)
        requires
            self.wf(),
            self.has(p),
        ensures
            0 <= self.pos(p) < self.key_seq().len(),
            self.key_seq()[self.pos(p)] == p,
            self.entries@[self.pos(p)].0 == p,
            self.stack(p) == self.entries@[self.pos(p)].1@,
            forall|i: int| 0 <= i < self.key_seq().len() && self.key_seq()[i] == p ==> i == self.pos(p),
    {
        let i = choose|i: int| 0 <= i < self.key_seq().len() && self.key_seq()[i] == p;
        assert(0 <= i < self.key_seq().len() && self.key_seq()[i] == p);
    }

    proof fn lemma_view(self)
        requires
            self.wf(),
        ensures
            forall|p: PlayerId| #[trigger] self@.contains_key(p) <==> self.has(p),
            forall|p: PlayerId| self.has(p) ==> #[trigger] self@[p] == self.stack(p),
            self.key_seq().len() == self.entries@.len(),
            self.stack_seq().len() == self.entries@.len(),
    {
    }

    /// The players in the map are those of `key_seq`, which has as many entries as
    /// the map has players.
    pub proof fn lemma_keys(self)
        requires
            self.wf(),
        ensures
            forall|p: PlayerId| #[trigger] self@.contains_key(p) <==> self.key_seq().contains(p),
            self@.dom() == self.key_seq().to_set(),
            self@.len() == self.key_seq().len(),
    {
        self.lemma_view();
        assert(self@.dom() =~= self.key_seq().to_set());
        self.key_seq().unique_seq_to_set();
    }

    /// The stacks laid out one after another hold the cards of the players in the
    /// map; no player occurs twice among the keys.
    pub proof fn lemma_cards(self)
        requires
            self.wf(),
        ensures
            flatten_stacks(self.stack_seq()).to_multiset() == cards_of(self.key_seq(), self@),
            self.key_seq().no_duplicates(),
    {
        self.lemma_view();
        assert forall|i: int| 0 <= i < self.key_seq().len() implies #[trigger] self.stack_seq()[i] == self@[self.key_seq()[i]] by {
            let p = self.key_seq()[i];
            assert(self.has(p));
            self.lemma_pos(p);
        }
        lemma_flatten_cards_of(self.stack_seq(), self.key_seq(), self@);
    }

    /// Replacing the stack at one position, with the same player, changes the view at
    /// that player only and keeps the order of the players.
    proof fn lemma_update_at(old_map: Self, new_map: Self, i: int, v: Seq<Card>)
        requires
            old_map.wf(),
            0 <= i < old_map.entries@.len(),
            new_map.entries@.len() == old_map.entries@.len(),
            new_map.entries@[i].0 == old_map.entries@[i].0,
            new_map.entries@[i].1@ == v,
            forall|j: int| 0 <= j < old_map.entries@.len() && j != i ==> new_map.entries@[j] == old_map.entries@[j],
        ensures
            new_map.wf(),
            new_map.key_seq() == old_map.key_seq(),
            new_map@ == old_map@.insert(old_map.entries@[i].0, v),
    {
        assert(new_map.key_seq() =~= old_map.key_seq());
        let p = old_map.entries@[i].0;
        assert(old_map.key_seq()[i] == p);
        assert(old_map.has(p));
        old_map.lemma_pos(p);
        new_map.lemma_pos(p);
        assert forall|q: PlayerId| new_map.has(q) && q != p implies new_map.stack(q) == old_map.stack(q) by {
            old_map.lemma_pos(q);
            new_map.lemma_pos(q);
        }
        assert(new_map@ =~= old_map@.insert(p, v));
    }

    fn set_at(&mut self, i: usize, v: Vec<Card>)
        requires
            old(self).wf(),
            i < old(self).entries@.len(),
        ensures
            final(self).entries@ == old(self).entries@.update(i as int, (old(self).entries@[i as int].0, v)),
            final(self).wf(),
            final(self).key_seq() == old(self).key_seq(),
            final(self)@ == old(self)@.insert(old(self).entries@[i as int].0, v@),
    {
        let ghost before = *self;
        let (k, _old_stack) = self.entries.remove(i);
        self.entries.insert(i, (k, v));
        assert(self.entries@ =~= before.entries@.update(i as int, (k, v)));
        proof {
            Self::lemma_update_at(before, *self, i as int, v@);
        }
    }

    /// An empty map.
    pub fn new() -> (r: Self)
        ensures
            r.wf(),
            r.count() == 0,
            r@ == Map::<PlayerId, Seq<Card>>::empty(),
            r.key_seq() == Seq::<PlayerId>::empty(),
    {
        let r = PlayerCards { entries: Vec::new() };
        assert(r.key_seq() =~= Seq::<PlayerId>::empty());
        assert(r@ =~= Map::<PlayerId, Seq<Card>>::empty());
        r
    }

    /// The number of players with a stack.
    pub fn len(&self) -> (n: usize)
        requires
            self.wf(),
        ensures
            n == self.count(),
            n == self.key_seq().len(),
            n == self@.len(),
    {
        proof {
            self.lemma_view();
            self.key_seq().unique_seq_to_set();
            assert(self@.dom() =~= self.key_seq().to_set());
        }
        self.entries.len()
    }

    /// Where a player's stack stands, if the player has one.
    fn find(&self, p: &PlayerId) -> (r: Option<usize>)
        requires
            self.wf(),
        ensures
            r is None <==> !self.has(*p),
            r matches Some(i) ==> i == self.pos(*p) && i < self.entries@.len(),
    {
        let mut i: usize = 0;
        while i < self.entries.len()
            invariant
                self.wf(),
                i <= self.entries@.len(),
                forall|j: int| 0 <= j < i ==> self.key_seq()[j] != *p,
            decreases self.entries@.len() - i,
        {
            assert(self.key_seq()[i as int] == self.entries@[i as int].0);
            if self.entries[i].0 == *p {
                proof {
                    assert(self.has(*p));
                    self.lemma_pos(*p);
                }
                return Some(i);
            }
            i += 1;
        }
        None
    }


    /// Puts a card on top of a player's stack; a player without a stack gets a new
    /// stack holding just that card.
    pub fn push_card(&mut self, p: PlayerId, card: Card)
        requires
            old(self).wf(),
        ensures
            final(self).wf(),
            final(self)@ == old(self)@.insert(
                p,
                if old(self)@.contains_key(p) { old(self)@[p].push(card) } else { seq![card] },
            ),
            old(self)@.contains_key(p) ==> final(self).key_seq() == old(self).key_seq(),
            !old(self)@.contains_key(p) ==> final(self).key_seq() == old(self).key_seq().push(p),
    {
        proof {
            self.lemma_view();
        }
        match self.find(&p) {
            Some(i) => {
                let mut stack = self.entries[i].1.clone();
                proof {
                    self.lemma_pos(p);
                }
                stack.push(card);
                self.set_at(i, stack);
            },
            None => {
                let ghost before = *self;
                let mut fresh = Vec::new();
                fresh.push(card);
                self.entries.push((p, fresh));
                proof {
                    assert(self.key_seq() =~= before.key_seq().push(p));
                    assert forall|q: PlayerId| before.has(q) implies self.has(q) && self.stack(q) == before.stack(q) by {
                        before.lemma_pos(q);
                        assert(self.key_seq()[before.pos(q)] == q);
                        assert(self.has(q));
                        self.lemma_pos(q);
                    }
                    assert(self.key_seq()[self.key_seq().len() - 1] == p);
                    assert(self.has(p));
                    assert(self.wf()) by {
                        assert forall|a: int, b: int| 0 <= a < b < self.key_seq().len() implies self.key_seq()[a] != self.key_seq()[b] by {
                            if b == self.key_seq().len() - 1 {
                                assert(before.key_seq()[a] == self.key_seq()[a]);
                            }
                        }
                    }
                    self.lemma_pos(p);
                    assert(self.pos(p) == self.key_seq().len() - 1);
                    assert(self.stack(p) =~= seq![card]);
                    assert forall|q: PlayerId| #[trigger] self.has(q) implies q == p || before.has(q) by {
                        self.lemma_pos(q);
                        if self.pos(q) < before.key_seq().len() {
                            assert(before.key_seq()[self.pos(q)] == q);
                        }
                    }
                    let target = before@.insert(p, seq![card]);
                    assert(self@.dom() =~= target.dom());
                    assert forall|q: PlayerId| #[trigger] self@.contains_key(q) implies self@[q] == target[q] by {
                        if q != p {
                            assert(before.has(q));
                        }
                    }
                    assert(self@ =~= target);
                }
            },
        }
    }

    /// Gives a player the stack `cards`, and hands back the stack the player had
    /// before, if any.
    pub fn insert(&mut self, p: PlayerId, cards: Vec<Card>) -> (r: Option<Vec<Card>>)
        requires
            old(self).wf(),
        ensures
            final(self).wf(),
            final(self)@ == old(self)@.insert(p, cards@),
            r is Some <==> old(self)@.contains_key(p),
            r matches Some(v) ==> v@ == old(self)@[p],
            old(self)@.contains_key(p) ==> final(self).key_seq() == old(self).key_seq(),
            !old(self)@.contains_key(p) ==> final(self).key_seq() == old(self).key_seq().push(p),
    {
        proof {
            self.lemma_view();
        }
        match self.find(&p) {
            Some(i) => {
                let previous = self.entries[i].1.clone();
                proof {
                    self.lemma_pos(p);
                }
                self.set_at(i, cards);
                Some(previous)
            },
            None => {
                let ghost before = *self;
                self.entries.push((p, cards));
                proof {
                    assert(self.key_seq() =~= before.key_seq().push(p));
                    assert forall|q: PlayerId| before.has(q) implies self.has(q) && self.stack(q) == before.stack(q) by {
                        before.lemma_pos(q);
                        assert(self.key_seq()[before.pos(q)] == q);
                        assert(self.has(q));
                        self.lemma_pos(q);
                    }
                    assert(self.key_seq()[self.key_seq().len() - 1] == p);
                    assert(self.has(p));
                    assert(self.wf()) by {
                        assert forall|a: int, b: int| 0 <= a < b < self.key_seq().len() implies self.key_seq()[a] != self.key_seq()[b] by {
                            if b == self.key_seq().len() - 1 {
                                assert(before.key_seq()[a] == self.key_seq()[a]);
                            }
                        }
                    }
                    self.lemma_pos(p);
                    assert(self.pos(p) == self.key_seq().len() - 1);
                    assert(self.stack(p) =~= cards@);
                    assert forall|q: PlayerId| #[trigger] self.has(q) implies q == p || before.has(q) by {
                        self.lemma_pos(q);
                        if self.pos(q) < before.key_seq().len() {
                            assert(before.key_seq()[self.pos(q)] == q);
                        }
                    }
                    let target = before@.insert(p, cards@);
                    assert(self@.dom() =~= target.dom());
                    assert forall|q: PlayerId| #[trigger] self@.contains_key(q) implies self@[q] == target[q] by {
                        if q != p {
                            assert(before.has(q));
                        }
                    }
                    assert(self@ =~= target);
                }
                None
            },
        }
    }

    /// Takes a player's stack out of the map, if the player has one.
    pub fn remove(&mut self, p: &PlayerId) -> (r: Option<Vec<Card>>)
        requires
            old(self).wf(),
        ensures
            final(self).wf(),
            final(self)@ == old(self)@.remove(*p),
            r is Some <==> old(self)@.contains_key(*p),
            r matches Some(v) ==> v@ == old(self)@[*p],
            final(self).key_seq() == others(old(self).key_seq(), *p),
    {
        proof {
            self.lemma_view();
        }
        match self.find(p) {
            Some(i) => {
                let ghost before = *self;
                proof {
                    self.lemma_pos(*p);
                }
                let (_k, stack) = self.entries.remove(i);
                proof {
                    assert(self.key_seq() =~= before.key_seq().remove(i as int));
                    assert forall|a: int, b: int| 0 <= a < b < self.key_seq().len() implies self.key_seq()[a] != self.key_seq()[b] by {
                        let a2 = if a < i { a } else { a + 1 };
                        let b2 = if b < i { b } else { b + 1 };
                        assert(before.key_seq()[a2] != before.key_seq()[b2]);
                    }
                    assert forall|q: PlayerId| self.has(q) implies q != *p && before.has(q) && self.stack(q) == before.stack(q) by {
                        self.lemma_pos(q);
                        let j = self.pos(q);
                        let j2 = if j < i { j } else { j + 1 };
                        assert(before.key_seq()[j2] == q);
                        before.lemma_pos(q);
                    }
                    assert forall|q: PlayerId| before.has(q) && q != *p implies self.has(q) by {
                        before.lemma_pos(q);
                        let j = before.pos(q);
                        let j2 = if j < i { j } else { j - 1 };
                        assert(self.key_seq()[j2] == q);
                    }
                    assert(self@ =~= before@.remove(*p));
                    assert(self.key_seq() =~= others(before.key_seq(), *p)) by {
                        lemma_filter_remove_unique(before.key_seq(), *p, i as int);
                    }
                }
                Some(stack)
            },
            None => {
                proof {
                    lemma_filter_absent(self.key_seq(), *p);
                    assert(self@ =~= self@.remove(*p));
                }
                None
            },
        }
    }


    /// Takes the top card off a player's stack; `None` if the stack is empty.
    pub fn pop_card(&mut self, p: &PlayerId) -> (r: Option<Card>)
        requires
            old(self).wf(),
            old(self)@.contains_key(*p),
        ensures
            final(self).wf(),
            final(self).key_seq() == old(self).key_seq(),
            old(self)@[*p].len() == 0 ==> r is None && final(self)@ == old(self)@,
            old(self)@[*p].len() > 0 ==> r == Some(old(self)@[*p].last())
                && final(self)@ == old(self)@.insert(*p, old(self)@[*p].drop_last()),
    {
        proof {
            self.lemma_view();
        }
        let i = self.find(p).unwrap();
        proof {
            self.lemma_pos(*p);
        }
        let mut stack = self.entries[i].1.clone();
        let top = stack.pop();
        proof {
            if top is None {
                assert(stack@ =~= old(self)@[*p]);
            }
        }
        self.set_at(i, stack);
        proof {
            if top is None {
                assert(self@ =~= old(self)@);
            }
        }
        top
    }

    /// Takes up to `n_cards` cards off the top of a player's stack, the topmost
    /// first; all of them if the stack holds fewer.
    pub fn take_cards(&mut self, p: &PlayerId, n_cards: usize) -> (cards: Vec<Card>)
        requires
            old(self).wf(),
            old(self)@.contains_key(*p),
        ensures
            final(self).wf(),
            final(self).key_seq() == old(self).key_seq(),
            cards@.len() == min_nat(n_cards as int, old(self)@[*p].len() as int),
            cards@ == top_cards(old(self)@[*p], cards@.len() as int),
            final(self)@ == old(self)@.insert(
                *p,
                old(self)@[*p].subrange(0, old(self)@[*p].len() - cards@.len()),
            ),
    {
        proof {
            self.lemma_view();
        }
        let i = self.find(p).unwrap();
        proof {
            self.lemma_pos(*p);
        }
        let mut stack = self.entries[i].1.clone();
        let ghost start = stack@;
        let k = if n_cards < stack.len() { n_cards } else { stack.len() };
        let mut cards = Vec::new();
        for j in 0..k
            invariant
                k <= start.len(),
                cards@ == top_cards(start, j as int),
                stack@ == start.subrange(0, start.len() - j),
        {
            let card = stack.pop().unwrap();
            cards.push(card);
            assert(cards@ =~= top_cards(start, j + 1));
            assert(stack@ =~= start.subrange(0, start.len() - (j + 1)));
        }
        self.set_at(i, stack);
        cards
    }

    /// Puts `cards` underneath a player's stack: the new stack is `cards` followed by
    /// the old one.
    pub fn put_under(&mut self, p: &PlayerId, cards: Vec<Card>)
        requires
            old(self).wf(),
            old(self)@.contains_key(*p),
        ensures
            final(self).wf(),
            final(self).key_seq() == old(self).key_seq(),
            final(self)@ == old(self)@.insert(*p, cards@ + old(self)@[*p]),
    {
        proof {
            self.lemma_view();
        }
        let i = self.find(p).unwrap();
        proof {
            self.lemma_pos(*p);
        }
        let mut stack = self.entries[i].1.clone();
        let mut cards = cards;
        let ghost c0 = cards@;
        cards.append(&mut stack);
        assert(cards@ =~= c0 + old(self)@[*p]);
        self.set_at(i, cards);
    }

    /// The players with a stack, in the order of the entries.
    pub fn keys(&self) -> (r: Vec<PlayerId>)
        requires
            self.wf(),
        ensures
            r@ == self.key_seq(),
    {
        let mut r = Vec::new();
        for i in 0..self.entries.len()
            invariant
                r@ == self.key_seq().subrange(0, i as int),
        {
            r.push(self.entries[i].0);
            assert(r@ =~= self.key_seq().subrange(0, i + 1));
        }
        assert(r@ =~= self.key_seq());
        r
    }

    /// Each player with the size of their stack, in the order of the entries.
    pub fn sizes(&self) -> (r: Vec<(PlayerId, usize)>)
        requires
            self.wf(),
        ensures
            r@.len() == self.key_seq().len(),
            forall|i: int| 0 <= i < r@.len() ==> r@[i].0 == #[trigger] self.key_seq()[i]
                && r@[i].1 == self@[self.key_seq()[i]].len(),
    {
        let mut r: Vec<(PlayerId, usize)> = Vec::new();
        for i in 0..self.entries.len()
            invariant
                self.wf(),
                r@.len() == i,
                forall|j: int| 0 <= j < i ==> r@[j].0 == #[trigger] self.key_seq()[j]
                    && r@[j].1 == self@[self.key_seq()[j]].len(),
        {
            proof {
                assert(self.key_seq()[i as int] == self.entries@[i as int].0);
                assert(self.has(self.entries@[i as int].0));
                self.lemma_pos(self.entries@[i as int].0);
                self.lemma_view();
            }
            r.push((self.entries[i].0, self.entries[i].1.len()));
        }
        r
    }

    /// All cards of all stacks, stack after stack in the order of the entries.
    pub fn all_cards(&self) -> (r: Vec<Card>)
        requires
            self.wf(),
        ensures
            r@ == flatten_stacks(self.stack_seq()),
    {
        let mut r: Vec<Card> = Vec::new();
        for i in 0..self.entries.len()
            invariant
                r@ == flatten_stacks(self.stack_seq().subrange(0, i as int)),
        {
            let mut stack = self.entries[i].1.clone();
            let ghost before = r@;
            r.append(&mut stack);
            assert(self.stack_seq().subrange(0, i + 1).drop_last() =~= self.stack_seq().subrange(0, i as int));
            assert(r@ =~= flatten_stacks(self.stack_seq().subrange(0, i + 1)));
        }
        assert(self.stack_seq().subrange(0, self.entries@.len() as int) =~= self.stack_seq());
        r
    }

    /// A copy of the map, with the same players in the same order and the same stacks.
    pub fn copy(&self) -> (r: PlayerCards)
        requires
            self.wf(),
        ensures
            r.wf(),
            r@ == self@,
            r.key_seq() == self.key_seq(),
            r.stack_seq() == self.stack_seq(),
    {
        let mut entries: Vec<(PlayerId, Vec<Card>)> = Vec::new();
        for i in 0..self.entries.len()
            invariant
                entries@.len() == i,
                forall|j: int| 0 <= j < i ==> (#[trigger] entries@[j]).0 == self.entries@[j].0
                    && entries@[j].1@ == self.entries@[j].1@,
        {
            let stack = self.entries[i].1.clone();
            entries.push((self.entries[i].0, stack));
        }
        let r = PlayerCards { entries };
        assert(r.key_seq() =~= self.key_seq());
        assert(r.stack_seq() =~= self.stack_seq());
        assert forall|q: PlayerId| r.has(q) implies r.stack(q) == self.stack(q) by {
            r.lemma_pos(q);
            self.lemma_pos(q);
        }
        assert(r@ =~= self@);
        r
    }

    /// Whether a player has a stack.
    pub fn contains_key(&self, p: &PlayerId) -> (r: bool)
        requires
            self.wf(),
        ensures
            r == self.has(*p),
            r == self@.contains_key(*p),
    {
        self.find(p).is_some()
    }

    /// The stack of a player, if the player has one.
    pub fn get(&self, p: &PlayerId) -> (r: Option<&Vec<Card>>)
        requires
            self.wf(),
        ensures
            r is None <==> !self@.contains_key(*p),
            r matches Some(v) ==> v@ == self@[*p],
    {
        proof {
            self.lemma_view();
        }
        match self.find(p) {
            Some(i) => {
                proof {
                    self.lemma_pos(*p);
                }
                Some(&self.entries[i].1)
            },
            None => None,
        }
    }
}

} // verus!
