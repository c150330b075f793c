//! The round engine: one `step` draws a card (recycling the discard pile
//! into the deck when it runs dry), routes it by colour, lets the chosen
//! hand accept it, detects a win, and reports the round's outcome.

use vstd::prelude::*;
use vstd::multiset::Multiset;
use crate::card::Card;
use crate::deck::Deck;
use crate::deck::standard_card;
use crate::hand::Hand;
use crate::hand::HandSum;
use crate::hand::WinCondition;
use crate::hand::spec_can_accept;
use crate::hand::spec_hand_sum;
use crate::strategy::Strategy;

verus! {

/// What one resolved round reports: who gave, who (if anyone) received, the
/// drawn card, and the win condition if one fired. Never fed back into the
/// engine.
#[derive(Debug, Clone, Copy)]
pub struct RoundResult {
    pub giver: usize,
    pub receiver: Option<usize>,
    pub card: Card,
    pub win: Option<WinCondition>,
}

/// The whole game state: the deck, the discard pile, one hand per player,
/// and the round counter that selects each round's giver.
#[derive(Debug)]
pub struct Game {
    pub deck: Deck,
    pub discard: Deck,
    pub players: Vec<Hand>,
    pub round: usize,
}

/// Every card held by any of the hands, as one multiset.
pub open spec fn hands_cards(hs: Seq<Hand>) -> Multiset<Card>
    decreases hs.len(),
{
    if hs.len() == 0 {
        Multiset::empty()
    } else {
        hands_cards(hs.drop_last()).add(hs.last()@.to_multiset())
    }
}

/// Replacing one hand exchanges exactly that hand's cards in the combined
/// multiset.
pub proof fn lemma_hands_cards_update(hs: Seq<Hand>, i: int, h: Hand)
    requires
        0 <= i < hs.len(),
    ensures
        hands_cards(hs.update(i, h)).add(hs[i]@.to_multiset()) == hands_cards(hs).add(
            h@.to_multiset(),
        ),
    decreases hs.len(),
{
    broadcast use vstd::multiset::group_multiset_axioms;

    if i == hs.len() - 1 {
        assert(hs.update(i, h).drop_last() =~= hs.drop_last());
        assert(hs.update(i, h).last() == h);
        assert(hands_cards(hs.update(i, h)).add(hs[i]@.to_multiset()) =~= hands_cards(hs).add(
            h@.to_multiset(),
        ));
    } else {
        lemma_hands_cards_update(hs.drop_last(), i, h);
        assert(hs.drop_last()[i] == hs[i]);
        assert(hs.update(i, h).drop_last() =~= hs.drop_last().update(i, h));
        assert(hs.update(i, h).last() == hs.last());
        let lhs = hands_cards(hs.update(i, h)).add(hs[i]@.to_multiset());
        let rhs = hands_cards(hs).add(h@.to_multiset());
        assert forall|m: Card| lhs.count(m) == rhs.count(m) by {
            assert(hands_cards(hs.drop_last().update(i, h)).add(
                hs.drop_last()[i]@.to_multiset(),
            ).count(m) == hands_cards(hs.drop_last()).add(h@.to_multiset()).count(m));
            assert(hands_cards(hs.update(i, h)) == hands_cards(hs.drop_last().update(i, h)).add(
                hs.last()@.to_multiset(),
            ));
            assert(hands_cards(hs) == hands_cards(hs.drop_last()).add(hs.last()@.to_multiset()));
        }
        assert(lhs =~= rhs);
    }
}

/// Pushing a card onto the discard pile adds exactly that card to the game's
/// multiset.
proof fn lemma_all_cards_discard_push(pre: Game, post: Game, card: Card)
    requires
        post.deck@ == pre.deck@,
        post.players@ == pre.players@,
        post.discard@ == pre.discard@.push(card),
    ensures
        post.all_cards() == pre.all_cards().insert(card),
{
    broadcast use vstd::seq_lib::group_to_multiset_ensures;
    broadcast use vstd::multiset::group_multiset_axioms;

    assert(post.discard@.to_multiset() =~= pre.discard@.to_multiset().insert(card));
    assert(post.all_cards() =~= pre.all_cards().insert(card));
}

/// Appending a card to one hand adds exactly that card to the game's
/// multiset.
proof fn lemma_all_cards_hand_update(pre: Game, post: Game, i: int, card: Card)
    requires
        post.deck@ == pre.deck@,
        post.discard@ == pre.discard@,
        0 <= i < pre.players@.len(),
        post.players@ == pre.players@.update(i, post.players@[i]),
        post.players@[i]@ == pre.players@[i]@.push(card),
    ensures
        post.all_cards() == pre.all_cards().insert(card),
{
    broadcast use vstd::seq_lib::group_to_multiset_ensures;
    broadcast use vstd::multiset::group_multiset_axioms;

    let h1 = post.players@[i];
    lemma_hands_cards_update(pre.players@, i, h1);
    assert(h1@.to_multiset() =~= pre.players@[i]@.to_multiset().insert(card));
    assert forall|m: Card| post.all_cards().count(m) == pre.all_cards().insert(card).count(m) by {
        assert(hands_cards(pre.players@.update(i, h1)).add(
            pre.players@[i]@.to_multiset(),
        ).count(m) == hands_cards(pre.players@).add(h1@.to_multiset()).count(m));
    }
    assert(post.all_cards() =~= pre.all_cards().insert(card));
}

/// Moving one hand's whole contents to the discard pile leaves the game's
/// multiset unchanged.
proof fn lemma_all_cards_clear_hand(pre: Game, post: Game, i: int)
    requires
        post.deck@ == pre.deck@,
        0 <= i < pre.players@.len(),
        post.players@ == pre.players@.update(i, post.players@[i]),
        post.players@[i]@ =~= Seq::<Card>::empty(),
        post.discard@ == pre.discard@ + pre.players@[i]@,
    ensures
        post.all_cards() == pre.all_cards(),
{
    broadcast use vstd::seq_lib::group_to_multiset_ensures;
    broadcast use vstd::multiset::group_multiset_axioms;

    let h2 = post.players@[i];
    lemma_hands_cards_update(pre.players@, i, h2);
    vstd::seq_lib::lemma_multiset_commutative(pre.discard@, pre.players@[i]@);
    assert(h2@.to_multiset() =~= Multiset::<Card>::empty());
    assert forall|m: Card| post.all_cards().count(m) == pre.all_cards().count(m) by {
        assert(hands_cards(pre.players@.update(i, h2)).add(
            pre.players@[i]@.to_multiset(),
        ).count(m) == hands_cards(pre.players@).add(h2@.to_multiset()).count(m));
        assert(post.discard@.to_multiset().count(m) == pre.discard@.to_multiset().count(m)
            + pre.players@[i]@.to_multiset().count(m));
    }
    assert(post.all_cards() =~= pre.all_cards());
}

impl Game {
    /// Every card of the game, wherever it lies at the moment: in the deck,
    /// on the discard pile, or in a hand. Each card is in exactly one of
    /// those containers, so a round moves cards around but never changes
    /// this multiset.
    pub open spec fn all_cards(self) -> Multiset<Card> {
        self.deck@.to_multiset().add(self.discard@.to_multiset()).add(hands_cards(self.players@))
    }

    /// Between rounds there is at least one player and every hand is within
    /// its sum bound and has not won (a won hand is cleared at once).
    pub open spec fn wf(self) -> bool {
        &&& self.players@.len() > 0
        &&& forall|i: int|
            0 <= i < self.players@.len() ==> (#[trigger] self.players@[i]).wf() && !(spec_hand_sum(
                self.players@[i]@,
            ) is Win)
    }

    /// A fresh game: a full standard deck (still unshuffled), an empty
    /// discard pile, `players` empty hands, and the round counter at zero.
    pub fn new(players: usize, jokers: u8) -> (g: Game)
        requires
            players >= 1,
        ensures
            g.wf(),
            g.round == 0,
            g.players@.len() == players,
            forall|i: int| 0 <= i < players ==> (#[trigger] g.players@[i])@ =~= Seq::<Card>::empty(),
            g.deck@.len() == 52 + jokers,
            forall|k: int| 0 <= k < g.deck@.len() ==> g.deck@[k] == standard_card(k),
            g.discard@ =~= Seq::<Card>::empty(),
    {
        let mut hands: Vec<Hand> = Vec::new();
        let mut i: usize = 0;
        while i < players
            invariant
                i <= players,
                hands@.len() == i,
                forall|j: int| 0 <= j < i ==> (#[trigger] hands@[j])@ =~= Seq::<Card>::empty(),
                forall|j: int| 0 <= j < i ==> (#[trigger] hands@[j]).wf(),
            decreases players - i,
        {
            hands.push(Hand::new());
            i = i + 1;
        }
        Game { deck: Deck::new(jokers), discard: Deck::empty(), players: hands, round: 0 }
    }

    /// Shuffles the deck in place; nothing else moves.
    pub fn shuffle(&mut self, rng: &mut rand::rngs::StdRng)
        ensures
            final(self).deck@.len() == old(self).deck@.len(),
            final(self).deck@.to_multiset() == old(self).deck@.to_multiset(),
            final(self).discard == old(self).discard,
            final(self).players == old(self).players,
            final(self).round == old(self).round,
            final(self).all_cards() == old(self).all_cards(),
    {
        self.deck.shuffle(rng);
        proof {
            broadcast use vstd::multiset::group_multiset_axioms;

            assert(self.all_cards() =~= old(self).all_cards());
        }
    }

    /// Draws the top card. On an empty deck the discard pile is swapped in,
    /// reshuffled, and the draw retried once; `None` (exhaustion, the one
    /// expected stop condition) comes exactly when both piles were empty.
    pub fn pop_deck(&mut self, rng: &mut rand::rngs::StdRng) -> (r: Option<Card>)
        ensures
            final(self).players == old(self).players,
            final(self).round == old(self).round,
            r is None <==> (old(self).deck@.len() == 0 && old(self).discard@.len() == 0),
            r is None ==> final(self).deck@.len() == 0 && final(self).discard@.len() == 0,
            r matches Some(c) ==> (old(self).deck@.len() > 0 ==> (
                c == old(self).deck@.last()
                && final(self).deck@ =~= old(self).deck@.drop_last()
                && final(self).discard == old(self).discard
            )),
            r matches Some(c) ==> (old(self).deck@.len() == 0 ==> (
                old(self).discard@.len() > 0
                && final(self).discard@.len() == 0
                && final(self).deck@.len() == old(self).discard@.len() - 1
                && old(self).discard@.to_multiset().contains(c)
                && final(self).deck@.to_multiset() == old(self).discard@.to_multiset().remove(c)
            )),
            r matches Some(c) ==> old(self).all_cards() == final(self).all_cards().insert(c),
            r is None ==> final(self).all_cards() == old(self).all_cards(),
    {
        match self.deck.pop() {
            Some(c) => {
                proof {
                    broadcast use vstd::seq_lib::group_to_multiset_ensures;
                    broadcast use vstd::multiset::group_multiset_axioms;

                    let d0 = old(self).deck@;
                    assert(d0.drop_last() =~= d0.remove(d0.len() - 1));
                    assert(d0.contains(d0.last()));
                    assert(self.deck@.to_multiset().insert(c) =~= d0.to_multiset());
                    assert(self.all_cards().insert(c) =~= old(self).all_cards());
                }
                Some(c)
            },
            None => {
                core::mem::swap(&mut self.deck, &mut self.discard);
                self.deck.shuffle(rng);
                let ghost shuffled = self.deck@;
                let r = self.deck.pop();
                proof {
                    broadcast use vstd::seq_lib::group_to_multiset_ensures;
                    broadcast use vstd::multiset::group_multiset_axioms;

                    assert(old(self).deck@.to_multiset() =~= Multiset::<Card>::empty());
                    assert(self.discard@.to_multiset() =~= Multiset::<Card>::empty());
                    if shuffled.len() > 0 {
                        assert(shuffled.drop_last() =~= shuffled.remove(shuffled.len() - 1));
                        assert(shuffled.contains(shuffled.last()));
                        assert(self.all_cards().insert(shuffled.last()) =~= old(self).all_cards());
                    } else {
                        assert(shuffled.to_multiset() =~= Multiset::<Card>::empty());
                        assert(self.all_cards() =~= old(self).all_cards());
                    }
                }
                r
            },
        }
    }

    /// Resolves one round. `None` signals exhaustion (deck and discard both
    /// empty) and changes nothing observable; otherwise the drawn card is
    /// routed by colour, a special card wins on routing without ever being
    /// held, an accepted card may complete a win that clears the hand, and
    /// the round counter moves up by one.
    pub fn step<S: Strategy>(&mut self, rng: &mut rand::rngs::StdRng, strategy: &mut S) -> (r:
        Option<RoundResult>)
        requires
            old(self).wf(),
            old(self).round < usize::MAX,
        ensures
            final(self).wf(),
            final(self).all_cards() == old(self).all_cards(),
            final(self).players@.len() == old(self).players@.len(),
            r is None <==> (old(self).deck@.len() == 0 && old(self).discard@.len() == 0),
            r is None ==> (
                final(self).players == old(self).players
                && final(self).round == old(self).round
                && final(self).deck@.len() == 0
                && final(self).discard@.len() == 0
            ),
            r matches Some(rr) ==> (
                final(self).round == old(self).round + 1
                && rr.giver == old(self).round as int % old(self).players@.len() as int
            ),
            r matches Some(rr) ==> (old(self).deck@.len() > 0 ==> rr.card == old(self).deck@.last()),
            r matches Some(rr) ==> (old(self).deck@.len() == 0
                ==> old(self).discard@.to_multiset().contains(rr.card)),
            r matches Some(rr) ==> (rr.receiver matches Some(i) ==> (
                i < old(self).players@.len()
                && spec_can_accept(old(self).players@[i as int]@, rr.card)
            )),
            r matches Some(rr) ==> (rr.card.spec_is_red() ==> ((rr.receiver is None) <==> (
                forall|i: int| 0 <= i < old(self).players@.len()
                    ==> !spec_can_accept((#[trigger] old(self).players@[i])@, rr.card)
            ))),
            r matches Some(rr) ==> (!rr.card.spec_is_red() ==> rr.receiver == (
                if spec_can_accept(old(self).players@[rr.giver as int]@, rr.card) {
                    Some(rr.giver)
                } else {
                    None::<usize>
                }
            )),
            r matches Some(rr) ==> (rr.receiver is None ==> (
                rr.win is None && final(self).players == old(self).players
            )),
            r matches Some(rr) ==> ((rr.card is Special && rr.receiver is Some) ==> (
                rr.win == Some(WinCondition::Special)
                && final(self).players == old(self).players
            )),
            r matches Some(rr) ==> (rr.receiver matches Some(i) ==> (!(rr.card is Special) ==> (
                forall|j: int| 0 <= j < old(self).players@.len() && j != i
                    ==> final(self).players@[j] == (#[trigger] old(self).players@[j])
            ))),
            r matches Some(rr) ==> (rr.receiver matches Some(i) ==> (!(rr.card is Special) ==> (
                match spec_hand_sum(old(self).players@[i as int]@.push(rr.card)) {
                    HandSum::Win(w) => rr.win == Some(w)
                        && final(self).players@[i as int]@ =~= Seq::<Card>::empty(),
                    HandSum::NoWin(_) => rr.win is None
                        && final(self).players@[i as int]@ =~= old(self).players@[i as int]@.push(
                        rr.card),
                }
            ))),
    {
        let card = match self.pop_deck(rng) {
            Some(c) => c,
            None => {
                return None;
            },
        };
        let ghost mid = *self;
        let is_red = card.is_red();
        let pcount = self.players.len();
        let giver = self.round % pcount;
        let ghost players0 = self.players@;
        let receiver: Option<usize> = if is_red {
            let mut one: Option<usize> = None;
            let mut n: usize = 0;
            let mut i: usize = 0;
            while i < pcount
                invariant
                    pcount == self.players@.len(),
                    self.players@ == players0,
                    i <= pcount,
                    n <= i,
                    forall|k: int| 0 <= k < pcount ==> (#[trigger] players0[k]).wf()
                        && !(spec_hand_sum(players0[k]@) is Win),
                    (n == 0) <==> (one is None),
                    one matches Some(j) ==> (j < i && spec_can_accept(players0[j as int]@, card)),
                    n == 0 ==> forall|k: int| 0 <= k < i
                        ==> !spec_can_accept((#[trigger] players0[k])@, card),
                decreases pcount - i,
            {
                let h = &self.players[i];
                if h.can_accept(card) {
                    one = Some(i);
                    n = n + 1;
                }
                i = i + 1;
            }
            if n == 0 {
                None
            } else if n == 1 {
                one
            } else {
                let j = strategy.pick(giver, &self.players, card);
                Some(j)
            }
        } else {
            let h = &self.players[giver];
            if h.can_accept(card) {
                Some(giver)
            } else {
                None
            }
        };
        let mut win: Option<WinCondition> = None;
        match receiver {
            Some(i) => {
                match card {
                    Card::Special(_) => {
                        win = Some(WinCondition::Special);
                        self.discard.push(card);
                        proof {
                            lemma_all_cards_discard_push(mid, *self, card);
                        }
                    },
                    _ => {
                        let h = &mut self.players[i];
                        h.accept(card);
                        let hs = h.hand_sum();
                        let ghost mid2 = *self;
                        proof {
                            lemma_all_cards_hand_update(mid, mid2, i as int, card);
                        }
                        match hs {
                            HandSum::Win(cond) => {
                                self.discard.take(&mut self.players[i]);
                                win = Some(cond);
                                proof {
                                    lemma_all_cards_clear_hand(mid2, *self, i as int);
                                }
                            },
                            HandSum::NoWin(_) => {},
                        }
                    },
                }
            },
            None => {
                self.discard.push(card);
                proof {
                    lemma_all_cards_discard_push(mid, *self, card);
                }
            },
        }
        self.round = self.round + 1;
        Some(RoundResult { giver, receiver, card, win })
    }
}

} // verus!
