//! The deck: built in a fixed suit-major, rank-ascending order, shuffled
//! through `rand`, drawn from the top, and refilled from cleared hands.

use vstd::prelude::*;
use crate::card::Card;
use crate::card::Suit;
use crate::hand::Hand;
use crate::rng::shuffle_vec;

verus! {

/// The suit generated in the i-th block of thirteen cards.
pub open spec fn suit_index(i: int) -> Suit {
    if i == 0 {
        Suit::Spades
    } else if i == 1 {
        Suit::Hearts
    } else if i == 2 {
        Suit::Clubs
    } else {
        Suit::Diamonds
    }
}

/// The k-th card of the standard generation order: four blocks of thirteen
/// canonical cards, rank ascending within each suit, then the jokers in
/// index order.
pub open spec fn standard_card(k: int) -> Card {
    if k < 52 {
        Card::spec_new(suit_index(k / 13), ((k % 13) + 1) as u8)
    } else {
        Card::Joker((k - 52) as u8)
    }
}

/// Distinct positions of the generation order hold distinct cards.
pub proof fn lemma_standard_card_injective(k1: int, k2: int)
    requires
        0 <= k1 < k2 < 52 + 256,
    ensures
        standard_card(k1) != standard_card(k2),
{
    vstd::arithmetic::div_mod::lemma_fundamental_div_mod(k1, 13);
    vstd::arithmetic::div_mod::lemma_fundamental_div_mod(k2, 13);
    vstd::arithmetic::div_mod::lemma_mod_bound(k1, 13);
    vstd::arithmetic::div_mod::lemma_mod_bound(k2, 13);
}

/// A deck laid out in the generation order holds no card twice.
pub proof fn lemma_standard_deck_no_duplicates(s: Seq<Card>)
    requires
        s.len() < 52 + 256,
        forall|k: int| 0 <= k < s.len() ==> s[k] == standard_card(k),
    ensures
        forall|i: int, j: int| 0 <= i < j < s.len() ==> s[i] != s[j],
{
    assert forall|i: int, j: int| 0 <= i < j < s.len() implies s[i] != s[j] by {
        lemma_standard_card_injective(i, j);
    }
}

/// An ordered pile of cards, drawn from and pushed to at the top.
#[derive(Debug)]
pub struct Deck {
    cards: Vec<Card>,
}

impl View for Deck {
    type V = Seq<Card>;

    closed spec fn view(&self) -> Seq<Card> {
        self.cards@
    }
}

impl Deck {
    pub fn empty() -> (d: Deck)
        ensures
            d@ =~= Seq::<Card>::empty(),
    {
        Deck { cards: Vec::new() }
    }

    /// Builds the standard deck: the 52 canonical cards in the fixed
    /// generation order, followed by `jokers` jokers indexed from zero.
    pub fn new(jokers: u8) -> (d: Deck)
        ensures
            d@.len() == 52 + jokers,
            forall|k: int| 0 <= k < d@.len() ==> d@[k] == standard_card(k),
    {
        let mut res: Vec<Card> = Vec::new();
        let mut si: usize = 0;
        while si < 4
            invariant
                si <= 4,
                res@.len() == si * 13,
                forall|k: int| 0 <= k < res@.len() ==> res@[k] == standard_card(k),
            decreases 4 - si,
        {
            let suit = if si == 0 {
                Suit::Spades
            } else if si == 1 {
                Suit::Hearts
            } else if si == 2 {
                Suit::Clubs
            } else {
                Suit::Diamonds
            };
            let mut num: u8 = 1;
            while num < 14
                invariant
                    si < 4,
                    1 <= num <= 14,
                    suit == suit_index(si as int),
                    res@.len() == si * 13 + (num - 1),
                    forall|k: int| 0 <= k < res@.len() ==> res@[k] == standard_card(k),
                decreases 14 - num,
            {
                let c = Card::new(suit, num);
                proof {
                    let k = res@.len() as int;
                    assert(k / 13 == si as int && k % 13 == num - 1) by (nonlinear_arith)
                        requires
                            k == (si as int) * 13 + (num - 1),
                            0 <= si < 4,
                            1 <= num < 14,
                    ;
                    assert(standard_card(k) == Card::spec_new(suit, num));
                }
                res.push(c);
                num = num + 1;
            }
            si = si + 1;
        }
        let mut i: u8 = 0;
        while i < jokers
            invariant
                i <= jokers,
                res@.len() == 52 + i,
                forall|k: int| 0 <= k < res@.len() ==> res@[k] == standard_card(k),
            decreases jokers - i,
        {
            res.push(Card::Joker(i));
            i = i + 1;
        }
        Deck { cards: res }
    }

    pub fn len(&self) -> (n: usize)
        ensures
            n == self@.len(),
    {
        self.cards.len()
    }

    /// The card at position `i`, counting from the bottom; the top of the
    /// deck is the last position.
    pub fn get(&self, i: usize) -> (c: Card)
        requires
            i < self@.len(),
        ensures
            c == self@[i as int],
    {
        self.cards[i]
    }

    /// Adds a card on top.
    pub fn push(&mut self, card: Card)
        ensures
            final(self)@ =~= old(self)@.push(card),
    {
        self.cards.push(card);
    }

    /// Removes and returns the top card; `None` exactly on an empty deck.
    pub fn pop(&mut self) -> (r: Option<Card>)
        ensures
            r is None <==> old(self)@.len() == 0,
            r matches Some(c) ==> old(self)@.len() > 0 && c == old(self)@.last() && final(self)@
                =~= old(self)@.drop_last(),
            r is None ==> final(self)@ =~= old(self)@,
    {
        self.cards.pop()
    }

    /// Moves every card of the hand onto this deck, in order, clearing the
    /// hand.
    pub fn take(&mut self, hand: &mut Hand)
        ensures
            final(self)@ =~= old(self)@ + old(hand)@,
            final(hand)@ =~= Seq::<Card>::empty(),
            final(hand).wf(),
    {
        let mut v = hand.drain();
        self.cards.append(&mut v);
    }

    /// Permutes the deck in place with the supplied generator: the same
    /// cards, in a new order.
    pub fn shuffle(&mut self, rng: &mut rand::rngs::StdRng)
        ensures
            final(self)@.len() == old(self)@.len(),
            final(self)@.to_multiset() == old(self)@.to_multiset(),
    {
        shuffle_vec(&mut self.cards, rng);
    }
}

} // verus!
