//! The card model: suits with their colour, and the closed set of card
//! variants with its canonical construction rule.

use vstd::prelude::*;

verus! {

/// One of the four suits of a standard deck.
#[derive(Debug, Clone, Copy, PartialEq, Eq, Structural)]
pub enum Suit {
    Spades,
    Hearts,
    Clubs,
    Diamonds,
}

impl Suit {
    /// Hearts and diamonds are the red suits; spades and clubs are black.
    pub open spec fn spec_is_red(self) -> bool {
        self == Suit::Hearts || self == Suit::Diamonds
    }

    pub fn is_red(&self) -> (r: bool)
        ensures
            r == self.spec_is_red(),
    {
        *self == Suit::Hearts || *self == Suit::Diamonds
    }
}

/// A card: an ordinary ranked card, a joker told apart only by its index, or
/// one of the two special cards (the jack of spades and the queen of
/// diamonds).
#[derive(Debug, Clone, Copy, PartialEq, Eq, Structural)]
pub enum Card {
    Regular(Suit, u8),
    Joker(u8),
    Special(Suit),
}

impl Card {
    /// The canonical card for a (suit, rank) pair: the two special
    /// combinations become `Special`, everything else stays `Regular`.
    pub open spec fn spec_new(suit: Suit, num: u8) -> Card {
        if num == 12 && suit == Suit::Diamonds {
            Card::Special(suit)
        } else if num == 11 && suit == Suit::Spades {
            Card::Special(suit)
        } else {
            Card::Regular(suit, num)
        }
    }

    /// Builds the canonical card for a (suit, rank) pair; ranks outside
    /// [1, 13] are a caller error and are excluded up front.
    pub fn new(suit: Suit, num: u8) -> (c: Card)
        requires
            1 <= num < 14,
        ensures
            c == Card::spec_new(suit, num),
    {
        if num == 12 && suit == Suit::Diamonds {
            Card::Special(suit)
        } else if num == 11 && suit == Suit::Spades {
            Card::Special(suit)
        } else {
            Card::Regular(suit, num)
        }
    }

    /// A card is red only through an ordinary card's suit: specials and
    /// jokers never count as red for routing.
    pub open spec fn spec_is_red(self) -> bool {
        match self {
            Card::Regular(s, _) => s.spec_is_red(),
            Card::Joker(_) => false,
            Card::Special(_) => false,
        }
    }

    pub fn is_red(&self) -> (r: bool)
        ensures
            r == self.spec_is_red(),
    {
        match *self {
            Card::Regular(s, _) => s.is_red(),
            Card::Joker(_) => false,
            Card::Special(_) => false,
        }
    }
}

/// Exactly two (suit, rank) pairs canonicalize to a special card; every other
/// pair keeps its suit and rank in an ordinary card.
pub proof fn lemma_special_combinations(suit: Suit, num: u8)
    requires
        1 <= num < 14,
    ensures
        (Card::spec_new(suit, num) is Special) <==> ((suit == Suit::Diamonds && num == 12) || (
        suit == Suit::Spades
            && num == 11)),
        !(Card::spec_new(suit, num) is Special) ==> Card::spec_new(suit, num) == Card::Regular(
            suit,
            num,
        ),
{
}

} // verus!
