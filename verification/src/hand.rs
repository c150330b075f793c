//! A player's hand and its evaluation: the running sum of ordinary ranks,
//! the wild-card wins, the five-card win and the twenty-five win.

use vstd::prelude::*;
use crate::card::Card;

verus! {

/// The reason a hand (or a routed special card) won a round.
#[derive(Debug, Clone, Copy, PartialEq, Eq, Structural)]
pub enum WinCondition {
    FiveCards,
    TwentyFive,
    Special,
    Joker,
}

/// The result of evaluating a hand: either a win, or the running numeric sum.
#[derive(Debug, Clone, Copy, PartialEq, Eq, Structural)]
pub enum HandSum {
    Win(WinCondition),
    NoWin(u8),
}

impl HandSum {
    /// The numeric sum of a hand that has not won; calling this on a win is a
    /// caller error and is excluded up front.
    pub fn no_win(&self) -> (r: u8)
        requires
            *self is NoWin,
        ensures
            *self == HandSum::NoWin(r),
    {
        match *self {
            HandSum::NoWin(sum) => sum,
            HandSum::Win(_) => {
                assert(false);
                0
            },
        }
    }
}

/// What an ordinary card contributes to the running sum; wild cards
/// contribute nothing (they win outright instead).
pub open spec fn rank_value(c: Card) -> int {
    match c {
        Card::Regular(_, n) => n as int,
        Card::Joker(_) => 0,
        Card::Special(_) => 0,
    }
}

/// An ace is the rank-1 ordinary card.
pub open spec fn is_ace(c: Card) -> bool {
    match c {
        Card::Regular(_, n) => n == 1,
        Card::Joker(_) => false,
        Card::Special(_) => false,
    }
}

/// The sum of the ranks of the ordinary cards in a hand.
pub open spec fn reg_sum(s: Seq<Card>) -> int
    decreases s.len(),
{
    if s.len() == 0 {
        0
    } else {
        reg_sum(s.drop_last()) + rank_value(s.last())
    }
}

/// How many aces a hand holds.
pub open spec fn ace_count(s: Seq<Card>) -> int
    decreases s.len(),
{
    if s.len() == 0 {
        0
    } else {
        ace_count(s.drop_last()) + if is_ace(s.last()) {
            1int
        } else {
            0int
        }
    }
}

/// Whether a hand holds at least one joker.
pub open spec fn has_joker(s: Seq<Card>) -> bool
    decreases s.len(),
{
    s.len() > 0 && (s.last() is Joker || has_joker(s.drop_last()))
}

/// Whether a hand holds at least one special card.
pub open spec fn has_special(s: Seq<Card>) -> bool
    decreases s.len(),
{
    s.len() > 0 && (s.last() is Special || has_special(s.drop_last()))
}

/// The evaluation rule for a hand's contents: any joker wins outright, then
/// any special card, then exactly five cards, then a sum of twenty-five (or
/// twelve with an ace counting high); otherwise the hand has not won and its
/// value is the running sum.
pub open spec fn spec_hand_sum(s: Seq<Card>) -> HandSum {
    if has_joker(s) {
        HandSum::Win(WinCondition::Joker)
    } else if has_special(s) {
        HandSum::Win(WinCondition::Special)
    } else if s.len() == 5 {
        HandSum::Win(WinCondition::FiveCards)
    } else if reg_sum(s) == 25 || (reg_sum(s) == 12 && ace_count(s) >= 1) {
        HandSum::Win(WinCondition::TwentyFive)
    } else {
        HandSum::NoWin(reg_sum(s) as u8)
    }
}

/// Whether a hand may receive a card: wild cards are always acceptable, an
/// ordinary card only while the running sum stays within twenty-five.
pub open spec fn spec_can_accept(s: Seq<Card>, card: Card) -> bool {
    match card {
        Card::Regular(_, n) => reg_sum(s) + n <= 25,
        Card::Joker(_) => true,
        Card::Special(_) => true,
    }
}

pub proof fn lemma_reg_sum_nonneg(s: Seq<Card>)
    ensures
        reg_sum(s) >= 0,
        ace_count(s) >= 0,
    decreases s.len(),
{
    if s.len() > 0 {
        lemma_reg_sum_nonneg(s.drop_last());
    }
}

/// The running sum over a prefix never exceeds the sum over the whole hand.
pub proof fn lemma_reg_sum_take_le(s: Seq<Card>, i: int)
    requires
        0 <= i <= s.len(),
    ensures
        reg_sum(s.take(i)) <= reg_sum(s),
    decreases s.len(),
{
    if i == s.len() {
        assert(s.take(i) =~= s);
    } else {
        lemma_reg_sum_take_le(s.drop_last(), i);
        assert(s.drop_last().take(i) =~= s.take(i));
    }
}

/// A hand holds a joker exactly when one of its positions holds a joker.
pub proof fn lemma_has_joker_iff(s: Seq<Card>)
    ensures
        has_joker(s) <==> exists|i: int| 0 <= i < s.len() && (#[trigger] s[i]) is Joker,
    decreases s.len(),
{
    if s.len() > 0 {
        lemma_has_joker_iff(s.drop_last());
        if s.last() is Joker {
            assert(s[s.len() - 1] is Joker);
        } else if has_joker(s.drop_last()) {
            let i = choose|i: int| 0 <= i < s.drop_last().len() && (#[trigger] s.drop_last()[i]) is Joker;
            assert(s[i] is Joker);
        } else {
            assert forall|i: int| 0 <= i < s.len() implies !((#[trigger] s[i]) is Joker) by {
                if i < s.len() - 1 {
                    assert(s.drop_last()[i] == s[i]);
                }
            }
        }
    }
}

/// A hand holds a special card exactly when one of its positions holds one.
pub proof fn lemma_has_special_iff(s: Seq<Card>)
    ensures
        has_special(s) <==> exists|i: int| 0 <= i < s.len() && (#[trigger] s[i]) is Special,
    decreases s.len(),
{
    if s.len() > 0 {
        lemma_has_special_iff(s.drop_last());
        if s.last() is Special {
            assert(s[s.len() - 1] is Special);
        } else if has_special(s.drop_last()) {
            let i = choose|i: int|
                0 <= i < s.drop_last().len() && (#[trigger] s.drop_last()[i]) is Special;
            assert(s[i] is Special);
        } else {
            assert forall|i: int| 0 <= i < s.len() implies !((#[trigger] s[i]) is Special) by {
                if i < s.len() - 1 {
                    assert(s.drop_last()[i] == s[i]);
                }
            }
        }
    }
}

/// A hand that holds a joker anywhere evaluates to the joker win, whatever
/// else it holds and in whatever order.
pub proof fn lemma_joker_wins(s: Seq<Card>)
    requires
        exists|i: int| 0 <= i < s.len() && (#[trigger] s[i]) is Joker,
    ensures
        spec_hand_sum(s) == HandSum::Win(WinCondition::Joker),
{
    lemma_has_joker_iff(s);
}

/// A hand that holds a special card and no joker evaluates to the special
/// win, whatever else it holds and in whatever order.
pub proof fn lemma_special_wins(s: Seq<Card>)
    requires
        exists|i: int| 0 <= i < s.len() && (#[trigger] s[i]) is Special,
        forall|i: int| 0 <= i < s.len() ==> !((#[trigger] s[i]) is Joker),
    ensures
        spec_hand_sum(s) == HandSum::Win(WinCondition::Special),
{
    lemma_has_joker_iff(s);
    lemma_has_special_iff(s);
}

/// A hand that holds any wild card evaluates to a win.
pub proof fn lemma_wild_wins(s: Seq<Card>)
    requires
        exists|i: int|
            0 <= i < s.len() && ((#[trigger] s[i]) is Joker || s[i] is Special),
    ensures
        spec_hand_sum(s) is Win,
{
    lemma_has_joker_iff(s);
    lemma_has_special_iff(s);
}

/// The full evaluation rule on a hand of ordinary cards alone: five cards win
/// outright (whatever the sum), then the twenty-five rule decides, and
/// otherwise the hand's value is its sum.
pub proof fn lemma_ordinary_evaluation(s: Seq<Card>)
    requires
        forall|i: int| 0 <= i < s.len() ==> (#[trigger] s[i]) is Regular,
    ensures
        s.len() == 5 ==> spec_hand_sum(s) == HandSum::Win(WinCondition::FiveCards),
        s.len() != 5 && (reg_sum(s) == 25 || (reg_sum(s) == 12 && ace_count(s) >= 1))
            ==> spec_hand_sum(s) == HandSum::Win(WinCondition::TwentyFive),
        s.len() != 5 && !(reg_sum(s) == 25 || (reg_sum(s) == 12 && ace_count(s) >= 1))
            ==> spec_hand_sum(s) == HandSum::NoWin(reg_sum(s) as u8),
{
    lemma_has_joker_iff(s);
    lemma_has_special_iff(s);
}

/// The cards a player has accumulated.
#[derive(Debug)]
pub struct Hand {
    cards: Vec<Card>,
}

impl View for Hand {
    type V = Seq<Card>;

    closed spec fn view(&self) -> Seq<Card> {
        self.cards@
    }
}

impl Hand {
    /// A hand reachable through `accept` keeps its ordinary sum within
    /// twenty-five.
    pub open spec fn wf(self) -> bool {
        reg_sum(self@) <= 25
    }

    pub fn new() -> (h: Hand)
        ensures
            h@ =~= Seq::<Card>::empty(),
            h.wf(),
    {
        let h = Hand { cards: Vec::new() };
        proof {
            lemma_reg_sum_nonneg(h@);
        }
        h
    }

    pub fn len(&self) -> (n: usize)
        ensures
            n == self@.len(),
    {
        self.cards.len()
    }

    /// Evaluates the hand from scratch over its full contents.
    pub fn hand_sum(&self) -> (r: HandSum)
        requires
            self.wf(),
        ensures
            r == spec_hand_sum(self@),
    {
        let ghost s = self@;
        let n = self.cards.len();
        let mut sum: u8 = 0;
        let mut ace = false;
        let mut joker = false;
        let mut special = false;
        let mut i: usize = 0;
        while i < n
            invariant
                n == s.len(),
                i <= n,
                self@ == s,
                reg_sum(s) <= 25,
                sum as int == reg_sum(s.take(i as int)),
                ace == (ace_count(s.take(i as int)) >= 1),
                joker == has_joker(s.take(i as int)),
                special == has_special(s.take(i as int)),
            decreases n - i,
        {
            let c = self.cards[i];
            proof {
                assert(s.take(i + 1).drop_last() =~= s.take(i as int));
                assert(s.take(i + 1).last() == s[i as int]);
                lemma_reg_sum_take_le(s, i + 1);
                lemma_reg_sum_nonneg(s.take(i as int));
            }
            match c {
                Card::Regular(_, r) => {
                    sum = sum + r;
                    if r == 1 {
                        ace = true;
                    }
                },
                Card::Joker(_) => {
                    joker = true;
                },
                Card::Special(_) => {
                    special = true;
                },
            }
            i = i + 1;
        }
        proof {
            assert(s.take(n as int) =~= s);
            lemma_reg_sum_nonneg(s);
        }
        if joker {
            HandSum::Win(WinCondition::Joker)
        } else if special {
            HandSum::Win(WinCondition::Special)
        } else if n == 5 {
            HandSum::Win(WinCondition::FiveCards)
        } else if sum == 25 || (sum == 12 && ace) {
            HandSum::Win(WinCondition::TwentyFive)
        } else {
            HandSum::NoWin(sum)
        }
    }

    /// Whether this hand may receive the card; asking a hand that has already
    /// won is a caller error (a won hand ought to have been cleared).
    pub fn can_accept(&self, card: Card) -> (r: bool)
        requires
            self.wf(),
            !(spec_hand_sum(self@) is Win),
        ensures
            r == spec_can_accept(self@, card),
    {
        let n: u8 = match card {
            Card::Regular(_, n) => n,
            Card::Joker(_) => {
                return true;
            },
            Card::Special(_) => {
                return true;
            },
        };
        proof {
            lemma_reg_sum_nonneg(self@);
        }
        match self.hand_sum() {
            HandSum::Win(_) => {
                assert(false);
                false
            },
            HandSum::NoWin(sum) => (sum as u16) + (n as u16) <= 25,
        }
    }

    /// Empties the hand, handing its cards over in order; used when a won
    /// hand's contents move to the discard pile.
    pub fn drain(&mut self) -> (v: Vec<Card>)
        ensures
            v@ =~= old(self)@,
            final(self)@ =~= Seq::<Card>::empty(),
            final(self).wf(),
    {
        let mut v: Vec<Card> = Vec::new();
        core::mem::swap(&mut v, &mut self.cards);
        v
    }

    /// Appends the card; accepting a card the hand cannot hold is a caller
    /// error and is excluded up front.
    pub fn accept(&mut self, card: Card)
        requires
            old(self).wf(),
            !(spec_hand_sum(old(self)@) is Win),
            spec_can_accept(old(self)@, card),
        ensures
            final(self)@ =~= old(self)@.push(card),
            final(self).wf(),
    {
        self.cards.push(card);
        proof {
            assert(self@.drop_last() =~= old(self)@);
            assert(self@.last() == card);
        }
    }
}

} // verus!
