//! Rendering: decimal numerals, the short token of a card, the name of a win
//! condition, and the one-line report of a resolved round.

use vstd::prelude::*;
use crate::card::Card;
use crate::card::Suit;
use crate::game::Game;
use crate::game::RoundResult;
use crate::hand::WinCondition;
use crate::hand::spec_hand_sum;

verus! {

/// The character of a single decimal digit.
pub open spec fn dec_digit(d: int) -> Seq<char> {
    if d == 0 {
        "0"@
    } else if d == 1 {
        "1"@
    } else if d == 2 {
        "2"@
    } else if d == 3 {
        "3"@
    } else if d == 4 {
        "4"@
    } else if d == 5 {
        "5"@
    } else if d == 6 {
        "6"@
    } else if d == 7 {
        "7"@
    } else {
        if d == 8 {
            "8"@
        } else {
            "9"@
        }
    }
}

/// The decimal numeral of `n`, most significant digit first.
pub open spec fn dec_str(n: nat) -> Seq<char>
    decreases n,
{
    if n < 10 {
        dec_digit(n as int)
    } else {
        dec_str(n / 10) + dec_digit((n % 10) as int)
    }
}

fn digit_token(d: u64) -> (s: &'static str)
    requires
        d < 10,
    ensures
        s@ == dec_digit(d as int),
{
    if d == 0 {
        "0"
    } else if d == 1 {
        "1"
    } else if d == 2 {
        "2"
    } else if d == 3 {
        "3"
    } else if d == 4 {
        "4"
    } else if d == 5 {
        "5"
    } else if d == 6 {
        "6"
    } else if d == 7 {
        "7"
    } else if d == 8 {
        "8"
    } else {
        "9"
    }
}

/// Renders `n` in decimal.
pub fn dec_token(n: u64) -> (s: String)
    ensures
        s@ == dec_str(n as nat),
    decreases n,
{
    if n < 10 {
        String::from_str(digit_token(n))
    } else {
        let mut s = dec_token(n / 10);
        s.append(digit_token(n % 10));
        s
    }
}

/// The symbol of each suit.
pub open spec fn spec_symbol(s: Suit) -> Seq<char> {
    match s {
        Suit::Spades => "\u{2660}"@,
        Suit::Hearts => "\u{2665}"@,
        Suit::Clubs => "\u{2663}"@,
        Suit::Diamonds => "\u{2666}"@,
    }
}

impl Suit {
    pub fn symbol(&self) -> (t: &'static str)
        ensures
            t@ == spec_symbol(*self),
    {
        match *self {
            Suit::Spades => "\u{2660}",
            Suit::Hearts => "\u{2665}",
            Suit::Clubs => "\u{2663}",
            Suit::Diamonds => "\u{2666}",
        }
    }
}

/// The name under which a win condition is reported.
pub open spec fn spec_win_name(w: WinCondition) -> Seq<char> {
    match w {
        WinCondition::FiveCards => "FiveCards"@,
        WinCondition::TwentyFive => "TwentyFive"@,
        WinCondition::Special => "Special"@,
        WinCondition::Joker => "Joker"@,
    }
}

impl WinCondition {
    pub fn name(&self) -> (t: &'static str)
        ensures
            t@ == spec_win_name(*self),
    {
        match *self {
            WinCondition::FiveCards => "FiveCards",
            WinCondition::TwentyFive => "TwentyFive",
            WinCondition::Special => "Special",
            WinCondition::Joker => "Joker",
        }
    }
}

/// A card's short token: suit symbol and rank letter or numeral for ordinary
/// cards, the jack or queen letter for the two specials, `J` and the index
/// for jokers.
pub open spec fn spec_token(c: Card) -> Seq<char> {
    match c {
        Card::Regular(s, n) => if n == 1 {
            spec_symbol(s) + "A"@
        } else if n == 13 {
            spec_symbol(s) + "K"@
        } else if n == 12 {
            spec_symbol(s) + "Q"@
        } else if n == 11 {
            spec_symbol(s) + "J"@
        } else if n == 10 {
            spec_symbol(s) + "T"@
        } else {
            spec_symbol(s) + dec_str(n as nat)
        },
        Card::Joker(n) => "J"@ + dec_str(n as nat),
        Card::Special(s) => spec_symbol(s) + (if s == Suit::Spades {
            "J"@
        } else {
            "Q"@
        }),
    }
}

impl Card {
    pub fn token(&self) -> (t: String)
        ensures
            t@ == spec_token(*self),
    {
        match *self {
            Card::Regular(s, n) => {
                let mut out = String::from_str(s.symbol());
                if n == 1 {
                    out.append("A");
                } else if n == 13 {
                    out.append("K");
                } else if n == 12 {
                    out.append("Q");
                } else if n == 11 {
                    out.append("J");
                } else if n == 10 {
                    out.append("T");
                } else {
                    let d = dec_token(n as u64);
                    out.append(d.as_str());
                }
                out
            },
            Card::Joker(n) => {
                let mut out = String::from_str("J");
                let d = dec_token(n as u64);
                out.append(d.as_str());
                out
            },
            Card::Special(s) => {
                let mut out = String::from_str(s.symbol());
                if s == Suit::Spades {
                    out.append("J");
                } else {
                    out.append("Q");
                }
                out
            },
        }
    }
}

/// The one-line report of a round: giver, card token, then either the
/// receiver with the hand's new sum, the receiver with the win's name, or
/// `nobody`.
pub open spec fn spec_describe(r: RoundResult, g: Game) -> Seq<char> {
    match (r.receiver, r.win) {
        (Some(rec), None) => dec_str(r.giver as nat) + " "@ + spec_token(r.card) + " to "@
            + dec_str(rec as nat) + " => "@ + dec_str(
            spec_hand_sum(g.players@[rec as int]@)->NoWin_0 as nat,
        ),
        (Some(rec), Some(w)) => dec_str(r.giver as nat) + " "@ + spec_token(r.card) + " to "@
            + dec_str(rec as nat) + " => "@ + spec_win_name(w),
        (None, _) => dec_str(r.giver as nat) + " "@ + spec_token(r.card) + " to nobody"@,
    }
}

impl RoundResult {
    /// Renders the round against the game state it came from; a receiver
    /// index out of range, or a receiver reported without a win while that
    /// hand has in fact won, is a caller error and is excluded up front.
    pub fn describe(&self, g: &Game) -> (out: String)
        requires
            self.receiver matches Some(rec) ==> rec < g.players@.len(),
            self.receiver matches Some(rec) ==> (self.win is None ==> (g.players@[rec as int].wf()
                && spec_hand_sum(g.players@[rec as int]@) is NoWin)),
        ensures
            out@ == spec_describe(*self, *g),
    {
        match (self.receiver, self.win) {
            (Some(rec), None) => {
                let mut out = dec_token(self.giver as u64);
                out.append(" ");
                let t = self.card.token();
                out.append(t.as_str());
                out.append(" to ");
                let d = dec_token(rec as u64);
                out.append(d.as_str());
                out.append(" => ");
                let h = &g.players[rec];
                let s = h.hand_sum().no_win();
                let d2 = dec_token(s as u64);
                out.append(d2.as_str());
                out
            },
            (Some(rec), Some(w)) => {
                let mut out = dec_token(self.giver as u64);
                out.append(" ");
                let t = self.card.token();
                out.append(t.as_str());
                out.append(" to ");
                let d = dec_token(rec as u64);
                out.append(d.as_str());
                out.append(" => ");
                out.append(w.name());
                out
            },
            (None, _) => {
                let mut out = dec_token(self.giver as u64);
                out.append(" ");
                let t = self.card.token();
                out.append(t.as_str());
                out.append(" to nobody");
                out
            },
        }
    }
}

} // verus!
