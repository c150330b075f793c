use ranter::Card;
use ranter::Hand;
use ranter::HandSum;
use ranter::Suit;
use ranter::WinCondition;

fn hand_of(ranks: &[u8]) -> Hand {
    let mut h = Hand::new();
    for &r in ranks {
        h.accept(Card::new(Suit::Clubs, r));
    }
    h
}

#[test]
fn empty_hand_is_no_win_zero() {
    let h = Hand::new();
    assert_eq!(h.hand_sum(), HandSum::NoWin(0));
}

#[test]
fn joker_always_wins() {
    let mut h = hand_of(&[3, 9]);
    h.accept(Card::Joker(1));
    assert_eq!(h.hand_sum(), HandSum::Win(WinCondition::Joker));
}

#[test]
fn special_always_wins() {
    let mut h = hand_of(&[2, 4, 7]);
    h.accept(Card::Special(Suit::Diamonds));
    assert_eq!(h.hand_sum(), HandSum::Win(WinCondition::Special));
}

#[test]
fn five_cards_win_takes_precedence() {
    // five ordinary cards, sum 20: neither twenty-five nor the ace case.
    let h = hand_of(&[2, 3, 4, 5, 6]);
    assert_eq!(h.hand_sum(), HandSum::Win(WinCondition::FiveCards));
}

#[test]
fn five_cards_win_even_when_sum_is_twenty_five() {
    let h = hand_of(&[5, 5, 5, 5, 5]);
    assert_eq!(h.hand_sum(), HandSum::Win(WinCondition::FiveCards));
}

#[test]
fn four_cards_summing_twenty_five_win() {
    let h = hand_of(&[13, 5, 4, 3]);
    assert_eq!(h.hand_sum(), HandSum::Win(WinCondition::TwentyFive));
}

#[test]
fn twelve_with_an_ace_wins() {
    let h = hand_of(&[1, 3, 4, 4]);
    assert_eq!(h.hand_sum(), HandSum::Win(WinCondition::TwentyFive));
}

#[test]
fn twelve_without_an_ace_is_no_win() {
    let h = hand_of(&[2, 3, 3, 4]);
    assert_eq!(h.hand_sum(), HandSum::NoWin(12));
}

#[test]
fn can_accept_respects_the_sum_bound() {
    let h = hand_of(&[5, 7, 8]);
    assert_eq!(h.hand_sum(), HandSum::NoWin(20));
    assert!(!h.can_accept(Card::new(Suit::Hearts, 6)));
    assert!(h.can_accept(Card::new(Suit::Hearts, 5)));
}

#[test]
fn wild_cards_are_always_acceptable() {
    let h = hand_of(&[13, 11, 1]);
    assert!(h.can_accept(Card::Joker(0)));
    assert!(h.can_accept(Card::Special(Suit::Spades)));
}

#[test]
fn accept_appends_and_len_counts() {
    let mut h = Hand::new();
    assert_eq!(h.len(), 0);
    h.accept(Card::new(Suit::Hearts, 9));
    h.accept(Card::new(Suit::Spades, 2));
    assert_eq!(h.len(), 2);
    assert_eq!(h.hand_sum(), HandSum::NoWin(11));
}

#[test]
fn no_win_unwraps_the_sum() {
    assert_eq!(HandSum::NoWin(7).no_win(), 7);
    assert_eq!(HandSum::NoWin(0).no_win(), 0);
}
