use rand::SeedableRng;
use ranter::Card;
use ranter::Deck;
use ranter::Suit;

fn contents(d: &Deck) -> Vec<Card> {
    let mut v = Vec::new();
    for i in 0..d.len() {
        v.push(d.get(i));
    }
    v
}

fn count_of(cards: &[Card], c: Card) -> usize {
    cards.iter().filter(|&&x| x == c).count()
}

#[test]
fn standard_deck_size_and_no_duplicates() {
    let d = Deck::new(3);
    assert_eq!(d.len(), 55);
    let cards = contents(&d);
    for i in 0..cards.len() {
        for j in (i + 1)..cards.len() {
            assert_ne!(cards[i], cards[j]);
        }
    }
}

#[test]
fn standard_deck_without_jokers() {
    let d = Deck::new(0);
    assert_eq!(d.len(), 52);
}

#[test]
fn standard_deck_generation_order() {
    let d = Deck::new(2);
    assert_eq!(d.get(0), Card::Regular(Suit::Spades, 1));
    assert_eq!(d.get(9), Card::Regular(Suit::Spades, 10));
    assert_eq!(d.get(10), Card::Special(Suit::Spades));
    assert_eq!(d.get(13), Card::Regular(Suit::Hearts, 1));
    assert_eq!(d.get(26), Card::Regular(Suit::Clubs, 1));
    assert_eq!(d.get(50), Card::Special(Suit::Diamonds));
    assert_eq!(d.get(51), Card::Regular(Suit::Diamonds, 13));
    assert_eq!(d.get(52), Card::Joker(0));
    assert_eq!(d.get(53), Card::Joker(1));
}

#[test]
fn shuffle_preserves_multiset() {
    let mut d = Deck::new(4);
    let before = contents(&d);
    let mut rng = rand::rngs::StdRng::seed_from_u64(7);
    d.shuffle(&mut rng);
    let after = contents(&d);
    assert_eq!(before.len(), after.len());
    for &c in before.iter() {
        assert_eq!(count_of(&before, c), count_of(&after, c));
    }
}

#[test]
fn shuffle_is_deterministic_per_seed() {
    let mut d1 = Deck::new(2);
    let mut d2 = Deck::new(2);
    let mut rng1 = rand::rngs::StdRng::seed_from_u64(99);
    let mut rng2 = rand::rngs::StdRng::seed_from_u64(99);
    d1.shuffle(&mut rng1);
    d2.shuffle(&mut rng2);
    assert_eq!(contents(&d1), contents(&d2));
}

#[test]
fn push_then_pop_returns_top() {
    let mut d = Deck::empty();
    assert!(d.pop().is_none());
    d.push(Card::new(Suit::Hearts, 4));
    d.push(Card::new(Suit::Clubs, 9));
    assert_eq!(d.pop(), Some(Card::Regular(Suit::Clubs, 9)));
    assert_eq!(d.pop(), Some(Card::Regular(Suit::Hearts, 4)));
    assert!(d.pop().is_none());
}

#[test]
fn take_moves_hand_into_deck() {
    let mut d = Deck::empty();
    d.push(Card::new(Suit::Spades, 2));
    let mut h = ranter::Hand::new();
    h.accept(Card::new(Suit::Hearts, 3));
    h.accept(Card::new(Suit::Clubs, 5));
    d.take(&mut h);
    assert_eq!(h.len(), 0);
    assert_eq!(d.len(), 3);
    assert_eq!(d.get(0), Card::Regular(Suit::Spades, 2));
    assert_eq!(d.get(1), Card::Regular(Suit::Hearts, 3));
    assert_eq!(d.get(2), Card::Regular(Suit::Clubs, 5));
}
