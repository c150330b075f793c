use rand::SeedableRng;
use ranter::Card;
use ranter::Deck;
use ranter::Game;
use ranter::Hand;
use ranter::RandomStrategy;
use ranter::RoundResult;
use ranter::Suit;
use ranter::WinCondition;

fn rng(seed: u64) -> rand::rngs::StdRng {
    rand::rngs::StdRng::seed_from_u64(seed)
}

#[test]
fn new_game_layout() {
    let g = Game::new(3, 2);
    assert_eq!(g.round, 0);
    assert_eq!(g.players.len(), 3);
    assert_eq!(g.deck.len(), 54);
    assert_eq!(g.discard.len(), 0);
    for h in g.players.iter() {
        assert_eq!(h.len(), 0);
    }
}

#[test]
fn recycling_swaps_in_the_discard_pile() {
    let mut discard = Deck::empty();
    for r in 2..7u8 {
        discard.push(Card::new(Suit::Clubs, r));
    }
    let mut g = Game {
        deck: Deck::empty(),
        discard,
        players: vec![Hand::new(), Hand::new()],
        round: 0,
    };
    let mut rg = rng(5);
    let drawn = g.pop_deck(&mut rg);
    assert!(drawn.is_some());
    assert_eq!(g.deck.len(), 4);
    assert_eq!(g.discard.len(), 0);
}

#[test]
fn exhaustion_is_a_normal_stop() {
    let mut g = Game {
        deck: Deck::empty(),
        discard: Deck::empty(),
        players: vec![Hand::new(), Hand::new()],
        round: 0,
    };
    let mut rg = rng(5);
    assert!(g.pop_deck(&mut rg).is_none());
    let mut strategy = RandomStrategy::new();
    let step = g.step(&mut rg, &mut strategy);
    assert!(step.is_none());
    assert_eq!(g.round, 0);
}

#[test]
fn special_card_wins_without_entering_the_hand() {
    let mut g = Game::new(2, 0);
    let mut rg = rng(11);
    g.shuffle(&mut rg);
    let mut strategy = RandomStrategy::new();
    let mut seen_special = false;
    for _ in 0..10000 {
        let sizes: Vec<usize> = g.players.iter().map(|h| h.len()).collect();
        let r = match g.step(&mut rg, &mut strategy) {
            Some(r) => r,
            None => break,
        };
        if let Card::Special(_) = r.card {
            // a special card is black for routing, so the giver always
            // accepts it; the win registers without the hand growing.
            let rec = r.receiver.expect("a special card always finds its receiver");
            assert_eq!(r.win, Some(WinCondition::Special));
            assert_eq!(g.players[rec].len(), sizes[rec]);
            seen_special = true;
            break;
        }
    }
    assert!(seen_special);
}

#[test]
fn round_counter_and_giver_cycle() {
    let mut g = Game::new(3, 1);
    let mut rg = rng(21);
    g.shuffle(&mut rg);
    let mut strategy = RandomStrategy::new();
    for i in 0..30usize {
        let r = g.step(&mut rg, &mut strategy).expect("enough cards for thirty rounds");
        assert_eq!(r.giver, i % 3);
        assert_eq!(g.round, i + 1);
    }
}

#[test]
fn same_seeds_reproduce_the_same_rounds() {
    let mut g1 = Game::new(4, 2);
    let mut g2 = Game::new(4, 2);
    let mut r1 = rng(1234);
    let mut r2 = rng(1234);
    g1.shuffle(&mut r1);
    g2.shuffle(&mut r2);
    let mut s1 = RandomStrategy::new();
    let mut s2 = RandomStrategy::new();
    for _ in 0..40 {
        let a = g1.step(&mut r1, &mut s1);
        let b = g2.step(&mut r2, &mut s2);
        match (a, b) {
            (Some(x), Some(y)) => {
                assert_eq!(x.describe(&g1), y.describe(&g2));
            }
            (None, None) => break,
            _ => panic!("the two runs diverged"),
        }
    }
}

#[test]
fn describe_receiver_with_sum() {
    let g = Game::new(2, 0);
    let r = RoundResult {
        giver: 0,
        receiver: Some(1),
        card: Card::new(Suit::Hearts, 5),
        win: None,
    };
    assert_eq!(r.describe(&g), "0 \u{2665}5 to 1 => 0");
}

#[test]
fn describe_receiver_with_win() {
    let g = Game::new(2, 0);
    let r = RoundResult {
        giver: 1,
        receiver: Some(0),
        card: Card::new(Suit::Clubs, 13),
        win: Some(WinCondition::TwentyFive),
    };
    assert_eq!(r.describe(&g), "1 \u{2663}K to 0 => TwentyFive");
}

#[test]
fn describe_nobody() {
    let g = Game::new(2, 0);
    let r = RoundResult {
        giver: 12,
        receiver: None,
        card: Card::Joker(3),
        win: None,
    };
    assert_eq!(r.describe(&g), "12 J3 to nobody");
}

#[test]
fn black_card_goes_to_the_giver_or_nobody() {
    let mut g = Game::new(2, 0);
    // leave only one black card in the deck so the draw is forced.
    g.deck = Deck::empty();
    g.deck.push(Card::new(Suit::Spades, 9));
    let mut rg = rng(3);
    let mut strategy = RandomStrategy::new();
    let r = g.step(&mut rg, &mut strategy).expect("one card is left");
    assert_eq!(r.giver, 0);
    assert_eq!(r.receiver, Some(0));
    assert_eq!(r.win, None);
    assert_eq!(g.players[0].len(), 1);
}

#[test]
fn red_card_finds_an_eligible_hand() {
    let mut g = Game::new(2, 0);
    g.deck = Deck::empty();
    g.deck.push(Card::new(Suit::Hearts, 9));
    let mut rg = rng(3);
    let mut strategy = RandomStrategy::new();
    let r = g.step(&mut rg, &mut strategy).expect("one card is left");
    let rec = r.receiver.expect("both empty hands are eligible");
    assert!(rec < 2);
    assert_eq!(g.players[rec].len(), 1);
}
