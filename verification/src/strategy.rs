//! The tie-breaking policy, consulted only when several hands could receive
//! a red ordinary card at once, and its default implementation: a uniform
//! pick among the eligible players from a privately owned generator.

use vstd::prelude::*;
use crate::card::Card;
use crate::hand::Hand;
use crate::hand::spec_can_accept;
use crate::hand::spec_hand_sum;
use crate::rng::choose_index;
use crate::rng::rng_from_seed;

verus! {

/// A pluggable tie-breaker: asked to pick one receiver when two or more
/// hands are eligible for a drawn card. The choice must name an in-bounds
/// player whose hand can accept the card.
pub trait Strategy {
    fn pick(&mut self, giver: usize, hands: &Vec<Hand>, card: Card) -> (r: usize)
        requires
            hands@.len() > 0,
            forall|i: int|
                0 <= i < hands@.len() ==> (#[trigger] hands@[i]).wf() && !(spec_hand_sum(
                    hands@[i]@,
                ) is Win),
            exists|i: int| 0 <= i < hands@.len() && spec_can_accept((#[trigger] hands@[i])@, card),
        ensures
            r < hands@.len(),
            spec_can_accept(hands@[r as int]@, card),
    ;
}

/// The default policy: collect every eligible index and pick one uniformly
/// at random, from a generator of its own so that tie-break determinism is
/// independent of the shuffle's.
pub struct RandomStrategy {
    rng: rand::rngs::StdRng,
}

impl RandomStrategy {
    pub fn new() -> RandomStrategy {
        RandomStrategy { rng: rng_from_seed(60) }
    }
}

impl Strategy for RandomStrategy {
    fn pick(&mut self, giver: usize, hands: &Vec<Hand>, card: Card) -> (r: usize) {
        let mut eligible: Vec<usize> = Vec::new();
        let n = hands.len();
        let mut i: usize = 0;
        while i < n
            invariant
                n == hands@.len(),
                i <= n,
                forall|k: int|
                    0 <= k < hands@.len() ==> (#[trigger] hands@[k]).wf() && !(spec_hand_sum(
                        hands@[k]@,
                    ) is Win),
                forall|j: int|
                    0 <= j < eligible@.len() ==> (#[trigger] eligible@[j]) < i && spec_can_accept(
                        hands@[eligible@[j] as int]@,
                        card,
                    ),
                forall|k: int|
                    0 <= k < i && spec_can_accept((#[trigger] hands@[k])@, card)
                        ==> eligible@.contains(k as usize),
            decreases n - i,
        {
            let h = &hands[i];
            if h.can_accept(card) {
                let ghost pre = eligible@;
                eligible.push(i);
                proof {
                    assert(eligible@ =~= pre.push(i as usize));
                    assert forall|k: int|
                        0 <= k < i + 1 && spec_can_accept((#[trigger] hands@[k])@, card)
                            implies eligible@.contains(k as usize) by {
                        if k < i {
                            let j = choose|j: int| 0 <= j < pre.len() && pre[j] == k as usize;
                            assert(eligible@[j] == k as usize);
                        } else {
                            assert(eligible@[eligible@.len() - 1] == k as usize);
                        }
                    }
                }
            }
            i = i + 1;
        }
        proof {
            let k = choose|k: int|
                0 <= k < hands@.len() && spec_can_accept((#[trigger] hands@[k])@, card);
            assert(eligible@.contains(k as usize));
        }
        let r = choose_index(&eligible, &mut self.rng);
        proof {
            let j = choose|j: int| 0 <= j < eligible@.len() && eligible@[j] == r;
            assert(spec_can_accept(hands@[r as int]@, card));
        }
        r
    }
}

} // verus!
