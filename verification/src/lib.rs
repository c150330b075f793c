//! A small card-passing game engine: a shared deck is drawn one card at a
//! time, each card is routed to a player or to the discard pile according to
//! suit-colour rules, and hands are evaluated for a win after every
//! acceptance.

pub mod card;
pub mod deck;
pub mod game;
pub mod hand;
mod rng;
pub mod strategy;
pub mod text;

pub use card::Card;
pub use card::Suit;
pub use deck::Deck;
pub use game::Game;
pub use game::RoundResult;
pub use hand::Hand;
pub use hand::HandSum;
pub use hand::WinCondition;
pub use strategy::RandomStrategy;
pub use strategy::Strategy;
