//! A standard deck of 52 playing cards.
//!
//! A [`Card`] is a [`Rank`] and a [`Suit`]. Cards are compared by rank alone.
//! [`Card::get_deck`] builds the full deck, and the [`Deck`] trait lets a
//! sequence of cards be shuffled and used as a stack.

pub mod card;
pub mod deck;
pub mod rank;
pub mod shuffle;
pub mod suit;

pub use card::Card;
pub use deck::Deck;
pub use deck::DECK_SIZE;
pub use rank::Rank;
pub use rank::ALL_RANKS;
pub use rank::CARD_RANK_COUNT;
pub use suit::Suit;
pub use suit::ALL_SUITS;
pub use suit::CARD_SUIT_COUNT;
