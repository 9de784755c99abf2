//! Card suits.

use std::cmp::Ordering;
use vstd::prelude::*;

verus! {

/// The suit of a card.
///
/// Where an order of suits is wanted it is the order of declaration:
/// `Clubs < Diamonds < Hearts < Spades`. Suits take no part in comparing
/// cards.
#[derive(Debug, Copy, Clone, PartialEq, Eq, Structural, Ord)]
pub enum Suit {
    Clubs,
    Diamonds,
    Hearts,
    Spades,
}

/// The total number of suits within the deck of cards.
pub const CARD_SUIT_COUNT: usize = 4;

/// Every suit, in declaration order.
pub const ALL_SUITS: [Suit; CARD_SUIT_COUNT] = [
    Suit::Clubs,
    Suit::Diamonds,
    Suit::Hearts,
    Suit::Spades,
];

impl Suit {
    /// Position of the suit in declaration order, `Clubs` being 0 and `Spades` 3.
    pub open spec fn ordinal(self) -> nat {
        match self {
            Suit::Clubs => 0,
            Suit::Diamonds => 1,
            Suit::Hearts => 2,
            Suit::Spades => 3,
        }
    }

    /// The English name of the suit, as a sequence of characters.
    pub open spec fn text(self) -> Seq<char> {
        match self {
            Suit::Clubs => "Clubs"@,
            Suit::Diamonds => "Diamonds"@,
            Suit::Hearts => "Hearts"@,
            Suit::Spades => "Spades"@,
        }
    }

    /// Position of the suit in [`ALL_SUITS`].
    pub fn index(&self) -> (i: usize)
        ensures
            i == self.ordinal(),
            i < CARD_SUIT_COUNT,
    {
        match self {
            Suit::Clubs => 0,
            Suit::Diamonds => 1,
            Suit::Hearts => 2,
            Suit::Spades => 3,
        }
    }

    /// The English name of the suit.
    pub fn name(&self) -> (s: &'static str)
        ensures
            s@ == self.text(),
            s@.len() > 0,
    {
        proof {
            self.lemma_text_nonempty();
        }
        match self {
            Suit::Clubs => "Clubs",
            Suit::Diamonds => "Diamonds",
            Suit::Hearts => "Hearts",
            Suit::Spades => "Spades",
        }
    }

    /// Every suit has a non-empty name.
    pub proof fn lemma_text_nonempty(self)
        ensures
            self.text().len() > 0,
    {
        reveal_strlit("Clubs");
        reveal_strlit("Diamonds");
        reveal_strlit("Hearts");
        reveal_strlit("Spades");
    }

    /// A suit is determined by its ordinal, which is below four.
    pub proof fn lemma_ordinal_injective(self, other: Suit)
        ensures
            self.ordinal() < CARD_SUIT_COUNT,
            self.ordinal() == other.ordinal() <==> self == other,
    {
    }
}

/// [`ALL_SUITS`] lists each suit at the index given by its ordinal.
pub proof fn lemma_all_suits_in_order()
    ensures
        ALL_SUITS@.len() == CARD_SUIT_COUNT,
        forall|i: int| 0 <= i < CARD_SUIT_COUNT ==> (#[trigger] ALL_SUITS@[i]).ordinal() == i,
        forall|s: Suit| ALL_SUITS@[s.ordinal() as int] == s,
{
}

impl PartialOrd for Suit {
    fn partial_cmp(&self, other: &Self) -> (r: Option<Ordering>) {
        let a: usize = self.index();
        let b: usize = other.index();
        if a < b {
            Some(Ordering::Less)
        } else if a == b {
            Some(Ordering::Equal)
        } else {
            Some(Ordering::Greater)
        }
    }
}

impl vstd::std_specs::cmp::PartialOrdSpecImpl for Suit {
    open spec fn obeys_partial_cmp_spec() -> bool {
        true
    }

    /// Suits compare as their ordinals do.
    open spec fn partial_cmp_spec(&self, other: &Self) -> Option<Ordering> {
        if self.ordinal() < other.ordinal() {
            Some(Ordering::Less)
        } else if self.ordinal() == other.ordinal() {
            Some(Ordering::Equal)
        } else {
            Some(Ordering::Greater)
        }
    }
}

} // verus!
