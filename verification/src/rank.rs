//! Card ranks, ordered Ace low.

use std::cmp::Ordering;
use vstd::prelude::*;

verus! {

/// The rank (value) of a card.
///
/// Ranks are ordered as they are declared: `Ace < Two < ... < King`. The ace
/// is always the lowest rank; no game-specific strength applies.
#[derive(Debug, Copy, Clone, PartialEq, Eq, Structural, Ord)]
pub enum Rank {
    Ace,
    Two,
    Three,
    Four,
    Five,
    Six,
    Seven,
    Eight,
    Nine,
    Ten,
    Jack,
    Queen,
    King,
}

/// The total number of ranks within the deck of cards.
pub const CARD_RANK_COUNT: usize = 13;

/// Every rank, lowest first.
pub const ALL_RANKS: [Rank; CARD_RANK_COUNT] = [
    Rank::Ace,
    Rank::Two,
    Rank::Three,
    Rank::Four,
    Rank::Five,
    Rank::Six,
    Rank::Seven,
    Rank::Eight,
    Rank::Nine,
    Rank::Ten,
    Rank::Jack,
    Rank::Queen,
    Rank::King,
];

impl Rank {
    /// Position of the rank in declaration order, `Ace` being 0 and `King` 12.
    pub open spec fn ordinal(self) -> nat {
        match self {
            Rank::Ace => 0,
            Rank::Two => 1,
            Rank::Three => 2,
            Rank::Four => 3,
            Rank::Five => 4,
            Rank::Six => 5,
            Rank::Seven => 6,
            Rank::Eight => 7,
            Rank::Nine => 8,
            Rank::Ten => 9,
            Rank::Jack => 10,
            Rank::Queen => 11,
            Rank::King => 12,
        }
    }

    /// Whether the rank is a court card: jack, queen or king.
    pub open spec fn is_face(self) -> bool {
        self == Rank::Jack || self == Rank::Queen || self == Rank::King
    }

    /// The English name of the rank, as a sequence of characters.
    pub open spec fn text(self) -> Seq<char> {
        match self {
            Rank::Ace => "Ace"@,
            Rank::Two => "Two"@,
            Rank::Three => "Three"@,
            Rank::Four => "Four"@,
            Rank::Five => "Five"@,
            Rank::Six => "Six"@,
            Rank::Seven => "Seven"@,
            Rank::Eight => "Eight"@,
            Rank::Nine => "Nine"@,
            Rank::Ten => "Ten"@,
            Rank::Jack => "Jack"@,
            Rank::Queen => "Queen"@,
            Rank::King => "King"@,
        }
    }

    /// Position of the rank in [`ALL_RANKS`].
    pub fn index(&self) -> (i: usize)
        ensures
            i == self.ordinal(),
            i < CARD_RANK_COUNT,
    {
        match self {
            Rank::Ace => 0,
            Rank::Two => 1,
            Rank::Three => 2,
            Rank::Four => 3,
            Rank::Five => 4,
            Rank::Six => 5,
            Rank::Seven => 6,
            Rank::Eight => 7,
            Rank::Nine => 8,
            Rank::Ten => 9,
            Rank::Jack => 10,
            Rank::Queen => 11,
            Rank::King => 12,
        }
    }

    /// The English name of the rank.
    pub fn name(&self) -> (s: &'static str)
        ensures
            s@ == self.text(),
            s@.len() > 0,
    {
        proof {
            self.lemma_text_nonempty();
        }
        match self {
            Rank::Ace => "Ace",
            Rank::Two => "Two",
            Rank::Three => "Three",
            Rank::Four => "Four",
            Rank::Five => "Five",
            Rank::Six => "Six",
            Rank::Seven => "Seven",
            Rank::Eight => "Eight",
            Rank::Nine => "Nine",
            Rank::Ten => "Ten",
            Rank::Jack => "Jack",
            Rank::Queen => "Queen",
            Rank::King => "King",
        }
    }

    /// Every rank has a non-empty name.
    pub proof fn lemma_text_nonempty(self)
        ensures
            self.text().len() > 0,
    {
        reveal_strlit("Ace");
        reveal_strlit("Two");
        reveal_strlit("Three");
        reveal_strlit("Four");
        reveal_strlit("Five");
        reveal_strlit("Six");
        reveal_strlit("Seven");
        reveal_strlit("Eight");
        reveal_strlit("Nine");
        reveal_strlit("Ten");
        reveal_strlit("Jack");
        reveal_strlit("Queen");
        reveal_strlit("King");
    }

    /// A rank is determined by its ordinal, which is below thirteen.
    pub proof fn lemma_ordinal_injective(self, other: Rank)
        ensures
            self.ordinal() < CARD_RANK_COUNT,
            self.ordinal() == other.ordinal() <==> self == other,
    {
    }
}

/// [`ALL_RANKS`] lists each rank at the index given by its ordinal.
pub proof fn lemma_all_ranks_in_order()
    ensures
        ALL_RANKS@.len() == CARD_RANK_COUNT,
        forall|i: int| 0 <= i < CARD_RANK_COUNT ==> (#[trigger] ALL_RANKS@[i]).ordinal() == i,
        forall|r: Rank| ALL_RANKS@[r.ordinal() as int] == r,
{
}

impl PartialOrd for Rank {
    fn partial_cmp(&self, other: &Self) -> (r: Option<Ordering>) {
        let a: usize = self.index();
        let b: usize = other.index();
        if a < b {
            Some(Ordering::Less)
        } else if a == b {
            Some(Ordering::Equal)
        } else {
            Some(Ordering::Greater)
        }
    }
}

impl vstd::std_specs::cmp::PartialOrdSpecImpl for Rank {
    open spec fn obeys_partial_cmp_spec() -> bool {
        true
    }

    /// Ranks compare as their ordinals do.
    open spec fn partial_cmp_spec(&self, other: &Self) -> Option<Ordering> {
        if self.ordinal() < other.ordinal() {
            Some(Ordering::Less)
        } else if self.ordinal() == other.ordinal() {
            Some(Ordering::Equal)
        } else {
            Some(Ordering::Greater)
        }
    }
}

} // verus!
