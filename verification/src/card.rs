//! A playing card: a rank and a suit, compared by rank alone.

use crate::rank::Rank;
use crate::suit::Suit;
use std::cmp::Ordering;
use vstd::prelude::*;
use vstd::std_specs::cmp::PartialEqSpec;
use vstd::std_specs::cmp::PartialOrdIs;
use vstd::string::StringExecFns;

verus! {

/// A card containing a rank (card value) and a suit.
///
/// A card never changes once made. Cards are compared by rank only: two cards
/// of one rank are equal and neither is less than the other, whatever their
/// suits.
#[derive(Debug, Copy, Clone)]
pub struct Card {
    rank: Rank,
    suit: Suit,
}

impl Card {
    /// The rank of the card.
    pub closed spec fn rank(self) -> Rank {
        self.rank
    }

    /// The suit of the card.
    pub closed spec fn suit(self) -> Suit {
        self.suit
    }

    /// How the card is written out: its rank, the word "of", its suit.
    pub open spec fn text(self) -> Seq<char> {
        self.rank().text() + " of "@ + self.suit().text()
    }

    /// How the card stands to `other` in the order of cards, which is the
    /// order of their ranks.
    pub open spec fn compared_to(self, other: Card) -> Ordering {
        if self.rank().ordinal() < other.rank().ordinal() {
            Ordering::Less
        } else if self.rank().ordinal() == other.rank().ordinal() {
            Ordering::Equal
        } else {
            Ordering::Greater
        }
    }

    /// A card is nothing more than its rank and its suit.
    pub proof fn lemma_same_rank_and_suit(self, other: Card)
        requires
            self.rank() == other.rank(),
            self.suit() == other.suit(),
        ensures
            self == other,
    {
    }

    /// Makes the card of the given rank and suit.
    pub fn new(rank: Rank, suit: Suit) -> (card: Card)
        ensures
            card.rank() == rank,
            card.suit() == suit,
    {
        Card { rank, suit }
    }

    /// The suit of the card.
    pub fn get_suit(&self) -> (suit: Suit)
        ensures
            suit == self.suit(),
    {
        self.suit
    }

    /// The rank of the card.
    pub fn get_rank(&self) -> (rank: Rank)
        ensures
            rank == self.rank(),
    {
        self.rank
    }

    /// Whether the card is a face card: a jack, a queen or a king.
    pub fn is_facetype(&self) -> (face: bool)
        ensures
            face == self.rank().is_face(),
    {
        match self.rank {
            Rank::Jack | Rank::Queen | Rank::King => true,
            _ => false,
        }
    }

    /// Writes the card out, as in "Queen of Hearts".
    pub fn to_string(&self) -> (s: String)
        ensures
            s@ == self.text(),
            s@.len() > 0,
    {
        let mut s = String::from_str(self.rank.name());
        s.append(" of ");
        s.append(self.suit.name());
        s
    }

    /// Orders two cards by rank, the total order behind `<`, `<=`, `>` and `>=`.
    pub fn cmp(&self, other: &Card) -> (order: Ordering)
        ensures
            order == self.compared_to(*other),
    {
        let a: usize = self.rank.index();
        let b: usize = other.rank.index();
        if a < b {
            Ordering::Less
        } else if a == b {
            Ordering::Equal
        } else {
            Ordering::Greater
        }
    }
}

impl PartialEq for Card {
    fn eq(&self, other: &Self) -> (r: bool) {
        self.rank == other.rank
    }
}

impl vstd::std_specs::cmp::PartialEqSpecImpl for Card {
    open spec fn obeys_eq_spec() -> bool {
        true
    }

    /// Two cards are equal exactly when their ranks are.
    open spec fn eq_spec(&self, other: &Self) -> bool {
        self.rank() == other.rank()
    }
}

impl Eq for Card {

}

impl PartialOrd for Card {
    fn partial_cmp(&self, other: &Self) -> (r: Option<Ordering>) {
        Some(self.cmp(other))
    }
}

impl vstd::std_specs::cmp::PartialOrdSpecImpl for Card {
    open spec fn obeys_partial_cmp_spec() -> bool {
        true
    }

    /// Any two cards are comparable, by their ranks.
    open spec fn partial_cmp_spec(&self, other: &Self) -> Option<Ordering> {
        Some(self.compared_to(*other))
    }
}

/// Every card is less than or equal to itself.
pub proof fn lemma_le_reflexive(a: Card)
    ensures
        a.is_le(&a),
{
}

/// Two cards that are each less than or equal to the other are equal: they
/// have one rank, though their suits may differ.
pub proof fn lemma_le_antisymmetric(a: Card, b: Card)
    requires
        a.is_le(&b),
        b.is_le(&a),
    ensures
        a.eq_spec(&b),
        a.rank() == b.rank(),
{
    a.rank().lemma_ordinal_injective(b.rank());
}

/// If `a <= b` and `b <= c` then `a <= c`.
pub proof fn lemma_le_transitive(a: Card, b: Card, c: Card)
    requires
        a.is_le(&b),
        b.is_le(&c),
    ensures
        a.is_le(&c),
{
}

/// Of two cards one is less than or equal to the other.
pub proof fn lemma_le_total(a: Card, b: Card)
    ensures
        a.is_le(&b) || b.is_le(&a),
{
}

/// The order agrees with equality: exactly one of `a < b`, `a == b` and
/// `a > b` holds, and `a == b` exactly when the ranks are the same.
pub proof fn lemma_order_agrees_with_equality(a: Card, b: Card)
    ensures
        a.is_lt(&b) <==> !a.eq_spec(&b) && !a.is_gt(&b),
        a.is_gt(&b) <==> !a.eq_spec(&b) && !a.is_lt(&b),
        a.eq_spec(&b) <==> a.rank() == b.rank(),
        a.is_lt(&b) <==> b.is_gt(&a),
{
    a.rank().lemma_ordinal_injective(b.rank());
}

} // verus!
