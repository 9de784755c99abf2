//! The standard 52-card deck and the operations of a deck of cards.

use crate::card::Card;
use crate::rank::lemma_all_ranks_in_order;
use crate::rank::Rank;
use crate::rank::ALL_RANKS;
use crate::rank::CARD_RANK_COUNT;
use crate::shuffle::shuffle_cards;
use crate::suit::lemma_all_suits_in_order;
use crate::suit::Suit;
use crate::suit::ALL_SUITS;
use crate::suit::CARD_SUIT_COUNT;
use rand::thread_rng;
use vstd::multiset::Multiset;
use vstd::prelude::*;

verus! {

/// The number of cards in a full deck.
pub const DECK_SIZE: usize = 52;

/// The (rank, suit) pairs of `cards`, each as often as it occurs, without
/// their order.
pub open spec fn identities(cards: Seq<Card>) -> Multiset<(Rank, Suit)> {
    cards.map_values(|card: Card| (card.rank(), card.suit())).to_multiset()
}

/// Whether `cards` is the full deck in the order in which it is built: suit
/// after suit, and within each suit rank after rank, both in declaration
/// order. The card at index `i` then has the suit of ordinal `i / 13` and the
/// rank of ordinal `i % 13`.
pub open spec fn is_fresh_deck(cards: Seq<Card>) -> bool {
    &&& cards.len() == DECK_SIZE
    &&& forall|i: int|
        0 <= i < cards.len() ==> {
            &&& (#[trigger] cards[i]).suit().ordinal() == i / (CARD_RANK_COUNT as int)
            &&& cards[i].rank().ordinal() == i % (CARD_RANK_COUNT as int)
        }
}

/// Whether `cards` holds each of the 52 combinations of a rank and a suit
/// exactly once, in whatever order.
pub open spec fn is_complete(cards: Seq<Card>) -> bool {
    forall|rank: Rank, suit: Suit| #[trigger] identities(cards).count((rank, suit)) == 1
}

/// A freshly built deck is complete: no combination of a rank and a suit is
/// missing and none occurs twice.
pub proof fn lemma_fresh_deck_is_complete(cards: Seq<Card>)
    requires
        is_fresh_deck(cards),
    ensures
        is_complete(cards),
{
    let pairs = cards.map_values(|card: Card| (card.rank(), card.suit()));
    assert forall|i: int, j: int| 0 <= i < pairs.len() && 0 <= j < pairs.len() && i != j implies pairs[i]
        != pairs[j] by {
        if pairs[i] == pairs[j] {
            assert(cards[i].suit().ordinal() == cards[j].suit().ordinal());
            assert(cards[i].rank().ordinal() == cards[j].rank().ordinal());
        }
    }
    pairs.lemma_multiset_has_no_duplicates();
    assert forall|rank: Rank, suit: Suit| #[trigger] identities(cards).count((rank, suit)) == 1 by {
        rank.lemma_ordinal_injective(rank);
        suit.lemma_ordinal_injective(suit);
        let at = suit.ordinal() * CARD_RANK_COUNT + rank.ordinal();
        cards[at].rank().lemma_ordinal_injective(rank);
        cards[at].suit().lemma_ordinal_injective(suit);
        assert(pairs[at] == (rank, suit));
        assert(pairs.contains((rank, suit)));
        pairs.to_multiset_ensures();
    }
}

impl Card {
    /// Builds the full deck of 52 cards, in a fixed order: all clubs, then all
    /// diamonds, hearts and spades, each suit from the ace up to the king.
    pub fn get_deck() -> (deck: Vec<Card>)
        ensures
            is_fresh_deck(deck@),
            is_complete(deck@),
    {
        let mut deck: Vec<Card> = Vec::new();
        proof {
            lemma_all_ranks_in_order();
            lemma_all_suits_in_order();
        }
        for s in 0..CARD_SUIT_COUNT
            invariant
                deck@.len() == s * CARD_RANK_COUNT,
                forall|i: int|
                    0 <= i < deck@.len() ==> {
                        &&& (#[trigger] deck@[i]).suit().ordinal() == i / (CARD_RANK_COUNT as int)
                        &&& deck@[i].rank().ordinal() == i % (CARD_RANK_COUNT as int)
                    },
        {
            for r in 0..CARD_RANK_COUNT
                invariant
                    s < CARD_SUIT_COUNT,
                    deck@.len() == s * CARD_RANK_COUNT + r,
                    forall|i: int|
                        0 <= i < deck@.len() ==> {
                            &&& (#[trigger] deck@[i]).suit().ordinal() == i / (CARD_RANK_COUNT as int)
                            &&& deck@[i].rank().ordinal() == i % (CARD_RANK_COUNT as int)
                        },
            {
                deck.push(Card::new(ALL_RANKS[r], ALL_SUITS[s]));
            }
        }
        proof {
            lemma_fresh_deck_is_complete(deck@);
        }
        deck
    }
}

/// The card on top of `cards`, which is the last of the sequence; none where
/// there is no card.
pub open spec fn top_card(cards: Seq<Card>) -> Option<Card> {
    if cards.len() == 0 {
        None
    } else {
        Some(cards.last())
    }
}

/// What is left of `cards` once the top card is taken: all but the last, in
/// their order. With no card to take, `cards` as it is.
pub open spec fn below_top(cards: Seq<Card>) -> Seq<Card> {
    if cards.len() == 0 {
        cards
    } else {
        cards.drop_last()
    }
}

/// `cards` with `card` put to the bottom. The bottom is the end of the
/// sequence, the same end as the top.
pub open spec fn with_bottom(cards: Seq<Card>, card: Card) -> Seq<Card> {
    cards.push(card)
}

/// A deck may be shuffled, and cards may be taken from it and put back.
///
/// A deck is a sequence of cards. Both its top and its bottom are the end of
/// that sequence: a card pushed to the bottom is the next one taken from
/// the top. A deck need not be complete, and may hold a card twice.
pub trait Deck {
    /// The cards of the deck, in order, the top card last.
    spec fn cards(&self) -> Seq<Card>;

    /// Puts the cards in a random order. No card is lost, added or changed,
    /// so a deck of no card or of one card is left as it was. Which order
    /// comes out of a longer deck is left to chance, and may be the order
    /// that went in.
    fn shuffle_deck(&mut self)
        ensures
            final(self).cards().to_multiset() == old(self).cards().to_multiset(),
            final(self).cards().len() == old(self).cards().len(),
            old(self).cards().len() <= 1 ==> final(self).cards() == old(self).cards(),
    ;

    /// Takes the top card off the deck and returns it. An empty deck gives
    /// `None` and stays empty.
    fn take_from_top(&mut self) -> (card: Option<Card>)
        ensures
            card == top_card(old(self).cards()),
            final(self).cards() == below_top(old(self).cards()),
            old(self).cards().len() == 0 ==> card.is_none() && final(self).cards() == old(
                self,
            ).cards(),
    ;

    /// Puts `card` to the bottom of the deck, where it is the next card to
    /// be taken.
    fn push_to_bottom(&mut self, card: Card)
        ensures
            final(self).cards() == with_bottom(old(self).cards(), card),
    ;
}

impl Deck for Vec<Card> {
    open spec fn cards(&self) -> Seq<Card> {
        self@
    }

    fn shuffle_deck(&mut self) {
        let mut rng = thread_rng();
        shuffle_cards(self, &mut rng);
        proof {
            // Equal multisets have equal sizes, and so do the two sequences.
            old(self)@.to_multiset_ensures();
            self@.to_multiset_ensures();
            if old(self)@.len() <= 1 {
                lemma_short_deck_has_one_order(old(self)@, self@);
            }
        }
    }

    fn take_from_top(&mut self) -> (card: Option<Card>) {
        self.pop()
    }

    fn push_to_bottom(&mut self, card: Card) {
        let len = self.len();
        self.insert(len, card);
    }
}

/// A deck of at most one card has only one order: a sequence that holds the
/// same cards is the same sequence.
pub proof fn lemma_short_deck_has_one_order(before: Seq<Card>, after: Seq<Card>)
    requires
        before.len() <= 1,
        after.to_multiset() == before.to_multiset(),
    ensures
        after == before,
{
    before.to_multiset_ensures();
    after.to_multiset_ensures();
    if before.len() == 1 {
        assert(before.contains(before[0]));
        assert(after.to_multiset().count(before[0]) > 0);
        assert(after.contains(before[0]));
        assert(after[0] == before[0]);
    }
    assert(after =~= before);
}

/// Taking the top card of a deck that is not empty and pushing that card to
/// the bottom gives back the deck as it was: the same cards in the same
/// order.
pub proof fn lemma_take_then_push_restores(cards: Seq<Card>)
    requires
        cards.len() > 0,
    ensures
        top_card(cards).is_some(),
        with_bottom(below_top(cards), top_card(cards).unwrap()) == cards,
        with_bottom(below_top(cards), top_card(cards).unwrap()).to_multiset()
            == cards.to_multiset(),
{
    assert(cards.drop_last().push(cards.last()) =~= cards);
}

/// A card pushed to the bottom is the next card taken from the top, and
/// taking it leaves the deck as it was before the push.
pub proof fn lemma_push_then_take_restores(cards: Seq<Card>, card: Card)
    ensures
        top_card(with_bottom(cards, card)) == Some(card),
        below_top(with_bottom(cards, card)) == cards,
{
    assert(cards.push(card).drop_last() =~= cards);
}

/// Taking a card removes one occurrence of that card from the deck and
/// leaves every other card as often as it was there.
pub proof fn lemma_take_removes_one(cards: Seq<Card>)
    requires
        cards.len() > 0,
    ensures
        below_top(cards).to_multiset().insert(top_card(cards).unwrap()) == cards.to_multiset(),
        below_top(cards).len() + 1 == cards.len(),
{
    assert(cards.drop_last().push(cards.last()) =~= cards);
    cards.drop_last().to_multiset_ensures();
}

} // verus!
