use ionic_deckhandler::{Card, Deck, Rank, Suit, ALL_RANKS, ALL_SUITS, DECK_SIZE};

fn identity(card: &Card) -> (usize, usize) {
    (card.get_suit().index(), card.get_rank().index())
}

fn identities(deck: &[Card]) -> Vec<(usize, usize)> {
    deck.iter().map(identity).collect()
}

fn sorted_identities(deck: &[Card]) -> Vec<(usize, usize)> {
    let mut all = identities(deck);
    all.sort();
    all
}

fn every_identity() -> Vec<(usize, usize)> {
    let mut all = Vec::new();
    for s in 0..4 {
        for r in 0..13 {
            all.push((s, r));
        }
    }
    all
}

#[test]
fn fresh_deck_has_fifty_two_cards() {
    assert_eq!(DECK_SIZE, 52);
    assert_eq!(Card::get_deck().len(), 52);
}

#[test]
fn fresh_deck_holds_every_combination_once() {
    let deck = Card::get_deck();
    for suit in ALL_SUITS.iter() {
        for rank in ALL_RANKS.iter() {
            let count = deck
                .iter()
                .filter(|card| card.get_rank() == *rank && card.get_suit() == *suit)
                .count();
            assert_eq!(count, 1);
        }
    }
    assert_eq!(sorted_identities(&deck), every_identity());
}

#[test]
fn fresh_deck_starts_with_the_ace_of_clubs() {
    let deck = Card::get_deck();
    assert_eq!(deck[0].get_suit(), Suit::Clubs);
    assert_eq!(deck[0].get_rank(), Rank::Ace);
}

#[test]
fn fresh_deck_goes_suit_by_suit_and_rank_by_rank() {
    let deck = Card::get_deck();
    assert_eq!(identities(&deck), every_identity());
    assert_eq!(deck[12].get_rank(), Rank::King);
    assert_eq!(deck[12].get_suit(), Suit::Clubs);
    assert_eq!(deck[13].get_rank(), Rank::Ace);
    assert_eq!(deck[13].get_suit(), Suit::Diamonds);
    assert_eq!(deck[30].get_rank(), Rank::Five);
    assert_eq!(deck[30].get_suit(), Suit::Hearts);
    assert_eq!(deck[51].get_rank(), Rank::King);
    assert_eq!(deck[51].get_suit(), Suit::Spades);
    for (i, card) in deck.iter().enumerate() {
        assert_eq!(card.get_suit(), ALL_SUITS[i / 13]);
        assert_eq!(card.get_rank(), ALL_RANKS[i % 13]);
    }
}

#[test]
fn building_the_deck_twice_gives_the_same_deck() {
    assert_eq!(
        identities(&Card::get_deck()),
        identities(&Card::get_deck())
    );
}

#[test]
fn shuffle_keeps_the_cards() {
    let before = Card::get_deck();
    let mut deck = Card::get_deck();
    deck.shuffle_deck();
    assert_eq!(deck.len(), 52);
    assert_eq!(sorted_identities(&deck), sorted_identities(&before));
}

#[test]
fn shuffle_keeps_repeated_cards() {
    let mut deck = vec![
        Card::new(Rank::Two, Suit::Hearts),
        Card::new(Rank::Two, Suit::Hearts),
        Card::new(Rank::Two, Suit::Spades),
        Card::new(Rank::King, Suit::Clubs),
        Card::new(Rank::Two, Suit::Hearts),
    ];
    let before = sorted_identities(&deck);
    for _ in 0..20 {
        deck.shuffle_deck();
        assert_eq!(sorted_identities(&deck), before);
    }
}

#[test]
fn shuffle_changes_the_order() {
    let fresh = identities(&Card::get_deck());
    let mut changed = false;
    for _ in 0..5 {
        let mut deck = Card::get_deck();
        deck.shuffle_deck();
        if identities(&deck) != fresh {
            changed = true;
        }
    }
    assert!(changed);
}

#[test]
fn shuffle_of_empty_and_single_decks_changes_nothing() {
    let mut empty: Vec<Card> = Vec::new();
    empty.shuffle_deck();
    assert!(empty.is_empty());

    let mut single = vec![Card::new(Rank::Nine, Suit::Diamonds)];
    single.shuffle_deck();
    assert_eq!(single.len(), 1);
    assert_eq!(single[0].get_rank(), Rank::Nine);
    assert_eq!(single[0].get_suit(), Suit::Diamonds);
}

#[test]
fn take_from_top_takes_the_last_card() {
    let mut deck = Card::get_deck();
    let card = deck.take_from_top();
    assert!(card.is_some());
    let card = card.unwrap();
    assert_eq!(card.get_rank(), Rank::King);
    assert_eq!(card.get_suit(), Suit::Spades);
    assert_eq!(deck.len(), 51);
    assert_eq!(identities(&deck), every_identity()[0..51].to_vec());
    let next = deck.take_from_top().unwrap();
    assert_eq!(next.get_rank(), Rank::Queen);
    assert_eq!(next.get_suit(), Suit::Spades);
}

#[test]
fn take_from_top_of_an_empty_deck_gives_nothing() {
    let mut deck: Vec<Card> = Vec::new();
    assert!(deck.take_from_top().is_none());
    assert!(deck.is_empty());
    assert!(deck.take_from_top().is_none());
    assert!(deck.is_empty());
}

#[test]
fn push_to_bottom_appends_at_the_end() {
    let mut deck = vec![
        Card::new(Rank::Ace, Suit::Clubs),
        Card::new(Rank::Two, Suit::Clubs),
    ];
    deck.push_to_bottom(Card::new(Rank::Jack, Suit::Hearts));
    assert_eq!(deck.len(), 3);
    assert_eq!(identities(&deck), vec![(0, 0), (0, 1), (2, 10)]);

    let mut empty: Vec<Card> = Vec::new();
    empty.push_to_bottom(Card::new(Rank::Four, Suit::Spades));
    assert_eq!(identities(&empty), vec![(3, 3)]);
}

#[test]
fn pushed_card_is_the_next_one_taken() {
    let mut deck = Card::get_deck();
    deck.push_to_bottom(Card::new(Rank::Three, Suit::Diamonds));
    assert_eq!(deck.len(), 53);
    let card = deck.take_from_top().unwrap();
    assert_eq!(card.get_rank(), Rank::Three);
    assert_eq!(card.get_suit(), Suit::Diamonds);
    assert_eq!(identities(&deck), every_identity());
}

#[test]
fn take_then_push_restores_the_deck() {
    let mut deck = Card::get_deck();
    deck.shuffle_deck();
    let before = identities(&deck);
    let card = deck.take_from_top().unwrap();
    deck.push_to_bottom(card);
    assert_eq!(identities(&deck), before);

    let mut single = vec![Card::new(Rank::Six, Suit::Clubs)];
    let card = single.take_from_top().unwrap();
    assert!(single.is_empty());
    single.push_to_bottom(card);
    assert_eq!(identities(&single), vec![(0, 5)]);
}

#[test]
fn a_deck_may_hold_the_same_card_many_times() {
    let mut deck: Vec<Card> = Vec::new();
    for _ in 0..3 {
        deck.push_to_bottom(Card::new(Rank::Ace, Suit::Spades));
    }
    assert_eq!(identities(&deck), vec![(3, 0), (3, 0), (3, 0)]);
}

#[test]
fn drawing_a_shuffled_deck_gives_every_card_once() {
    let mut deck = Card::get_deck();
    assert_eq!(deck.len(), 52);
    deck.shuffle_deck();
    let mut drawn = Vec::new();
    for _ in 0..52 {
        let card = deck.take_from_top();
        assert!(card.is_some());
        drawn.push(card.unwrap());
    }
    assert_eq!(sorted_identities(&drawn), every_identity());
    assert!(deck.take_from_top().is_none());
    assert!(deck.is_empty());
}
