use blackjack::cards::{Card, Rank, Suit};

/// The card carries a number from 2 to 10, or is an ace or a court card.
fn well_formed(card: &Card) -> bool {
    match card.rank {
        Rank::Pip(n) => (2..=10).contains(&n),
        _ => true,
    }
}

#[test]
fn deck_positions() {
    assert_eq!(Card::from_index(0), Card { suit: Suit::Clubs, rank: Rank::Ace, down: false });
    assert_eq!(Card::from_index(1), Card { suit: Suit::Clubs, rank: Rank::Pip(2), down: false });
    assert_eq!(Card::from_index(9), Card { suit: Suit::Clubs, rank: Rank::Pip(10), down: false });
    assert_eq!(Card::from_index(10), Card { suit: Suit::Clubs, rank: Rank::Jack, down: false });
    assert_eq!(Card::from_index(11), Card { suit: Suit::Clubs, rank: Rank::Queen, down: false });
    assert_eq!(Card::from_index(12), Card { suit: Suit::Clubs, rank: Rank::King, down: false });
    assert_eq!(Card::from_index(13), Card { suit: Suit::Diamonds, rank: Rank::Ace, down: false });
    assert_eq!(Card::from_index(30), Card { suit: Suit::Hearts, rank: Rank::Pip(5), down: false });
    assert_eq!(Card::from_index(51), Card { suit: Suit::Spades, rank: Rank::King, down: false });
}

#[test]
fn deck_holds_fifty_two_different_cards() {
    let deck: Vec<Card> = (0..52u8).map(Card::from_index).collect();
    for (i, a) in deck.iter().enumerate() {
        assert!(well_formed(a));
        assert!(!a.down);
        for b in &deck[i + 1..] {
            assert_ne!(a, b);
        }
    }
}

#[test]
fn drawn_cards_are_valid_and_face_up() {
    for _ in 0..2000 {
        let card = Card::new();
        assert!(well_formed(&card));
        assert!(!card.down);
    }
}

#[test]
fn draws_differ() {
    // With every card equally likely, two thousand draws show every suit
    // and every rank; a draw that always gave the same card would not.
    let mut suits = [false; 4];
    let mut ranks = [false; 13];
    for _ in 0..2000 {
        let card = Card::new();
        let s = match card.suit {
            Suit::Clubs => 0,
            Suit::Diamonds => 1,
            Suit::Hearts => 2,
            Suit::Spades => 3,
        };
        let r = match card.rank {
            Rank::Ace => 0,
            Rank::Pip(n) => (n - 1) as usize,
            Rank::Jack => 10,
            Rank::Queen => 11,
            Rank::King => 12,
        };
        suits[s] = true;
        ranks[r] = true;
    }
    assert!(suits.iter().all(|&seen| seen));
    assert!(ranks.iter().all(|&seen| seen));
}

#[test]
fn turning_a_card() {
    let mut card = Card { suit: Suit::Diamonds, rank: Rank::Pip(7), down: false };
    card.face_down();
    assert_eq!(card, Card { suit: Suit::Diamonds, rank: Rank::Pip(7), down: true });
    card.face_down();
    assert!(card.down);
    card.face_up();
    assert_eq!(card, Card { suit: Suit::Diamonds, rank: Rank::Pip(7), down: false });
    card.face_up();
    assert!(!card.down);
}
