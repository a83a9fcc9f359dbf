//! Playing cards: suit, rank, and a flag that tells whether the card lies
//! face down. Cards are drawn with replacement, each of the 52 with the same
//! chance.

use vstd::prelude::*;

verus! {

/// Number of different cards: four suits of thirteen ranks.
pub const DECK_SIZE: u8 = 52;

/// Number of ranks in a suit.
pub const SUIT_SIZE: u8 = 13;

#[derive(Clone, Copy, Debug, PartialEq, Eq, Structural)]
pub enum Suit {
    Clubs,
    Diamonds,
    Hearts,
    Spades,
}

#[derive(Clone, Copy, Debug, PartialEq, Eq, Structural)]
pub enum Rank {
    Ace,
    /// A numeral card; the number on it lies between 2 and 10.
    Pip(u8),
    Jack,
    Queen,
    King,
}

#[derive(Clone, Copy, Debug, PartialEq, Eq, Structural)]
pub struct Card {
    pub suit: Suit,
    pub rank: Rank,
    /// True while the card lies face down. It matters to the eye only, never
    /// to the score.
    pub down: bool,
}

impl Rank {
    /// A numeral card carries a number from 2 to 10; every other rank is
    /// always well formed.
    pub open spec fn wf(self) -> bool {
        match self {
            Rank::Pip(n) => 2 <= n <= 10,
            _ => true,
        }
    }
}

/// The suit in position `i` of the order clubs, diamonds, hearts, spades.
pub open spec fn suit_at(i: int) -> Suit {
    if i == 0 {
        Suit::Clubs
    } else if i == 1 {
        Suit::Diamonds
    } else if i == 2 {
        Suit::Hearts
    } else {
        Suit::Spades
    }
}

/// The rank in position `i` of the order ace, 2 to 10, jack, queen, king.
pub open spec fn rank_at(i: int) -> Rank {
    if i == 0 {
        Rank::Ace
    } else if 1 <= i <= 9 {
        Rank::Pip((i + 1) as u8)
    } else if i == 10 {
        Rank::Jack
    } else if i == 11 {
        Rank::Queen
    } else {
        Rank::King
    }
}

/// The face-up card in position `i` of the deck laid out suit by suit.
pub open spec fn card_at(i: int) -> Card {
    Card {
        suit: suit_at(i / (SUIT_SIZE as int)),
        rank: rank_at(i % (SUIT_SIZE as int)),
        down: false,
    }
}

impl Card {
    /// The card's rank is well formed.
    pub open spec fn wf(self) -> bool {
        self.rank.wf()
    }

    /// A card as it comes from a draw: well formed and face up.
    pub open spec fn fresh(self) -> bool {
        self.wf() && !self.down
    }

    /// The same card lying face up or face down.
    pub open spec fn turned(self, down: bool) -> Card {
        Card { suit: self.suit, rank: self.rank, down }
    }

    /// The face-up card in position `index` of the deck laid out suit by
    /// suit, each suit from the ace to the king.
    pub fn from_index(index: u8) -> (card: Card)
        requires
            index < DECK_SIZE,
        ensures
            card == card_at(index as int),
    {
        let s: u8 = index / SUIT_SIZE;
        let r: u8 = index % SUIT_SIZE;
        let suit = if s == 0 {
            Suit::Clubs
        } else if s == 1 {
            Suit::Diamonds
        } else if s == 2 {
            Suit::Hearts
        } else {
            Suit::Spades
        };
        let rank = if r == 0 {
            Rank::Ace
        } else if r <= 9 {
            Rank::Pip(r + 1)
        } else if r == 10 {
            Rank::Jack
        } else if r == 11 {
            Rank::Queen
        } else {
            Rank::King
        };
        Card { suit, rank, down: false }
    }

    /// Draws a card: one position of the deck is picked at random and the
    /// card in it is handed out face up. Nothing is taken from the deck, so
    /// a draw does not depend on the draws before it.
    ///
    /// The contract says which cards can come: the 52 of the deck, face up.
    /// That each comes with the same chance rests on the generator and is
    /// not part of it.
    pub fn new() -> (card: Card)
        ensures
            card.fresh(),
            exists|i: int| 0 <= i < DECK_SIZE && card == #[trigger] card_at(i),
    {
        let index = roll_below(DECK_SIZE);
        proof {
            lemma_card_at_fresh(index as int);
        }
        Card::from_index(index)
    }

    /// Lays the card face down.
    pub fn face_down(&mut self)
        ensures
            *final(self) == old(self).turned(true),
    {
        self.down = true;
    }

    /// Turns the card face up.
    pub fn face_up(&mut self)
        ensures
            *final(self) == old(self).turned(false),
    {
        self.down = false;
    }
}

/// Every position of the deck holds a well-formed card that lies face up.
pub proof fn lemma_card_at_fresh(i: int)
    requires
        0 <= i < DECK_SIZE,
    ensures
        card_at(i).fresh(),
{
}

/// The deck holds every well-formed face-up card: each one stands at some
/// position below 52.
pub proof fn lemma_deck_is_complete(card: Card)
    requires
        card.fresh(),
    ensures
        exists|i: int| 0 <= i < DECK_SIZE && card == #[trigger] card_at(i),
{
    let s: int = match card.suit {
        Suit::Clubs => 0,
        Suit::Diamonds => 1,
        Suit::Hearts => 2,
        Suit::Spades => 3,
    };
    let r: int = match card.rank {
        Rank::Ace => 0,
        Rank::Pip(n) => n - 1,
        Rank::Jack => 10,
        Rank::Queen => 11,
        Rank::King => 12,
    };
    let i = 13 * s + r;
    assert(i / 13 == s && i % 13 == r);
    assert(card == card_at(i));
}

/// Picks a number below `bound` with `rand::Rng::gen_range` on the generator
/// that `rand::thread_rng` hands out, over the range from 0 up to but not
/// including `bound`.
///
/// Taken on trust: the number lies in that range. `gen_range` panics on an
/// empty range, which is why `bound` must not be 0. Which number comes is
/// left open; two calls may differ.
#[verifier::external_body]
fn roll_below(bound: u8) -> (roll: u8)
    requires
        bound > 0,
    ensures
        roll < bound,
{
    rand::Rng::gen_range(&mut rand::thread_rng(), 0..bound)
}

} // verus!
