//! The game as a mathematical value, and each operation of the engine as a
//! function from one such value to the next. The engine's contracts and the
//! laws of the game are stated over these.

use vstd::prelude::*;
use crate::app::{Command, GameError, GameState};
use crate::cards::Card;
use crate::score::{cards_wf, hand_score, BLACKJACK, DEALER_STAND};

verus! {

/// What a game holds: the bankroll, the two hands in the order the cards
/// were dealt, the bet of the round, what a natural blackjack pays, and the
/// state of the round.
pub struct Game {
    pub bank: int,
    pub player_hand: Seq<Card>,
    pub dealer_hand: Seq<Card>,
    pub current_bet: int,
    pub blackjack_payout: int,
    pub state: GameState,
}

/// What a natural blackjack pays on a bet: three to two, rounded down.
pub open spec fn payout_for(bet: int) -> int {
    bet * 3 / 2
}

/// The bankroll after `amount` is taken from it. It never goes below zero:
/// a loss greater than the bankroll empties it.
pub open spec fn debit(bank: int, amount: int) -> int {
    if amount <= bank {
        bank - amount
    } else {
        0
    }
}

/// The hand with its first card turned face up; an empty hand stays empty.
pub open spec fn first_face_up(hand: Seq<Card>) -> Seq<Card> {
    if hand.len() > 0 {
        hand.update(0, hand[0].turned(false))
    } else {
        hand
    }
}

impl GameState {
    /// The round is over: won, lost, drawn, or won by a natural blackjack.
    pub open spec fn settled(self) -> bool {
        self is Win || self is Lose || self is Draw || self is Blackjack
    }
}

impl Game {
    /// Amounts are not negative and every card is well formed.
    pub open spec fn wf(self) -> bool {
        &&& 0 <= self.bank
        &&& 0 <= self.current_bet
        &&& 0 <= self.blackjack_payout
        &&& cards_wf(self.player_hand)
        &&& cards_wf(self.dealer_hand)
    }

    /// Score of the player's hand.
    pub open spec fn player_score(self) -> int {
        hand_score(self.player_hand)
    }

    /// Score of the dealer's whole hand, whichever way its cards lie.
    pub open spec fn dealer_score(self) -> int {
        hand_score(self.dealer_hand)
    }

    /// A game before its first round: no bet, no cards.
    pub open spec fn new(bank: int) -> Game {
        Game {
            bank,
            player_hand: Seq::empty(),
            dealer_hand: Seq::empty(),
            current_bet: 0,
            blackjack_payout: 0,
            state: GameState::EnterBet,
        }
    }

    /// The game after a bet is placed: the bet and its payout are fixed and
    /// the player is to move. No card is dealt yet.
    pub open spec fn place_bet(self, bet: int) -> Game {
        Game {
            current_bet: bet,
            blackjack_payout: payout_for(bet),
            state: GameState::PlayerTurn,
            ..self
        }
    }

    /// The game after the deal of `first` and `second` to the player and of
    /// `hidden` and `shown` to the dealer, whose first card, `hidden`, is
    /// laid face down. A player's hand of 21 is a natural blackjack: it is
    /// paid at once and ends the round.
    pub open spec fn deal(self, first: Card, second: Card, hidden: Card, shown: Card) -> Game {
        let player_hand = seq![first, second];
        let dealer_hand = seq![hidden.turned(true), shown];
        if hand_score(player_hand) == BLACKJACK {
            Game {
                bank: self.bank + self.blackjack_payout,
                player_hand,
                dealer_hand,
                state: GameState::Blackjack,
                ..self
            }
        } else {
            Game { player_hand, dealer_hand, state: GameState::PlayerTurn, ..self }
        }
    }

    /// The game cleared for the next round. The bankroll stays.
    pub open spec fn reset(self) -> Game {
        Game::new(self.bank)
    }

    /// The game with the dealer's first card turned face up.
    pub open spec fn flip_upcard(self) -> Game {
        Game { dealer_hand: first_face_up(self.dealer_hand), ..self }
    }

    /// The game after the player takes `card`. Over 21 the bet is lost and
    /// the round with it; at 21 the turn passes to the dealer, whose first
    /// card is turned up; under 21 nothing else changes.
    pub open spec fn hit(self, card: Card) -> Game {
        let taken = Game { player_hand: self.player_hand.push(card), ..self };
        if taken.player_score() > BLACKJACK {
            Game {
                state: GameState::Lose,
                bank: debit(self.bank, self.current_bet),
                ..taken
            }
        } else if taken.player_score() == BLACKJACK {
            Game { state: GameState::DealerTurn, ..taken.flip_upcard() }
        } else {
            taken
        }
    }

    /// The game after the player stands: the turn passes to the dealer,
    /// whose first card is turned up.
    pub open spec fn stand(self) -> Game {
        Game { state: GameState::DealerTurn, ..self.flip_upcard() }
    }

    /// The dealer has to draw: the dealer's score is under 17.
    pub open spec fn dealer_draws(self) -> bool {
        self.dealer_score() < DEALER_STAND
    }

    /// The game after the dealer takes `card`.
    pub open spec fn dealer_hit(self, card: Card) -> Game {
        Game { dealer_hand: self.dealer_hand.push(card), ..self }
    }

    /// The player is over 21, so there is nothing left to settle with the
    /// dealer.
    pub open spec fn player_busted(self) -> bool {
        self.player_score() > BLACKJACK
    }

    /// The game after the hands are compared. The player wins the bet
    /// where the dealer is over 21 or has less, keeps it on equal scores,
    /// and loses it otherwise. Against a player who is over 21 nothing is
    /// settled and the game stays as it is.
    pub open spec fn settle(self) -> Game {
        let player = self.player_score();
        let dealer = self.dealer_score();
        if self.player_busted() {
            self
        } else if dealer > BLACKJACK || dealer < player {
            Game { state: GameState::Win, bank: self.bank + self.current_bet, ..self }
        } else if dealer == player {
            Game { state: GameState::Draw, ..self }
        } else {
            Game {
                state: GameState::Lose,
                bank: debit(self.bank, self.current_bet),
                ..self
            }
        }
    }

    /// One step of the dealer's play: a draw of `card` while the dealer
    /// has to draw, and the settling of the round once the dealer stands.
    pub open spec fn advance_dealer(self, card: Card) -> Game {
        if self.dealer_draws() {
            self.dealer_hit(card)
        } else {
            self.settle()
        }
    }

    /// The command comes in turn: a hit or a stand in the player's turn, a
    /// step of the dealer in the dealer's turn. Nothing is in turn before
    /// the bet, nor once the round is settled.
    pub open spec fn in_turn(self, command: Command) -> bool {
        match self.state {
            GameState::PlayerTurn => command is Hit || command is Stand,
            GameState::DealerTurn => command is AdvanceDealer,
            _ => false,
        }
    }

    /// The command draws a card: it is in turn, and is a hit, or a step of
    /// a dealer who has to draw.
    pub open spec fn draws(self, command: Command) -> bool {
        self.in_turn(command) && (command is Hit || (command is AdvanceDealer
            && self.dealer_draws()))
    }

    /// The game after `command`, where `card` is the card that is drawn if
    /// the command draws one. A command that is out of turn changes
    /// nothing, and neither does a split, which is not offered.
    pub open spec fn step(self, command: Command, card: Card) -> Game {
        if !self.in_turn(command) {
            self
        } else {
            match command {
                Command::Hit => self.hit(card),
                Command::Stand => self.stand(),
                Command::AdvanceDealer => self.advance_dealer(card),
                Command::Split => self,
            }
        }
    }

    /// Whether `command` is carried out, and if not, why. A split never
    /// is; a command out of turn is not; and the dealer's step is not
    /// where the dealer stands against a player who is over 21.
    pub open spec fn answer(self, command: Command) -> Result<(), GameError> {
        if command is Split {
            Err(GameError::Unsupported)
        } else if !self.in_turn(command) {
            Err(GameError::OutOfTurn)
        } else if command is AdvanceDealer && !self.dealer_draws() && self.player_busted() {
            Err(GameError::PlayerBusted)
        } else {
            Ok(())
        }
    }
}

} // verus!
