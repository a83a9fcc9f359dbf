//! The engine: the bankroll, the two hands, the bet, and the state of the
//! round, with the operations that move a round along.
//!
//! A command is carried out only in its turn: a hit or a stand in the
//! player's turn, a step of the dealer in the dealer's turn. Out of turn,
//! and so in every round that is settled, `run` leaves the game as it is
//! and answers with `GameError::OutOfTurn`. Setting a round up is the
//! caller's to order: `reset`, `place_bet` and `start` work in every state.
//!
//! The bankroll never goes below zero: a lost bet is taken from it as far as
//! it reaches. Winnings must fit in it; the operations that pay state so in
//! their `requires`, and `can_start` and `can_run` test it.

use vstd::prelude::*;
use crate::cards::{card_at, lemma_card_at_fresh, Card};
use crate::game::Game;
use crate::score::{
    calc_card_score, calc_hand_score, calc_wide_score, card_value, lemma_score_at_least_len,
    BLACKJACK, DEALER_STAND,
};

verus! {

/// Where a round stands. `EnterBet` and the four settled states wait for
/// the caller; `PlayerTurn` and `DealerTurn` are the states of play.
#[derive(Clone, Copy, Debug, PartialEq, Eq, Structural)]
pub enum GameState {
    EnterBet,
    PlayerTurn,
    DealerTurn,
    Win,
    Lose,
    Blackjack,
    Draw,
}

/// What the caller can ask of the engine with `run`.
#[derive(Clone, Copy, Debug, PartialEq, Eq, Structural)]
pub enum Command {
    /// The player takes a card.
    Hit,
    /// The player takes no more cards.
    Stand,
    /// The dealer draws a card or, standing, settles the round.
    AdvanceDealer,
    /// Splitting a pair. The engine does not offer it.
    Split,
}

/// Why a command was not carried out.
#[derive(Clone, Copy, Debug, PartialEq, Eq, Structural)]
pub enum GameError {
    /// The command is one the engine does not offer.
    Unsupported,
    /// The command came out of turn: a hit or a stand outside the player's
    /// turn, a step of the dealer outside the dealer's turn.
    OutOfTurn,
    /// The dealer was asked to settle with a player who is already over 21.
    /// The round was lost when the player went over; the caller is out of
    /// step.
    PlayerBusted,
}

/// A game: the bankroll, the hands in the order the cards were dealt, the
/// bet of the round and what a natural blackjack pays on it, and the state
/// of the round. Its view is the `Game` that the contracts speak of.
#[derive(Debug)]
pub struct App {
    pub bank: u32,
    pub player_hand: Vec<Card>,
    pub dealer_hand: Vec<Card>,
    pub current_bet: u32,
    /// Three to two on the bet, rounded down. Wider than the bet, so that
    /// it holds the payout of every bet.
    pub blackjack_payout: u64,
    pub state: GameState,
}

impl View for App {
    type V = Game;

    open spec fn view(&self) -> Game {
        Game {
            bank: self.bank as int,
            player_hand: self.player_hand@,
            dealer_hand: self.dealer_hand@,
            current_bet: self.current_bet as int,
            blackjack_payout: self.blackjack_payout as int,
            state: self.state,
        }
    }
}

impl App {
    /// Every card of both hands is well formed.
    pub open spec fn wf(&self) -> bool {
        self@.wf()
    }

    /// `start` may be called: a natural blackjack's payout fits in the
    /// bankroll.
    pub open spec fn startable(&self) -> bool {
        self.bank + self.blackjack_payout <= u32::MAX
    }

    /// `run` may be called with `command`: whatever card comes, the
    /// bankroll that the command leaves fits. Only the step of a dealer who
    /// stands can add to the bankroll, and only where the player wins.
    pub open spec fn runnable(&self, command: Command) -> bool {
        command == Command::AdvanceDealer && self.state == GameState::DealerTurn
            && !self@.dealer_draws() ==> self@.settle().bank <= u32::MAX
    }

    /// Whether `start` may be called.
    pub fn can_start(&self) -> (ok: bool)
        ensures
            ok == self.startable(),
    {
        self.blackjack_payout <= (u32::MAX - self.bank) as u64
    }

    /// Whether `run` may be called with `command`.
    pub fn can_run(&self, command: Command) -> (ok: bool)
        ensures
            ok == self.runnable(command),
    {
        match (command, self.state) {
            (Command::AdvanceDealer, GameState::DealerTurn) => {
                let player = calc_wide_score(self.player_hand.as_slice());
                let dealer = calc_wide_score(self.dealer_hand.as_slice());
                let wins = dealer >= DEALER_STAND as u128 && player <= BLACKJACK as u128 && (dealer
                    > BLACKJACK as u128 || dealer < player);
                !wins || self.current_bet <= u32::MAX - self.bank
            },
            _ => true,
        }
    }

    /// A game with the given bankroll, before its first round.
    pub fn new(bank: u32) -> (app: App)
        ensures
            app@ == Game::new(bank as int),
            app.wf(),
    {
        let player_hand = Vec::new();
        let dealer_hand = Vec::new();

        App {
            bank,
            player_hand,
            dealer_hand,
            current_bet: 0,
            blackjack_payout: 0,
            state: GameState::EnterBet,
        }
    }

    /// Places the bet of the round and fixes what a natural blackjack will
    /// pay on it: `bet * 3 / 2`, rounded down. The player is then to move;
    /// the cards are dealt by `start`.
    pub fn place_bet(&mut self, bet: u32)
        ensures
            final(self)@ == old(self)@.place_bet(bet as int),
            final(self).blackjack_payout == bet * 3 / 2,
            old(self).wf() ==> final(self).wf(),
    {
        self.current_bet = bet;
        self.blackjack_payout = bet as u64 * 3 / 2;
        self.state = GameState::PlayerTurn;
    }

    /// Deals two fresh cards to the player and two to the dealer, the
    /// dealer's first face down, in place of whatever the hands held. A
    /// player's 21 is a natural blackjack: the payout is added to the
    /// bankroll and the round is over. Otherwise the player is to move.
    ///
    /// The payout must fit in the bankroll, whichever cards come.
    pub fn start(&mut self)
        requires
            old(self).startable(),
        ensures
            exists|first: Card, second: Card, hidden: Card, shown: Card|
                first.fresh() && second.fresh() && hidden.fresh() && shown.fresh()
                    && final(self)@ == #[trigger] old(self)@.deal(first, second, hidden, shown),
            final(self).wf(),
            final(self).player_hand@.len() == 2,
            final(self).dealer_hand@.len() == 2,
            final(self)@.player_score() >= 2,
            card_value(final(self).dealer_hand@[1]) >= 2,
    {
        let first = Card::new();
        let second = Card::new();
        let hidden = Card::new();
        let shown = Card::new();
        self.deal(first, second, hidden, shown);
        proof {
            lemma_score_at_least_len(self.player_hand@);
        }
    }

    /// Deals the four given cards as `start` deals the cards it draws:
    /// `first` and `second` to the player, `hidden` face down and `shown`
    /// to the dealer.
    ///
    /// Where the deal is a natural blackjack, the payout must fit in the
    /// bankroll.
    pub fn deal(&mut self, first: Card, second: Card, hidden: Card, shown: Card)
        requires
            old(self)@.deal(first, second, hidden, shown).bank <= u32::MAX,
        ensures
            final(self)@ == old(self)@.deal(first, second, hidden, shown),
            first.wf() && second.wf() && hidden.wf() && shown.wf() ==> final(self).wf(),
    {
        self.player_hand = vec![first, second];
        self.dealer_hand = vec![hidden, shown];
        self.dealer_hand[0].face_down();
        proof {
            assert(self.player_hand@ =~= seq![first, second]);
            assert(self.dealer_hand@ =~= seq![hidden.turned(true), shown]);
        }
        if calc_wide_score(self.player_hand.as_slice()) == BLACKJACK as u128 {
            self.state = GameState::Blackjack;
            self.bank += self.blackjack_payout as u32;
        } else {
            self.state = GameState::PlayerTurn;
        }
    }

    /// Clears the table for the next round: no bet, no payout, no cards.
    /// The bankroll stays.
    pub fn reset(&mut self)
        ensures
            final(self)@ == old(self)@.reset(),
            final(self).bank == old(self).bank,
            final(self).wf(),
    {
        self.current_bet = 0;
        self.blackjack_payout = 0;
        self.player_hand.clear();
        self.dealer_hand.clear();
        self.state = GameState::EnterBet;
    }

    /// Score of the player's hand. The score must fit in a byte.
    pub fn player_score(&self) -> (score: u8)
        requires
            self@.player_score() <= u8::MAX,
        ensures
            score == self@.player_score(),
    {
        calc_hand_score(self.player_hand.as_slice())
    }

    /// Points of the card that the dealer shows during the player's turn:
    /// the dealer's second card. The dealer must hold two cards.
    pub fn dealer_showing(&self) -> (points: u8)
        requires
            self.dealer_hand@.len() >= 2,
        ensures
            points == card_value(self.dealer_hand@[1]),
    {
        calc_card_score(&self.dealer_hand[1])
    }

    /// Score of the dealer's whole hand, whichever way its cards lie. The
    /// score must fit in a byte.
    pub fn dealer_score(&self) -> (score: u8)
        requires
            self@.dealer_score() <= u8::MAX,
        ensures
            score == self@.dealer_score(),
    {
        calc_hand_score(self.dealer_hand.as_slice())
    }

    /// Carries out `command` if it is in turn, drawing a fresh card where
    /// the command calls for one: a hit does, and so does the step of a
    /// dealer who is under 17. A command out of turn, and so every command
    /// in a round that is settled, leaves the game as it is and is answered
    /// with an error; so is a split.
    ///
    /// Where the dealer's step settles the round, the bankroll must have
    /// room for what it comes to.
    pub fn run(&mut self, command: Command) -> (answer: Result<(), GameError>)
        requires
            old(self).runnable(command),
        ensures
            exists|card: Card|
                card.fresh() && final(self)@ == #[trigger] old(self)@.step(command, card),
            answer == old(self)@.answer(command),
            old(self).wf() ==> final(self).wf(),
            old(self).state.settled() ==> final(self)@ == old(self)@ && answer is Err,
            !old(self)@.in_turn(command) ==> final(self)@ == old(self)@ && answer is Err,
            command == Command::Hit && old(self).state == GameState::PlayerTurn ==> {
                &&& final(self).player_hand@.len() == old(self).player_hand@.len() + 1
                &&& final(self).player_hand@.drop_last() == old(self).player_hand@
                &&& final(self).dealer_hand@.len() == old(self).dealer_hand@.len()
                &&& forall|i: int|
                    0 <= i < old(self).dealer_hand@.len()
                        ==> (#[trigger] final(self).dealer_hand@[i]).turned(false)
                        == old(self).dealer_hand@[i].turned(false)
                &&& final(self)@.player_score() != BLACKJACK ==> final(self).dealer_hand@ == old(
                    self,
                ).dealer_hand@
            },
            command == Command::Stand && old(self).state == GameState::PlayerTurn ==> {
                &&& final(self).state == GameState::DealerTurn
                &&& final(self).player_hand@ == old(self).player_hand@
            },
            final(self)@.player_score() != old(self)@.player_score() ==> command == Command::Hit,
            final(self).state == GameState::Draw ==> final(self).bank == old(self).bank,
    {
        if self.draws(command) {
            let card = Card::new();
            self.carry_out(command, Some(card))
        } else {
            let answer = self.carry_out(command, None);
            proof {
                lemma_card_at_fresh(0);
                assert(self@ == old(self)@.step(command, card_at(0)));
            }
            answer
        }
    }

    /// Carries out `command` as `run` does, with `card` for the card that
    /// is drawn if the command draws one.
    ///
    /// Where the dealer's step settles the round, the bankroll must have
    /// room for what it comes to.
    pub fn apply(&mut self, command: Command, card: Card) -> (answer: Result<(), GameError>)
        requires
            old(self).runnable(command),
        ensures
            final(self)@ == old(self)@.step(command, card),
            answer == old(self)@.answer(command),
            old(self).wf() && card.wf() ==> final(self).wf(),
    {
        self.carry_out(command, Some(card))
    }

    /// Whether `command` draws a card: it is in turn, and is a hit, or the
    /// step of a dealer who is under 17.
    pub fn draws(&self, command: Command) -> (draws: bool)
        ensures
            draws == self@.draws(command),
    {
        match (command, self.state) {
            (Command::Hit, GameState::PlayerTurn) => true,
            (Command::AdvanceDealer, GameState::DealerTurn) => self.dealer_draws(),
            _ => false,
        }
    }

    /// Carries out `command`; `card` holds the card to deal where the
    /// command draws one.
    fn carry_out(&mut self, command: Command, card: Option<Card>) -> (answer: Result<
        (),
        GameError,
    >)
        requires
            old(self).runnable(command),
            old(self)@.draws(command) ==> card is Some,
        ensures
            old(self)@.draws(command) ==> final(self)@ == old(self)@.step(command, card->0),
            forall|any: Card|
                !old(self)@.draws(command) ==> final(self)@ == #[trigger] old(self)@.step(
                    command,
                    any,
                ),
            answer == old(self)@.answer(command),
            old(self).wf() && (card matches Some(dealt) ==> dealt.wf()) ==> final(self).wf(),
    {
        match (command, self.state) {
            (Command::Split, _) => Err(GameError::Unsupported),
            (Command::Hit, GameState::PlayerTurn) => {
                self.hit(card.unwrap());
                Ok(())
            },
            (Command::Stand, GameState::PlayerTurn) => {
                self.stand();
                Ok(())
            },
            (Command::AdvanceDealer, GameState::DealerTurn) => {
                if self.dealer_draws() {
                    self.dealer_hit(card.unwrap());
                    Ok(())
                } else {
                    self.settle()
                }
            },
            _ => Err(GameError::OutOfTurn),
        }
    }

    /// The player takes `card`. Over 21 the bet is lost, as far as the
    /// bankroll covers it, and the round with it; at 21 the turn passes to
    /// the dealer, whose first card is turned up.
    fn hit(&mut self, card: Card)
        ensures
            final(self)@ == old(self)@.hit(card),
    {
        self.player_hand.push(card);
        let score = calc_wide_score(self.player_hand.as_slice());
        if score > BLACKJACK as u128 {
            self.state = GameState::Lose;
            self.bank = self.bank.saturating_sub(self.current_bet);
        } else if score == BLACKJACK as u128 {
            self.state = GameState::DealerTurn;
            self.flip_upcard();
        }
    }

    /// The player takes no more cards: the turn passes to the dealer,
    /// whose first card is turned up. The player's hand is not looked at.
    fn stand(&mut self)
        ensures
            final(self)@ == old(self)@.stand(),
    {
        self.state = GameState::DealerTurn;
        self.flip_upcard();
    }

    /// Whether the dealer has to draw: the dealer's score is under 17.
    pub fn dealer_draws(&self) -> (draws: bool)
        ensures
            draws == self@.dealer_draws(),
    {
        calc_wide_score(self.dealer_hand.as_slice()) < DEALER_STAND as u128
    }

    /// The dealer takes `card`.
    fn dealer_hit(&mut self, card: Card)
        ensures
            final(self)@ == old(self)@.dealer_hit(card),
    {
        self.dealer_hand.push(card);
    }

    /// Compares the hands and settles the bet: won where the dealer is
    /// over 21 or has less than the player, kept on equal scores, lost
    /// otherwise, as far as the bankroll covers it. Against a player who
    /// is over 21 nothing is settled; the game stays as it is and the call
    /// fails.
    fn settle(&mut self) -> (answer: Result<(), GameError>)
        requires
            old(self)@.settle().bank <= u32::MAX,
        ensures
            final(self)@ == old(self)@.settle(),
            answer == if old(self)@.player_busted() {
                Err::<(), GameError>(GameError::PlayerBusted)
            } else {
                Ok::<(), GameError>(())
            },
    {
        let player = calc_wide_score(self.player_hand.as_slice());
        let dealer = calc_wide_score(self.dealer_hand.as_slice());
        if player > BLACKJACK as u128 {
            return Err(GameError::PlayerBusted);
        }
        if dealer > BLACKJACK as u128 || dealer < player {
            self.state = GameState::Win;
            self.bank += self.current_bet;
        } else if dealer == player {
            self.state = GameState::Draw;
        } else {
            self.state = GameState::Lose;
            self.bank = self.bank.saturating_sub(self.current_bet);
        }
        Ok(())
    }

    /// Turns the dealer's first card face up, if the dealer holds a card.
    fn flip_upcard(&mut self)
        ensures
            final(self)@ == old(self)@.flip_upcard(),
    {
        if self.dealer_hand.len() > 0 {
            self.dealer_hand[0].face_up();
        }
    }
}

/// A game with a bankroll of 100.
impl Default for App {
    fn default() -> (app: App)
        ensures
            app@ == Game::new(100),
            app.wf(),
    {
        App::new(100)
    }
}

} // verus!
