//! Laws of the game, proved over its model: that a settled round is safe
//! from every command, what a hit leaves alone, that the dealer's play
//! comes to an end, and what a round does to the bankroll.

use vstd::prelude::*;
use crate::app::{Command, GameState};
use crate::cards::Card;
use crate::game::{debit, payout_for, Game};
use crate::score::{
    cards_wf, lemma_low_total_grows, lemma_total_limits, low_total, BLACKJACK, DEALER_STAND,
};

verus! {

/// Once a round is settled, no command changes anything: the bankroll, the
/// hands, the bet and the state all stay, whatever the command and whatever
/// card would have come, and the command is answered with an error. Only
/// `reset` leads on from there.
pub proof fn lemma_settled_round_untouched(g: Game, command: Command, card: Card)
    requires
        g.state.settled(),
    ensures
        g.step(command, card) == g,
        g.answer(command) is Err,
{
}

/// A command out of turn changes nothing and is answered with an error;
/// a command in turn is answered with one only where the dealer stands
/// against a player who is over 21, and then it changes nothing either.
pub proof fn lemma_refused_commands_change_nothing(g: Game, command: Command, card: Card)
    ensures
        !g.in_turn(command) ==> g.step(command, card) == g && g.answer(command) is Err,
        g.answer(command) is Err ==> g.step(command, card) == g,
{
}

/// A hit in the player's turn gives the player the card and leaves the
/// dealer's cards as they were: the same number, each of the same suit and
/// rank, and all but the first lying as before. The first is turned up
/// where the player reaches 21, and only there.
pub proof fn lemma_hit_leaves_dealer_cards(g: Game, card: Card)
    requires
        g.state == GameState::PlayerTurn,
    ensures
        ({
            let next = g.step(Command::Hit, card);
            &&& next.player_hand == g.player_hand.push(card)
            &&& next.dealer_hand.len() == g.dealer_hand.len()
            &&& forall|i: int|
                0 <= i < g.dealer_hand.len() ==> (#[trigger] next.dealer_hand[i]).suit
                    == g.dealer_hand[i].suit && next.dealer_hand[i].rank == g.dealer_hand[i].rank
            &&& forall|i: int|
                0 < i < g.dealer_hand.len() ==> #[trigger] next.dealer_hand[i] == g.dealer_hand[i]
            &&& next.player_score() != BLACKJACK ==> next.dealer_hand == g.dealer_hand
            &&& next.player_score() == BLACKJACK && g.dealer_hand.len() > 0
                ==> !next.dealer_hand[0].down
        }),
{
}

/// The dealer's play on the cards that come, in their order: one step of
/// the dealer for each card while it is the dealer's turn.
pub open spec fn dealer_plays(g: Game, cards: Seq<Card>) -> Game
    decreases cards.len(),
{
    if cards.len() == 0 || g.state != GameState::DealerTurn {
        g
    } else {
        dealer_plays(g.step(Command::AdvanceDealer, cards.first()), cards.drop_first())
    }
}

/// The most steps that the dealer's play can still take: none once it is
/// no longer the dealer's turn, one to settle where the dealer stands, and
/// otherwise one more than the points that the dealer's hand, every ace
/// low, lacks to 17.
pub open spec fn dealer_steps_left(g: Game) -> int {
    if g.state != GameState::DealerTurn {
        0
    } else if g.dealer_draws() {
        DEALER_STAND + 1 - low_total(g.dealer_hand)
    } else {
        1
    }
}

/// A step of the dealer against a player who is not over 21 settles the
/// round or brings the end nearer: the steps that are left grow fewer.
/// There are never more than 18 of them.
///
/// The dealer's score itself may fall with a draw (ace and 5, then a 6,
/// makes 12 of 16); what grows with every card is the total with every
/// ace low, and the dealer stops drawing before it reaches 17.
pub proof fn lemma_dealer_step_progress(g: Game, card: Card)
    requires
        g.state == GameState::DealerTurn,
        !g.player_busted(),
        card.wf(),
    ensures
        0 < dealer_steps_left(g) <= DEALER_STAND + 1,
        g.step(Command::AdvanceDealer, card).state.settled() || g.step(
            Command::AdvanceDealer,
            card,
        ).state == GameState::DealerTurn,
        !g.step(Command::AdvanceDealer, card).player_busted(),
        dealer_steps_left(g.step(Command::AdvanceDealer, card)) < dealer_steps_left(g),
{
    lemma_low_total_grows(g.dealer_hand, card);
    lemma_total_limits(g.dealer_hand);
    lemma_total_limits(g.dealer_hand.push(card));
    lemma_low_total_grows(g.dealer_hand.push(card), card);
}

/// The dealer's play comes to an end: from the dealer's turn, against a
/// player who is not over 21, the round is settled after as many steps as
/// `dealer_steps_left` counts, at most 18, whatever well-formed cards come.
///
/// Against a player who is over 21 the dealer's step is refused and the
/// turn never ends; such a player has lost already, and no play in turn
/// leads there.
pub proof fn lemma_dealer_play_ends(g: Game, cards: Seq<Card>)
    requires
        g.state == GameState::DealerTurn,
        !g.player_busted(),
        cards_wf(cards),
        cards.len() >= dealer_steps_left(g),
    ensures
        dealer_plays(g, cards).state.settled(),
        dealer_steps_left(g) <= DEALER_STAND + 1,
    decreases cards.len(),
{
    let card = cards.first();
    assert(card.wf());
    lemma_dealer_step_progress(g, card);
    let next = g.step(Command::AdvanceDealer, card);
    let rest = cards.drop_first();
    if next.state == GameState::DealerTurn {
        assert forall|i: int| 0 <= i < rest.len() implies (#[trigger] rest[i]).wf() by {
            assert(rest[i] == cards[i + 1]);
        }
        lemma_dealer_play_ends(next, rest);
    } else {
        assert(dealer_plays(next, rest) == next);
    }
}

/// A command and the card that is drawn if the command draws one.
pub struct Move {
    pub command: Command,
    pub card: Card,
}

/// The game after the moves, one after the other, each carried out or
/// refused as `step` says.
pub open spec fn play(g: Game, moves: Seq<Move>) -> Game
    decreases moves.len(),
{
    if moves.len() == 0 {
        g
    } else {
        play(g.step(moves.first().command, moves.first().card), moves.drop_first())
    }
}

/// What a game that stands at `now` owes to the bankroll `bank` with which
/// the play began: the bankroll is untouched while the round is played and
/// when it is drawn, has the bet added when it is won, and the bet taken,
/// as far as it reaches, when it is lost.
pub open spec fn accounted(bank: int, now: Game) -> bool {
    match now.state {
        GameState::PlayerTurn | GameState::DealerTurn | GameState::Draw => now.bank == bank,
        GameState::Win => now.bank == bank + now.current_bet,
        GameState::Lose => now.bank == debit(bank, now.current_bet),
        _ => true,
    }
}

/// The dealer's first card lies as the state of the round asks: face down
/// in the player's turn, face up in the dealer's turn and after a win or a
/// draw. After a loss it lies either way: down where the player went over
/// 21, up where the dealer won.
pub open spec fn upcard_in_place(g: Game) -> bool {
    &&& g.dealer_hand.len() >= 2
    &&& g.state == GameState::PlayerTurn ==> g.dealer_hand[0].down
    &&& g.state == GameState::DealerTurn || g.state == GameState::Win || g.state
        == GameState::Draw ==> !g.dealer_hand[0].down
}

/// No moves lead on from a settled round: whatever is played, the game
/// stays as it is.
pub proof fn lemma_settled_round_stays(g: Game, moves: Seq<Move>)
    requires
        g.state.settled(),
    ensures
        play(g, moves) == g,
    decreases moves.len(),
{
    if moves.len() > 0 {
        lemma_settled_round_stays(g, moves.drop_first());
    }
}

/// Whatever moves are played from the player's or the dealer's turn, in
/// turn or out of it, the bet and the payout stay as they were and the
/// bankroll is as the state of the round accounts for it: it changes once,
/// when the round is settled.
pub proof fn lemma_play_accounts(g: Game, moves: Seq<Move>)
    requires
        g.state == GameState::PlayerTurn || g.state == GameState::DealerTurn,
    ensures
        play(g, moves).current_bet == g.current_bet,
        play(g, moves).blackjack_payout == g.blackjack_payout,
        play(g, moves).state != GameState::EnterBet,
        play(g, moves).state != GameState::Blackjack,
        accounted(g.bank, play(g, moves)),
    decreases moves.len(),
{
    if moves.len() > 0 {
        let next = g.step(moves.first().command, moves.first().card);
        let rest = moves.drop_first();
        if next.state == GameState::PlayerTurn || next.state == GameState::DealerTurn {
            lemma_play_accounts(next, rest);
        } else {
            lemma_settled_round_stays(next, rest);
        }
    }
}

/// Whatever moves are played, the dealer's first card stays face down
/// through the player's turn and is turned up when the turn passes to the
/// dealer; it is not turned again.
pub proof fn lemma_upcard_turns_with_the_turn(g: Game, moves: Seq<Move>)
    requires
        g.state == GameState::PlayerTurn || g.state == GameState::DealerTurn,
        upcard_in_place(g),
    ensures
        upcard_in_place(play(g, moves)),
    decreases moves.len(),
{
    if moves.len() > 0 {
        let next = g.step(moves.first().command, moves.first().card);
        let rest = moves.drop_first();
        if next.state == GameState::PlayerTurn || next.state == GameState::DealerTurn {
            lemma_upcard_turns_with_the_turn(next, rest);
        } else {
            lemma_settled_round_stays(next, rest);
        }
    }
}

/// The deal lays the dealer's first card face down, and whatever is played
/// after a deal that is no natural blackjack keeps the card in place.
pub proof fn lemma_deal_hides_upcard(
    g: Game,
    first: Card,
    second: Card,
    hidden: Card,
    shown: Card,
    moves: Seq<Move>,
)
    ensures
        g.deal(first, second, hidden, shown).dealer_hand[0].down,
        g.deal(first, second, hidden, shown).state != GameState::Blackjack ==> upcard_in_place(
            play(g.deal(first, second, hidden, shown), moves),
        ),
{
    let dealt = g.deal(first, second, hidden, shown);
    if dealt.state == GameState::PlayerTurn {
        lemma_upcard_turns_with_the_turn(dealt, moves);
    }
}

/// A round that ends in a draw leaves the bankroll as it was before the
/// bet: from the bet and the deal, through whatever moves are played,
/// whatever the cards.
pub proof fn lemma_draw_keeps_bankroll(
    g: Game,
    bet: int,
    first: Card,
    second: Card,
    hidden: Card,
    shown: Card,
    moves: Seq<Move>,
)
    requires
        play(g.place_bet(bet).deal(first, second, hidden, shown), moves).state == GameState::Draw,
    ensures
        play(g.place_bet(bet).deal(first, second, hidden, shown), moves).bank == g.bank,
{
    lemma_round_accounts(g, bet, first, second, hidden, shown, moves);
}

/// A round, from the bet and the deal through whatever moves are played,
/// changes the bankroll in one of four ways and no other: a natural
/// blackjack adds the payout, a win adds the bet, a loss takes the bet as
/// far as the bankroll reaches, and a draw changes nothing. While the round
/// is still played the bankroll is untouched. The bet stays as it was
/// placed, and the payout stays three to two on it.
pub proof fn lemma_round_accounts(
    g: Game,
    bet: int,
    first: Card,
    second: Card,
    hidden: Card,
    shown: Card,
    moves: Seq<Move>,
)
    ensures
        ({
            let end = play(g.place_bet(bet).deal(first, second, hidden, shown), moves);
            &&& end.current_bet == bet
            &&& end.blackjack_payout == payout_for(bet)
            &&& end.state != GameState::EnterBet
            &&& end.state == GameState::Blackjack ==> end.bank == g.bank + payout_for(bet)
            &&& end.state != GameState::Blackjack ==> accounted(g.bank, end)
        }),
{
    let dealt = g.place_bet(bet).deal(first, second, hidden, shown);
    if dealt.state == GameState::PlayerTurn {
        lemma_play_accounts(dealt, moves);
    } else {
        lemma_settled_round_stays(dealt, moves);
    }
}

} // verus!
