//! Scoring of a hand. An ace counts 11, or 1 where 11 would carry the hand
//! over 21; the other cards count what they show, the court cards 10.

use vstd::prelude::*;
use crate::cards::{Card, Rank};

verus! {

/// Points of an ace counted high.
pub const ACE_HIGH: u8 = 11;

/// Points of an ace counted low.
pub const ACE_LOW: u8 = 1;

/// The score that no hand may pass.
pub const BLACKJACK: u8 = 21;

/// Points of jack, queen and king.
pub const FACECARD: u8 = 10;

/// The score from which the dealer draws no more.
pub const DEALER_STAND: u8 = 17;

/// Points of a card with the ace counted high.
pub open spec fn card_value(card: Card) -> nat {
    match card.rank {
        Rank::Ace => ACE_HIGH as nat,
        Rank::Pip(n) => n as nat,
        _ => FACECARD as nat,
    }
}

/// Sum of the cards' points with every ace counted high.
pub open spec fn raw_total(hand: Seq<Card>) -> nat
    decreases hand.len(),
{
    if hand.len() == 0 {
        0
    } else {
        raw_total(hand.drop_last()) + card_value(hand.last())
    }
}

/// Number of aces in the hand.
pub open spec fn ace_count(hand: Seq<Card>) -> nat
    decreases hand.len(),
{
    if hand.len() == 0 {
        0
    } else {
        ace_count(hand.drop_last()) + if hand.last().rank is Ace {
            1nat
        } else {
            0nat
        }
    }
}

/// Total of the hand when `low` of its aces count 1 and the others 11.
pub open spec fn total_with(hand: Seq<Card>, low: int) -> int {
    raw_total(hand) - (ACE_HIGH - ACE_LOW) * low
}

/// Total of the hand with every ace counted low: the least it can come to.
pub open spec fn low_total(hand: Seq<Card>) -> int {
    total_with(hand, ace_count(hand) as int)
}

/// How many aces count low: as few as bring a hand of `raw` points down to
/// 21 or less, which is a tenth of what the hand is over, rounded up; and
/// all `aces` of them where even that is not enough.
pub open spec fn downgrades(raw: int, aces: int) -> int {
    let needed = (raw - BLACKJACK + 9) / 10;
    if raw <= BLACKJACK {
        0
    } else if needed <= aces {
        needed
    } else {
        aces
    }
}

/// Score of the hand: its total with as few aces counted low as keep it at
/// 21 or less, and with every ace counted low where the hand is over 21
/// whatever is done.
pub open spec fn hand_score(hand: Seq<Card>) -> int {
    total_with(hand, downgrades(raw_total(hand) as int, ace_count(hand) as int))
}

/// Every card of the hand is well formed.
pub open spec fn cards_wf(hand: Seq<Card>) -> bool {
    forall|i: int| 0 <= i < hand.len() ==> (#[trigger] hand[i]).wf()
}

/// One more card adds its points to the total and, if it is an ace, one to
/// the number of aces.
pub proof fn lemma_totals_push(hand: Seq<Card>, card: Card)
    ensures
        raw_total(hand.push(card)) == raw_total(hand) + card_value(card),
        ace_count(hand.push(card)) == ace_count(hand) + if card.rank is Ace {
            1nat
        } else {
            0nat
        },
{
    assert(hand.push(card).drop_last() =~= hand);
}

/// Whatever the cards, a card counts at most 255 and an ace counts 11: so
/// a hand totals at most 255 times its length and at least eleven times
/// its aces, and its score is never negative.
pub proof fn lemma_total_limits(hand: Seq<Card>)
    ensures
        raw_total(hand) <= 255 * hand.len(),
        11 * ace_count(hand) <= raw_total(hand),
        ace_count(hand) <= hand.len(),
        0 <= low_total(hand) <= hand_score(hand) <= raw_total(hand),
    decreases hand.len(),
{
    if hand.len() > 0 {
        lemma_total_limits(hand.drop_last());
    }
}

/// An ace counts 11 in the total with every ace high, so the total with
/// every ace low is never negative; and one more well-formed card raises
/// that low total by at least 1.
pub proof fn lemma_low_total_grows(hand: Seq<Card>, card: Card)
    ensures
        0 <= low_total(hand),
        low_total(hand) <= low_total(hand.push(card)),
        card.wf() ==> low_total(hand) + 1 <= low_total(hand.push(card)),
    decreases hand.len(),
{
    lemma_totals_push(hand, card);
    if hand.len() > 0 {
        lemma_low_total_grows(hand.drop_last(), hand.last());
        assert(hand.drop_last().push(hand.last()) =~= hand);
    }
}

/// A well-formed card counts at least 2 and at most 11, and at least 1
/// even as a low ace; so a hand of well-formed cards totals at least twice
/// and at most eleven times its length, and at least its length with every
/// ace low.
pub proof fn lemma_hand_bounds(hand: Seq<Card>)
    requires
        cards_wf(hand),
    ensures
        2 * hand.len() <= raw_total(hand) <= 11 * hand.len(),
        hand.len() <= low_total(hand) <= 10 * hand.len(),
        11 * ace_count(hand) <= raw_total(hand),
    decreases hand.len(),
{
    if hand.len() > 0 {
        assert(hand.last().wf());
        lemma_hand_bounds(hand.drop_last());
    }
}

/// The score of a hand is the best total that its aces allow.
///
/// It is the total for some number of aces counted low. Where any such
/// total stays at 21 or under, so does the score, and no total at 21 or
/// under is higher. Where none does, the score is the total with every ace
/// low: the least by which the hand is over.
pub proof fn lemma_score_is_best_total(hand: Seq<Card>)
    ensures
        exists|low: int|
            0 <= low <= ace_count(hand) && hand_score(hand) == #[trigger] total_with(hand, low),
        forall|low: int|
            0 <= low <= ace_count(hand) && #[trigger] total_with(hand, low) <= BLACKJACK
                ==> total_with(hand, low) <= hand_score(hand) <= BLACKJACK,
        low_total(hand) <= BLACKJACK ==> hand_score(hand) <= BLACKJACK,
        low_total(hand) > BLACKJACK ==> hand_score(hand) == low_total(hand),
{
    let raw = raw_total(hand) as int;
    let aces = ace_count(hand) as int;
    assert(hand_score(hand) == total_with(hand, downgrades(raw, aces)));
}

/// A hand of well-formed cards scores at least as many points as it holds
/// cards: nothing for no card, and never nothing otherwise.
pub proof fn lemma_score_at_least_len(hand: Seq<Card>)
    requires
        cards_wf(hand),
    ensures
        hand.len() <= hand_score(hand),
        hand_score(hand) == 0 <==> hand.len() == 0,
{
    lemma_hand_bounds(hand);
}

/// The score looks at ranks only: two hands that hold the same ranks in
/// the same places score the same, whatever the suits and whichever way the
/// cards lie.
pub proof fn lemma_score_by_rank(one: Seq<Card>, other: Seq<Card>)
    requires
        one.len() == other.len(),
        forall|i: int| 0 <= i < one.len() ==> one[i].rank == other[i].rank,
    ensures
        raw_total(one) == raw_total(other),
        ace_count(one) == ace_count(other),
        hand_score(one) == hand_score(other),
    decreases one.len(),
{
    if one.len() > 0 {
        lemma_score_by_rank(one.drop_last(), other.drop_last());
    }
}

/// A hand totals what it totals without one of its cards, and that card's
/// points; likewise for its aces.
pub proof fn lemma_totals_remove(hand: Seq<Card>, i: int)
    requires
        0 <= i < hand.len(),
    ensures
        raw_total(hand) == raw_total(hand.remove(i)) + card_value(hand[i]),
        ace_count(hand) == ace_count(hand.remove(i)) + if hand[i].rank is Ace {
            1nat
        } else {
            0nat
        },
    decreases hand.len(),
{
    if i == hand.len() - 1 {
        assert(hand.remove(i) =~= hand.drop_last());
    } else {
        lemma_totals_remove(hand.drop_last(), i);
        assert(hand.remove(i).drop_last() =~= hand.drop_last().remove(i));
        assert(hand.remove(i).last() == hand.last());
    }
}

/// The score does not look at the order of the cards: two hands of the
/// same cards, dealt in whatever order, score the same.
pub proof fn lemma_score_ignores_order(one: Seq<Card>, other: Seq<Card>)
    requires
        one.to_multiset() == other.to_multiset(),
    ensures
        raw_total(one) == raw_total(other),
        ace_count(one) == ace_count(other),
        hand_score(one) == hand_score(other),
    decreases one.len(),
{
    one.to_multiset_ensures();
    other.to_multiset_ensures();
    if one.len() > 0 {
        let last = one.last();
        assert(one[one.len() - 1] == last);
        assert(one.contains(last));
        assert(one.to_multiset().count(last) > 0);
        assert(other.to_multiset().count(last) > 0);
        assert(other.contains(last));
        let j = choose|j: int| 0 <= j < other.len() && other[j] == last;
        assert(one.drop_last() =~= one.remove(one.len() - 1));
        assert(one.drop_last().to_multiset() =~= other.remove(j).to_multiset());
        lemma_score_ignores_order(one.drop_last(), other.remove(j));
        lemma_totals_remove(other, j);
    }
}

/// Points of one card with the ace counted high.
pub fn calc_card_score(card: &Card) -> (score: u8)
    ensures
        score == card_value(*card),
{
    match card.rank {
        Rank::Ace => ACE_HIGH,
        Rank::Pip(num) => num,
        _ => FACECARD,
    }
}

/// Score of a hand, in an integer wide enough for every hand that a
/// machine can hold.
pub fn calc_wide_score(hand: &[Card]) -> (score: u128)
    ensures
        score == hand_score(hand@),
{
    let mut aces: usize = 0;
    let mut score: u128 = 0;
    let mut i: usize = 0;
    while i < hand.len()
        invariant
            i <= hand.len(),
            score == raw_total(hand@.take(i as int)),
            aces == ace_count(hand@.take(i as int)),
        decreases hand.len() - i,
    {
        let card = &hand[i];
        proof {
            lemma_totals_push(hand@.take(i as int), *card);
            assert(hand@.take(i as int).push(*card) =~= hand@.take(i + 1));
            lemma_total_limits(hand@.take(i as int));
        }
        if let Rank::Ace = card.rank {
            aces += 1;
        }
        score += calc_card_score(card) as u128;
        i += 1;
    }
    proof {
        assert(hand@.take(i as int) =~= hand@);
        lemma_total_limits(hand@);
    }
    let ghost raw = score as int;
    let ghost all = aces as int;
    // Count aces low one at a time while the hand is over 21.
    while score > BLACKJACK as u128 && aces > 0
        invariant
            0 <= aces <= all,
            score == raw - 10 * (all - aces),
            aces < all ==> raw - 10 * (all - aces - 1) > BLACKJACK,
        decreases aces,
    {
        score -= (ACE_HIGH - ACE_LOW) as u128;
        aces -= 1;
    }
    score
}

/// Score of a hand, where the score fits in a byte.
pub fn calc_hand_score(hand: &[Card]) -> (score: u8)
    requires
        hand_score(hand@) <= u8::MAX,
    ensures
        score == hand_score(hand@),
{
    calc_wide_score(hand) as u8
}

} // verus!
