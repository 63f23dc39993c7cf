use vstd::prelude::*;

verus! {

/// Everything that can go wrong in a betting operation. A failed call returns
/// one of these and leaves the ledger unchanged.
#[derive(Debug, Clone, Copy, PartialEq, Eq, Structural)]
pub enum Error {
    /// Caller is not a final decision maker
    NotFinalDecisionMaker,
    /// The requested Bet does not exist
    BetDoesNotExist,
    /// Bettor can only be 1 or 2
    BettorDoesNotExist,
    /// The String is not in a parseable datetime format
    NotDatetimeString,
    /// Not enough was sent
    InssufficientAmountOfTokensSent,
    /// Cannot reject bet if account id does not correspond to bettor 2's
    NotBettor2,
    /// The caller is not a valid party to the bet
    CallerNotValidBettor,
    /// The bet's lifecycle state does not permit the attempted operation
    InvalidStateForCallingFunction,
}

/// Different states that a bet can be in
#[derive(Debug, Clone, Copy, PartialEq, Eq, Structural)]
pub enum BetState {
    Created,
    BetAcceptedByBettor2,
    BetRefusedByBettor2,
    EventConcluded,
    Bettor1Voted,
    Bettor2Voted,
    Bettor1Wins,
    Bettor2Wins,
    BettorsDrew,
    BettorsDisagree,
}

/// Different states that a bet's outcome can be in
#[derive(Debug, Clone, Copy, PartialEq, Eq, Structural)]
pub enum BetOutcome {
    Draw,
    Bettor1Wins,
    Bettor2Wins,
    /// Undecideable could be because the terms turned out not to be sufficiently clear
    Undecideable,
}

/// The outcome that a winner code denotes: 0 is a draw, 1 a win for bettor 1,
/// 2 a win for bettor 2, and every other code is absorbed into `Undecideable`.
pub open spec fn spec_decode_winner(winner: u8) -> BetOutcome {
    if winner == 0 {
        BetOutcome::Draw
    } else if winner == 1 {
        BetOutcome::Bettor1Wins
    } else if winner == 2 {
        BetOutcome::Bettor2Wins
    } else {
        BetOutcome::Undecideable
    }
}

/// Decode a winner code into the outcome it claims.
pub fn decode_winner(winner: u8) -> (outcome: BetOutcome)
    ensures
        outcome == spec_decode_winner(winner),
{
    if winner == 0 {
        BetOutcome::Draw
    } else if winner == 1 {
        BetOutcome::Bettor1Wins
    } else if winner == 2 {
        BetOutcome::Bettor2Wins
    } else {
        BetOutcome::Undecideable
    }
}

/// The terminal state that a pair of claims reconciles to once both bettors
/// have voted: equal unambiguous claims reach the matching terminal state, two
/// `Undecideable` claims count as a draw, and any other pairing is a
/// disagreement.
pub open spec fn spec_reconcile(claim_1: BetOutcome, claim_2: BetOutcome) -> BetState {
    match (claim_1, claim_2) {
        (BetOutcome::Draw, BetOutcome::Draw) => BetState::BettorsDrew,
        (BetOutcome::Undecideable, BetOutcome::Undecideable) => BetState::BettorsDrew,
        (BetOutcome::Bettor1Wins, BetOutcome::Bettor1Wins) => BetState::Bettor1Wins,
        (BetOutcome::Bettor2Wins, BetOutcome::Bettor2Wins) => BetState::Bettor2Wins,
        _ => BetState::BettorsDisagree,
    }
}

/// Reconcile the two bettors' claims into a terminal state.
pub fn reconcile_claims(claim_1: BetOutcome, claim_2: BetOutcome) -> (state: BetState)
    ensures
        state == spec_reconcile(claim_1, claim_2),
{
    match (claim_1, claim_2) {
        (BetOutcome::Draw, BetOutcome::Draw) => BetState::BettorsDrew,
        (BetOutcome::Undecideable, BetOutcome::Undecideable) => BetState::BettorsDrew,
        (BetOutcome::Bettor1Wins, BetOutcome::Bettor1Wins) => BetState::Bettor1Wins,
        (BetOutcome::Bettor2Wins, BetOutcome::Bettor2Wins) => BetState::Bettor2Wins,
        _ => BetState::BettorsDisagree,
    }
}

/// Reconciliation, classified over raw winner codes: two equal codes among 0,
/// 1 and 2 reach the matching agreed terminal state, two codes that both lie
/// outside that range count as a draw, and every remaining pairing of codes is
/// a disagreement.
pub proof fn lemma_reconciliation(winner_1: u8, winner_2: u8)
    ensures
        winner_1 == 0 && winner_2 == 0 ==> spec_reconcile(
            spec_decode_winner(winner_1),
            spec_decode_winner(winner_2),
        ) == BetState::BettorsDrew,
        winner_1 == 1 && winner_2 == 1 ==> spec_reconcile(
            spec_decode_winner(winner_1),
            spec_decode_winner(winner_2),
        ) == BetState::Bettor1Wins,
        winner_1 == 2 && winner_2 == 2 ==> spec_reconcile(
            spec_decode_winner(winner_1),
            spec_decode_winner(winner_2),
        ) == BetState::Bettor2Wins,
        winner_1 > 2 && winner_2 > 2 ==> spec_reconcile(
            spec_decode_winner(winner_1),
            spec_decode_winner(winner_2),
        ) == BetState::BettorsDrew,
        spec_decode_winner(winner_1) != spec_decode_winner(winner_2) ==> spec_reconcile(
            spec_decode_winner(winner_1),
            spec_decode_winner(winner_2),
        ) == BetState::BettorsDisagree,
{
}

} // verus!
