use vstd::prelude::*;

use crate::types::BetOutcome;
use crate::types::BetState;
use crate::types::Error;
use crate::types::decode_winner;
use crate::types::reconcile_claims;
use crate::types::spec_decode_winner;
use crate::types::spec_reconcile;
use crate::datetime::is_datetime_string;
use crate::datetime::parse_datetime_ms;
use crate::datetime::utc_ms_of;
use crate::hashing::keccak256;
use crate::hashing::keccak256_of;
use crate::hashing::u128_be_bytes;
use crate::hashing::u64_be_bytes;

verus! {

/// An account of the host ledger: an opaque, equality-comparable token.
pub type AccountId = u128;

/// An amount of value, counted as the host ledger counts it.
pub type Balance = u128;

/// The mathematical reading of one bet record.
pub ghost struct BetView {
    /// How much is wagered on the event's outcome
    pub amount_wagered: Balance,
    /// Who is bettor 1?
    pub bettor_1: Option<AccountId>,
    /// Who is bettor 2?
    pub bettor_2: Option<AccountId>,
    /// How is the winner decided?
    pub criteria_for_winning: Seq<char>,
    /// When will the event conclude by (an absolute datetime string)
    pub event_decided_by: Seq<char>,
    /// Bettor 1's claimed outcome, once bettor 1 has voted
    pub outcome_claimed_by_bettor_1: Option<BetOutcome>,
    /// Bettor 2's claimed outcome, once bettor 2 has voted
    pub outcome_claimed_by_bettor_2: Option<BetOutcome>,
    /// Reserved for appeal escalation; no operation writes it
    pub reviewer: Option<AccountId>,
    /// Reserved for appeal escalation; no operation writes it
    pub outcome_claimed_by_reviewer: Option<BetOutcome>,
    /// Current lifecycle state
    pub state: BetState,
}

impl BetView {
    /// Structural soundness of a bet record: bettor 1 is always set, a bet
    /// past creation has its counterparty fixed, each voting sub-state holds
    /// the vote that entered it, a terminal state agrees with the stored
    /// claims, and the appeal fields stay unwired.
    pub open spec fn wf(self) -> bool {
        &&& self.bettor_1 is Some
        &&& self.reviewer is None
        &&& self.outcome_claimed_by_reviewer is None
        &&& self.state != BetState::Created ==> self.bettor_2 is Some
        &&& self.state == BetState::Created ==> self.outcome_claimed_by_bettor_1 is None
            && self.outcome_claimed_by_bettor_2 is None
        &&& self.state == BetState::Bettor1Voted ==> self.outcome_claimed_by_bettor_1 is Some
        &&& self.state == BetState::Bettor2Voted ==> self.outcome_claimed_by_bettor_2 is Some
        &&& self.is_terminal() ==> self.outcome_claimed_by_bettor_1 is Some
            && self.outcome_claimed_by_bettor_2 is Some && self.state == spec_reconcile(
            self.outcome_claimed_by_bettor_1->0,
            self.outcome_claimed_by_bettor_2->0,
        )
    }

    /// Whether the record sits in one of the four reconciliation terminal
    /// states.
    pub open spec fn is_terminal(self) -> bool {
        ||| self.state == BetState::Bettor1Wins
        ||| self.state == BetState::Bettor2Wins
        ||| self.state == BetState::BettorsDrew
        ||| self.state == BetState::BettorsDisagree
    }
}

/// Information regarding a particular bet.
pub struct Bet {
    amount_wagered: Balance,
    bettor_1: Option<AccountId>,
    bettor_2: Option<AccountId>,
    criteria_for_winning: String,
    event_decided_by: String,
    outcome_claimed_by_bettor_1: Option<BetOutcome>,
    outcome_claimed_by_bettor_2: Option<BetOutcome>,
    reviewer: Option<AccountId>,
    outcome_claimed_by_reviewer: Option<BetOutcome>,
    state: BetState,
}

impl View for Bet {
    type V = BetView;

    closed spec fn view(&self) -> BetView {
        BetView {
            amount_wagered: self.amount_wagered,
            bettor_1: self.bettor_1,
            bettor_2: self.bettor_2,
            criteria_for_winning: self.criteria_for_winning@,
            event_decided_by: self.event_decided_by@,
            outcome_claimed_by_bettor_1: self.outcome_claimed_by_bettor_1,
            outcome_claimed_by_bettor_2: self.outcome_claimed_by_bettor_2,
            reviewer: self.reviewer,
            outcome_claimed_by_reviewer: self.outcome_claimed_by_reviewer,
            state: self.state,
        }
    }
}

/// The mathematical reading of the whole ledger.
pub ghost struct BettingView {
    /// The amount bettor 1 pays to create a bet
    pub bet_creation_fee: Balance,
    /// The accounts registered on the arbiter roster
    pub reviewers: Set<AccountId>,
    /// The size of the arbiter roster
    pub number_of_reviewers: u32,
    /// The account with final say should an arbiter's ruling be appealed
    pub final_decision_maker: AccountId,
    /// Every bet ever created, in creation order, addressed by index
    pub bets: Seq<BetView>,
    /// The helper state of the pseudo-random generator
    pub salt: u128,
}

/// Everything outside the bet records is the same in both ledger readings.
pub open spec fn same_except_bets(pre: BettingView, post: BettingView) -> bool {
    &&& post.bet_creation_fee == pre.bet_creation_fee
    &&& post.reviewers == pre.reviewers
    &&& post.number_of_reviewers == pre.number_of_reviewers
    &&& post.final_decision_maker == pre.final_decision_maker
    &&& post.salt == pre.salt
}

/// One `submit_outcome` step as it acts on a single bet record: the caller
/// claims the outcome that `winner` encodes, and the step yields the call's
/// result together with the updated record. Bettor 1 may vote from the
/// event-concluded state (entering `Bettor1Voted`) or second, from
/// `Bettor2Voted`, upon which the two claims reconcile; symmetrically for
/// bettor 2. Anyone else, or a vote from any other state, changes nothing.
pub open spec fn spec_submit(b: BetView, caller: AccountId, winner: u8) -> (Result<(), Error>, BetView) {
    let outcome = spec_decode_winner(winner);
    if b.bettor_1 == Some(caller) {
        if b.state == BetState::Bettor2Voted {
            (
                Ok(()),
                BetView {
                    state: spec_reconcile(outcome, b.outcome_claimed_by_bettor_2->0),
                    outcome_claimed_by_bettor_1: Some(outcome),
                    ..b
                },
            )
        } else if b.state == BetState::EventConcluded {
            (
                Ok(()),
                BetView {
                    state: BetState::Bettor1Voted,
                    outcome_claimed_by_bettor_1: Some(outcome),
                    ..b
                },
            )
        } else {
            (Err(Error::InvalidStateForCallingFunction), b)
        }
    } else if b.bettor_2 == Some(caller) {
        if b.state == BetState::Bettor1Voted {
            (
                Ok(()),
                BetView {
                    state: spec_reconcile(b.outcome_claimed_by_bettor_1->0, outcome),
                    outcome_claimed_by_bettor_2: Some(outcome),
                    ..b
                },
            )
        } else if b.state == BetState::EventConcluded {
            (
                Ok(()),
                BetView {
                    state: BetState::Bettor2Voted,
                    outcome_claimed_by_bettor_2: Some(outcome),
                    ..b
                },
            )
        } else {
            (Err(Error::InvalidStateForCallingFunction), b)
        }
    } else {
        (Err(Error::CallerNotValidBettor), b)
    }
}

/// The betting ledger and its arbiter registry.
pub struct Betting {
    /// The amount bettor_1 pays the smart contract to create a bet
    bet_creation_fee: Balance,
    /// The registered arbiter accounts, each held once
    reviewers: Vec<AccountId>,
    /// The size of the arbiter roster
    number_of_reviewers: u32,
    /// The account that has final say should an arbiter's ruling be appealed
    final_decision_maker: AccountId,
    /// Number of bets that have been made
    latest_bet: u32,
    /// Every bet ever created, in creation order
    bets: Vec<Bet>,
    /// Helper state of the pseudo-random generator
    salt: u128,
}

impl View for Betting {
    type V = BettingView;

    closed spec fn view(&self) -> BettingView {
        BettingView {
            bet_creation_fee: self.bet_creation_fee,
            reviewers: self.reviewers@.to_set(),
            number_of_reviewers: self.number_of_reviewers,
            final_decision_maker: self.final_decision_maker,
            bets: self.bets@.map_values(|b: Bet| b@),
            salt: self.salt,
        }
    }
}

impl Betting {
    /// The ledger's internal invariant: the bet counter mirrors the ledger's
    /// length, the arbiter roster holds each account once and the running
    /// count mirrors the roster, and every stored bet record is structurally
    /// sound.
    pub closed spec fn wf(self) -> bool {
        &&& self.latest_bet == self.bets@.len()
        &&& self.reviewers@.no_duplicates()
        &&& self.number_of_reviewers == self.reviewers@.len()
        &&& forall|i: int|
            0 <= i < self.bets@.len() ==> (#[trigger] self.bets@[i])@.wf()
    }

    /// Set up an empty ledger with the given final decision maker and bet
    /// creation fee.
    pub fn new(final_decision_maker: AccountId, bet_creation_fee: Balance) -> (betting: Betting)
        ensures
            betting.wf(),
            betting@.bet_creation_fee == bet_creation_fee,
            betting@.reviewers == Set::<AccountId>::empty(),
            betting@.number_of_reviewers == 0,
            betting@.final_decision_maker == final_decision_maker,
            betting@.bets == Seq::<BetView>::empty(),
            betting@.salt == 0,
    {
        let betting = Betting {
            bet_creation_fee,
            reviewers: Vec::new(),
            number_of_reviewers: 0,
            final_decision_maker,
            latest_bet: 0,
            bets: Vec::new(),
            salt: 0,
        };
        proof {
            assert(betting@.reviewers =~= Set::<AccountId>::empty());
            assert(betting@.bets =~= Seq::<BetView>::empty());
        }
        betting
    }

    /// Get bet creation fee
    pub fn get_bet_creation_fee(&self) -> (r: Result<Balance, ()>)
        ensures
            r == Ok::<Balance, ()>(self@.bet_creation_fee),
    {
        Ok(self.bet_creation_fee)
    }

    /// Convert a datetime string to milliseconds since the Unix epoch; a
    /// string that does not parse as an absolute datetime is rejected.
    pub fn convert_datetime_to_ms(&self, dt: String) -> (r: Result<i64, Error>)
        ensures
            is_datetime_string(dt@) ==> r == Ok::<i64, Error>(utc_ms_of(dt@)->0),
            !is_datetime_string(dt@) ==> r == Err::<i64, Error>(Error::NotDatetimeString),
    {
        match parse_datetime_ms(dt.as_str()) {
            Some(ms) => Ok(ms),
            None => Err(Error::NotDatetimeString),
        }
    }

    /// Check whether the supplied clock reading (epoch milliseconds) lies
    /// strictly past the given datetime.
    pub fn has_past_datetime(&self, now: u64, dt: String) -> (r: Result<bool, Error>)
        ensures
            is_datetime_string(dt@) ==> r == Ok::<bool, Error>(
                (now as int) > (utc_ms_of(dt@)->0 as int),
            ),
            !is_datetime_string(dt@) ==> r == Err::<bool, Error>(Error::NotDatetimeString),
    {
        match parse_datetime_ms(dt.as_str()) {
            Some(ms) => Ok((now as i128) > (ms as i128)),
            None => Err(Error::NotDatetimeString),
        }
    }

    /// Create a new bet: the caller becomes bettor 1 and must attach at least
    /// the creation fee plus the wagered amount; the deadline must parse as an
    /// absolute datetime. On success the bet is appended in state `Created`
    /// and its index, the previous bet count, is returned. A failed call
    /// leaves the ledger unchanged.
    pub fn create_bet(
        &mut self,
        caller: AccountId,
        transferred_value: Balance,
        amount_to_wager: Balance,
        bettor_2: Option<AccountId>,
        criteria_for_winning: String,
        event_decided_by: String,
    ) -> (r: Result<Option<u32>, Error>)
        requires
            old(self).wf(),
            old(self)@.bets.len() < u32::MAX,
        ensures
            final(self).wf(),
            same_except_bets(old(self)@, final(self)@),
            (transferred_value as int) < (old(self)@.bet_creation_fee as int) + (
            amount_to_wager as int) ==> r == Err::<Option<u32>, Error>(
                Error::InssufficientAmountOfTokensSent,
            ) && final(self)@ == old(self)@,
            (transferred_value as int) >= (old(self)@.bet_creation_fee as int) + (
            amount_to_wager as int) && !is_datetime_string(event_decided_by@) ==> r == Err::<
                Option<u32>,
                Error,
            >(Error::NotDatetimeString) && final(self)@ == old(self)@,
            (transferred_value as int) >= (old(self)@.bet_creation_fee as int) + (
            amount_to_wager as int) && is_datetime_string(event_decided_by@) ==> r == Ok::<
                Option<u32>,
                Error,
            >(Some(old(self)@.bets.len() as u32)) && final(self)@.bets == old(self)@.bets.push(
                BetView {
                    amount_wagered: amount_to_wager,
                    bettor_1: Some(caller),
                    bettor_2: bettor_2,
                    criteria_for_winning: criteria_for_winning@,
                    event_decided_by: event_decided_by@,
                    outcome_claimed_by_bettor_1: None,
                    outcome_claimed_by_bettor_2: None,
                    reviewer: None,
                    outcome_claimed_by_reviewer: None,
                    state: BetState::Created,
                },
            ),
    {
        if transferred_value < self.bet_creation_fee
            || transferred_value - self.bet_creation_fee < amount_to_wager {
            return Err(Error::InssufficientAmountOfTokensSent);
        }
        if parse_datetime_ms(event_decided_by.as_str()).is_none() {
            return Err(Error::NotDatetimeString);
        }

        let bet = Bet {
            amount_wagered: amount_to_wager,
            bettor_1: Some(caller),
            bettor_2,
            criteria_for_winning,
            event_decided_by,
            state: BetState::Created,
            outcome_claimed_by_bettor_1: None,
            outcome_claimed_by_bettor_2: None,
            reviewer: None,
            outcome_claimed_by_reviewer: None,
        };
        let bet_number = self.latest_bet;
        self.latest_bet = self.latest_bet + 1;

        let ghost pre_bets = self.bets@.map_values(|b: Bet| b@);
        let ghost new_view = bet@;
        self.bets.push(bet);
        proof {
            assert(self.bets@.map_values(|b: Bet| b@) =~= pre_bets.push(new_view));
        }
        Ok(Some(bet_number))
    }

    /// Reject a bet: only the bet's assigned counterparty may do so, and no
    /// value needs to accompany the call. On success the bet moves to
    /// `BetRefusedByBettor2`; a failed call leaves the ledger unchanged.
    pub fn reject_bet(&mut self, caller: AccountId, n: u32) -> (r: Result<bool, Error>)
        requires
            old(self).wf(),
        ensures
            final(self).wf(),
            same_except_bets(old(self)@, final(self)@),
            (n as int) >= old(self)@.bets.len() ==> r == Err::<bool, Error>(Error::BetDoesNotExist)
                && final(self)@ == old(self)@,
            (n as int) < old(self)@.bets.len() ==> ({
                let b = old(self)@.bets[n as int];
                &&& b.bettor_2 == Some(caller) ==> r == Ok::<bool, Error>(true)
                    && final(self)@.bets == old(self)@.bets.update(
                    n as int,
                    BetView { state: BetState::BetRefusedByBettor2, ..b },
                )
                &&& b.bettor_2 != Some(caller) ==> r == Err::<bool, Error>(Error::NotBettor2)
                    && final(self)@ == old(self)@
            }),
    {
        if (n as usize) >= self.bets.len() {
            return Err(Error::BetDoesNotExist);
        }
        let bettor_2 = self.bets[n as usize].bettor_2;
        match bettor_2 {
            Some(bettor) => {
                if bettor == caller {
                    self.bets[n as usize].state = BetState::BetRefusedByBettor2;
                    proof {
                        assert(self.bets@.map_values(|b: Bet| b@) =~= old(self)@.bets.update(
                            n as int,
                            BetView {
                                state: BetState::BetRefusedByBettor2,
                                ..old(self)@.bets[n as int]
                            },
                        ));
                    }
                    Ok(true)
                } else {
                    Err(Error::NotBettor2)
                }
            },
            None => Err(Error::NotBettor2),
        }
    }

    /// Accept a bet: the caller must attach at least the wagered amount. An
    /// unassigned counterparty seat is taken by the caller; an assigned seat
    /// admits only its holder. On success the bet moves to
    /// `BetAcceptedByBettor2`; a failed call leaves the ledger unchanged.
    pub fn accept_bet(
        &mut self,
        caller: AccountId,
        transferred_amount: Balance,
        n: u32,
    ) -> (r: Result<bool, Error>)
        requires
            old(self).wf(),
        ensures
            final(self).wf(),
            same_except_bets(old(self)@, final(self)@),
            (n as int) >= old(self)@.bets.len() ==> r == Err::<bool, Error>(Error::BetDoesNotExist)
                && final(self)@ == old(self)@,
            (n as int) < old(self)@.bets.len() ==> ({
                let b = old(self)@.bets[n as int];
                &&& transferred_amount < b.amount_wagered ==> r == Err::<bool, Error>(
                    Error::InssufficientAmountOfTokensSent,
                ) && final(self)@ == old(self)@
                &&& transferred_amount >= b.amount_wagered && b.bettor_2 is Some && b.bettor_2
                    != Some(caller) ==> r == Err::<bool, Error>(Error::NotBettor2) && final(self)@
                    == old(self)@
                &&& transferred_amount >= b.amount_wagered && b.bettor_2 == Some(caller) ==> r
                    == Ok::<bool, Error>(true) && final(self)@.bets == old(self)@.bets.update(
                    n as int,
                    BetView { state: BetState::BetAcceptedByBettor2, ..b },
                )
                &&& transferred_amount >= b.amount_wagered && b.bettor_2 is None ==> r == Ok::<
                    bool,
                    Error,
                >(true) && final(self)@.bets == old(self)@.bets.update(
                    n as int,
                    BetView {
                        state: BetState::BetAcceptedByBettor2,
                        bettor_2: Some(caller),
                        ..b
                    },
                )
            }),
    {
        if (n as usize) >= self.bets.len() {
            return Err(Error::BetDoesNotExist);
        }
        // make sure the bettor 2 candidate sent enough tokens
        if transferred_amount < self.bets[n as usize].amount_wagered {
            return Err(Error::InssufficientAmountOfTokensSent);
        }

        // allow the caller to accept the bet if either
        //   1. bettor 2 has not been assigned by bettor 1 or
        //   2. bettor 2 has been assigned by bettor 1 and is the caller
        let bettor_2 = self.bets[n as usize].bettor_2;
        match bettor_2 {
            Some(bettor) => {
                if bettor == caller {
                    self.bets[n as usize].state = BetState::BetAcceptedByBettor2;
                    proof {
                        assert(self.bets@.map_values(|b: Bet| b@) =~= old(self)@.bets.update(
                            n as int,
                            BetView {
                                state: BetState::BetAcceptedByBettor2,
                                ..old(self)@.bets[n as int]
                            },
                        ));
                    }
                    Ok(true)
                } else {
                    Err(Error::NotBettor2)
                }
            },
            None => {
                self.bets[n as usize].state = BetState::BetAcceptedByBettor2;
                self.bets[n as usize].bettor_2 = Some(caller);
                proof {
                    assert(self.bets@.map_values(|b: Bet| b@) =~= old(self)@.bets.update(
                        n as int,
                        BetView {
                            state: BetState::BetAcceptedByBettor2,
                            bettor_2: Some(caller),
                            ..old(self)@.bets[n as int]
                        },
                    ));
                }
                Ok(true)
            },
        }
    }

    /// Move a bet from `BetAcceptedByBettor2` to `EventConcluded` once the
    /// stored deadline lies strictly in the past of the supplied clock
    /// reading (epoch milliseconds). No other operation produces
    /// `EventConcluded`; whether to call this automatically once the deadline
    /// has passed, or on demand, is the host's choice.
    pub fn conclude_event(&mut self, now: u64, n: u32) -> (r: Result<(), Error>)
        requires
            old(self).wf(),
        ensures
            final(self).wf(),
            same_except_bets(old(self)@, final(self)@),
            (n as int) >= old(self)@.bets.len() ==> r == Err::<(), Error>(Error::BetDoesNotExist)
                && final(self)@ == old(self)@,
            (n as int) < old(self)@.bets.len() ==> ({
                let b = old(self)@.bets[n as int];
                &&& b.state != BetState::BetAcceptedByBettor2 ==> r == Err::<(), Error>(
                    Error::InvalidStateForCallingFunction,
                ) && final(self)@ == old(self)@
                &&& b.state == BetState::BetAcceptedByBettor2 && !is_datetime_string(
                    b.event_decided_by,
                ) ==> r == Err::<(), Error>(Error::NotDatetimeString) && final(self)@ == old(self)@
                &&& b.state == BetState::BetAcceptedByBettor2 && is_datetime_string(
                    b.event_decided_by,
                ) && (now as int) <= (utc_ms_of(b.event_decided_by)->0 as int) ==> r == Err::<
                    (),
                    Error,
                >(Error::InvalidStateForCallingFunction) && final(self)@ == old(self)@
                &&& b.state == BetState::BetAcceptedByBettor2 && is_datetime_string(
                    b.event_decided_by,
                ) && (now as int) > (utc_ms_of(b.event_decided_by)->0 as int) ==> r == Ok::<
                    (),
                    Error,
                >(()) && final(self)@.bets == old(self)@.bets.update(
                    n as int,
                    BetView { state: BetState::EventConcluded, ..b },
                )
            }),
    {
        if (n as usize) >= self.bets.len() {
            return Err(Error::BetDoesNotExist);
        }
        let state = self.bets[n as usize].state;
        if state != BetState::BetAcceptedByBettor2 {
            return Err(Error::InvalidStateForCallingFunction);
        }
        let ms_opt = parse_datetime_ms(self.bets[n as usize].event_decided_by.as_str());
        match ms_opt {
            None => Err(Error::NotDatetimeString),
            Some(ms) => {
                if (now as i128) > (ms as i128) {
                    self.bets[n as usize].state = BetState::EventConcluded;
                    proof {
                        assert(self.bets@.map_values(|b: Bet| b@) =~= old(self)@.bets.update(
                            n as int,
                            BetView {
                                state: BetState::EventConcluded,
                                ..old(self)@.bets[n as int]
                            },
                        ));
                    }
                    Ok(())
                } else {
                    Err(Error::InvalidStateForCallingFunction)
                }
            },
        }
    }

    /// (For bettors): submit the event's outcome. The winner code is 0 for a
    /// draw, 1 for bettor 1, 2 for bettor 2, anything else an undecideable
    /// event. The first bettor to vote from `EventConcluded` parks the bet in
    /// their voting sub-state; the second vote reconciles both claims into a
    /// terminal state. A failed call leaves the ledger unchanged.
    pub fn submit_outcome(&mut self, caller: AccountId, n: u32, winner: u8) -> (r: Result<
        (),
        Error,
    >)
        requires
            old(self).wf(),
        ensures
            final(self).wf(),
            same_except_bets(old(self)@, final(self)@),
            (n as int) >= old(self)@.bets.len() ==> r == Err::<(), Error>(Error::BetDoesNotExist)
                && final(self)@ == old(self)@,
            (n as int) < old(self)@.bets.len() ==> r == spec_submit(
                old(self)@.bets[n as int],
                caller,
                winner,
            ).0,
            (n as int) < old(self)@.bets.len() && r is Ok ==> final(self)@.bets == old(
                self,
            )@.bets.update(n as int, spec_submit(old(self)@.bets[n as int], caller, winner).1),
            r is Err ==> final(self)@ == old(self)@,
    {
        if (n as usize) >= self.bets.len() {
            return Err(Error::BetDoesNotExist);
        }

        // figure out what outcome the winner code corresponds to
        let outcome = decode_winner(winner);

        let bettor_1 = self.bets[n as usize].bettor_1;
        let bettor_2 = self.bets[n as usize].bettor_2;
        let state = self.bets[n as usize].state;

        // check if the caller is bettor 1
        if bettor_1.unwrap() == caller {
            if state == BetState::Bettor2Voted {
                let claim_2 = self.bets[n as usize].outcome_claimed_by_bettor_2;
                self.bets[n as usize].state = reconcile_claims(outcome, claim_2.unwrap());
                self.bets[n as usize].outcome_claimed_by_bettor_1 = Some(outcome);
                proof {
                    assert(self.bets@.map_values(|b: Bet| b@) =~= old(self)@.bets.update(
                        n as int,
                        spec_submit(old(self)@.bets[n as int], caller, winner).1,
                    ));
                }
                Ok(())
            } else if state == BetState::EventConcluded {
                self.bets[n as usize].state = BetState::Bettor1Voted;
                self.bets[n as usize].outcome_claimed_by_bettor_1 = Some(outcome);
                proof {
                    assert(self.bets@.map_values(|b: Bet| b@) =~= old(self)@.bets.update(
                        n as int,
                        spec_submit(old(self)@.bets[n as int], caller, winner).1,
                    ));
                }
                Ok(())
            } else {
                Err(Error::InvalidStateForCallingFunction)
            }
        } else {
            // check if the caller is bettor 2
            match bettor_2 {
                Some(bettor) => {
                    if bettor == caller {
                        if state == BetState::Bettor1Voted {
                            let claim_1 = self.bets[n as usize].outcome_claimed_by_bettor_1;
                            self.bets[n as usize].state = reconcile_claims(
                                claim_1.unwrap(),
                                outcome,
                            );
                            self.bets[n as usize].outcome_claimed_by_bettor_2 = Some(outcome);
                            proof {
                                assert(self.bets@.map_values(|b: Bet| b@)
                                    =~= old(self)@.bets.update(
                                    n as int,
                                    spec_submit(old(self)@.bets[n as int], caller, winner).1,
                                ));
                            }
                            Ok(())
                        } else if state == BetState::EventConcluded {
                            self.bets[n as usize].state = BetState::Bettor2Voted;
                            self.bets[n as usize].outcome_claimed_by_bettor_2 = Some(outcome);
                            proof {
                                assert(self.bets@.map_values(|b: Bet| b@)
                                    =~= old(self)@.bets.update(
                                    n as int,
                                    spec_submit(old(self)@.bets[n as int], caller, winner).1,
                                ));
                            }
                            Ok(())
                        } else {
                            Err(Error::InvalidStateForCallingFunction)
                        }
                    } else {
                        Err(Error::CallerNotValidBettor)
                    }
                },
                None => Err(Error::CallerNotValidBettor),
            }
        }
    }

    /// Get amount wagered
    pub fn get_amount_wagered(&self, n: u32) -> (r: Result<Balance, Error>)
        ensures
            (n as int) < self@.bets.len() ==> r == Ok::<Balance, Error>(
                self@.bets[n as int].amount_wagered,
            ),
            (n as int) >= self@.bets.len() ==> r == Err::<Balance, Error>(Error::BetDoesNotExist),
    {
        if (n as usize) < self.bets.len() {
            Ok(self.bets[n as usize].amount_wagered)
        } else {
            Err(Error::BetDoesNotExist)
        }
    }

    /// Get the datetime by which the event finishes
    pub fn get_event_decided_by(&self, n: u32) -> (r: Result<String, Error>)
        ensures
            (n as int) < self@.bets.len() ==> (r matches Ok(s) && s@ == self@.bets[
                n as int
            ].event_decided_by),
            (n as int) >= self@.bets.len() ==> r == Err::<String, Error>(Error::BetDoesNotExist),
    {
        if (n as usize) < self.bets.len() {
            Ok(self.bets[n as usize].event_decided_by.clone())
        } else {
            Err(Error::BetDoesNotExist)
        }
    }

    /// Get the datetime by which the event finishes, in epoch milliseconds
    pub fn get_event_decided_by_as_ms(&self, n: u32) -> (r: Result<i64, Error>)
        ensures
            (n as int) < self@.bets.len() && is_datetime_string(
                self@.bets[n as int].event_decided_by,
            ) ==> r == Ok::<i64, Error>(utc_ms_of(self@.bets[n as int].event_decided_by)->0),
            (n as int) < self@.bets.len() && !is_datetime_string(
                self@.bets[n as int].event_decided_by,
            ) ==> r == Err::<i64, Error>(Error::NotDatetimeString),
            (n as int) >= self@.bets.len() ==> r == Err::<i64, Error>(Error::BetDoesNotExist),
    {
        if (n as usize) < self.bets.len() {
            self.convert_datetime_to_ms(self.bets[n as usize].event_decided_by.clone())
        } else {
            Err(Error::BetDoesNotExist)
        }
    }

    /// Get bet state
    pub fn get_bet_state(&self, n: u32) -> (r: Result<BetState, Error>)
        ensures
            (n as int) < self@.bets.len() ==> r == Ok::<BetState, Error>(
                self@.bets[n as int].state,
            ),
            (n as int) >= self@.bets.len() ==> r == Err::<BetState, Error>(Error::BetDoesNotExist),
    {
        if (n as usize) < self.bets.len() {
            Ok(self.bets[n as usize].state)
        } else {
            Err(Error::BetDoesNotExist)
        }
    }

    /// Get criteria for winning
    pub fn get_criteria_for_winning(&self, n: u32) -> (r: Result<String, Error>)
        ensures
            (n as int) < self@.bets.len() ==> (r matches Ok(s) && s@ == self@.bets[
                n as int
            ].criteria_for_winning),
            (n as int) >= self@.bets.len() ==> r == Err::<String, Error>(Error::BetDoesNotExist),
    {
        if (n as usize) < self.bets.len() {
            Ok(self.bets[n as usize].criteria_for_winning.clone())
        } else {
            Err(Error::BetDoesNotExist)
        }
    }

    /// Get a bettor's account id; `bettor` picks seat 1 or seat 2
    pub fn get_bettor_account_id(&self, n: u32, bettor: u8) -> (r: Result<
        Option<AccountId>,
        Error,
    >)
        ensures
            (n as int) >= self@.bets.len() ==> r == Err::<Option<AccountId>, Error>(
                Error::BetDoesNotExist,
            ),
            (n as int) < self@.bets.len() && bettor == 1 ==> r == Ok::<Option<AccountId>, Error>(
                self@.bets[n as int].bettor_1,
            ),
            (n as int) < self@.bets.len() && bettor == 2 ==> r == Ok::<Option<AccountId>, Error>(
                self@.bets[n as int].bettor_2,
            ),
            (n as int) < self@.bets.len() && bettor != 1 && bettor != 2 ==> r == Err::<
                Option<AccountId>,
                Error,
            >(Error::BettorDoesNotExist),
    {
        if (n as usize) >= self.bets.len() {
            return Err(Error::BetDoesNotExist);
        }
        if bettor == 1 {
            Ok(self.bets[n as usize].bettor_1)
        } else if bettor == 2 {
            Ok(self.bets[n as usize].bettor_2)
        } else {
            Err(Error::BettorDoesNotExist)
        }
    }

    /// Put the caller on the arbiter roster. Registering is idempotent: an
    /// account already on the roster is left as it is, so the running count
    /// always equals the number of distinct registered accounts.
    pub fn register_as_reviewer(&mut self, caller: AccountId) -> (r: Result<(), ()>)
        requires
            old(self).wf(),
            old(self)@.number_of_reviewers < u32::MAX,
        ensures
            final(self).wf(),
            r == Ok::<(), ()>(()),
            final(self)@.bets == old(self)@.bets,
            final(self)@.bet_creation_fee == old(self)@.bet_creation_fee,
            final(self)@.final_decision_maker == old(self)@.final_decision_maker,
            final(self)@.salt == old(self)@.salt,
            old(self)@.reviewers.contains(caller) ==> final(self)@ == old(self)@,
            !old(self)@.reviewers.contains(caller) ==> final(self)@.reviewers == old(
                self,
            )@.reviewers.insert(caller) && final(self)@.number_of_reviewers == old(
                self,
            )@.number_of_reviewers + 1,
    {
        if !contains_account(&self.reviewers, caller) {
            let ghost s_old = self.reviewers@;
            self.reviewers.push(caller);
            self.number_of_reviewers = self.number_of_reviewers + 1;
            proof {
                let s_new = s_old.push(caller);
                assert(s_new =~= s_old + seq![caller]);
                Seq::<AccountId>::lemma_to_set_insert_commutes(s_old, caller);
                assert(s_new.to_set() =~= s_old.to_set().insert(caller));
                assert forall|i: int, j: int|
                    0 <= i < s_new.len() && 0 <= j < s_new.len() && i != j implies s_new[i]
                    != s_new[j] by {
                    if i == s_old.len() {
                        assert(s_old.contains(s_old[j]));
                    } else if j == s_old.len() {
                        assert(s_old.contains(s_old[i]));
                    }
                }
            }
        }
        Ok(())
    }

    /// How many distinct accounts are on the arbiter roster.
    pub fn number_of_reviewers(&self) -> (count: u32)
        ensures
            count == self@.number_of_reviewers,
    {
        self.number_of_reviewers
    }

    /// Whether the caller is on the arbiter roster.
    pub fn is_registered_as_reviewer(&self, caller: AccountId) -> (r: Result<bool, ()>)
        ensures
            r == Ok::<bool, ()>(self@.reviewers.contains(caller)),
    {
        Ok(contains_account(&self.reviewers, caller))
    }

    /// Whether the caller is the account with final say over appeals.
    pub fn is_final_decision_maker(&self, caller: AccountId) -> (r: Result<bool, ()>)
        ensures
            r == Ok::<bool, ()>(caller == self@.final_decision_maker),
    {
        Ok(self.final_decision_maker == caller)
    }

    /// A pseudo-random number from 0 to `max_value`, drawn by hashing the
    /// supplied clock reading together with a salt that advances on every
    /// call, so that repeated draws within one block differ.
    pub fn get_pseudo_random(&mut self, now: u64, max_value: u8) -> (number: u8)
        requires
            old(self).wf(),
            old(self)@.salt < u128::MAX,
            max_value < 255,
        ensures
            final(self).wf(),
            final(self)@.salt == old(self)@.salt + 1,
            final(self)@.bets == old(self)@.bets,
            final(self)@.bet_creation_fee == old(self)@.bet_creation_fee,
            final(self)@.reviewers == old(self)@.reviewers,
            final(self)@.number_of_reviewers == old(self)@.number_of_reviewers,
            final(self)@.final_decision_maker == old(self)@.final_decision_maker,
            number == (keccak256_of(u64_be_bytes(now) + u128_be_bytes(old(self)@.salt))[0] as int)
                % (max_value as int + 1),
    {
        let seed = now;
        let salt = self.salt;
        let mut input: Vec<u8> = Vec::new();
        input.push((seed >> 56) as u8);
        input.push((seed >> 48) as u8);
        input.push((seed >> 40) as u8);
        input.push((seed >> 32) as u8);
        input.push((seed >> 24) as u8);
        input.push((seed >> 16) as u8);
        input.push((seed >> 8) as u8);
        input.push(seed as u8);
        input.push((salt >> 120) as u8);
        input.push((salt >> 112) as u8);
        input.push((salt >> 104) as u8);
        input.push((salt >> 96) as u8);
        input.push((salt >> 88) as u8);
        input.push((salt >> 80) as u8);
        input.push((salt >> 72) as u8);
        input.push((salt >> 64) as u8);
        input.push((salt >> 56) as u8);
        input.push((salt >> 48) as u8);
        input.push((salt >> 40) as u8);
        input.push((salt >> 32) as u8);
        input.push((salt >> 24) as u8);
        input.push((salt >> 16) as u8);
        input.push((salt >> 8) as u8);
        input.push(salt as u8);
        proof {
            assert(input@ =~= u64_be_bytes(seed) + u128_be_bytes(salt));
        }
        let output = keccak256(&input);
        self.salt = self.salt + 1;
        let number = output[0] % (max_value + 1);
        number
    }
}

/// Vote-order independence: from the event-concluded state, with distinct
/// bettors and any fixed pair of winner codes, both votes succeed and the
/// record they leave behind is the same whether bettor 1 or bettor 2 votes
/// first; its terminal state is the reconciliation of the two claims.
pub proof fn lemma_vote_order_independence(
    b: BetView,
    account_1: AccountId,
    account_2: AccountId,
    winner_1: u8,
    winner_2: u8,
)
    requires
        b.wf(),
        b.state == BetState::EventConcluded,
        b.bettor_1 == Some(account_1),
        b.bettor_2 == Some(account_2),
        account_1 != account_2,
    ensures
        spec_submit(b, account_1, winner_1).0 is Ok,
        spec_submit(b, account_2, winner_2).0 is Ok,
        spec_submit(spec_submit(b, account_1, winner_1).1, account_2, winner_2).0 is Ok,
        spec_submit(spec_submit(b, account_2, winner_2).1, account_1, winner_1).0 is Ok,
        spec_submit(spec_submit(b, account_1, winner_1).1, account_2, winner_2).1 == spec_submit(
            spec_submit(b, account_2, winner_2).1,
            account_1,
            winner_1,
        ).1,
        spec_submit(spec_submit(b, account_1, winner_1).1, account_2, winner_2).1.state
            == spec_reconcile(spec_decode_winner(winner_1), spec_decode_winner(winner_2)),
{
}

/// Whether the roster holds the given account.
fn contains_account(accounts: &Vec<AccountId>, account: AccountId) -> (found: bool)
    ensures
        found == accounts@.contains(account),
{
    let mut i: usize = 0;
    while i < accounts.len()
        invariant
            i <= accounts@.len(),
            forall|j: int| 0 <= j < i ==> accounts@[j] != account,
        decreases accounts@.len() - i,
    {
        if accounts[i] == account {
            proof {
                assert(accounts@[i as int] == account);
            }
            return true;
        }
        i = i + 1;
    }
    false
}

} // verus!
