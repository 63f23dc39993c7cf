use betting::{AccountId, BetState, Betting, Error};

/// Drive a fresh bet between Alice and Bob to its settled state: Alice claims
/// `winner_1`, Bob claims `winner_2`, in either voting order.
fn settled_state(winner_1: u8, winner_2: u8, bettor_1_votes_first: bool) -> BetState {
    let alice: AccountId = 1;
    let bob: AccountId = 2;
    let mut betting = Betting::new(alice, 10);
    let bet_number = betting
        .create_bet(
            alice,
            110,
            100,
            Some(bob),
            String::from("criteria"),
            String::from("2023-12-21T00:00:00Z"),
        )
        .unwrap()
        .unwrap();
    assert_eq!(betting.accept_bet(bob, 100, bet_number), Ok(true));
    assert_eq!(betting.conclude_event(1703116800001, bet_number), Ok(()));
    if bettor_1_votes_first {
        assert_eq!(betting.submit_outcome(alice, bet_number, winner_1), Ok(()));
        assert_eq!(betting.submit_outcome(bob, bet_number, winner_2), Ok(()));
    } else {
        assert_eq!(betting.submit_outcome(bob, bet_number, winner_2), Ok(()));
        assert_eq!(betting.submit_outcome(alice, bet_number, winner_1), Ok(()));
    }
    betting.get_bet_state(bet_number).unwrap()
}

#[test]
fn reconciliation_of_all_sixteen_claim_pairs() {
    // codes 0, 1, 2 and one representative of "anything else"
    let codes = [0u8, 1, 2, 9];
    for &winner_1 in &codes {
        for &winner_2 in &codes {
            let expected = if winner_1 == 0 && winner_2 == 0 {
                BetState::BettorsDrew
            } else if winner_1 == 1 && winner_2 == 1 {
                BetState::Bettor1Wins
            } else if winner_1 == 2 && winner_2 == 2 {
                BetState::Bettor2Wins
            } else if winner_1 > 2 && winner_2 > 2 {
                BetState::BettorsDrew
            } else {
                BetState::BettorsDisagree
            };
            assert_eq!(settled_state(winner_1, winner_2, true), expected);
        }
    }
}

#[test]
fn vote_order_does_not_matter() {
    let codes = [0u8, 1, 2, 9];
    for &winner_1 in &codes {
        for &winner_2 in &codes {
            assert_eq!(
                settled_state(winner_1, winner_2, true),
                settled_state(winner_1, winner_2, false)
            );
        }
    }
}

#[test]
fn unrecognized_codes_are_undecideable() {
    // two different out-of-range codes still agree as "undecideable"
    assert_eq!(settled_state(3, 250, true), BetState::BettorsDrew);
    // an out-of-range code against a recognized one is a disagreement
    assert_eq!(settled_state(77, 2, true), BetState::BettorsDisagree);
}

#[test]
fn first_vote_parks_the_bet() {
    let alice: AccountId = 1;
    let bob: AccountId = 2;
    let mut betting = Betting::new(alice, 10);
    let bet_number = betting
        .create_bet(
            alice,
            110,
            100,
            Some(bob),
            String::from("criteria"),
            String::from("2023-12-21T00:00:00Z"),
        )
        .unwrap()
        .unwrap();
    assert_eq!(betting.accept_bet(bob, 100, bet_number), Ok(true));
    assert_eq!(betting.conclude_event(1703116800001, bet_number), Ok(()));

    assert_eq!(betting.submit_outcome(alice, bet_number, 1), Ok(()));
    assert_eq!(betting.get_bet_state(bet_number), Ok(BetState::Bettor1Voted));

    // Alice cannot vote a second time from her own voting sub-state
    assert_eq!(
        betting.submit_outcome(alice, bet_number, 1),
        Err(Error::InvalidStateForCallingFunction)
    );
}

#[test]
fn submit_outcome_guards() {
    let alice: AccountId = 1;
    let bob: AccountId = 2;
    let charlie: AccountId = 3;
    let mut betting = Betting::new(alice, 10);

    // no such bet
    assert_eq!(betting.submit_outcome(alice, 0, 1), Err(Error::BetDoesNotExist));

    let bet_number = betting
        .create_bet(
            alice,
            110,
            100,
            Some(bob),
            String::from("criteria"),
            String::from("2023-12-21T00:00:00Z"),
        )
        .unwrap()
        .unwrap();

    // a stranger to the bet may not vote
    assert_eq!(
        betting.submit_outcome(charlie, bet_number, 1),
        Err(Error::CallerNotValidBettor)
    );

    // voting is not open before the event has concluded
    assert_eq!(
        betting.submit_outcome(alice, bet_number, 1),
        Err(Error::InvalidStateForCallingFunction)
    );
    assert_eq!(betting.accept_bet(bob, 100, bet_number), Ok(true));
    assert_eq!(
        betting.submit_outcome(bob, bet_number, 2),
        Err(Error::InvalidStateForCallingFunction)
    );
    assert_eq!(
        betting.get_bet_state(bet_number),
        Ok(BetState::BetAcceptedByBettor2)
    );
}
