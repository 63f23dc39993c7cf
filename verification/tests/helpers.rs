use betting::{AccountId, Betting, Error};

#[test]
fn test_helper_function() {
    let alice: AccountId = 1;
    let betting = Betting::new(alice, 1);

    let dt1 = String::from("2022-01-01T12:34:56Z");
    let dt2 = String::from("2023-12-22T00:00:00Z");

    // timestamp requires the `Z` at the end to specify UTC timezone
    assert_eq!(
        betting.has_past_datetime(0, "2023-12-22T00:00:00".into()),
        Err(Error::NotDatetimeString)
    );
    assert_eq!(
        betting.convert_datetime_to_ms(dt1.clone()),
        Ok(1_641_040_496_000)
    );

    assert_eq!(
        betting.convert_datetime_to_ms(dt2.clone()),
        Ok(1_703_203_200_000)
    );
}

#[test]
fn datetime_without_utc_marker_is_rejected_at_creation() {
    let alice: AccountId = 1;
    let bob: AccountId = 2;
    let mut betting = Betting::new(alice, 10);

    assert_eq!(
        betting.create_bet(
            alice,
            110,
            100,
            Some(bob),
            String::from("criteria"),
            String::from("2023-12-21T00:00:00"),
        ),
        Err(Error::NotDatetimeString)
    );
    assert_eq!(betting.get_bet_state(0), Err(Error::BetDoesNotExist));

    // with the marker the same request succeeds and the stored deadline
    // round-trips to its epoch-millisecond value
    let bet_number = betting
        .create_bet(
            alice,
            110,
            100,
            Some(bob),
            String::from("criteria"),
            String::from("2023-12-21T00:00:00Z"),
        )
        .unwrap()
        .unwrap();
    assert_eq!(
        betting.get_event_decided_by_as_ms(bet_number),
        Ok(1703116800000)
    );
}

#[test]
fn has_past_datetime_compares_against_the_clock() {
    let alice: AccountId = 1;
    let betting = Betting::new(alice, 1);
    let dt = String::from("2023-12-21T00:00:00Z");

    assert_eq!(betting.has_past_datetime(1703116800000, dt.clone()), Ok(false));
    assert_eq!(betting.has_past_datetime(1703116800001, dt.clone()), Ok(true));
    assert_eq!(betting.has_past_datetime(0, dt.clone()), Ok(false));
}

#[test]
fn pseudo_random_is_deterministic_and_bounded() {
    let alice: AccountId = 1;
    let mut first = Betting::new(alice, 1);
    let mut second = Betting::new(alice, 1);

    // the same clock reading and the same salt give the same draw
    let a = first.get_pseudo_random(77, 10);
    let b = second.get_pseudo_random(77, 10);
    assert_eq!(a, b);
    assert!(a <= 10);

    // the salt advances, so a fresh ledger and a used one may draw apart;
    // each draw stays within the requested bound
    for max_value in [0u8, 1, 5, 254] {
        let draw = first.get_pseudo_random(77, max_value);
        assert!(draw <= max_value);
    }
}

#[test]
fn pseudo_random_known_draw() {
    let alice: AccountId = 1;
    let mut betting = Betting::new(alice, 1);
    // Keccak-256 of the 24 bytes encoding clock reading 1 and salt 0,
    // first byte taken modulo 255
    let draw = betting.get_pseudo_random(1, 254);
    assert_eq!(draw, 114);
    // a second draw advances the salt and lands elsewhere for this input
    let second = betting.get_pseudo_random(1, 254);
    assert_ne!(second, draw);
    assert_eq!(second, 170);
}
