use betting::{AccountId, Betting};

#[test]
fn register_alice() {
    let alice: AccountId = 1;
    let mut betting = Betting::new(alice, 1);

    // not registered yet
    assert_eq!(
        betting.is_registered_as_reviewer(alice),
        Ok(false),
        "Alice was already registered"
    );

    assert_eq!(
        betting.number_of_reviewers(),
        0,
        "Smart contract was initialized with a non-empty roster."
    );

    // but is final decision maker
    assert_eq!(
        betting.is_final_decision_maker(alice),
        Ok(true),
        "Alice is not the final decision maker"
    );

    let register = betting.register_as_reviewer(alice);
    assert!(register.is_ok(), "Unable to register Alice.");

    // registered
    assert_eq!(
        betting.is_registered_as_reviewer(alice),
        Ok(true),
        "Alice is not registered"
    );

    assert_eq!(betting.number_of_reviewers(), 1, "Wrong roster count.");
}

#[test]
fn registration_is_idempotent() {
    let alice: AccountId = 1;
    let bob: AccountId = 2;
    let mut betting = Betting::new(alice, 1);

    assert_eq!(betting.register_as_reviewer(bob), Ok(()));
    assert_eq!(betting.register_as_reviewer(bob), Ok(()));
    assert_eq!(betting.number_of_reviewers(), 1);
    assert_eq!(betting.is_registered_as_reviewer(bob), Ok(true));
    assert_eq!(betting.is_registered_as_reviewer(alice), Ok(false));

    assert_eq!(betting.register_as_reviewer(alice), Ok(()));
    assert_eq!(betting.number_of_reviewers(), 2);

    // a registered arbiter is not thereby the final decision maker
    assert_eq!(betting.is_final_decision_maker(bob), Ok(false));
}
