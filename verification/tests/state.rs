use smtp_types::state::State;
use smtp_types::{IntoStatic, ToStatic};

#[test]
fn test_state_transitions() {
    // Initial state
    let state = State::default();
    assert_eq!(state, State::Connect);
    assert!(!state.can_mail());
    assert!(state.is_active());

    // After greeting
    let state = State::Greeted;
    assert!(!state.can_mail());

    // Ready state
    let state = State::Ready;
    assert!(state.can_mail());
    assert!(!state.can_rcpt());
    assert!(!state.can_data());
    assert!(state.can_rset());

    // Mail state
    let state = State::Mail;
    assert!(!state.can_mail());
    assert!(state.can_rcpt());
    assert!(!state.can_data());
    assert!(state.in_transaction());

    // Rcpt state
    let state = State::Rcpt;
    assert!(state.can_rcpt());
    assert!(state.can_data());
    assert!(state.in_transaction());

    // Data state
    let state = State::Data;
    assert!(!state.can_rset());
    assert!(state.in_transaction());

    // Quit state
    let state = State::Quit;
    assert!(!state.is_active());
    assert!(!state.can_rset());
}

#[test]
fn state_test_conversion() {
    let tests = [
        State::Connect,
        State::Greeted,
        State::Ready,
        State::Mail,
        State::Rcpt,
        State::Data,
        State::Quit,
    ];

    for test in tests {
        let test_to_static = test.to_static();
        assert_eq!(test, test_to_static);

        let test_into_static = test.into_static();
        assert_eq!(test_to_static, test_into_static);
    }
}

#[test]
fn test_state_permissions_fit_together() {
    for s in [
        State::Connect,
        State::Greeted,
        State::Ready,
        State::Mail,
        State::Rcpt,
        State::Data,
        State::Quit,
    ] {
        assert!(!s.can_data() || s.can_rcpt());
        assert!(!s.can_rcpt() || s.in_transaction());
        assert!(!s.in_transaction() || (s.is_active() && !s.can_mail()));
        assert!(!s.can_rset() || s.is_active());
        assert!(!s.can_mail() || s.can_rset());
    }
}
