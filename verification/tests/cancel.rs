use bi2read::cancel::{check_flag, CancellationRegistry, CancellationToken, CancelledError};

#[test]
fn token_starts_uncancelled() {
    let t = CancellationToken::new();
    assert!(!t.is_cancelled());
    assert!(t.check().is_ok());
}

#[test]
fn cancel_sets_flag() {
    let t = CancellationToken::new();
    t.cancel();
    assert!(t.is_cancelled());
    assert!(t.check().is_err());
}

#[test]
fn cloned_token_shares_state() {
    let t = CancellationToken::new();
    let t2 = t.clone();
    t.cancel();
    assert!(t2.is_cancelled());
}

#[test]
fn registry_register_get_remove() {
    let mut reg = CancellationRegistry::new();
    let id = uuid::Uuid::new_v4().as_u128();
    let token = reg.register(id);
    assert!(reg.get(id).is_some());
    token.cancel();
    assert!(reg.get(id).unwrap().is_cancelled());
    reg.remove(id);
    assert!(reg.get(id).is_none());
}

#[test]
fn registry_cancel_returns_false_for_unknown() {
    let reg = CancellationRegistry::new();
    assert!(!reg.cancel(uuid::Uuid::new_v4().as_u128()));
}

#[test]
fn registry_cancel_signals_token() {
    let mut reg = CancellationRegistry::new();
    let id = uuid::Uuid::new_v4().as_u128();
    let token = reg.register(id);
    assert!(reg.cancel(id));
    assert!(token.is_cancelled());
}

#[test]
fn a_set_flag_is_an_error() {
    assert_eq!(check_flag(true), Err(CancelledError));
    assert_eq!(check_flag(false), Ok(()));
    assert_eq!(CancelledError.describe(), "cancelled");
}
