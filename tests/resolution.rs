use festival_auth::secondary::{DependentServiceAuthFailed, ExchangeStage};
use festival_auth::{
    Account, Action, Event, ExchangeCode, ExchangeError, Resolution, ResolutionFailure,
    SecondaryAction, SecondaryEvent, SecondaryExchange, StoreUnavailable,
};

// 2024-01-01T00:00:00Z
const T0: i64 = 1704067200;

fn account(token: &str, expires_at: &str, refresh_expires_at: &str) -> Account {
    Account {
        account_id: "id".to_string(),
        display_name: "name".to_string(),
        access_token: format!("{}-access", token),
        expires_at: expires_at.to_string(),
        refresh_token: format!("{}-refresh", token),
        refresh_expires_at: refresh_expires_at.to_string(),
    }
}

fn stored_old() -> String {
    account("old", "2024-01-01T00:00:00Z", "2024-01-01T08:00:00Z").to_json()
}

fn new_account() -> Account {
    account("new", "2024-01-01T12:00:00Z", "2024-01-02T00:00:00Z")
}

#[test]
fn refreshable_credential_is_refreshed_and_stored() {
    let stored = stored_old();
    let (mut r, a) = Resolution::start(Some(&stored), None, (T0 + 60, 0));
    match a {
        Action::Exchange { grant_type, token } => {
            assert_eq!(grant_type, "refresh_token");
            assert_eq!(token, "old-refresh");
        }
        other => panic!("unexpected {:?}", other),
    }
    let a = r.advance(Event::Exchanged(Ok(new_account())));
    let payload = match a {
        Action::Save { payload } => payload,
        other => panic!("unexpected {:?}", other),
    };
    assert_eq!(Account::from_json(&payload), Ok(new_account()));
    match r.advance(Event::Saved(Ok(()))) {
        Action::Resolved(acc) => assert_eq!(acc, new_account()),
        other => panic!("unexpected {:?}", other),
    }
}

#[test]
fn failed_refresh_falls_back_to_code() {
    let stored = stored_old();
    let (mut r, _) = Resolution::start(Some(&stored), Some("code1".to_string()), (T0 + 60, 0));
    match r.advance(Event::Exchanged(Err(ExchangeError::Transport))) {
        Action::Exchange { grant_type, token } => {
            assert_eq!(grant_type, "authorization_code");
            assert_eq!(token, "code1");
        }
        other => panic!("unexpected {:?}", other),
    }
}

#[test]
fn dead_credential_without_code_needs_authorization() {
    let stored = stored_old();
    let (_, a) = Resolution::start(Some(&stored), None, (T0 + 9 * 3600, 0));
    assert!(matches!(a, Action::Failed(ResolutionFailure::AuthorizationRequired)));
    let (_, a) = Resolution::start(Some(&stored), Some(String::new()), (T0 + 9 * 3600, 0));
    assert!(matches!(a, Action::Failed(ResolutionFailure::AuthorizationRequired)));
}

#[test]
fn fresh_credential_failing_verification_is_not_returned() {
    let stored = stored_old();
    let (mut r, a) = Resolution::start(Some(&stored), None, (T0 - 60, 0));
    match a {
        Action::Verify { access_token } => assert_eq!(access_token, "old-access"),
        other => panic!("unexpected {:?}", other),
    }
    assert!(matches!(
        r.advance(Event::Verified(false)),
        Action::Failed(ResolutionFailure::AuthorizationRequired)
    ));
}

#[test]
fn fresh_verified_credential_is_reused() {
    let stored = stored_old();
    let (mut r, _) = Resolution::start(Some(&stored), Some("c".to_string()), (T0 - 60, 0));
    match r.advance(Event::Verified(true)) {
        Action::Resolved(acc) => assert_eq!(acc.access_token, "old-access"),
        other => panic!("unexpected {:?}", other),
    }
}

#[test]
fn first_login_exchanges_code_and_stores() {
    let (mut r, a) = Resolution::start(None, Some("authcode".to_string()), (T0, 0));
    match a {
        Action::Exchange { grant_type, token } => {
            assert_eq!(grant_type, "authorization_code");
            assert_eq!(token, "authcode");
        }
        other => panic!("unexpected {:?}", other),
    }
    match r.advance(Event::Exchanged(Ok(new_account()))) {
        Action::Save { payload } => assert_eq!(payload, new_account().to_json()),
        other => panic!("unexpected {:?}", other),
    }
    assert!(matches!(r.advance(Event::Saved(Ok(()))), Action::Resolved(_)));
}

#[test]
fn refused_code_is_authentication_failure() {
    let (mut r, _) = Resolution::start(None, Some("authcode".to_string()), (T0, 0));
    let e = ExchangeError::ExchangeRejected { status: 400, body: "invalid".to_string() };
    match r.advance(Event::Exchanged(Err(e.clone()))) {
        Action::Failed(ResolutionFailure::AuthenticationFailed(cause)) => assert_eq!(cause, e),
        other => panic!("unexpected {:?}", other),
    }
}

#[test]
fn failed_save_is_reported() {
    let (mut r, _) = Resolution::start(None, Some("authcode".to_string()), (T0, 0));
    r.advance(Event::Exchanged(Ok(new_account())));
    assert!(matches!(
        r.advance(Event::Saved(Err(StoreUnavailable))),
        Action::Failed(ResolutionFailure::StoreUnavailable)
    ));
}

#[test]
fn corrupt_store_is_malformed() {
    let (_, a) = Resolution::start(Some("{\"accountId\":"), Some("c".to_string()), (T0, 0));
    assert!(matches!(a, Action::Failed(ResolutionFailure::MalformedCredential)));
}

#[test]
fn nothing_stored_and_no_code() {
    let (r, a) = Resolution::start(None, None, (T0, 0));
    assert!(matches!(a, Action::Failed(ResolutionFailure::AuthorizationRequired)));
    assert!(!r.expects(&Event::Verified(true)));
}

#[test]
fn secondary_requests_code_then_mints() {
    let primary = new_account();
    let (mut s, a) = SecondaryExchange::start(&primary);
    match a {
        SecondaryAction::RequestExchangeCode { access_token } => assert_eq!(access_token, "new-access"),
        other => panic!("unexpected {:?}", other),
    }
    let code = ExchangeCode { code: "xc".to_string(), creating_client_id: "k".to_string(), expires_in_seconds: 300 };
    match s.advance(SecondaryEvent::CodeIssued(Ok(code))) {
        SecondaryAction::Exchange { grant_type, token } => {
            assert_eq!(grant_type, "exchange_code");
            assert_eq!(token, "xc");
        }
        other => panic!("unexpected {:?}", other),
    }
    match s.advance(SecondaryEvent::Minted(Ok(account("fort", "2024-01-01T00:00:00Z", "2024-01-01T00:00:00Z")))) {
        SecondaryAction::Resolved(acc) => assert_eq!(acc.access_token, "fort-access"),
        other => panic!("unexpected {:?}", other),
    }
}

#[test]
fn secondary_stops_when_code_request_fails() {
    let (mut s, _) = SecondaryExchange::start(&new_account());
    match s.advance(SecondaryEvent::CodeIssued(Err(ExchangeError::Transport))) {
        SecondaryAction::Failed(f) => assert_eq!(
            f,
            DependentServiceAuthFailed { stage: ExchangeStage::ExchangeCode, cause: ExchangeError::Transport }
        ),
        other => panic!("unexpected {:?}", other),
    }
    assert!(!s.expects(&SecondaryEvent::Minted(Ok(new_account()))));
}

#[test]
fn secondary_mint_failure_names_stage() {
    let (mut s, _) = SecondaryExchange::start(&new_account());
    let code = ExchangeCode { code: "xc".to_string(), creating_client_id: "k".to_string(), expires_in_seconds: 1 };
    s.advance(SecondaryEvent::CodeIssued(Ok(code)));
    match s.advance(SecondaryEvent::Minted(Err(ExchangeError::ProtocolMismatch))) {
        SecondaryAction::Failed(f) => assert_eq!(f.stage, ExchangeStage::TokenMint),
        other => panic!("unexpected {:?}", other),
    }
}

#[test]
fn start_at_current_time_without_anything_needs_authorization() {
    let (_, a) = Resolution::start_now(None, None);
    assert!(matches!(a, Action::Failed(ResolutionFailure::AuthorizationRequired)));
    let (_, a) = Resolution::start_now(None, Some("c".to_string()));
    assert!(matches!(a, Action::Exchange { .. }));
}
