use festival_auth::service::{exchange_code_outcome, exchange_outcome, verify_outcome};
use festival_auth::{ascii_bar, AccountPublicService, ExchangeCode, ExchangeError};

fn service() -> AccountPublicService {
    AccountPublicService::new("client", "SECRET-REDACTED")
}

#[test]
fn redirect_url_ends_with_client_id() {
    let s = service();
    assert_eq!(s.client_id, "client");
    assert_eq!(s.client_secret, "SECRET-REDACTED");
    assert_eq!(
        s.get_redirect_url(),
        "https://www.epicgames.com/id/api/redirect?clientId=client"
    );
}

#[test]
fn endpoint_urls() {
    let s = service();
    assert_eq!(
        s.token_url(),
        "https://account-public-service-prod.ol.epicgames.com/account/api/oauth/token"
    );
    assert!(s.verify_url().ends_with("/account/api/oauth/verify"));
    assert!(s.exchange_url().ends_with("/account/api/oauth/exchange"));
}

#[test]
fn authorization_code_goes_under_code() {
    let form = service().token_form("authorization_code", Some("abc"));
    let expected = vec![
        ("grant_type".to_string(), "authorization_code".to_string()),
        ("token_type".to_string(), "eg1".to_string()),
        ("code".to_string(), "abc".to_string()),
    ];
    assert_eq!(form, expected);
}

#[test]
fn other_grants_use_their_own_name() {
    let form = service().token_form("refresh_token", Some("r1"));
    assert_eq!(form[2], ("refresh_token".to_string(), "r1".to_string()));
    let form = service().token_form("exchange_code", Some("x"));
    assert_eq!(form[2], ("exchange_code".to_string(), "x".to_string()));
    let form = service().token_form("client_credentials", None);
    assert_eq!(form.len(), 2);
}

#[test]
fn token_answer_is_interpreted() {
    let body = "{\"accountId\":\"i\",\"displayName\":\"d\",\"access_token\":\"a\",\"expires_at\":\"2024-01-01T00:00:00Z\",\"refresh_token\":\"r\",\"refresh_expires_at\":\"2024-01-02T00:00:00Z\"}";
    let a = exchange_outcome(200, body).unwrap();
    assert_eq!(a.access_token, "a");
    assert_eq!(exchange_outcome(204, "{}"), Err(ExchangeError::ProtocolMismatch));
    assert_eq!(
        exchange_outcome(400, "bad grant"),
        Err(ExchangeError::ExchangeRejected { status: 400, body: "bad grant".to_string() })
    );
    assert!(matches!(exchange_outcome(302, body), Err(ExchangeError::ExchangeRejected { status: 302, .. })));
}

#[test]
fn verification_needs_success_status() {
    assert!(verify_outcome(Some(200)));
    assert!(verify_outcome(Some(299)));
    assert!(!verify_outcome(Some(401)));
    assert!(!verify_outcome(Some(199)));
    assert!(!verify_outcome(None));
}

#[test]
fn exchange_code_is_decoded() {
    let body = "{\"expiresInSeconds\": 300, \"code\": \"c0de\", \"creatingClientId\": \"cid\"}";
    let c = ExchangeCode::from_json(body).unwrap();
    assert_eq!(c.code, "c0de");
    assert_eq!(c.creating_client_id, "cid");
    assert_eq!(c.expires_in_seconds, 300);
    assert_eq!(exchange_code_outcome(200, body), Ok(c));
}

#[test]
fn exchange_code_errors() {
    assert_eq!(ExchangeCode::from_json("{\"code\":\"c\",\"creatingClientId\":\"k\",\"expiresInSeconds\":4294967296}"), None);
    assert_eq!(ExchangeCode::from_json("{\"code\":\"c\",\"creatingClientId\":\"k\",\"expiresInSeconds\":\"300\"}"), None);
    let max = ExchangeCode::from_json("{\"code\":\"c\",\"creatingClientId\":\"k\",\"expiresInSeconds\":4294967295}").unwrap();
    assert_eq!(max.expires_in_seconds, u32::MAX);
    assert_eq!(exchange_code_outcome(200, "[]"), Err(ExchangeError::ProtocolMismatch));
    assert_eq!(
        exchange_code_outcome(403, "no"),
        Err(ExchangeError::ExchangeRejected { status: 403, body: "no".to_string() })
    );
}

#[test]
fn bars_have_exact_runs() {
    assert_eq!(ascii_bar(3, 7), "██░░░");
    assert_eq!(ascii_bar(1, 7), "░░░░░");
    assert_eq!(ascii_bar(7, 7), "██████");
    assert_eq!(ascii_bar(0, 0), "");
    assert_eq!(ascii_bar(0, 3), "░░");
}
