use festival_auth::account::Account;
use festival_auth::instant::classify;
use festival_auth::{Freshness, MalformedCredential};

fn sample(expires_at: &str, refresh_expires_at: &str) -> Account {
    Account {
        account_id: "abc123".to_string(),
        display_name: "Player \"One\"\\\n".to_string(),
        access_token: "eg1~access".to_string(),
        expires_at: expires_at.to_string(),
        refresh_token: "eg1~refresh".to_string(),
        refresh_expires_at: refresh_expires_at.to_string(),
    }
}

#[test]
fn round_trip_keeps_every_field() {
    let a = sample("2024-01-01T00:00:00.000Z", "2024-01-01T08:00:00.000Z");
    let text = a.to_json();
    assert_eq!(Account::from_json(&text), Ok(a));
}

#[test]
fn json_uses_external_field_names() {
    let a = Account {
        account_id: "id".to_string(),
        display_name: "n".to_string(),
        access_token: "a".to_string(),
        expires_at: "2024-01-01T00:00:00Z".to_string(),
        refresh_token: "r".to_string(),
        refresh_expires_at: "2024-01-02T00:00:00Z".to_string(),
    };
    assert_eq!(
        a.to_json(),
        "{\"accountId\":\"id\",\"displayName\":\"n\",\"access_token\":\"a\",\"expires_at\":\"2024-01-01T00:00:00Z\",\"refresh_token\":\"r\",\"refresh_expires_at\":\"2024-01-02T00:00:00Z\"}"
    );
}

#[test]
fn control_characters_are_escaped() {
    let mut a = sample("2024-01-01T00:00:00Z", "2024-01-02T00:00:00Z");
    a.display_name = "a\u{1}b\tc".to_string();
    let text = a.to_json();
    assert!(text.contains("a\\u0001b\\u0009c"));
    assert_eq!(Account::from_json(&text), Ok(a));
}

#[test]
fn provider_response_with_extra_members_decodes() {
    let body = "{ \"access_token\": \"tok\", \"expires_in\": 7200, \"expires_at\": \"2024-05-01T12:00:00.000Z\",\n \"token_type\": \"bearer\", \"refresh_token\": \"ref\", \"refresh_expires\": 28800,\n \"refresh_expires_at\": \"2024-05-01T20:00:00.000Z\", \"accountId\": \"acc\", \"internal_client\": true,\n \"displayName\": \"Na\\u0041me\\/x\" }";
    let a = Account::from_json(body).unwrap();
    assert_eq!(a.access_token, "tok");
    assert_eq!(a.account_id, "acc");
    assert_eq!(a.display_name, "NaAme/x");
    assert_eq!(a.refresh_expires_at, "2024-05-01T20:00:00.000Z");
}

#[test]
fn malformed_credentials_are_rejected() {
    assert_eq!(Account::from_json(""), Err(MalformedCredential));
    assert_eq!(Account::from_json("not json"), Err(MalformedCredential));
    assert_eq!(Account::from_json("{\"accountId\":\"x\"}"), Err(MalformedCredential));
    let good = sample("2024-01-01T00:00:00Z", "2024-01-02T00:00:00Z").to_json();
    let truncated = &good[..good.len() - 1];
    assert_eq!(Account::from_json(truncated), Err(MalformedCredential));
    let trailing = format!("{} x", good);
    assert_eq!(Account::from_json(&trailing), Err(MalformedCredential));
}

#[test]
fn malformed_timestamp_is_rejected() {
    let bad = sample("yesterday", "2024-01-02T00:00:00Z").to_json();
    assert_eq!(Account::from_json(&bad), Err(MalformedCredential));
}

#[test]
fn freshness_follows_expiry_times() {
    // 2024-01-01T00:00:00Z is 1704067200 seconds after the epoch.
    let a = sample("2024-01-01T00:00:00Z", "2024-01-01T08:00:00+00:00");
    assert_eq!(a.freshness((1704067199, 999_999_999)), Freshness::Fresh);
    assert_eq!(a.freshness((1704067200, 0)), Freshness::Refreshable);
    assert_eq!(a.freshness((1704067200 + 8 * 3600 - 1, 0)), Freshness::Refreshable);
    assert_eq!(a.freshness((1704067200 + 8 * 3600, 0)), Freshness::Dead);
}

#[test]
fn freshness_respects_time_zone_offsets() {
    // 02:00 at +02:00 is midnight UTC.
    let a = sample("2024-01-01T02:00:00+02:00", "2024-01-01T03:00:00+02:00");
    assert_eq!(a.freshness((1704067199, 0)), Freshness::Fresh);
    assert_eq!(a.freshness((1704067200, 0)), Freshness::Refreshable);
}

#[test]
fn classification_is_exclusive_on_samples() {
    let access = (100, 0);
    let refresh = (200, 0);
    assert_eq!(classify(access, refresh, (99, 5)), Freshness::Fresh);
    assert_eq!(classify(access, refresh, (100, 0)), Freshness::Refreshable);
    assert_eq!(classify(access, refresh, (199, 999)), Freshness::Refreshable);
    assert_eq!(classify(access, refresh, (200, 0)), Freshness::Dead);
    assert_eq!(classify(access, refresh, (500, 0)), Freshness::Dead);
}

#[test]
fn nested_members_are_skipped() {
    let body = "{\"scope\": [\"basic_profile\", \"friends]list\", {\"a\": [1, 2]}], \"perms\": {\"x\": \"}\"},\n \"accountId\": \"acc\", \"displayName\": \"d\", \"access_token\": \"t\", \"expires_at\": \"2024-01-01T00:00:00Z\",\n \"refresh_token\": \"r\", \"refresh_expires_at\": \"2024-01-02T00:00:00Z\", \"tail\": []}";
    let a = Account::from_json(body).unwrap();
    assert_eq!(a.account_id, "acc");
    assert_eq!(a.refresh_token, "r");
}

#[test]
fn unbalanced_nesting_is_rejected() {
    let body = "{\"scope\": [\"a\", \"accountId\": \"acc\"}";
    assert_eq!(Account::from_json(body), Err(MalformedCredential));
}

#[test]
fn unicode_escapes_are_decoded() {
    let body = "{\"accountId\":\"i\",\"displayName\":\"Ren\\u00E9e \\u4e16\",\"access_token\":\"a\",\"expires_at\":\"2024-01-01T00:00:00Z\",\"refresh_token\":\"r\",\"refresh_expires_at\":\"2024-01-02T00:00:00Z\"}";
    assert_eq!(Account::from_json(body).unwrap().display_name, "Renée 世");
    let surrogate = body.replace("\\u4e16", "\\ud800");
    assert_eq!(Account::from_json(&surrogate), Err(MalformedCredential));
    let raw = body.replace("\\u4e16", "世界");
    assert_eq!(Account::from_json(&raw).unwrap().display_name, "Renée 世界");
}

fn with_extra(extra: &str) -> String {
    format!(
        "{{\"accountId\":\"i\",\"displayName\":\"d\",\"access_token\":\"a\",\"expires_at\":\"2024-01-01T00:00:00Z\",\"refresh_token\":\"r\",\"refresh_expires_at\":\"2024-01-02T00:00:00Z\",\"x\":{}}}",
        extra
    )
}

#[test]
fn literals_must_be_json() {
    for ok in ["true", "false", "null", "0", "-12", "1.5e-3", "2E+10", "[]", "{}", "[1, \"a\", {\"b\": [null]}]"] {
        assert!(Account::from_json(&with_extra(ok)).is_ok(), "{}", ok);
    }
    for bad in ["abc", "tru", "01", "1.", "-", "1e", "+1", ".5", "[}", "{]", "[1,]", "{\"a\"}", "{\"a\":1,}", "[1 2]", "{1:2}"] {
        assert_eq!(Account::from_json(&with_extra(bad)), Err(MalformedCredential), "{}", bad);
    }
}

#[test]
fn surrogate_pairs_are_decoded() {
    let body = with_extra("1").replace("\"d\"", "\"\\ud83d\\ude00!\"");
    assert_eq!(Account::from_json(&body).unwrap().display_name, "😀!");
    let lone = with_extra("1").replace("\"d\"", "\"\\ud83d!\"");
    assert_eq!(Account::from_json(&lone), Err(MalformedCredential));
    let reversed = with_extra("1").replace("\"d\"", "\"\\ude00\\ud83d\"");
    assert_eq!(Account::from_json(&reversed), Err(MalformedCredential));
}
