use bank_api::account::create_user;
use bank_api::amount::parse_millionths;
use bank_api::config::CryptoService;
use bank_api::error::AppErrorKind;
use bank_api::sync::{finish_fetch, plan_transactions, SyncStep};
use bank_api::trans::{TransRepository, DAY_US, WEEK_US};
use bank_api::users::{NewUser, UserRepository};
use std::sync::Arc;

// 2023-11-14T22:13:20Z
const T0: i64 = 1_700_000_000_000_000;

fn payload(ts: &str, kind: &str) -> String {
    format!(
        "{{\"timestamp\":\"{}\",\"transaction_type\":\"{}\",\"transaction_category\":\"PURCHASE\",\"amount\":24.25}}",
        ts, kind
    )
}

fn crypto() -> CryptoService {
    CryptoService { key: Arc::new("pepper".to_string()), jwt_secret: Arc::new("jwt".to_string()) }
}

fn user_repo_with(id: u128, token: Option<&str>) -> UserRepository {
    let mut repo = UserRepository::new();
    let n = NewUser {
        username: "alice123".to_string(),
        password: "secret123".to_string(),
        email: "a@b.com".to_string(),
    };
    create_user(&mut repo, &crypto(), n, id, &[3u8; 16], 0).unwrap();
    if let Some(t) = token {
        repo.update_token(id, t.to_string(), 0).unwrap();
    }
    repo
}

#[test]
fn save_refuses_non_json() {
    let mut cache = TransRepository::new();
    assert!(!cache.save_trans(1, "not json".to_string(), 0));
    assert_eq!(cache.check_cache(1).results, 0);
    assert!(cache.save_trans(1, "{}".to_string(), 0));
    assert_eq!(cache.check_cache(1).results, 1);
    assert_eq!(cache.check_cache(2).results, 0);
}

#[test]
fn cache_aggregates_in_storage_order() {
    let mut cache = TransRepository::new();
    assert_eq!(cache.get_cache(1).results, "[]");
    cache.save_trans(1, "{\"a\":1}".to_string(), 0);
    cache.save_trans(2, "{\"b\":2}".to_string(), 0);
    cache.save_trans(1, "[3]".to_string(), 0);
    assert_eq!(cache.get_cache(1).results, "[{\"a\":1},[3]]");
    assert_eq!(cache.get_cache(2).results, "[{\"b\":2}]");
    assert_eq!(cache.check_cache(1).results, 2);
}

#[test]
fn daily_window_boundary() {
    let mut cache = TransRepository::new();
    cache.save_trans(1, payload("2023-11-14T22:13:20Z", "DEBIT"), 0);
    // stamped exactly one day before now: excluded
    assert!(cache.daily_transactions(1, T0 + DAY_US).is_none());
    // one microsecond later: included
    let got = cache.daily_transactions(1, T0 + DAY_US - 1).unwrap();
    assert_eq!(got.results, format!("[{}]", payload("2023-11-14T22:13:20Z", "DEBIT")));
    assert!(cache.daily_transactions(2, T0).is_none());
}

#[test]
fn weekly_and_monthly_windows() {
    let mut cache = TransRepository::new();
    cache.save_trans(1, payload("2023-11-14T22:13:20Z", "DEBIT"), 0);
    cache.save_trans(1, payload("2023-11-01T00:00:00+00:00", "CREDIT"), 0);
    let now = T0 + 1;
    let week = cache.weekly_transactions(1, now).unwrap();
    assert_eq!(week.results, format!("[{}]", payload("2023-11-14T22:13:20Z", "DEBIT")));
    let month = cache.monthly_transactions(1, now).unwrap();
    assert_eq!(
        month.results,
        format!("[{},{}]", payload("2023-11-14T22:13:20Z", "DEBIT"), payload("2023-11-01T00:00:00+00:00", "CREDIT"))
    );
    assert!(cache.weekly_transactions(1, T0 + WEEK_US).is_none());
    assert!(cache.monthly_transactions(1, T0 + 200 * DAY_US).is_none());
}

#[test]
fn batch_without_timestamp_is_in_no_window() {
    let mut cache = TransRepository::new();
    cache.save_trans(1, "{\"results\":[]}".to_string(), 0);
    assert!(cache.daily_transactions(1, T0).is_none());
    assert_eq!(cache.get_cache(1).results, "[{\"results\":[]}]");
}

#[test]
fn credit_and_debit_filters() {
    let mut cache = TransRepository::new();
    cache.save_trans(1, payload("2023-11-14T22:13:20Z", "DEBIT"), 0);
    cache.save_trans(1, payload("2023-11-13T22:13:20Z", "CREDIT"), 0);
    cache.save_trans(2, payload("2023-11-13T22:13:20Z", "CREDIT"), 0);
    assert_eq!(cache.credit(1).unwrap().results, format!("[{}]", payload("2023-11-13T22:13:20Z", "CREDIT")));
    assert_eq!(cache.debit(1).unwrap().results, format!("[{}]", payload("2023-11-14T22:13:20Z", "DEBIT")));
    assert!(cache.debit(2).is_none());
}

#[test]
fn cache_aside_fetches_once_then_serves_cache() {
    let users = user_repo_with(1, Some("tok-1"));
    let mut cache = TransRepository::new();
    let body = payload("2023-11-14T22:13:20Z", "DEBIT");
    match plan_transactions(&users, &cache, 1) {
        SyncStep::FetchUpstream(t) => assert_eq!(t, "tok-1"),
        other => panic!("expected a fetch, got {:?}", other),
    }
    assert_eq!(finish_fetch(&mut cache, 1, 200, body.clone(), T0), Ok(body.clone()));
    assert_eq!(cache.check_cache(1).results, 1);
    match plan_transactions(&users, &cache, 1) {
        SyncStep::ServeCached(t) => assert_eq!(t.results, format!("[{}]", body)),
        other => panic!("expected the cache, got {:?}", other),
    }
    assert_eq!(cache.check_cache(1).results, 1);
}

#[test]
fn upstream_error_is_passed_through_unstored() {
    let mut cache = TransRepository::new();
    let err = "{\"error\":\"unauthorized\"}".to_string();
    assert_eq!(finish_fetch(&mut cache, 1, 401, err.clone(), T0), Ok(err));
    assert_eq!(cache.check_cache(1).results, 0);
    assert_eq!(finish_fetch(&mut cache, 1, 200, "<html>".to_string(), T0), Err(AppErrorKind::InternalError));
    assert_eq!(cache.check_cache(1).results, 0);
}

#[test]
fn no_access_token_means_no_fetch() {
    let users = user_repo_with(1, None);
    let cache = TransRepository::new();
    match plan_transactions(&users, &cache, 1) {
        SyncStep::Fail(k) => assert_eq!(k, AppErrorKind::InternalError),
        other => panic!("expected a failure, got {:?}", other),
    }
    match plan_transactions(&users, &cache, 99) {
        SyncStep::Fail(k) => assert_eq!(k, AppErrorKind::InternalError),
        other => panic!("expected a failure, got {:?}", other),
    }
}

#[test]
fn amounts_in_millionths() {
    assert_eq!(parse_millionths("24.25"), Some(24_250_000));
    assert_eq!(parse_millionths("-3.5"), Some(-3_500_000));
    assert_eq!(parse_millionths("7"), Some(7_000_000));
    assert_eq!(parse_millionths("0.05"), Some(50_000));
    assert_eq!(parse_millionths("1.234"), Some(1_234_000));
    assert_eq!(parse_millionths("0.000001"), Some(1));
    assert_eq!(parse_millionths("0.0000001"), None);
    assert_eq!(parse_millionths("1e3"), None);
    assert_eq!(parse_millionths(".5"), None);
    assert_eq!(parse_millionths("5."), None);
    assert_eq!(parse_millionths("-"), None);
    assert_eq!(parse_millionths(""), None);
    assert_eq!(parse_millionths("999999999999.999999"), Some(999_999_999_999_999_999));
    assert_eq!(parse_millionths("1000000000000"), None);
}

fn spend(ts: &str, category: &str, amount: &str) -> String {
    format!(
        "{{\"timestamp\":\"{}\",\"transaction_type\":\"DEBIT\",\"transaction_category\":\"{}\",\"amount\":{}}}",
        ts, category, amount
    )
}

#[test]
fn category_totals_over_windows() {
    let mut cache = TransRepository::new();
    cache.save_trans(1, spend("2023-11-14T22:13:20Z", "PURCHASE", "24.25"), 0);
    cache.save_trans(1, spend("2023-11-13T22:13:20Z", "BILL_PAYMENT", "100"), 0);
    cache.save_trans(1, spend("2023-11-12T22:13:20Z", "PURCHASE", "-4.5"), 0);
    cache.save_trans(1, spend("2023-10-20T22:13:20Z", "PURCHASE", "1.001"), 0);
    cache.save_trans(2, spend("2023-11-14T22:13:20Z", "PURCHASE", "9"), 0);
    let week = cache.total_week_transactions(1, T0 + 1);
    assert_eq!(
        week,
        vec![("PURCHASE".to_string(), Some(19_750_000)), ("BILL_PAYMENT".to_string(), Some(100_000_000))]
    );
    let month = cache.total_month_transactions(1, T0 + 1);
    assert_eq!(
        month,
        vec![("PURCHASE".to_string(), Some(20_751_000)), ("BILL_PAYMENT".to_string(), Some(100_000_000))]
    );
    assert!(cache.total_week_transactions(3, T0).is_empty());
}

#[test]
fn totals_list_every_category() {
    let mut cache = TransRepository::new();
    // no amount: adds nothing, category still listed
    cache.save_trans(1, "{\"timestamp\":\"2023-11-14T22:13:20Z\",\"transaction_category\":\"FEE\"}".to_string(), 0);
    // an amount given as a string is read too
    cache.save_trans(1, spend("2023-11-14T22:13:20Z", "FEE", "\"2.5\""), 0);
    // an amount that cannot be read exactly makes the sum unknown
    cache.save_trans(1, spend("2023-11-14T22:13:20Z", "ODD", "0.0000001"), 0);
    cache.save_trans(1, spend("2023-11-14T22:13:20Z", "ODD", "3"), 0);
    let week = cache.total_week_transactions(1, T0 + 1);
    assert_eq!(week, vec![("FEE".to_string(), Some(2_500_000)), ("ODD".to_string(), None)]);
}

#[test]
fn monthly_window_is_a_calendar_month() {
    let mut cache = TransRepository::new();
    // 2024-02-29T12:00:00Z and 2024-03-31T12:00:00Z
    cache.save_trans(1, spend("2024-02-29T12:00:00Z", "A", "1"), 0);
    let march_31: i64 = 1_711_886_400_000_000;
    // one month before March 31 is February 29 (clamped): exactly at the cutoff, excluded
    assert!(cache.monthly_transactions(1, march_31).is_none());
    assert!(cache.monthly_transactions(1, march_31 - 1).is_some());
    assert!(cache.total_month_transactions(1, march_31).is_empty());
    assert_eq!(cache.total_month_transactions(1, march_31 - 1), vec![("A".to_string(), Some(1_000_000))]);
}
