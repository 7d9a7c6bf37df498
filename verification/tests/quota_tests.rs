use codex_quota_bar::quota::{
    classify_status, collect_windows, credentials_from_auth, merge_failure, read_credentials, same_quota_values,
    is_suspicious_premature_reset, snapshot_after_query, to_quota_window, AuthFile, AuthTokens,
    CredentialStatus, QueryError, QuotaSnapshot, QuotaWindow, RateLimit, RateLimitWindow, WindowKind,
};
use codex_quota_bar::refresh::{decide_refresh, tick, RefreshClock};

fn percent(value: f64) -> i64 {
    (value * 100.0).round() as i64
}

fn parsed(seconds: i64, used: f64) -> QuotaWindow {
    to_quota_window(RateLimitWindow {
        used_percent: Some(percent(used)),
        limit_window_seconds: Some(seconds),
        reset_at: Some(100),
    })
    .unwrap()
}

#[test]
fn maps_known_windows_and_remaining_percent() {
    let five = parsed(18_000, 18.0);
    assert_eq!(five.kind, WindowKind::FiveHour);
    assert_eq!(five.remaining_percent, percent(82.0));
    assert_eq!(five.reset_at, Some(100_000));
    assert_eq!(parsed(604_800, 36.0).kind, WindowKind::SevenDay);
    assert_eq!(parsed(2_592_000, 15.0).kind, WindowKind::ThirtyDay);
}

#[test]
fn clamps_invalid_percentages() {
    assert_eq!(parsed(18_000, -5.0).remaining_percent, percent(100.0));
    assert_eq!(parsed(18_000, 120.0).remaining_percent, percent(0.0));
}

#[test]
fn ignores_window_without_utilization() {
    assert!(to_quota_window(RateLimitWindow {
        used_percent: None,
        limit_window_seconds: Some(18_000),
        reset_at: None
    })
    .is_none());
}

fn snapshot(five_remaining: f64, reset_at: i64) -> QuotaSnapshot {
    QuotaSnapshot {
        windows: vec![QuotaWindow {
            kind: WindowKind::FiveHour,
            label: "5 hours".into(),
            used_percent: percent(100.0 - five_remaining),
            remaining_percent: percent(five_remaining),
            reset_at: Some(reset_at),
        }],
        queried_at: Some(1),
        cached: false,
        credential_status: CredentialStatus::Valid,
        error: None,
    }
}

#[test]
fn detects_large_premature_five_hour_reset() {
    let now = 1_000_000;
    assert!(is_suspicious_premature_reset(
        &snapshot(0.0, now + 600_000),
        &snapshot(91.0, now + 18_000_000),
        now
    ));
    assert!(!is_suspicious_premature_reset(
        &snapshot(0.0, now + 60_000),
        &snapshot(91.0, now + 18_000_000),
        now
    ));
}

#[test]
fn detects_premature_jump_even_when_quota_is_not_exhausted() {
    let now = 1_000_000;
    assert!(is_suspicious_premature_reset(
        &snapshot(70.0, now + 600_000),
        &snapshot(98.0, now + 1_200_000),
        now
    ));
    assert!(!is_suspicious_premature_reset(
        &snapshot(70.0, now + 600_000),
        &snapshot(69.0, now + 600_000),
        now
    ));
}

#[test]
fn confirms_two_consistent_candidate_values() {
    assert!(same_quota_values(&snapshot(91.0, 10), &snapshot(90.2, 20)));
    assert!(!same_quota_values(&snapshot(91.0, 10), &snapshot(0.0, 20)));
}

#[test]
fn cached_or_invalid_readings_are_never_suspicious() {
    let now = 1_000_000;
    let mut cached = snapshot(91.0, now + 18_000_000);
    cached.cached = true;
    assert!(!is_suspicious_premature_reset(&snapshot(0.0, now + 600_000), &cached, now));
    let mut expired = snapshot(91.0, now + 18_000_000);
    expired.credential_status = CredentialStatus::Expired;
    assert!(!is_suspicious_premature_reset(&snapshot(0.0, now + 600_000), &expired, now));
}

#[test]
fn jump_of_exactly_ten_points_is_suspicious() {
    let now = 1_000_000;
    assert!(is_suspicious_premature_reset(
        &snapshot(50.0, now + 600_000),
        &snapshot(60.0, now + 600_000),
        now
    ));
    assert!(!is_suspicious_premature_reset(
        &snapshot(50.0, now + 600_000),
        &snapshot(59.99, now + 600_000),
        now
    ));
}

#[test]
fn same_values_needs_equal_window_counts() {
    let mut two = snapshot(91.0, 10);
    two.windows.push(parsed(604_800, 10.0));
    assert!(!same_quota_values(&snapshot(91.0, 10), &two));
    assert!(same_quota_values(&snapshot(91.0, 10), &snapshot(93.0, 10)));
    assert!(!same_quota_values(&snapshot(91.0, 10), &snapshot(93.01, 10)));
}

#[test]
fn window_kinds_labels_and_saturated_reset() {
    let other = to_quota_window(RateLimitWindow {
        used_percent: Some(1234),
        limit_window_seconds: None,
        reset_at: Some(i64::MAX),
    })
    .unwrap();
    assert_eq!(other.kind, WindowKind::Unknown);
    assert_eq!(other.label, "其他窗口");
    assert_eq!(other.used_percent, 1234);
    assert_eq!(other.remaining_percent, 10_000 - 1234);
    assert_eq!(other.reset_at, Some(i64::MAX));
    assert_eq!(parsed(18_000, 1.0).label, "5 小时");
    assert_eq!(parsed(604_800, 1.0).label, "7 天");
    assert_eq!(parsed(2_592_000, 1.0).label, "30 天");
}

#[test]
fn failure_keeps_previous_windows() {
    let previous = snapshot(40.0, 10);
    let merged = merge_failure(&previous, QueryError::Unauthorized);
    assert_eq!(merged.windows.len(), 1);
    assert_eq!(merged.windows[0].remaining_percent, percent(40.0));
    assert!(merged.cached);
    assert_eq!(merged.queried_at, Some(1));
    assert_eq!(merged.credential_status, CredentialStatus::Expired);
    assert_eq!(merged.error.as_deref(), Some("Codex 登录已失效，请在 Codex 中重新登录"));

    let empty = merge_failure(&QuotaSnapshot::empty(), QueryError::Http(502));
    assert!(!empty.cached);
    assert_eq!(empty.credential_status, CredentialStatus::Valid);
    assert_eq!(empty.error.as_deref(), Some("额度服务返回 HTTP 502"));

    let parse = merge_failure(&previous, QueryError::Parse("坏".into()));
    assert_eq!(parse.credential_status, CredentialStatus::ParseError);
    assert_eq!(parse.error.as_deref(), Some("Codex 登录信息无法读取: 坏"));
    let missing = merge_failure(&previous, QueryError::NotFound);
    assert_eq!(missing.credential_status, CredentialStatus::NotFound);
    assert_eq!(missing.error.as_deref(), Some("未找到 Codex ChatGPT 登录信息"));
}

#[test]
fn error_texts() {
    assert_eq!(QueryError::RateLimited.message(), "额度服务请求过于频繁，请稍后再试");
    assert_eq!(QueryError::Network("请求超时".into()).message(), "网络请求失败: 请求超时");
    assert_eq!(QueryError::Response("x".into()).message(), "额度响应格式暂不受支持: x");
    assert_eq!(QueryError::Http(0).message(), "额度服务返回 HTTP 0");
    assert_eq!(QueryError::Http(65535).message(), "额度服务返回 HTTP 65535");
}

#[test]
fn status_codes_map_to_errors() {
    assert!(matches!(classify_status(401), Err(QueryError::Unauthorized)));
    assert!(matches!(classify_status(403), Err(QueryError::Unauthorized)));
    assert!(matches!(classify_status(429), Err(QueryError::RateLimited)));
    assert!(matches!(classify_status(500), Err(QueryError::Http(500))));
    assert!(matches!(classify_status(304), Err(QueryError::Http(304))));
    assert!(classify_status(200).is_ok());
    assert!(classify_status(204).is_ok());
}

fn raw(seconds: i64, used: i64) -> RateLimitWindow {
    RateLimitWindow { used_percent: Some(used), limit_window_seconds: Some(seconds), reset_at: None }
}

#[test]
fn windows_are_ordered_for_display() {
    let windows = collect_windows(Some(RateLimit {
        primary_window: Some(raw(604_800, 10)),
        secondary_window: Some(raw(18_000, 20)),
    }))
    .unwrap();
    assert_eq!(windows.len(), 2);
    assert_eq!(windows[0].kind, WindowKind::FiveHour);
    assert_eq!(windows[1].kind, WindowKind::SevenDay);

    let one = collect_windows(Some(RateLimit {
        primary_window: Some(RateLimitWindow { used_percent: None, limit_window_seconds: Some(18_000), reset_at: None }),
        secondary_window: Some(raw(2_592_000, 20)),
    }))
    .unwrap();
    assert_eq!(one.len(), 1);
    assert_eq!(one[0].kind, WindowKind::ThirtyDay);

    match collect_windows(None) {
        Err(QueryError::Response(d)) => assert_eq!(d, "缺少 rate_limit"),
        _ => panic!("missing rate_limit must fail"),
    }
    match collect_windows(Some(RateLimit { primary_window: None, secondary_window: None })) {
        Err(QueryError::Response(d)) => assert_eq!(d, "没有可显示的额度窗口"),
        _ => panic!("no windows must fail"),
    }
}

#[test]
fn successful_query_builds_a_fresh_snapshot() {
    let previous = snapshot(10.0, 5);
    let fresh = snapshot_after_query(&previous, true, 777, Ok(vec![parsed(18_000, 30.0)]));
    assert_eq!(fresh.queried_at, Some(777));
    assert!(!fresh.cached);
    assert_eq!(fresh.credential_status, CredentialStatus::Valid);
    assert_eq!(fresh.error.as_deref(), Some("登录信息较旧；若查询失败，请在 Codex 中重新登录"));
    assert_eq!(fresh.windows[0].remaining_percent, percent(70.0));
    let quiet = snapshot_after_query(&previous, false, 777, Ok(vec![]));
    assert!(quiet.error.is_none());
    let failed = snapshot_after_query(&previous, false, 777, Err(QueryError::RateLimited));
    assert!(failed.cached);
    assert_eq!(failed.queried_at, Some(1));
}

fn auth(mode: Option<&str>, token: Option<&str>, account: Option<&str>) -> AuthFile {
    AuthFile {
        auth_mode: mode.map(String::from),
        tokens: Some(AuthTokens { access_token: token.map(String::from), account_id: account.map(String::from) }),
        last_refresh: None,
    }
}

#[test]
fn credentials_require_a_chatgpt_login_with_a_token() {
    assert!(matches!(credentials_from_auth(auth(Some("apikey"), Some("t"), None), None), Err(QueryError::NotFound)));
    assert!(matches!(credentials_from_auth(auth(None, Some("t"), None), None), Err(QueryError::NotFound)));
    let no_tokens = AuthFile { auth_mode: Some("chatgpt".into()), tokens: None, last_refresh: None };
    match credentials_from_auth(no_tokens, None) {
        Err(QueryError::Parse(d)) => assert_eq!(d, "缺少 tokens"),
        _ => panic!("tokens are required"),
    }
    match credentials_from_auth(auth(Some("chatgpt"), Some("  \t"), None), None) {
        Err(QueryError::Parse(d)) => assert_eq!(d, "缺少 access_token"),
        _ => panic!("a blank token is refused"),
    }
    let ok = credentials_from_auth(auth(Some("chatgpt"), Some(" tok "), Some("  ")), Some(9)).unwrap();
    assert_eq!(ok.access_token, " tok ");
    assert!(ok.account_id.is_none());
    assert!(ok.stale);
    let fresh = credentials_from_auth(auth(Some("chatgpt"), Some("tok"), Some("acct")), Some(8)).unwrap();
    assert_eq!(fresh.account_id.as_deref(), Some("acct"));
    assert!(!fresh.stale);
}

#[test]
fn early_jump_needs_a_second_matching_reading() {
    let now = 1_000;
    let previous = snapshot(0.0, now * 1000 + 600_000);
    let first = decide_refresh(
        snapshot(0.0, now * 1000 + 600_000),
        snapshot(91.0, now * 1000 + 18_000_000),
        None,
        now,
    );
    assert_eq!(first.next.windows[0].remaining_percent, previous.windows[0].remaining_percent);
    assert!(first.pending.is_some());
    assert_eq!(first.confirmation_due, Some(now + 3));
    let second = decide_refresh(first.next, snapshot(90.5, now * 1000 + 18_000_000), first.pending, now + 3);
    assert_eq!(second.next.windows[0].remaining_percent, percent(90.5));
    assert!(second.pending.is_none());
    assert!(second.confirmation_due.is_none());
}

#[test]
fn ordinary_reading_is_adopted_at_once() {
    let d = decide_refresh(snapshot(50.0, 10), snapshot(45.0, 20), Some(snapshot(99.0, 0)), 1_000);
    assert_eq!(d.next.windows[0].remaining_percent, percent(45.0));
    assert!(d.pending.is_none());
    assert!(d.confirmation_due.is_none());
}

#[test]
fn scheduler_refreshes_on_minute_reset_and_confirmation() {
    let windows = snapshot(10.0, 5_000).windows;
    let start = tick(RefreshClock { last_periodic: 0, last_reset_trigger: None, confirmation_due: None }, &windows, 5, false);
    assert!(start.refresh);
    assert_eq!(start.clock.last_periodic, 5);
    assert_eq!(start.clock.last_reset_trigger, Some(5_000));
    let quiet = tick(start.clock, &windows, 30, false);
    assert!(!quiet.refresh);
    let minute = tick(RefreshClock { last_periodic: 4, last_reset_trigger: Some(5_000), confirmation_due: None }, &windows, 64, false);
    assert!(minute.refresh);
    let auth = tick(RefreshClock { last_periodic: 4, last_reset_trigger: Some(5_000), confirmation_due: None }, &windows, 10, true);
    assert!(auth.refresh);
    let confirm = tick(RefreshClock { last_periodic: 4, last_reset_trigger: Some(5_000), confirmation_due: Some(9) }, &windows, 9, false);
    assert!(confirm.refresh);
    assert!(confirm.clock.confirmation_due.is_none());
    let later = tick(RefreshClock { last_periodic: 4, last_reset_trigger: Some(5_000), confirmation_due: Some(20) }, &windows, 9, false);
    assert!(!later.refresh);
    assert_eq!(later.clock.confirmation_due, Some(20));
    let fresh_reset = tick(RefreshClock { last_periodic: 4, last_reset_trigger: Some(1_000), confirmation_due: None }, &windows, 9, false);
    assert!(fresh_reset.refresh);
    assert_eq!(fresh_reset.clock.last_reset_trigger, Some(5_000));
}

fn refreshed_at(last_refresh: &str) -> AuthFile {
    AuthFile {
        auth_mode: Some("chatgpt".into()),
        tokens: Some(AuthTokens { access_token: Some("tok".into()), account_id: None }),
        last_refresh: Some(last_refresh.into()),
    }
}

#[test]
fn login_age_comes_from_the_refresh_time() {
    // 2000-01-10T00:00:00Z is 947_462_400 s after the epoch
    let now = 947_462_400;
    assert!(read_credentials(refreshed_at("2000-01-01T00:00:00Z"), now, 0).unwrap().stale);
    assert!(!read_credentials(refreshed_at("2000-01-01T00:00:00.001Z"), now, 0).unwrap().stale);
    assert!(read_credentials(refreshed_at("2000-01-01T08:00:00+08:00"), now, 0).unwrap().stale);
    assert!(!read_credentials(refreshed_at("2999-01-01T00:00:00+08:00"), now, 0).unwrap().stale);
    assert!(!read_credentials(refreshed_at("yesterday"), now, 0).unwrap().stale);
    // Ages are measured to the nanosecond: 0.3 ms short of nine days is not stale.
    assert!(!read_credentials(refreshed_at("2000-01-01T00:00:00.0005Z"), now, 200_000).unwrap().stale);
    assert!(read_credentials(refreshed_at("2000-01-01T00:00:00.0005Z"), now, 500_000).unwrap().stale);
    assert!(!read_credentials(refreshed_at("2000-01-01T00:00:00Z"), i64::MAX, 0).unwrap().stale);
    let none = AuthFile { last_refresh: None, ..refreshed_at("x") };
    assert!(!read_credentials(none, i64::MAX, 0).unwrap().stale);
}
