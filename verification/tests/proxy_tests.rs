use codex_quota_bar::proxy::proxy_url_for_https;
use codex_quota_bar::settings::{codex_home_source, normalize_codex_home, CodexHome};

#[test]
fn parses_common_windows_proxy_formats() {
    assert_eq!(
        proxy_url_for_https("127.0.0.1:7890"),
        Some("http://127.0.0.1:7890".into())
    );
    assert_eq!(
        proxy_url_for_https("http=127.0.0.1:8080;https=127.0.0.1:8443"),
        Some("http://127.0.0.1:8443".into())
    );
    assert_eq!(
        proxy_url_for_https("http=http://localhost:7890"),
        Some("http://localhost:7890".into())
    );
    assert_eq!(proxy_url_for_https("socks=127.0.0.1:1080"), None);
}

#[test]
fn rejects_empty_and_socks_proxies() {
    assert_eq!(proxy_url_for_https("   "), None);
    assert_eq!(proxy_url_for_https("SOCKS5://127.0.0.1:1080"), None);
    assert_eq!(proxy_url_for_https("https= ;http=1.2.3.4:80"), None);
    assert_eq!(proxy_url_for_https(" HTTPS = 10.0.0.1:3128 ; ftp=x"), Some("http://10.0.0.1:3128".into()));
    assert_eq!(proxy_url_for_https("ftp=1.1.1.1:21"), None);
    assert_eq!(proxy_url_for_https(" https://proxy:8443 "), Some("https://proxy:8443".into()));
}

#[test]
fn codex_home_is_trimmed_or_dropped() {
    assert_eq!(normalize_codex_home(Some("  D:\\codex  ".into())), Some("D:\\codex".into()));
    assert_eq!(normalize_codex_home(Some(" \t ".into())), None);
    assert_eq!(normalize_codex_home(None), None);
}

#[test]
fn login_location_order() {
    assert_eq!(codex_home_source(true, true), CodexHome::Configured);
    assert_eq!(codex_home_source(false, true), CodexHome::Environment);
    assert_eq!(codex_home_source(false, false), CodexHome::UserHome);
}
