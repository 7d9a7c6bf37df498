use codex_quota_bar::visual::{anchor, quota_color, Rgb};

fn percent(value: f64) -> i64 {
    (value * 100.0).round() as i64
}

#[test]
fn exact_color_anchors_and_clamping() {
    assert_eq!(quota_color(percent(0.0), true), anchor(true, 0));
    assert_eq!(quota_color(percent(50.0), true), anchor(true, 1));
    assert_eq!(quota_color(percent(100.0), true), anchor(true, 2));
    assert_eq!(quota_color(percent(-1.0), false), anchor(false, 0));
    assert_eq!(quota_color(percent(101.0), false), anchor(false, 2));
}

#[test]
fn blends_between_anchors() {
    assert_eq!(anchor(true, 0), Rgb(0xff, 0x5a, 0x5f));
    // a quarter of the way from red to amber: 255 + (246 - 255) * 0.5 = 250.5 rounds to 251
    assert_eq!(quota_color(2500, true), Rgb(251, 143, 82));
    assert_eq!(quota_color(7500, false), Rgb(79, 112, 32));
}
