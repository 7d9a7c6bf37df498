use codex_quota_bar::radar::{
    connection_error_text, merge_failure, parse_summary, summary_or_previous, Json, JsonNumber,
    RadarSnapshot,
};
use serde_json::Value;

fn to_json(value: &Value) -> Json {
    match value {
        Value::Null => Json::Null,
        Value::Bool(b) => Json::Bool(*b),
        Value::Number(n) => Json::Number(JsonNumber {
            int: n.as_i64(),
            real_bits: n.as_f64().unwrap_or(0.0).to_bits(),
        }),
        Value::String(s) => Json::Str(s.clone()),
        Value::Array(items) => Json::Array(items.iter().map(to_json).collect()),
        Value::Object(map) => Json::Object(map.iter().map(|(k, v)| (k.clone(), to_json(v))).collect()),
    }
}

#[test]
fn parses_dynamic_models_and_quota_rows() {
    let value: Value = serde_json::from_str(r#"{
      "status":"community_confirmed","window":{"message":"等待下一轮"},
      "api_access":{"requirements":{"attribution_text":"数据来自 Codex 雷达 codexradar.com","site":"https://codexradar.com"}},
      "model_iq":{"latest":{"date":"2026-07-11-pm","model":"gpt-5.6-sol","reasoning_effort":"max","score":135,"passed":9,"valid_tasks":10},
      "comparisons":{"future_model":{"label":"Future high","latest":{"score":105,"passed":7,"tasks":10}}},
      "quota_radar":{"date":"2026-07-11-pm","rows":[{"tier":"20x Pro","five_h":328.15,"seven_d":1968.9,"basis":"measured"}]}}
    }"#).unwrap();
    let snapshot = parse_summary(&to_json(&value), 42).unwrap();
    assert_eq!(snapshot.models.len(), 2);
    assert_eq!(snapshot.models[1].label, "Future high");
    assert_eq!(snapshot.quota_rows[0].five_hour.map(f64::from_bits), Some(328.15));
    assert_eq!(snapshot.fetched_at, Some(42));
}

#[test]
fn summary_fields_and_fallbacks() {
    let value: Value = serde_json::from_str(r#"{
      "monitored_at":" 2026-07-11 ","prediction":{"summary":"later"},
      "model_iq":{"latest":{"score":1.5,"passed":"x","invalid":2},
      "comparisons":{"b_model":{"latest":{"valid_tasks":"n","tasks":3}},"a_model":{"label":"  ","latest":{}},"c":{"label":"no run"}},
      "quota_radar":{"rows":[{"tier":" "},{"tier":"Plus","basis":""}]}}
    }"#).unwrap();
    let s = parse_summary(&to_json(&value), 7).unwrap();
    assert_eq!(s.models.len(), 3);
    assert_eq!(s.models[0].id, "latest");
    assert_eq!(s.models[0].label, "Latest");
    assert_eq!(s.models[0].score.map(f64::from_bits), Some(1.5));
    assert_eq!(s.models[0].passed, None);
    assert_eq!(s.models[0].invalid_tasks, Some(2));
    assert_eq!(s.models[1].id, "a_model");
    assert_eq!(s.models[1].label, "a model");
    assert_eq!(s.models[2].id, "b_model");
    assert_eq!(s.models[2].valid_tasks, None);
    assert_eq!(s.quota_rows.len(), 1);
    assert_eq!(s.quota_rows[0].tier, "Plus");
    assert!(s.quota_rows[0].basis.is_none());
    assert_eq!(s.signal.as_deref(), Some("later"));
    assert_eq!(s.updated_at.as_deref(), Some("2026-07-11"));
    assert_eq!(s.attribution, "数据来自 Codex 雷达 codexradar.com");
    assert_eq!(s.site_url, "https://codexradar.com");
    assert_eq!(s.source, "public_summary");
    assert!(!s.cached);
}

#[test]
fn lists_every_compared_model() {
    let mut comparisons = String::new();
    for i in 0..8 {
        if i > 0 {
            comparisons.push(',');
        }
        comparisons.push_str(&format!("\"m{i}\":{{\"latest\":{{}}}}"));
    }
    let value: Value = serde_json::from_str(&format!("{{\"model_iq\":{{\"comparisons\":{{{comparisons}}}}}}}")).unwrap();
    let s = parse_summary(&to_json(&value), 0).unwrap();
    assert_eq!(s.models.len(), 8);
    assert_eq!(s.models[5].id, "m5");
    assert_eq!(s.models[7].id, "m7");
}

#[test]
fn missing_model_iq_keeps_previous_view() {
    let value: Value = serde_json::from_str(r#"{"model_iq":[1]}"#).unwrap();
    assert_eq!(parse_summary(&to_json(&value), 0).unwrap_err(), "缺少 model_iq");
    let ok: Value = serde_json::from_str(r#"{"model_iq":{"latest":{"model":"m"}}}"#).unwrap();
    let previous = parse_summary(&to_json(&ok), 1).unwrap();
    let kept = summary_or_previous(&previous, &to_json(&value), 2);
    assert!(kept.cached);
    assert_eq!(kept.models.len(), 1);
    assert_eq!(kept.error.as_deref(), Some("Radar 数据格式错误：缺少 model_iq"));
    let empty = merge_failure(&RadarSnapshot::empty(), connection_error_text(true));
    assert!(!empty.cached);
    assert_eq!(empty.error.as_deref(), Some("Codex Radar 请求超时"));
    assert_eq!(connection_error_text(false), "无法连接 Codex Radar");
}
