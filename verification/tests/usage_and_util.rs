use cogfer::json::Json;
use cogfer::protocols::normalize::normalize_usage;
use cogfer::usage::Usage;
use cogfer::util::{base64_decode, crc32, json_merge, truncate_for_error};

fn json(text: &str) -> Json {
    Json::parse(text).unwrap()
}

#[test]
fn total_input_tokens_saturates_provider_counters() {
    let usage = Usage {
        input_tokens: Some(u64::MAX),
        cached_input_tokens: Some(1),
        ..Usage::default()
    };

    assert_eq!(usage.total_input_tokens(), Some(u64::MAX));
}

#[test]
fn add_from_saturates_provider_counters() {
    let mut usage = Usage {
        output_tokens: Some(u64::MAX),
        ..Usage::default()
    };
    usage.add_from(&Usage {
        output_tokens: Some(1),
        ..Usage::default()
    });

    assert_eq!(usage.output_tokens, Some(u64::MAX));
}

#[test]
fn normalize_usage_saturates_combined_cache_counters() {
    let usage = normalize_usage(Some(10), None, None, Some(u64::MAX), Some(1), None);

    assert_eq!(usage.input_tokens, Some(0));
}

#[test]
fn normalize_usage_preserves_remainder_at_u64_limit() {
    let usage = normalize_usage(Some(u64::MAX), None, None, Some(u64::MAX - 1), None, None);

    assert_eq!(usage.input_tokens, Some(1));
}

#[test]
fn normalized_parts_make_up_the_prompt() {
    let whole = normalize_usage(Some(10), None, None, Some(3), Some(2), None);
    assert_eq!(whole.input_tokens, Some(5));
    assert_eq!(whole.total_input_tokens(), Some(10));

    let exceeded = normalize_usage(Some(4), None, None, Some(3), Some(2), None);
    assert_eq!(exceeded.input_tokens, Some(0));
    assert_eq!(exceeded.total_input_tokens(), Some(5));
}

#[test]
fn merge_recurses_and_null_removes() {
    let mut target = json(r#"{"a": {"b": 1, "c": 2}, "keep": true}"#);
    json_merge(&mut target, json(r#"{"a": {"b": 3, "c": null, "d": 4}}"#));
    assert_eq!(target, json(r#"{"a": {"b": 3, "d": 4}, "keep": true}"#));
}

#[test]
fn merge_replaces_non_objects() {
    let mut target = json(r#"{"a": [1, 2]}"#);
    json_merge(&mut target, json(r#"{"a": [3]}"#));
    assert_eq!(target, json(r#"{"a": [3]}"#));
}

#[test]
fn truncation_preserves_utf8_boundaries() {
    assert_eq!(truncate_for_error("abéz", 3), "ab…");
}

#[test]
fn crc32_matches_the_gzip_check_value() {
    assert_eq!(crc32(b"123456789"), 0xCBF4_3926);
    assert_eq!(crc32(b""), 0);
}

#[test]
fn base64_decodes_both_alphabets() {
    assert_eq!(base64_decode("+/8=", false).unwrap(), [0xFB, 0xFF]);
    assert_eq!(base64_decode("-_8", true).unwrap(), [0xFB, 0xFF]);
    assert_eq!(base64_decode("+/8=", true), None);
    assert_eq!(base64_decode("-_8", false), None);
    assert_eq!(base64_decode("aGk=", false).unwrap(), b"hi");
    assert_eq!(base64_decode("a", false), None);
}

#[test]
fn later_usage_reports_win_field_by_field() {
    let mut usage = Usage {
        input_tokens: Some(5),
        output_tokens: Some(1),
        ..Usage::default()
    };
    usage.merge_from(&Usage {
        output_tokens: Some(9),
        ..Usage::default()
    });

    assert_eq!(usage.input_tokens, Some(5));
    assert_eq!(usage.output_tokens, Some(9));
    assert!(!usage.is_empty());
    assert!(Usage::default().is_empty());
}

#[test]
fn cache_counters_are_taken_out_of_the_input() {
    let usage = normalize_usage(Some(100), Some(7), None, Some(30), Some(20), Some(3));

    assert_eq!(usage.input_tokens, Some(50));
    assert_eq!(usage.cached_input_tokens, Some(30));
    assert_eq!(usage.cache_creation_input_tokens, Some(20));
    assert_eq!(usage.reasoning_tokens, Some(3));
    assert_eq!(usage.total_input_tokens(), Some(100));
}

#[test]
fn short_texts_are_not_truncated() {
    assert_eq!(truncate_for_error("abc", 3), "abc");
    assert_eq!(truncate_for_error("", 0), "");
}
