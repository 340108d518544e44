use agentprof::model_hint::{dominant_model, ModelUsage};

fn usage(input: u64, output: u64) -> ModelUsage {
    let mut u = ModelUsage::new();
    u.input_tokens = input;
    u.output_tokens = output;
    u
}

#[test]
fn dominant_model_none_when_no_metrics() {
    assert_eq!(dominant_model(&None), None);
}

#[test]
fn dominant_model_none_when_metrics_empty() {
    assert_eq!(dominant_model(&Some(Vec::new())), None);
}

#[test]
fn dominant_model_picks_largest_total_not_alphabetical() {
    let metrics = vec![
        ("anthropic-haiku-4.5".to_string(), usage(100, 0)),
        ("gpt-5-mini".to_string(), usage(8000, 2000)),
    ];
    assert_eq!(dominant_model(&Some(metrics)).as_deref(), Some("gpt-5-mini"));
}

#[test]
fn dominant_model_single_entry_returned() {
    let metrics = vec![("gpt-4o".to_string(), usage(10, 5))];
    assert_eq!(dominant_model(&Some(metrics)).as_deref(), Some("gpt-4o"));
}

#[test]
fn dominant_model_ties_break_alphabetically_ascending() {
    let metrics = vec![("alpha".to_string(), usage(100, 0)), ("zeta".to_string(), usage(100, 0))];
    assert_eq!(dominant_model(&Some(metrics)).as_deref(), Some("alpha"));
    let reversed = vec![("zeta".to_string(), usage(100, 0)), ("alpha".to_string(), usage(100, 0))];
    assert_eq!(dominant_model(&Some(reversed)).as_deref(), Some("alpha"));
}

#[test]
fn usage_total_counts_cache_tokens_without_overflow() {
    let u = ModelUsage {
        input_tokens: u64::MAX,
        output_tokens: 1,
        cache_read_tokens: 2,
        cache_write_tokens: 3,
    };
    assert_eq!(u.total(), u64::MAX as u128 + 6);
    let cached = ModelUsage { input_tokens: 0, output_tokens: 0, cache_read_tokens: 50, cache_write_tokens: 0 };
    let metrics = vec![("a".to_string(), usage(10, 0)), ("b".to_string(), cached)];
    assert_eq!(dominant_model(&Some(metrics)).as_deref(), Some("b"));
}
