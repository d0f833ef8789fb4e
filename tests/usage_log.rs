use llm_fuzz_sanitize::usage::{load_openai_usage, log_openai_usage, TokenUsage};

#[test]
fn usage_log_round_trip() {
    let mut u = TokenUsage { prompt_tokens: 0, completion_tokens: 0 };
    log_openai_usage(&mut u, 1200, 345);
    log_openai_usage(&mut u, 10, 5);
    assert_eq!(u, TokenUsage { prompt_tokens: 1210, completion_tokens: 350 });
    let line = u.usage_line("0.0421");
    assert_eq!(line, "1210 350 0.0421");
    assert_eq!(load_openai_usage(&line), Some((u, "0.0421".to_string())));
    let max = TokenUsage { prompt_tokens: u32::MAX, completion_tokens: 0 };
    assert_eq!(max.usage_line("1"), "4294967295 0 1");
}

#[test]
fn usage_log_rejects_other_shapes() {
    assert_eq!(load_openai_usage("1 2"), None);
    assert_eq!(load_openai_usage("1 2 3 4"), None);
    assert_eq!(load_openai_usage("a 2 3"), None);
    assert_eq!(load_openai_usage("1  3"), None);
    assert_eq!(load_openai_usage("7 8 "), Some((TokenUsage { prompt_tokens: 7, completion_tokens: 8 }, String::new())));
}
