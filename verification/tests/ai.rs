use mnemo::services::ai::compact_prompt;
use mnemo::services::ai::local_answer;
use mnemo::services::ai::parse_answer;
use mnemo::services::ai::truncate;
use mnemo::services::ai::AiError;
use mnemo::services::ai::EvidenceClip;
use mnemo::services::ai::Provider;
use mnemo::services::ai::MAX_INPUT_CHARS;

fn evidence(id: &str, content: &str) -> EvidenceClip {
    EvidenceClip {
        id: id.to_string(),
        content: content.to_string(),
        source: "Test source".to_string(),
        copied_at: 0,
        topics: vec!["test".to_string()],
    }
}

#[test]
fn prompt_is_bounded_and_delimits_untrusted_evidence() {
    let prompt = compact_prompt("find this", &vec![evidence("a", &"x".repeat(5_000))]).unwrap();
    assert!(prompt.chars().count() <= MAX_INPUT_CHARS);
    assert!(prompt.contains("untrusted data"));
}

#[test]
fn answer_rejects_unknown_and_duplicate_citations() {
    let known = vec!["a".to_string()];
    assert!(parse_answer(
        r#"{"answer":"ok","citations":["b"],"confidence":"high"}"#,
        &known,
        "test"
    )
    .is_err());
    assert!(parse_answer(
        r#"{"answer":"ok","citations":["a","a"],"confidence":"high"}"#,
        &known,
        "test"
    )
    .is_err());
}

#[test]
fn answer_accepts_only_known_unique_citations() {
    let known = vec!["a".to_string()];
    let answer = parse_answer(
        r#"{"answer":"ok","citations":["a"],"confidence":"high"}"#,
        &known,
        "test",
    )
    .unwrap();
    assert_eq!(answer.citations, vec!["a"]);
}

#[test]
fn answer_errors_name_invalid_answers() {
    let known = vec!["a".to_string()];
    assert_eq!(
        parse_answer(r#"{"answer":"ok","citations":["b"]}"#, &known, "test").err(),
        Some(AiError::InvalidAnswer)
    );
    assert_eq!(AiError::Busy.message(), "another AI request is already running");
}

#[test]
fn provider_names_round_trip() {
    for p in [Provider::Disabled, Provider::Ollama, Provider::Openai, Provider::Gemini] {
        assert_eq!(Provider::parse(p.as_str()), Some(p));
    }
    assert_eq!(Provider::parse("none"), Some(Provider::Disabled));
    assert_eq!(Provider::parse("mistral"), None);
}

#[test]
fn truncate_counts_characters() {
    assert_eq!(truncate("h\u{e9}llo", 2), "h\u{e9}");
    assert_eq!(truncate("abc", 10), "abc");
}

#[test]
fn local_answer_cites_first_clips() {
    let clips = vec![evidence("a", "alpha"), evidence("b", "beta")];
    let answer = local_answer("q", &clips, None);
    assert_eq!(answer.citations, vec!["a", "b"]);
    assert_eq!(answer.confidence, "low");
    assert!(answer.answer.starts_with("Found 2 memories for \"q\"."));
}

#[test]
fn fallback_citations_skip_repeated_known_ids() {
    let known: Vec<String> = ["a", "a", "b", "a", "c", "b", "d", "e", "f"]
        .iter()
        .map(|s| s.to_string())
        .collect();
    let answer = parse_answer("plain text answer", &known, "test").unwrap();
    assert_eq!(answer.citations, vec!["a", "b", "c", "d", "e"]);
    let answer = parse_answer(r#"{"answer":"ok","citations":[]}"#, &known, "test").unwrap();
    assert_eq!(answer.citations, vec!["a", "b", "c", "d", "e"]);
    let few: Vec<String> = vec!["x".to_string(), "x".to_string()];
    let answer = parse_answer("plain", &few, "test").unwrap();
    assert_eq!(answer.citations, vec!["x"]);
}
