use mnemo::commands::ai::answer_plan;
use mnemo::commands::ai::check_ai_settings;
use mnemo::commands::ai::context_tags;
use mnemo::commands::ai::default_model;
use mnemo::commands::ai::evidence_candidates;
use mnemo::commands::ai::evidence_from_row;
use mnemo::commands::ai::is_loopback_url;
use mnemo::commands::ai::resolve_api_key;
use mnemo::commands::ai::settle_answer;
use mnemo::commands::ai::stored_ollama_url;
use mnemo::commands::ai::test_gate;
use mnemo::commands::ai::AiSettingsInput;
use mnemo::commands::ai::AnswerPlan;
use mnemo::json::JsonValue;
use mnemo::models::FilterRule;
use mnemo::services::ai::AiError;
use mnemo::services::ai::EvidenceClip;
use mnemo::services::ai::Provider;
use mnemo::services::ai::ProviderConfig;

fn settings(provider: &str, url: &str, consent: bool) -> AiSettingsInput {
    AiSettingsInput {
        provider: provider.to_string(),
        model: "  ".to_string(),
        ollama_url: url.to_string(),
        api_key: None,
        clear_api_key: false,
        cloud_consent: consent,
    }
}

fn config(provider: Provider, consent: bool) -> ProviderConfig {
    ProviderConfig {
        provider,
        model: "m".into(),
        api_key: None,
        ollama_url: "http://localhost:11434".into(),
        cloud_consent: consent,
    }
}

#[test]
fn settings_checks() {
    let ok = check_ai_settings(&settings("ollama", " http://127.0.0.1:11434// ", false)).unwrap();
    assert_eq!(ok.provider, Provider::Ollama);
    assert_eq!(ok.model, "llama3.2:3b");
    assert_eq!(ok.ollama_url, "http://127.0.0.1:11434");
    assert_eq!(
        check_ai_settings(&settings("ollama", "http://10.0.0.2:11434", false)).unwrap_err(),
        "Ollama URL must use localhost, 127.0.0.1, or ::1"
    );
    assert_eq!(
        check_ai_settings(&settings("openai", "", false)).unwrap_err(),
        "Cloud consent is required before enabling this provider"
    );
    assert_eq!(
        check_ai_settings(&settings("cohere", "", true)).unwrap_err(),
        "Unsupported AI provider"
    );
    let mut long = settings("gemini", "", true);
    long.model = "m".repeat(121);
    assert_eq!(check_ai_settings(&long).unwrap_err(), "Model name is too long");
    let mut key = settings("gemini", "", true);
    key.api_key = Some("k".repeat(513));
    assert_eq!(check_ai_settings(&key).unwrap_err(), "API key is too long");
    assert_eq!(default_model(Provider::Gemini), "gemini-2.0-flash");
    assert_eq!(default_model(Provider::Openai), "gpt-4o-mini");
    assert!(is_loopback_url("https://[::1]:1"));
    assert!(!is_loopback_url("http://example.com"));
}

#[test]
fn api_keys() {
    assert_eq!(
        resolve_api_key(Provider::Openai, &Some("  sk  ".into()), false, None),
        Ok(Some("sk".to_string()))
    );
    assert_eq!(
        resolve_api_key(Provider::Openai, &Some("  ".into()), false, Some("old".into())),
        Ok(Some("old".to_string()))
    );
    assert_eq!(
        resolve_api_key(Provider::Gemini, &None, true, Some("old".into())),
        Err("An API key is required for this provider".to_string())
    );
    assert_eq!(resolve_api_key(Provider::Ollama, &None, true, Some("old".into())), Ok(None));
    assert_eq!(stored_ollama_url(""), "http://localhost:11434");
    assert_eq!(stored_ollama_url("http://127.0.0.1:1"), "http://127.0.0.1:1");
}

#[test]
fn testing_a_cloud_provider_needs_consent() {
    assert_eq!(
        test_gate(&config(Provider::Openai, false)).unwrap_err(),
        "Cloud consent is required before testing this provider"
    );
    assert!(test_gate(&config(Provider::Openai, true)).is_ok());
    assert!(test_gate(&config(Provider::Ollama, false)).is_ok());
}

#[test]
fn answer_plans() {
    assert!(matches!(
        answer_plan(&config(Provider::Openai, true), Some(true), Some(true), None),
        AnswerPlan::Local(None)
    ));
    assert!(matches!(
        answer_plan(&config(Provider::Disabled, false), None, None, None),
        AnswerPlan::Local(None)
    ));
    match answer_plan(&config(Provider::Disabled, false), None, None, Some(false)) {
        AnswerPlan::Refuse(e) => assert_eq!(
            e,
            "No AI answer provider is configured. Select an available provider in Settings."
        ),
        _ => panic!("expected a refusal"),
    }
    match answer_plan(&config(Provider::Gemini, true), None, None, None) {
        AnswerPlan::Local(Some(reason)) => {
            assert_eq!(reason, "Cloud answer requires confirmation for this search")
        }
        _ => panic!("expected a local answer"),
    }
    match answer_plan(&config(Provider::Gemini, false), None, Some(true), Some(false)) {
        AnswerPlan::Refuse(e) => assert_eq!(
            e,
            "Cloud consent is required before using the configured AI provider."
        ),
        _ => panic!("expected a refusal"),
    }
    assert!(matches!(
        answer_plan(&config(Provider::Gemini, true), None, Some(true), None),
        AnswerPlan::Ask(Provider::Gemini)
    ));
    assert!(matches!(
        answer_plan(&config(Provider::Ollama, false), None, None, None),
        AnswerPlan::Ask(Provider::Ollama)
    ));
}

fn evidence(id: &str) -> EvidenceClip {
    EvidenceClip {
        id: id.into(),
        content: "body".into(),
        source: "src".into(),
        copied_at: 1,
        topics: vec![],
    }
}

#[test]
fn settling_answers() {
    let ev = vec![evidence("a")];
    let strict = settle_answer("q", &ev, Err(AiError::RequestFailed), Some(false));
    assert_eq!(strict.unwrap_err(), "provider request failed");
    let lenient = settle_answer("q", &ev, Err(AiError::RequestFailed), None).unwrap();
    assert_eq!(lenient.fallback_reason.as_deref(), Some("provider request failed"));
    assert_eq!(lenient.citations, vec!["a"]);
}

#[test]
fn evidence_selection() {
    let ids: Vec<String> = ["a", "b", "a", "c", "d", "e", "f"].iter().map(|s| s.to_string()).collect();
    assert_eq!(evidence_candidates(&ids), vec!["a", "b", "c", "d"]);
    let tags = JsonValue::Object(vec![(
        "topicTags".to_string(),
        JsonValue::Array(vec![JsonValue::Text("x".into()), JsonValue::Null]),
    )]);
    assert_eq!(context_tags(&tags), Some(vec!["x".to_string()]));
    let rules = vec![FilterRule {
        rule_type: "regex".into(),
        pattern: "secret".into(),
        action: "block".into(),
    }];
    assert!(evidence_from_row("i".into(), "a secret".into(), None, None, None, 0, None, 0, &rules).is_none());
    assert!(evidence_from_row("i".into(), "fine".into(), None, None, None, 0, None, 1, &rules).is_none());
    let e = evidence_from_row(
        "i".into(),
        "fine".into(),
        Some("T".into()),
        Some("App".into()),
        None,
        5,
        Some("{\"topic_tags\":[\"a\",\"b\"]}".into()),
        0,
        &rules,
    )
    .unwrap();
    assert_eq!(e.source, "T");
    assert_eq!(e.topics, vec!["a", "b"]);
    assert_eq!(e.copied_at, 5);
}

#[test]
fn local_fallback_cites_first_three_clips_with_low_confidence() {
    let ev = vec![evidence("a"), evidence("b"), evidence("c"), evidence("d")];
    let lenient = settle_answer("q", &ev, Err(AiError::InvalidAnswer), Some(true)).unwrap();
    assert_eq!(lenient.citations, vec!["a", "b", "c"]);
    assert_eq!(lenient.confidence, "low");
    assert_eq!(lenient.source, "local");
    assert!(lenient.fallback_reason.is_some());
}
