use mnemo::json::JsonValue;
use mnemo::services::ai::check_status;
use mnemo::services::ai::AiError;
use mnemo::services::ai::EvidenceClip;
use mnemo::services::ai::Provider;
use mnemo::services::ai::ProviderConfig;
use mnemo::services::ai::{gemini, ollama, openai};

fn config(provider: Provider, key: Option<&str>) -> ProviderConfig {
    ProviderConfig {
        provider,
        model: "m1".to_string(),
        api_key: key.map(str::to_string),
        ollama_url: "http://localhost:11434/".to_string(),
        cloud_consent: true,
    }
}

fn evidence(id: &str) -> EvidenceClip {
    EvidenceClip {
        id: id.to_string(),
        content: "c".to_string(),
        source: "s".to_string(),
        copied_at: 0,
        topics: vec![],
    }
}

fn json(text: &str) -> serde_json::Value {
    serde_json::from_str(text).unwrap()
}

#[test]
fn ollama_requests() {
    let req = ollama::generate_request(&config(Provider::Ollama, None), "P").unwrap();
    assert_eq!(req.url, "http://localhost:11434/api/generate");
    assert_eq!(req.headers, vec![("Content-Type".to_string(), "application/json".to_string())]);
    let body = json(req.body.as_deref().unwrap());
    assert_eq!(body["model"], "m1");
    assert_eq!(body["prompt"], "P");
    assert_eq!(body["format"], "json");
    assert_eq!(body["stream"], false);
    assert_eq!(body["options"]["num_predict"], 500);
    let test = ollama::test_request(&config(Provider::Ollama, None));
    assert_eq!(test.url, "http://localhost:11434/api/tags");
    assert!(test.body.is_none());
}

#[test]
fn ollama_replies() {
    let ev = vec![evidence("a")];
    let ok = ollama::read_reply(
        r#"{"response":"{\"answer\":\"yes\",\"citations\":[\"a\"],\"confidence\":\"LOW\"}"}"#,
        &ev,
    )
    .unwrap();
    assert_eq!(ok.answer, "yes");
    assert_eq!(ok.citations, vec!["a"]);
    assert_eq!(ok.confidence, "low");
    assert_eq!(ok.source, "ollama");
    assert_eq!(ollama::read_reply("not json", &ev).err(), Some(AiError::RequestFailed));
    assert_eq!(ollama::read_reply("{}", &ev).err(), Some(AiError::InvalidAnswer));
}

#[test]
fn gemini_requests_need_a_key() {
    assert_eq!(
        gemini::generate_request(&config(Provider::Gemini, None), "P").err().map(|e| e.message()),
        Some("AI provider is not configured")
    );
    let req = gemini::generate_request(&config(Provider::Gemini, Some("k")), "P").unwrap();
    assert_eq!(
        req.url,
        "https://generativelanguage.googleapis.com/v1beta/models/m1:generateContent"
    );
    assert_eq!(req.headers[0], ("x-goog-api-key".to_string(), "k".to_string()));
    let body = json(req.body.as_deref().unwrap());
    assert_eq!(body["contents"][0]["parts"][0]["text"], "P");
    assert_eq!(body["generationConfig"]["maxOutputTokens"], 500);
    let test = gemini::test_request(&config(Provider::Gemini, Some("k"))).unwrap();
    assert_eq!(test.url, "https://generativelanguage.googleapis.com/v1beta/models/m1");
}

#[test]
fn gemini_replies() {
    let ev = vec![evidence("a")];
    let body = r#"{"candidates":[{"content":{"parts":[{"text":"{\"answer\":\"x\",\"citations\":[\"a\"]}"}]}}]}"#;
    let g = gemini::read_reply(body, &ev).unwrap();
    assert_eq!(g.answer, "x");
    assert_eq!(g.confidence, "medium");
    assert_eq!(g.source, "gemini");
    assert_eq!(gemini::read_reply(r#"{"candidates":[]}"#, &ev).err(), Some(AiError::InvalidAnswer));
}

#[test]
fn openai_requests_and_replies() {
    let req = openai::generate_request(&config(Provider::Openai, Some("sk")), "P").unwrap();
    assert_eq!(req.url, "https://api.openai.com/v1/responses");
    assert!(req
        .headers
        .contains(&("Authorization".to_string(), "Bearer sk".to_string())));
    assert!(openai::generate_request(&config(Provider::Openai, None), "P").is_err());
    let test = openai::test_request(&config(Provider::Openai, Some("sk"))).unwrap();
    assert_eq!(test.url, "https://api.openai.com/v1/models");
    let ev = vec![evidence("a"), evidence("b")];
    let body = r#"{"output":[{"content":[{"type":"output_text","text":"{\"answer\":\"z\",\"citations\":[\"b\"],\"confidence\":\"high\"}"}]}]}"#;
    let g = openai::read_reply(body, &ev).unwrap();
    assert_eq!(g.answer, "z");
    assert_eq!(g.citations, vec!["b"]);
    assert_eq!(g.source, "openai");
}

#[test]
fn find_text_searches_depth_first() {
    let v = JsonValue::Object(vec![
        ("a".to_string(), JsonValue::Array(vec![JsonValue::Object(vec![(
            "text".to_string(),
            JsonValue::Text("first".to_string()),
        )])])),
        ("text".to_string(), JsonValue::Text("second".to_string())),
    ]);
    assert_eq!(openai::find_text(&v), Some("first".to_string()));
    assert_eq!(openai::find_text(&JsonValue::Null), None);
}

#[test]
fn statuses() {
    assert_eq!(check_status(200), Ok(()));
    assert_eq!(check_status(399), Ok(()));
    assert_eq!(check_status(400), Err(AiError::RequestFailed));
}
