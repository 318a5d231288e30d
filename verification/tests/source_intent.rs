use mnemo::services::source_intent::detect;
use mnemo::services::source_intent::SourceIntent;

#[test]
fn detects_trusted_sources() {
    assert_eq!(
        detect(None, Some("https://docs.docker.com/network"), None),
        SourceIntent::Docs
    );
    assert_eq!(
        detect(None, Some("https://github.com/a/b"), None),
        SourceIntent::Github
    );
    assert_eq!(detect(Some("VS Code"), None, None), SourceIntent::Editor);
}

#[test]
fn url_decides_before_the_application() {
    assert_eq!(
        detect(Some("Terminal"), Some("https://StackOverflow.com/q/1"), None),
        SourceIntent::StackOverflow
    );
    assert_eq!(
        detect(Some("Firefox"), Some("https://example.com"), Some("API Documentation")),
        SourceIntent::Docs
    );
    assert_eq!(detect(Some("iTerm2"), None, None), SourceIntent::Terminal);
    assert_eq!(detect(Some("Notes"), None, None), SourceIntent::Other);
    assert_eq!(detect(None, None, None), SourceIntent::Other);
}

#[test]
fn intent_names_and_weights() {
    assert_eq!(SourceIntent::StackOverflow.as_str(), "stackoverflow");
    assert_eq!(SourceIntent::Other.as_str(), "other");
    assert_eq!(SourceIntent::Docs.trust_weight_percent(), 100);
    assert_eq!(SourceIntent::Terminal.trust_weight_percent(), 60);
    assert_eq!(SourceIntent::Editor.trust_weight_percent(), 70);
}
