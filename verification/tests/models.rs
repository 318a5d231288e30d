use mnemo::commands::models::get_supported_embedding_models;
use mnemo::commands::models::migration_table;
use mnemo::commands::models::next_model_version;
use mnemo::commands::models::parse_u64;
use mnemo::commands::models::plan_model_switch;
use mnemo::commands::models::retired_table;
use mnemo::services::embedder::embedding_input;
use mnemo::services::model_registry::artifacts;
use mnemo::services::model_registry::info;
use mnemo::services::model_registry::prepare_text;

#[test]
fn supported_models_and_lookup() {
    let models = get_supported_embedding_models();
    assert_eq!(models.len(), 3);
    assert_eq!(models[0].id, "bge-small-en-v1.5");
    assert_eq!(models[0].dimensions, 384);
    assert_eq!(info("bge-base-en-v1.5").unwrap().dimensions, 768);
    assert_eq!(info("nomic-embed-text-v1.5").unwrap().size_mb, 270);
    assert!(info("ada-002").is_none());
    assert_eq!(
        artifacts("nomic-embed-text-v1.5").unwrap().repository,
        "nomic-ai/nomic-embed-text-v1.5"
    );
    assert_eq!(artifacts("bge-small-en-v1.5").unwrap().model_file, "onnx/model.onnx");
    assert!(artifacts("x").is_none());
}

#[test]
fn texts_are_prepared_per_model() {
    assert_eq!(prepare_text("nomic-embed-text-v1.5", "q", true), "search_query: q");
    assert_eq!(prepare_text("nomic-embed-text-v1.5", "d", false), "search_document: d");
    assert_eq!(prepare_text("bge-small-en-v1.5", "d", true), "d");
    let long = "\u{e9}".repeat(8005);
    assert_eq!(embedding_input("bge-small-en-v1.5", &long).chars().count(), 8000);
    assert_eq!(
        embedding_input("nomic-embed-text-v1.5", "abc"),
        "search_document: abc"
    );
}

#[test]
fn versions_parse_like_std() {
    assert_eq!(parse_u64("42"), Some(42));
    assert_eq!(parse_u64("+7"), Some(7));
    assert_eq!(parse_u64("18446744073709551615"), Some(u64::MAX));
    assert_eq!(parse_u64("18446744073709551616"), None);
    assert_eq!(parse_u64(""), None);
    assert_eq!(parse_u64("+"), None);
    assert_eq!(parse_u64("-1"), None);
    assert_eq!(parse_u64(" 1"), None);
    for s in ["0", "9", "+12", "x", "1a", "99999999999999999999"] {
        assert_eq!(parse_u64(s), s.parse::<u64>().ok());
    }
}

#[test]
fn model_switch_plans() {
    assert_eq!(next_model_version("1"), 2);
    assert_eq!(next_model_version("junk"), 2);
    assert_eq!(next_model_version("41"), 42);
    assert_eq!(migration_table(3), "clips_embeddings_migration_3");
    assert_eq!(retired_table("clips_embeddings", "3"), "clips_embeddings_old_3");
    assert_eq!(
        plan_model_switch("bge-small-en-v1.5", "1", "nomic-embed-text-v1.5"),
        Ok(Some((2, "clips_embeddings_migration_2".to_string())))
    );
    assert_eq!(
        plan_model_switch("bge-small-en-v1.5", "1", "bge-small-en-v1.5"),
        Ok(None)
    );
    assert_eq!(
        plan_model_switch("bge-small-en-v1.5", "1", "gpt"),
        Err("Unsupported embedding model".to_string())
    );
}

#[test]
fn switch_to_active_model_needs_no_new_version() {
    assert_eq!(
        plan_model_switch("bge-small-en-v1.5", "18446744073709551615", "bge-small-en-v1.5"),
        Ok(None)
    );
    assert_eq!(
        plan_model_switch("bge-small-en-v1.5", "18446744073709551615", "gpt"),
        Err("Unsupported embedding model".to_string())
    );
}
