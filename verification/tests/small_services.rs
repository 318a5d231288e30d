use mnemo::commands::clips::page_window;
use mnemo::commands::graph::graph_limit;
use mnemo::commands::graph::graph_state;
use mnemo::commands::graph::unconnected_count;
use mnemo::commands::quality::position_bands;
use mnemo::commands::system::bootstrap_state;
use mnemo::services::db::add_column_sql;
use mnemo::services::db::clip_column_additions;
use mnemo::services::db::index_is_cosine;
use mnemo::services::db::missing_columns;
use mnemo::services::db::settings_column_additions;
use mnemo::services::http_server::accept_context;
use mnemo::services::http_server::ContextPayload;
use mnemo::services::intelligence::memory_stage;
use mnemo::services::memory_graph::clips_have_room;
use mnemo::services::memory_graph::edge_ends;
use mnemo::services::memory_graph::session_has_room;
use mnemo::services::retention::retention_cutoff;
use mnemo::state::EmbeddingStatus;

#[test]
fn history_pages() {
    assert_eq!(page_window(None, None), (50, 0));
    assert_eq!(page_window(Some(0), Some(10)), (10, 0));
    assert_eq!(page_window(Some(3), Some(10)), (10, 20));
    let (limit, offset) = page_window(Some(4), Some(10));
    assert_eq!(offset, page_window(Some(3), Some(10)).1 + limit);
}

#[test]
fn graph_helpers() {
    assert_eq!(graph_limit(None), 100);
    assert_eq!(graph_limit(Some(0)), 1);
    assert_eq!(graph_limit(Some(500)), 200);
    assert_eq!(graph_limit(Some(42)), 42);
    let ids = vec!["a".to_string(), "b".to_string(), "c".to_string()];
    let links = vec![("a".to_string(), "b".to_string())];
    assert_eq!(unconnected_count(&ids, &links), 1);
    assert_eq!(unconnected_count(&ids, &vec![]), 3);
    assert_eq!(graph_state(false, 2), "building");
    assert_eq!(graph_state(false, 0), "edge_free");
    assert_eq!(graph_state(true, 5), "ready");
}

#[test]
fn bands_stage_and_bootstrap() {
    let bands = position_bands();
    assert_eq!(bands[0], ("1-3", 1, 3));
    assert_eq!(bands[3], ("11+", 11, i64::MAX));
    assert_eq!(memory_stage(200, 5), "archivor");
    assert_eq!(memory_stage(200, 4), "bindor");
    assert_eq!(memory_stage(49, 9), "clippy");
    let b = bootstrap_state(None, EmbeddingStatus::Loading);
    assert!(b.database_ready);
    assert_eq!(b.stage, "clippy");
    assert_eq!(b.embedding_status, "loading");
    assert_eq!(
        bootstrap_state(Some("bindor".into()), EmbeddingStatus::Ready).stage,
        "bindor"
    );
    assert_eq!(EmbeddingStatus::Unavailable.label(), "unavailable");
    assert_eq!(EmbeddingStatus::Deferred.label(), "deferred");
}

#[test]
fn retention_cutoffs() {
    assert_eq!(retention_cutoff(None, 4_000_000_000), None);
    assert_eq!(retention_cutoff(Some(0), 4_000_000_000), None);
    assert_eq!(retention_cutoff(Some(3651), 4_000_000_000), None);
    assert_eq!(
        retention_cutoff(Some(30), 4_000_000_000),
        Some(4_000_000_000 - 30 * 86_400_000)
    );
    assert_eq!(retention_cutoff(Some(1), i64::MIN + 5), Some(i64::MIN));
}

#[test]
fn graph_edges() {
    assert!(clips_have_room(14, 0));
    assert!(!clips_have_room(15, 0));
    assert!(!clips_have_room(0, 15));
    assert!(session_has_room(4));
    assert!(!session_has_room(5));
    assert_eq!(edge_ends("b", "a"), ("a".to_string(), "b".to_string()));
    assert_eq!(edge_ends("a", "b"), edge_ends("b", "a"));
    assert_eq!(edge_ends("ab", "a"), ("a".to_string(), "ab".to_string()));
}

fn payload(url: &str, title: &str) -> ContextPayload {
    ContextPayload {
        url: url.to_string(),
        title: title.to_string(),
        selected_text: None,
        favicon_url: None,
    }
}

#[test]
fn context_reports() {
    let ctx = accept_context(true, payload("https://a.dev", "A"), 77).unwrap();
    assert_eq!(ctx.url, "https://a.dev");
    assert_eq!(ctx.title, "A");
    assert_eq!(ctx.timestamp, 77);
    assert_eq!(accept_context(false, payload("https://a.dev", "A"), 77).unwrap_err(), 204);
    assert_eq!(accept_context(true, payload("   ", "A"), 77).unwrap_err(), 400);
    assert_eq!(
        accept_context(true, payload(&"u".repeat(8_193), "A"), 77).unwrap_err(),
        400
    );
    assert_eq!(
        accept_context(true, payload("https://a.dev", &"t".repeat(2_049)), 77).unwrap_err(),
        400
    );
    let mut big = payload("https://a.dev", "A");
    big.selected_text = Some("s".repeat(100_001));
    assert_eq!(accept_context(true, big, 77).unwrap_err(), 400);
}

#[test]
fn schema_upgrades() {
    let existing = vec!["normalized_content".to_string(), "source_intent".to_string()];
    let missing = missing_columns(&existing, &clip_column_additions());
    assert_eq!(missing.len(), 6);
    assert_eq!(missing[0], ("content_hash", "TEXT"));
    assert_eq!(settings_column_additions().len(), 9);
    assert_eq!(
        add_column_sql("clips", "content_hash", "TEXT"),
        "ALTER TABLE clips ADD COLUMN content_hash TEXT"
    );
    assert!(index_is_cosine("CREATE ... DISTANCE_METRIC=COSINE"));
    assert!(!index_is_cosine("CREATE VIRTUAL TABLE x USING vec0(e float[384])"));
}
