use mnemo::commands::search::active_table_name;
use mnemo::commands::search::fts_query;
use mnemo::commands::search::fts_table;
use mnemo::commands::search::is_code_query;
use mnemo::commands::search::is_short_query;
use mnemo::commands::search::preprocess_query;
use mnemo::commands::search::query_type;
use mnemo::commands::search::quote_fts;
use mnemo::commands::search::rerank_order;
use mnemo::commands::search::search_type;
use mnemo::commands::search::valid_identifier;

#[test]
fn queries_are_normalised() {
    assert_eq!(preprocess_query("Please FIND the K8s pods"), "kubernetes pods");
    assert_eq!(preprocess_query("show me react hooks"), "useState useEffect");
    assert_eq!(preprocess_query("  a   b  "), "a b");
}

#[test]
fn code_queries() {
    assert!(is_code_query("fn main"));
    assert!(is_code_query("a(b)"));
    assert!(is_code_query("useState"));
    assert!(!is_code_query("docker networking"));
    assert!(!is_code_query("ab"));
}

#[test]
fn fts_queries() {
    assert_eq!(quote_fts("say \"hi\""), "\"say \"\"hi\"\"\"");
    assert_eq!(fts_query("docker a net\"work", false), "\"docker\" OR \"network\"");
    assert_eq!(fts_query("x(y)", true), "\"x(y)\"");
    assert_eq!(fts_query("a b", false), "");
    assert_eq!(fts_table(true), "clips_fts_code");
    assert_eq!(fts_table(false), "clips_fts");
    assert_eq!(query_type(true), "keyword_code");
    assert_eq!(query_type(false), "hybrid");
}

#[test]
fn identifiers_and_tables() {
    assert!(valid_identifier("clips_embeddings_2"));
    assert!(!valid_identifier(""));
    assert!(!valid_identifier("x; DROP TABLE clips"));
    assert_eq!(active_table_name(None), Some("clips_embeddings".to_string()));
    assert_eq!(active_table_name(Some("v2".to_string())), Some("v2".to_string()));
    assert_eq!(active_table_name(Some("bad-name".to_string())), None);
}

#[test]
fn short_queries_and_search_types() {
    assert!(is_short_query("  ab  "));
    assert!(!is_short_query("abc"));
    assert_eq!(search_type(true, true), "hybrid");
    assert_eq!(search_type(true, false), "semantic");
    assert_eq!(search_type(false, true), "keyword");
    assert_eq!(search_type(false, false), "keyword");
}

#[test]
fn rerank_puts_picks_first_and_keeps_every_result() {
    assert_eq!(rerank_order(7, 5, &vec![3, 9, 1]), vec![3, 1, 0, 2, 4, 5, 6]);
    assert_eq!(rerank_order(3, 3, &vec![]), vec![0, 1, 2]);
    let order = rerank_order(6, 5, &vec![4, 0, 2]);
    let mut sorted = order.clone();
    sorted.sort();
    assert_eq!(sorted, vec![0, 1, 2, 3, 4, 5]);
}
