//! Schema upgrades: which columns an older database lacks, and whether its
//! vector index already uses the cosine metric.

use vstd::prelude::*;

use crate::text::ascii_lower;
use crate::text::chars_of;
use crate::text::concat;
use crate::text::concat_str;
use crate::text::contains_str;
use crate::text::list_contains;
use crate::text::spec_ascii_lower;
use crate::text::spec_contains;
use crate::text::string_of;

verus! {

/// The vector table searched, and the size of its vectors.
pub const ACTIVE_VECTOR_TABLE: &'static str = "clips_embeddings";

pub const ACTIVE_VECTOR_DIMENSIONS: usize = 384;

/// Columns added to `clips` since its first schema, with their definitions.
pub fn clip_column_additions() -> (r: Vec<(&'static str, &'static str)>)
    ensures
        r@ == seq![
            ("normalized_content", "TEXT"),
            ("content_hash", "TEXT"),
            ("is_duplicate", "INTEGER NOT NULL DEFAULT 0"),
            ("duplicate_of", "TEXT REFERENCES clips(id)"),
            ("embedding_model", "TEXT"),
            ("embedding_version", "TEXT"),
            ("embedding_status", "TEXT NOT NULL DEFAULT 'pending'"),
            ("source_intent", "TEXT NOT NULL DEFAULT 'other'"),
        ],
{
    let mut v: Vec<(&'static str, &'static str)> = Vec::new();
    v.push(("normalized_content", "TEXT"));
    v.push(("content_hash", "TEXT"));
    v.push(("is_duplicate", "INTEGER NOT NULL DEFAULT 0"));
    v.push(("duplicate_of", "TEXT REFERENCES clips(id)"));
    v.push(("embedding_model", "TEXT"));
    v.push(("embedding_version", "TEXT"));
    v.push(("embedding_status", "TEXT NOT NULL DEFAULT 'pending'"));
    v.push(("source_intent", "TEXT NOT NULL DEFAULT 'other'"));
    assert(v@ =~= seq![
        ("normalized_content", "TEXT"),
        ("content_hash", "TEXT"),
        ("is_duplicate", "INTEGER NOT NULL DEFAULT 0"),
        ("duplicate_of", "TEXT REFERENCES clips(id)"),
        ("embedding_model", "TEXT"),
        ("embedding_version", "TEXT"),
        ("embedding_status", "TEXT NOT NULL DEFAULT 'pending'"),
        ("source_intent", "TEXT NOT NULL DEFAULT 'other'"),
    ]);
    v
}

/// Columns added to `settings` since its first schema, with their definitions.
pub fn settings_column_additions() -> (r: Vec<(&'static str, &'static str)>)
    ensures
        r@ == seq![
            ("capture_enabled", "INTEGER NOT NULL DEFAULT 1"),
            ("browser_context_enabled", "INTEGER NOT NULL DEFAULT 0"),
            ("appearance", "TEXT NOT NULL DEFAULT 'dark'"),
            ("onboarding_completed", "INTEGER NOT NULL DEFAULT 0"),
            ("ai_provider", "TEXT NOT NULL DEFAULT 'none'"),
            ("ai_model", "TEXT NOT NULL DEFAULT 'llama3.2:3b'"),
            ("ai_api_key", "TEXT"),
            ("ai_ollama_url", "TEXT NOT NULL DEFAULT 'http://localhost:11434'"),
            ("ai_cloud_consent", "INTEGER NOT NULL DEFAULT 0"),
        ],
{
    let mut v: Vec<(&'static str, &'static str)> = Vec::new();
    v.push(("capture_enabled", "INTEGER NOT NULL DEFAULT 1"));
    v.push(("browser_context_enabled", "INTEGER NOT NULL DEFAULT 0"));
    v.push(("appearance", "TEXT NOT NULL DEFAULT 'dark'"));
    v.push(("onboarding_completed", "INTEGER NOT NULL DEFAULT 0"));
    v.push(("ai_provider", "TEXT NOT NULL DEFAULT 'none'"));
    v.push(("ai_model", "TEXT NOT NULL DEFAULT 'llama3.2:3b'"));
    v.push(("ai_api_key", "TEXT"));
    v.push(("ai_ollama_url", "TEXT NOT NULL DEFAULT 'http://localhost:11434'"));
    v.push(("ai_cloud_consent", "INTEGER NOT NULL DEFAULT 0"));
    assert(v@ =~= seq![
        ("capture_enabled", "INTEGER NOT NULL DEFAULT 1"),
        ("browser_context_enabled", "INTEGER NOT NULL DEFAULT 0"),
        ("appearance", "TEXT NOT NULL DEFAULT 'dark'"),
        ("onboarding_completed", "INTEGER NOT NULL DEFAULT 0"),
        ("ai_provider", "TEXT NOT NULL DEFAULT 'none'"),
        ("ai_model", "TEXT NOT NULL DEFAULT 'llama3.2:3b'"),
        ("ai_api_key", "TEXT"),
        ("ai_ollama_url", "TEXT NOT NULL DEFAULT 'http://localhost:11434'"),
        ("ai_cloud_consent", "INTEGER NOT NULL DEFAULT 0"),
    ]);
    v
}

/// The additions whose column the table does not have yet, in order.
pub open spec fn spec_missing_columns(
    existing: Seq<Seq<char>>,
    additions: Seq<(&'static str, &'static str)>,
) -> Seq<(&'static str, &'static str)>
    decreases additions.len(),
{
    if additions.len() == 0 {
        seq![]
    } else {
        let rest = spec_missing_columns(existing, additions.drop_last());
        if existing.contains(additions.last().0@) {
            rest
        } else {
            rest.push(additions.last())
        }
    }
}

pub fn missing_columns(existing: &Vec<String>, additions: &Vec<(&'static str, &'static str)>) -> (r:
    Vec<(&'static str, &'static str)>)
    ensures
        r@ == spec_missing_columns(existing@.map_values(|s: String| s@), additions@),
{
    let ghost names = existing@.map_values(|s: String| s@);
    let mut out: Vec<(&'static str, &'static str)> = Vec::new();
    let mut i: usize = 0;
    while i < additions.len()
        invariant
            i <= additions.len(),
            names == existing@.map_values(|s: String| s@),
            out@ == spec_missing_columns(names, additions@.take(i as int)),
        decreases additions.len() - i,
    {
        assert(additions@.take(i + 1).drop_last() =~= additions@.take(i as int));
        let (name, definition) = additions[i];
        if !list_contains(existing, &chars_of(name)) {
            out.push((name, definition));
        }
        i += 1;
    }
    assert(additions@.take(i as int) =~= additions@);
    out
}

/// `ALTER TABLE {table} ADD COLUMN {name} {definition}`.
pub fn add_column_sql(table: &str, name: &str, definition: &str) -> (r: String)
    ensures
        r@ == "ALTER TABLE "@ + table@ + " ADD COLUMN "@ + name@ + " "@ + definition@,
{
    let a = concat(&chars_of("ALTER TABLE "), &chars_of(table));
    let b = concat(&concat_str(&a, " ADD COLUMN "), &chars_of(name));
    string_of(&concat(&concat_str(&b, " "), &chars_of(definition)))
}

/// A vector table's definition already fixes the cosine metric (compared
/// without regard to ASCII case).
pub fn index_is_cosine(definition: &str) -> (r: bool)
    ensures
        r == spec_contains(spec_ascii_lower(definition@), "distance_metric=cosine"@),
{
    contains_str(&ascii_lower(&chars_of(definition)), "distance_metric=cosine")
}

} // verus!
