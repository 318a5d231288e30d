//! A fixed set of query and clip pairs, half related and half not, for
//! judging how well an embedding model separates them.

use vstd::prelude::*;

verus! {

/// A query, a candidate clip, and whether the two belong together.
#[derive(Debug, Clone, Copy)]
pub struct BenchmarkPair {
    pub query: &'static str,
    pub candidate: &'static str,
    pub related: bool,
}

/// Pairs in the fixture, and how many of them are related.
pub const FIXTURE_SIZE: usize = 50;

pub const RELATED_PAIRS: usize = 25;

fn pair(query: &'static str, candidate: &'static str, related: bool) -> (r: BenchmarkPair)
    ensures
        r.query == query,
        r.candidate == candidate,
        r.related == related,
{
    BenchmarkPair { query, candidate, related }
}

/// The fixture's pairs as (query, candidate, related), in order.
pub open spec fn spec_fixture_pairs() -> Seq<(Seq<char>, Seq<char>, bool)> {
    seq![
        ("docker networking"@, "Docker bridge and host networking configuration"@, true),
        ("python async"@, "asyncio TaskGroup and concurrent await patterns"@, true),
        ("react hooks"@, "useState and useEffect component state"@, true),
        ("postgres indexes"@, "PostgreSQL B-tree and composite indexes"@, true),
        ("oauth jwt"@, "Bearer token and OAuth2 authentication flow"@, true),
        ("rust ownership"@, "Rust borrow checker and ownership rules"@, true),
        ("sql joins"@, "SQL JOIN query across related tables"@, true),
        ("github actions"@, "GitHub Actions workflow YAML"@, true),
        ("css grid"@, "CSS grid-template-columns responsive layout"@, true),
        ("typescript types"@, "TypeScript generic type constraints"@, true),
        ("api pagination"@, "REST API cursor pagination response"@, true),
        ("terminal git"@, "git rebase and conflict resolution commands"@, true),
        ("redis cache"@, "Redis cache invalidation and expiration"@, true),
        ("kubernetes pods"@, "Kubernetes deployment and pod scheduling"@, true),
        ("vite build"@, "Vite production build configuration"@, true),
        ("sqlite fts"@, "SQLite FTS5 full text search tokenizer"@, true),
        ("memory graph"@, "semantic graph edges between related clips"@, true),
        ("clipboard privacy"@, "sensitive clipboard content filtering"@, true),
        ("model migration"@, "background embedding index migration"@, true),
        ("search reranking"@, "cross encoder reranks retrieved candidates"@, true),
        ("tauri command"@, "Tauri IPC command state management"@, true),
        ("rust threads"@, "Rust background thread synchronization"@, true),
        ("browser context"@, "browser URL title clipboard enrichment"@, true),
        ("session reconstruction"@, "research session timeline reconstruction"@, true),
        ("embedding quality"@, "cosine similarity retrieval benchmark"@, true),
        ("docker networking"@, "family recipe for roasted vegetables"@, false),
        ("python async"@, "best hiking trails near the lake"@, false),
        ("react hooks"@, "monthly electricity bill payment reminder"@, false),
        ("postgres indexes"@, "watercolor painting paper recommendations"@, false),
        ("oauth jwt"@, "new office chair assembly instructions"@, false),
        ("rust ownership"@, "weekend train timetable information"@, false),
        ("sql joins"@, "coffee beans with chocolate tasting notes"@, false),
        ("github actions"@, "indoor plant watering schedule"@, false),
        ("css grid"@, "travel packing list for winter weather"@, false),
        ("typescript types"@, "documentary film recommendations"@, false),
        ("api pagination"@, "home insurance renewal checklist"@, false),
        ("terminal git"@, "simple dinner ideas with lentils"@, false),
        ("redis cache"@, "how to clean a wool sweater"@, false),
        ("kubernetes pods"@, "museum opening hours this weekend"@, false),
        ("vite build"@, "beginner yoga breathing exercises"@, false),
        ("sqlite fts"@, "garden soil preparation guide"@, false),
        ("memory graph"@, "camera lens cleaning instructions"@, false),
        ("clipboard privacy"@, "healthy breakfast meal plan"@, false),
        ("model migration"@, "city bus route map"@, false),
        ("search reranking"@, "movie night snack ideas"@, false),
        ("tauri command"@, "how to fold a fitted sheet"@, false),
        ("rust threads"@, "sunset photography locations"@, false),
        ("browser context"@, "beginner guitar chord progression"@, false),
        ("session reconstruction"@, "birthday party decoration ideas"@, false),
        ("embedding quality"@, "how to polish wooden furniture"@, false),
    ]
}

/// The fixture: each of 25 technical queries first with a clip on its topic,
/// then, in the same order, with an unrelated everyday clip.
#[verifier::rlimit(50)]
pub fn fixture() -> (r: Vec<BenchmarkPair>)
    ensures
        r@.len() == FIXTURE_SIZE,
        r@.map_values(|p: BenchmarkPair| (p.query@, p.candidate@, p.related))
            == spec_fixture_pairs(),
        forall|i: int| 0 <= i < FIXTURE_SIZE ==> (#[trigger] r@[i]).related == (i < RELATED_PAIRS),
        forall|i: int|
            0 <= i < RELATED_PAIRS ==> (#[trigger] r@[i]).query@ == r@[i + RELATED_PAIRS].query@,
        forall|i: int|
            0 <= i < FIXTURE_SIZE ==> (#[trigger] r@[i]).query@.len() > 0 && r@[i].candidate@.len()
                > 0,
{
    proof {
        reveal_strlit("Bearer token and OAuth2 authentication flow");
        reveal_strlit("CSS grid-template-columns responsive layout");
        reveal_strlit("Docker bridge and host networking configuration");
        reveal_strlit("GitHub Actions workflow YAML");
        reveal_strlit("Kubernetes deployment and pod scheduling");
        reveal_strlit("PostgreSQL B-tree and composite indexes");
        reveal_strlit("REST API cursor pagination response");
        reveal_strlit("Redis cache invalidation and expiration");
        reveal_strlit("Rust background thread synchronization");
        reveal_strlit("Rust borrow checker and ownership rules");
        reveal_strlit("SQL JOIN query across related tables");
        reveal_strlit("SQLite FTS5 full text search tokenizer");
        reveal_strlit("Tauri IPC command state management");
        reveal_strlit("TypeScript generic type constraints");
        reveal_strlit("Vite production build configuration");
        reveal_strlit("api pagination");
        reveal_strlit("asyncio TaskGroup and concurrent await patterns");
        reveal_strlit("background embedding index migration");
        reveal_strlit("beginner guitar chord progression");
        reveal_strlit("beginner yoga breathing exercises");
        reveal_strlit("best hiking trails near the lake");
        reveal_strlit("birthday party decoration ideas");
        reveal_strlit("browser URL title clipboard enrichment");
        reveal_strlit("browser context");
        reveal_strlit("camera lens cleaning instructions");
        reveal_strlit("city bus route map");
        reveal_strlit("clipboard privacy");
        reveal_strlit("coffee beans with chocolate tasting notes");
        reveal_strlit("cosine similarity retrieval benchmark");
        reveal_strlit("cross encoder reranks retrieved candidates");
        reveal_strlit("css grid");
        reveal_strlit("docker networking");
        reveal_strlit("documentary film recommendations");
        reveal_strlit("embedding quality");
        reveal_strlit("family recipe for roasted vegetables");
        reveal_strlit("garden soil preparation guide");
        reveal_strlit("git rebase and conflict resolution commands");
        reveal_strlit("github actions");
        reveal_strlit("healthy breakfast meal plan");
        reveal_strlit("home insurance renewal checklist");
        reveal_strlit("how to clean a wool sweater");
        reveal_strlit("how to fold a fitted sheet");
        reveal_strlit("how to polish wooden furniture");
        reveal_strlit("indoor plant watering schedule");
        reveal_strlit("kubernetes pods");
        reveal_strlit("memory graph");
        reveal_strlit("model migration");
        reveal_strlit("monthly electricity bill payment reminder");
        reveal_strlit("movie night snack ideas");
        reveal_strlit("museum opening hours this weekend");
        reveal_strlit("new office chair assembly instructions");
        reveal_strlit("oauth jwt");
        reveal_strlit("postgres indexes");
        reveal_strlit("python async");
        reveal_strlit("react hooks");
        reveal_strlit("redis cache");
        reveal_strlit("research session timeline reconstruction");
        reveal_strlit("rust ownership");
        reveal_strlit("rust threads");
        reveal_strlit("search reranking");
        reveal_strlit("semantic graph edges between related clips");
        reveal_strlit("sensitive clipboard content filtering");
        reveal_strlit("session reconstruction");
        reveal_strlit("simple dinner ideas with lentils");
        reveal_strlit("sql joins");
        reveal_strlit("sqlite fts");
        reveal_strlit("sunset photography locations");
        reveal_strlit("tauri command");
        reveal_strlit("terminal git");
        reveal_strlit("travel packing list for winter weather");
        reveal_strlit("typescript types");
        reveal_strlit("useState and useEffect component state");
        reveal_strlit("vite build");
        reveal_strlit("watercolor painting paper recommendations");
        reveal_strlit("weekend train timetable information");
    }
    let mut v: Vec<BenchmarkPair> = Vec::new();
    v.push(pair("docker networking", "Docker bridge and host networking configuration", true));
    v.push(pair("python async", "asyncio TaskGroup and concurrent await patterns", true));
    v.push(pair("react hooks", "useState and useEffect component state", true));
    v.push(pair("postgres indexes", "PostgreSQL B-tree and composite indexes", true));
    v.push(pair("oauth jwt", "Bearer token and OAuth2 authentication flow", true));
    v.push(pair("rust ownership", "Rust borrow checker and ownership rules", true));
    v.push(pair("sql joins", "SQL JOIN query across related tables", true));
    v.push(pair("github actions", "GitHub Actions workflow YAML", true));
    v.push(pair("css grid", "CSS grid-template-columns responsive layout", true));
    v.push(pair("typescript types", "TypeScript generic type constraints", true));
    v.push(pair("api pagination", "REST API cursor pagination response", true));
    v.push(pair("terminal git", "git rebase and conflict resolution commands", true));
    v.push(pair("redis cache", "Redis cache invalidation and expiration", true));
    v.push(pair("kubernetes pods", "Kubernetes deployment and pod scheduling", true));
    v.push(pair("vite build", "Vite production build configuration", true));
    v.push(pair("sqlite fts", "SQLite FTS5 full text search tokenizer", true));
    v.push(pair("memory graph", "semantic graph edges between related clips", true));
    v.push(pair("clipboard privacy", "sensitive clipboard content filtering", true));
    v.push(pair("model migration", "background embedding index migration", true));
    v.push(pair("search reranking", "cross encoder reranks retrieved candidates", true));
    v.push(pair("tauri command", "Tauri IPC command state management", true));
    v.push(pair("rust threads", "Rust background thread synchronization", true));
    v.push(pair("browser context", "browser URL title clipboard enrichment", true));
    v.push(pair("session reconstruction", "research session timeline reconstruction", true));
    v.push(pair("embedding quality", "cosine similarity retrieval benchmark", true));
    v.push(pair("docker networking", "family recipe for roasted vegetables", false));
    v.push(pair("python async", "best hiking trails near the lake", false));
    v.push(pair("react hooks", "monthly electricity bill payment reminder", false));
    v.push(pair("postgres indexes", "watercolor painting paper recommendations", false));
    v.push(pair("oauth jwt", "new office chair assembly instructions", false));
    v.push(pair("rust ownership", "weekend train timetable information", false));
    v.push(pair("sql joins", "coffee beans with chocolate tasting notes", false));
    v.push(pair("github actions", "indoor plant watering schedule", false));
    v.push(pair("css grid", "travel packing list for winter weather", false));
    v.push(pair("typescript types", "documentary film recommendations", false));
    v.push(pair("api pagination", "home insurance renewal checklist", false));
    v.push(pair("terminal git", "simple dinner ideas with lentils", false));
    v.push(pair("redis cache", "how to clean a wool sweater", false));
    v.push(pair("kubernetes pods", "museum opening hours this weekend", false));
    v.push(pair("vite build", "beginner yoga breathing exercises", false));
    v.push(pair("sqlite fts", "garden soil preparation guide", false));
    v.push(pair("memory graph", "camera lens cleaning instructions", false));
    v.push(pair("clipboard privacy", "healthy breakfast meal plan", false));
    v.push(pair("model migration", "city bus route map", false));
    v.push(pair("search reranking", "movie night snack ideas", false));
    v.push(pair("tauri command", "how to fold a fitted sheet", false));
    v.push(pair("rust threads", "sunset photography locations", false));
    v.push(pair("browser context", "beginner guitar chord progression", false));
    v.push(pair("session reconstruction", "birthday party decoration ideas", false));
    v.push(pair("embedding quality", "how to polish wooden furniture", false));
    assert(v@.map_values(|p: BenchmarkPair| (p.query@, p.candidate@, p.related))
        =~= spec_fixture_pairs());
    v
}

} // verus!
