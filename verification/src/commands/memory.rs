//! Session summaries, source breakdowns and the context shown for a clip.

use vstd::prelude::*;

use crate::commands::ai::context_tags;
use crate::commands::ai::spec_context_tags;
use crate::json::json_parse;
use crate::json::spec_as_text;
use crate::json::spec_get;
use crate::json::spec_json_parse;
use crate::json::views;
use crate::json::JsonValue;
use crate::models::Clip;
use crate::order::lemma_pair_lt_irreflexive;
use crate::order::lemma_pair_lt_total;
use crate::order::lemma_pair_lt_transitive;
use crate::order::pair_less;
use crate::order::pair_lt;
use crate::services::session_builder::domain;
use crate::services::session_builder::spec_domain;
use crate::services::session_builder::spec_title_case;
use crate::services::session_builder::title_case;
use crate::text::ascii_lower;
use crate::text::chars_eq;
use crate::text::chars_of;
use crate::text::concat;
use crate::text::concat_str;
use crate::text::contains_str;
use crate::text::decimal_i64;
use crate::text::eq_str;
use crate::text::spec_ascii_lower;
use crate::text::spec_contains;
use crate::text::spec_decimal;
use crate::text::spec_take_chars;
use crate::text::spec_to_lowercase;
use crate::text::spec_trim;
use crate::text::string_of;
use crate::text::take_chars;
use crate::text::to_lowercase;
use crate::text::trim_str;

verus! {

/// A session as the timeline lists it.
#[derive(Debug, Clone)]
pub struct SessionSummary {
    pub id: String,
    pub label: String,
    pub summary: String,
    pub key_topics: Vec<String>,
    pub source_apps: Vec<String>,
    pub source_urls: Vec<String>,
    pub clip_count: i64,
    pub started_at: i64,
    pub ended_at: i64,
    pub duration_ms: i64,
}

/// How many clips of a session came from one source.
#[derive(Debug, Clone)]
pub struct SourceStat {
    pub label: String,
    pub count: i64,
    pub source_type: String,
}

/// What the shell shows about where a clip came from and what it is for.
#[derive(Debug, Clone)]
pub struct ClipContext {
    pub source: String,
    pub likely_purpose: String,
    pub topic_tags: Vec<String>,
}

// ---------------------------------------------------------------------------
// Session rows
// ---------------------------------------------------------------------------

/// A stored JSON list of strings; empty where the column is missing, is not
/// JSON, or is not an array of strings only.
pub open spec fn spec_json_strings(value: Option<Seq<char>>) -> Seq<Seq<char>> {
    match value {
        Some(raw) => match spec_json_parse(raw) {
            Some(JsonValue::Array(items)) => if forall|k: int|
                0 <= k < items@.len() ==> (#[trigger] items@[k] is Text) {
                items@.map_values(|x: JsonValue| spec_as_text(Some(x))->0)
            } else {
                seq![]
            },
            _ => seq![],
        },
        None => seq![],
    }
}

/// The strings of a stored JSON list.
#[verifier::loop_isolation(false)]
pub fn json_strings(value: Option<&str>) -> (r: Vec<String>)
    ensures
        views(r@) == spec_json_strings(
            match value {
                Some(s) => Some(s@),
                None => None,
            },
        ),
{
    let empty: Vec<String> = Vec::new();
    assert(views(empty@) =~= seq![]);
    let raw = match value {
        Some(s) => s,
        None => {
            return empty;
        },
    };
    let parsed = json_parse(raw);
    match &parsed {
        Some(JsonValue::Array(items)) => {
            let mut out: Vec<String> = Vec::new();
            let mut i: usize = 0;
            while i < items.len()
                invariant
                    i <= items.len(),
                    out@.len() == i,
                    forall|k: int| 0 <= k < i ==> (#[trigger] items@[k] is Text),
                    forall|k: int|
                        0 <= k < i ==> #[trigger] out@[k]@ == spec_as_text(Some(items@[k]))->0,
                decreases items.len() - i,
            {
                match &items[i] {
                    JsonValue::Text(t) => {
                        out.push(t.clone());
                    },
                    _ => {
                        assert(!(items@[i as int] is Text));
                        return empty;
                    },
                }
                i += 1;
            }
            assert(views(out@) =~= items@.map_values(|x: JsonValue| spec_as_text(Some(x))->0));
            out
        },
        _ => empty,
    }
}

/// The label a session row shows: the stored one, or for a blank or
/// placeholder label the first topic title-cased with " research", or
/// "Research session".
pub open spec fn spec_row_label(raw_label: Seq<char>, topics: Seq<Seq<char>>) -> Seq<char> {
    if raw_label.len() == 0 || raw_label == "New Session"@ {
        if topics.len() > 0 {
            spec_title_case(topics[0]) + " research"@
        } else {
            "Research session"@
        }
    } else {
        raw_label
    }
}

pub open spec fn opt_view(s: Option<String>) -> Option<Seq<char>> {
    match s {
        Some(x) => Some(x@),
        None => None,
    }
}

/// A session summary from the stored columns of a session row.
pub fn session_summary(
    id: String,
    raw_label: Option<String>,
    raw_summary: Option<String>,
    key_topics: Option<String>,
    source_apps: Option<String>,
    source_urls: Option<String>,
    clip_count: i64,
    started_at: i64,
    ended_at: i64,
) -> (r: SessionSummary)
    requires
        i64::MIN <= ended_at - started_at <= i64::MAX,
    ensures
        r.id == id,
        views(r.key_topics@) == spec_json_strings(opt_view(key_topics)),
        views(r.source_apps@) == spec_json_strings(opt_view(source_apps)),
        views(r.source_urls@) == spec_json_strings(opt_view(source_urls)),
        r.label@ == spec_row_label(
            match raw_label {
                Some(l) => l@,
                None => seq![],
            },
            spec_json_strings(opt_view(key_topics)),
        ),
        r.summary@ == (match raw_summary {
            Some(s) if s@.len() > 0 => s@,
            _ => spec_decimal(clip_count as int) + " captured clips"@,
        }),
        r.clip_count == clip_count,
        r.started_at == started_at,
        r.ended_at == ended_at,
        r.duration_ms == if ended_at - started_at > 0 {
            ended_at - started_at
        } else {
            0
        },
{
    let topics = json_strings(
        match &key_topics {
            Some(s) => Some(s.as_str()),
            None => None,
        },
    );
    let apps = json_strings(
        match &source_apps {
            Some(s) => Some(s.as_str()),
            None => None,
        },
    );
    let urls = json_strings(
        match &source_urls {
            Some(s) => Some(s.as_str()),
            None => None,
        },
    );
    let label_chars = match &raw_label {
        Some(l) => chars_of(l.as_str()),
        None => Vec::new(),
    };
    let label = if label_chars.len() == 0 || eq_str(&label_chars, "New Session") {
        if topics.len() > 0 {
            concat_str(&title_case(&chars_of(topics[0].as_str())), " research")
        } else {
            chars_of("Research session")
        }
    } else {
        label_chars
    };
    let summary = match raw_summary {
        Some(s) => {
            if chars_of(s.as_str()).len() > 0 {
                s
            } else {
                string_of(&concat_str(&decimal_i64(clip_count), " captured clips"))
            }
        },
        None => string_of(&concat_str(&decimal_i64(clip_count), " captured clips")),
    };
    let d = ended_at - started_at;
    SessionSummary {
        id,
        label: string_of(&label),
        summary,
        key_topics: topics,
        source_apps: apps,
        source_urls: urls,
        clip_count,
        started_at,
        ended_at,
        duration_ms: if d > 0 {
            d
        } else {
            0
        },
    }
}

// ---------------------------------------------------------------------------
// Source breakdown
// ---------------------------------------------------------------------------

/// The source a clip is counted under: its trimmed URL's domain ("web"),
/// else its trimmed app name unless it is blank or "unknown" in any case
/// ("app"), else "Source unavailable" ("unavailable").
pub open spec fn source_key(clip: Clip) -> (Seq<char>, Seq<char>) {
    let url = match clip.source_url {
        Some(u) => spec_trim(u@),
        None => seq![],
    };
    let app = match clip.app_name {
        Some(a) => spec_trim(a@),
        None => seq![],
    };
    if url.len() > 0 {
        (spec_domain(url), "web"@)
    } else if app.len() > 0 && spec_ascii_lower(app) != "unknown"@ {
        (app, "app"@)
    } else {
        ("Source unavailable"@, "unavailable"@)
    }
}

pub open spec fn source_keys(clips: Seq<Clip>) -> Seq<(Seq<char>, Seq<char>)> {
    clips.map_values(|c: Clip| source_key(c))
}

/// How many times `k` occurs in `keys`.
pub open spec fn key_count(keys: Seq<(Seq<char>, Seq<char>)>, k: (Seq<char>, Seq<char>)) -> nat
    decreases keys.len(),
{
    if keys.len() == 0 {
        0
    } else {
        key_count(keys.drop_last(), k) + if keys.last() == k {
            1nat
        } else {
            0nat
        }
    }
}

pub open spec fn stat_key(s: (Vec<char>, Vec<char>, i64)) -> (Seq<char>, Seq<char>) {
    (s.0@, s.1@)
}

/// The tally: keys strictly increasing, each with its number of occurrences
/// in `seen`, and every key of `seen` present.
pub open spec fn tally_ok(st: Seq<(Vec<char>, Vec<char>, i64)>, seen: Seq<(Seq<char>, Seq<char>)>) -> bool {
    &&& forall|i: int, j: int|
        0 <= i < j < st.len() ==> pair_lt(stat_key(#[trigger] st[i]), stat_key(#[trigger] st[j]))
    &&& forall|i: int|
        0 <= i < st.len() ==> #[trigger] st[i].2 == key_count(seen, stat_key(st[i])) && st[i].2 > 0
    &&& forall|k: (Seq<char>, Seq<char>)|
        key_count(seen, k) > 0 ==> exists|i: int| 0 <= i < st.len() && stat_key(#[trigger] st[i]) == k
}

proof fn lemma_key_count_push(s: Seq<(Seq<char>, Seq<char>)>, k: (Seq<char>, Seq<char>), w: (Seq<char>, Seq<char>))
    ensures
        key_count(s.push(k), w) == key_count(s, w) + if k == w {
            1nat
        } else {
            0nat
        },
{
    assert(s.push(k).drop_last() =~= s);
}

proof fn lemma_key_count_le(s: Seq<(Seq<char>, Seq<char>)>, w: (Seq<char>, Seq<char>))
    ensures
        key_count(s, w) <= s.len(),
    decreases s.len(),
{
    if s.len() > 0 {
        lemma_key_count_le(s.drop_last(), w);
    }
}

fn tally(
    st: &mut Vec<(Vec<char>, Vec<char>, i64)>,
    label: Vec<char>,
    kind: Vec<char>,
    Ghost(seen): Ghost<Seq<(Seq<char>, Seq<char>)>>,
)
    requires
        tally_ok(old(st)@, seen),
        seen.len() < i64::MAX,
    ensures
        tally_ok(final(st)@, seen.push((label@, kind@))),
{
    let ghost k = (label@, kind@);
    let ghost s2 = seen.push(k);
    let ghost before = st@;
    let mut p: usize = 0;
    while p < st.len() && pair_less(&st[p].0, &st[p].1, &label, &kind)
        invariant
            p <= st.len(),
            st@ == before,
            k == (label@, kind@),
            forall|j: int| 0 <= j < p ==> pair_lt(stat_key(#[trigger] before[j]), k),
        decreases st.len() - p,
    {
        p += 1;
    }
    if p < st.len() && chars_eq(&st[p].0, &label) && chars_eq(&st[p].1, &kind) {
        proof {
            lemma_key_count_le(seen, k);
        }
        let l = st[p].0.clone();
        let t = st[p].1.clone();
        let c = st[p].2;
        st.set(p, (l, t, c + 1));
        proof {
            assert forall|i: int, j: int| 0 <= i < j < st@.len() implies pair_lt(
                stat_key(#[trigger] st@[i]),
                stat_key(#[trigger] st@[j]),
            ) by {
                assert(stat_key(st@[i]) == stat_key(before[i]));
                assert(stat_key(st@[j]) == stat_key(before[j]));
            }
            assert forall|i: int| 0 <= i < st@.len() implies #[trigger] st@[i].2 == key_count(
                s2,
                stat_key(st@[i]),
            ) && st@[i].2 > 0 by {
                lemma_key_count_push(seen, k, stat_key(st@[i]));
                if i != p {
                    assert(st@[i] == before[i]);
                    if stat_key(before[i]) == k {
                        if i < p {
                            lemma_pair_lt_irreflexive(k);
                        } else {
                            assert(pair_lt(stat_key(before[p as int]), stat_key(before[i])));
                            lemma_pair_lt_irreflexive(k);
                        }
                    }
                }
            }
            assert forall|w: (Seq<char>, Seq<char>)| key_count(s2, w) > 0 implies exists|i: int|
                0 <= i < st@.len() && stat_key(#[trigger] st@[i]) == w by {
                lemma_key_count_push(seen, k, w);
                if w == k {
                    assert(stat_key(st@[p as int]) == w);
                } else {
                    let i = choose|i: int| 0 <= i < before.len() && stat_key(#[trigger] before[i]) == w;
                    assert(stat_key(st@[i]) == w);
                }
            }
        }
        return;
    }
    proof {
        if p < st.len() {
            lemma_pair_lt_total(stat_key(before[p as int]), k);
            assert(pair_lt(k, stat_key(before[p as int])));
        }
        if key_count(seen, k) > 0 {
            let i = choose|i: int| 0 <= i < before.len() && stat_key(#[trigger] before[i]) == k;
            if i < p {
                lemma_pair_lt_irreflexive(k);
            } else if i == p {
            } else {
                lemma_pair_lt_transitive(k, stat_key(before[p as int]), stat_key(before[i]));
                lemma_pair_lt_irreflexive(k);
            }
        }
    }
    st.insert(p, (label, kind, 1));
    proof {
        let after = st@;
        assert(after =~= before.insert(p as int, after[p as int]));
        assert forall|i: int, j: int| 0 <= i < j < after.len() implies pair_lt(
            stat_key(#[trigger] after[i]),
            stat_key(#[trigger] after[j]),
        ) by {
            if j < p {
            } else if j == p {
            } else if i < p {
                if j == p + 1 {
                    lemma_pair_lt_transitive(stat_key(before[i]), k, stat_key(before[j - 1]));
                } else {
                    lemma_pair_lt_transitive(stat_key(before[i]), k, stat_key(before[p as int]));
                    lemma_pair_lt_transitive(
                        stat_key(before[i]),
                        stat_key(before[p as int]),
                        stat_key(before[j - 1]),
                    );
                }
            } else if i == p {
                if j - 1 == p {
                } else {
                    lemma_pair_lt_transitive(k, stat_key(before[p as int]), stat_key(before[j - 1]));
                }
            } else {
            }
        }
        assert forall|i: int| 0 <= i < after.len() implies #[trigger] after[i].2 == key_count(
            s2,
            stat_key(after[i]),
        ) && after[i].2 > 0 by {
            lemma_key_count_push(seen, k, stat_key(after[i]));
            if i < p {
                assert(after[i] == before[i]);
                if stat_key(before[i]) == k {
                    lemma_pair_lt_irreflexive(k);
                }
            } else if i > p {
                assert(after[i] == before[i - 1]);
                if stat_key(before[i - 1]) == k {
                    if i - 1 == p {
                        lemma_pair_lt_irreflexive(k);
                    } else {
                        lemma_pair_lt_transitive(k, stat_key(before[p as int]), stat_key(before[i - 1]));
                        lemma_pair_lt_irreflexive(k);
                    }
                }
            }
        }
        assert forall|w: (Seq<char>, Seq<char>)| key_count(s2, w) > 0 implies exists|i: int|
            0 <= i < after.len() && stat_key(#[trigger] after[i]) == w by {
            lemma_key_count_push(seen, k, w);
            if w == k {
                assert(stat_key(after[p as int]) == w);
            } else {
                let i = choose|i: int| 0 <= i < before.len() && stat_key(#[trigger] before[i]) == w;
                if i < p {
                    assert(stat_key(after[i]) == w);
                } else {
                    assert(stat_key(after[i + 1]) == w);
                }
            }
        }
    }
}

fn source_key_of(clip: &Clip) -> (r: (Vec<char>, Vec<char>))
    ensures
        (r.0@, r.1@) == source_key(*clip),
{
    let url = match &clip.source_url {
        Some(u) => trim_str(u.as_str()),
        None => Vec::new(),
    };
    let app = match &clip.app_name {
        Some(a) => trim_str(a.as_str()),
        None => Vec::new(),
    };
    if url.len() > 0 {
        (domain(&url), chars_of("web"))
    } else if app.len() > 0 && !eq_str(&ascii_lower(&app), "unknown") {
        (app, chars_of("app"))
    } else {
        (chars_of("Source unavailable"), chars_of("unavailable"))
    }
}

/// `stats` are the sources of `clips` in order, each once, with how many
/// clips came from it.
pub open spec fn is_breakdown(stats: Seq<SourceStat>, clips: Seq<Clip>) -> bool {
    let keys = source_keys(clips);
    &&& forall|i: int, j: int|
        0 <= i < j < stats.len() ==> pair_lt(
            (#[trigger] stats[i].label@, stats[i].source_type@),
            (#[trigger] stats[j].label@, stats[j].source_type@),
        )
    &&& forall|i: int|
        0 <= i < stats.len() ==> #[trigger] stats[i].count == key_count(
            keys,
            (stats[i].label@, stats[i].source_type@),
        ) && stats[i].count > 0
    &&& forall|k: (Seq<char>, Seq<char>)|
        key_count(keys, k) > 0 ==> exists|i: int|
            0 <= i < stats.len() && (#[trigger] stats[i].label@, stats[i].source_type@) == k
}

/// How many of the clips came from each source, sources in order.
pub fn source_breakdown(clips: &Vec<Clip>) -> (r: Vec<SourceStat>)
    requires
        clips.len() < i64::MAX,
    ensures
        is_breakdown(r@, clips@),
{
    let mut st: Vec<(Vec<char>, Vec<char>, i64)> = Vec::new();
    let mut i: usize = 0;
    assert(source_keys(clips@.take(0)) =~= seq![]);
    while i < clips.len()
        invariant
            i <= clips.len() < i64::MAX,
            tally_ok(st@, source_keys(clips@.take(i as int))),
        decreases clips.len() - i,
    {
        let (label, kind) = source_key_of(&clips[i]);
        assert(source_keys(clips@.take(i + 1)) =~= source_keys(clips@.take(i as int)).push(
            (label@, kind@),
        ));
        tally(&mut st, label, kind, Ghost(source_keys(clips@.take(i as int))));
        i += 1;
    }
    assert(clips@.take(i as int) =~= clips@);
    let ghost keys = source_keys(clips@);
    let mut out: Vec<SourceStat> = Vec::new();
    let mut j: usize = 0;
    while j < st.len()
        invariant
            j <= st.len(),
            tally_ok(st@, keys),
            out@.len() == j,
            forall|k: int|
                0 <= k < j ==> (#[trigger] out@[k]).label@ == st@[k].0@ && out@[k].source_type@
                    == st@[k].1@ && out@[k].count == st@[k].2,
        decreases st.len() - j,
    {
        out.push(
            SourceStat {
                label: string_of(&st[j].0),
                count: st[j].2,
                source_type: string_of(&st[j].1),
            },
        );
        j += 1;
    }
    proof {
        assert forall|i: int, j: int| 0 <= i < j < out@.len() implies pair_lt(
            (#[trigger] out@[i].label@, out@[i].source_type@),
            (#[trigger] out@[j].label@, out@[j].source_type@),
        ) by {
            assert(pair_lt(stat_key(st@[i]), stat_key(st@[j])));
        }
        assert forall|i: int| 0 <= i < out@.len() implies #[trigger] out@[i].count == key_count(
            keys,
            (out@[i].label@, out@[i].source_type@),
        ) && out@[i].count > 0 by {
            assert(st@[i].2 == key_count(keys, stat_key(st@[i])));
        }
        assert forall|k: (Seq<char>, Seq<char>)| key_count(keys, k) > 0 implies exists|i: int|
            0 <= i < out@.len() && (#[trigger] out@[i].label@, out@[i].source_type@) == k by {
            let i = choose|i: int| 0 <= i < st@.len() && stat_key(#[trigger] st@[i]) == k;
            assert((out@[i].label@, out@[i].source_type@) == k);
        }
    }
    out
}

// ---------------------------------------------------------------------------
// Clip context
// ---------------------------------------------------------------------------

/// Tags read from the lower-cased text, in a fixed order.
pub open spec fn spec_infer_tags(lower: Seq<char>) -> Seq<Seq<char>> {
    let react = spec_contains(lower, "usestate"@) || spec_contains(lower, "useeffect"@)
        || spec_contains(lower, "react"@);
    let asyn = spec_contains(lower, "async"@) || spec_contains(lower, "await"@) || spec_contains(
        lower,
        "asyncio"@,
    );
    let docker = spec_contains(lower, "docker"@) || spec_contains(lower, "compose"@)
        || spec_contains(lower, "kubernetes"@);
    let sql = spec_contains(lower, "select "@) || spec_contains(lower, "insert "@) || spec_contains(
        lower,
        " join "@,
    );
    let auth = spec_contains(lower, "oauth"@) || spec_contains(lower, "jwt"@) || spec_contains(
        lower,
        "bearer"@,
    );
    let python = spec_contains(lower, "def "@) || spec_contains(lower, "import "@)
        || spec_contains(lower, "class "@);
    (if react { seq!["react"@] } else { seq![] }) + (if asyn { seq!["async"@] } else { seq![] }) + (
    if docker { seq!["docker"@] } else { seq![] }) + (if sql { seq!["sql"@] } else { seq![] }) + (
    if auth { seq!["auth"@] } else { seq![] }) + (if python { seq!["python"@] } else { seq![] })
}

fn push_tag(tags: &mut Vec<String>, on: bool, tag: &str)
    ensures
        views(final(tags)@) == views(old(tags)@) + if on {
            seq![tag@]
        } else {
            seq![]
        },
{
    let ghost before = tags@;
    if on {
        tags.push(string_of(&chars_of(tag)));
        assert(views(tags@) =~= views(before) + seq![tag@]);
    } else {
        assert(views(tags@) =~= views(before) + seq![]);
    }
}

/// Topic tags for a clip, from words in its lower-cased text.
pub fn infer_tags(content: &str) -> (r: Vec<String>)
    ensures
        views(r@) == spec_infer_tags(spec_to_lowercase(content@)),
{
    let lower = chars_of(to_lowercase(content).as_str());
    let mut tags: Vec<String> = Vec::new();
    assert(views(tags@) =~= seq![]);
    push_tag(
        &mut tags,
        contains_str(&lower, "usestate") || contains_str(&lower, "useeffect") || contains_str(
            &lower,
            "react",
        ),
        "react",
    );
    push_tag(
        &mut tags,
        contains_str(&lower, "async") || contains_str(&lower, "await") || contains_str(
            &lower,
            "asyncio",
        ),
        "async",
    );
    push_tag(
        &mut tags,
        contains_str(&lower, "docker") || contains_str(&lower, "compose") || contains_str(
            &lower,
            "kubernetes",
        ),
        "docker",
    );
    push_tag(
        &mut tags,
        contains_str(&lower, "select ") || contains_str(&lower, "insert ") || contains_str(
            &lower,
            " join ",
        ),
        "sql",
    );
    push_tag(
        &mut tags,
        contains_str(&lower, "oauth") || contains_str(&lower, "jwt") || contains_str(
            &lower,
            "bearer",
        ),
        "auth",
    );
    push_tag(
        &mut tags,
        contains_str(&lower, "def ") || contains_str(&lower, "import ") || contains_str(
            &lower,
            "class ",
        ),
        "python",
    );
    assert(views(tags@) =~= spec_infer_tags(lower@));
    tags
}

/// The likely purpose named by the strongest tag.
pub open spec fn spec_purpose(tags: Seq<Seq<char>>) -> Seq<char> {
    if tags.contains("auth"@) {
        "Implementing authentication flow"@
    } else if tags.contains("docker"@) {
        "Configuring container infrastructure"@
    } else if tags.contains("sql"@) {
        "Writing database queries"@
    } else if tags.contains("react"@) {
        "Building React component logic"@
    } else if tags.contains("async"@) {
        "Researching async patterns"@
    } else {
        "General reference"@
    }
}

/// What a clip is likely for, from its inferred tags.
pub fn infer_purpose(content: &str) -> (r: &'static str)
    ensures
        r@ == spec_purpose(spec_infer_tags(spec_to_lowercase(content@))),
{
    let tags = infer_tags(content);
    if crate::text::list_contains(&tags, &chars_of("auth")) {
        "Implementing authentication flow"
    } else if crate::text::list_contains(&tags, &chars_of("docker")) {
        "Configuring container infrastructure"
    } else if crate::text::list_contains(&tags, &chars_of("sql")) {
        "Writing database queries"
    } else if crate::text::list_contains(&tags, &chars_of("react")) {
        "Building React component logic"
    } else if crate::text::list_contains(&tags, &chars_of("async")) {
        "Researching async patterns"
    } else {
        "General reference"
    }
}

/// Where a clip came from: its page title, else its URL's domain, else its
/// app, else "Unknown source".
pub open spec fn spec_source_label(
    page_title: Option<Seq<char>>,
    app_name: Option<Seq<char>>,
    source_url: Option<Seq<char>>,
) -> Seq<char> {
    match page_title {
        Some(t) => t,
        None => match source_url {
            Some(u) => spec_domain(u),
            None => match app_name {
                Some(a) => a,
                None => "Unknown source"@,
            },
        },
    }
}

pub fn source_label(page_title: Option<&str>, app_name: Option<&str>, source_url: Option<&str>) -> (r:
    String)
    ensures
        r@ == spec_source_label(
            match page_title {
                Some(s) => Some(s@),
                None => None,
            },
            match app_name {
                Some(s) => Some(s@),
                None => None,
            },
            match source_url {
                Some(s) => Some(s@),
                None => None,
            },
        ),
{
    match page_title {
        Some(t) => string_of(&chars_of(t)),
        None => match source_url {
            Some(u) => string_of(&domain(&chars_of(u))),
            None => match app_name {
                Some(a) => string_of(&chars_of(a)),
                None => string_of(&chars_of("Unknown source")),
            },
        },
    }
}

/// The purpose member of stored clip context (`likely_purpose`, or when
/// that is missing `likelyPurpose`).
pub open spec fn purpose_field(v: JsonValue) -> Option<JsonValue> {
    match spec_get(v, "likely_purpose"@) {
        Some(x) => Some(x),
        None => spec_get(v, "likelyPurpose"@),
    }
}

/// The context of a clip: from its stored context where that is JSON, each
/// part falling back to what is inferred from the clip; otherwise inferred.
pub open spec fn clip_context_is(
    r: ClipContext,
    content: Seq<char>,
    page_title: Option<Seq<char>>,
    app_name: Option<Seq<char>>,
    source_url: Option<Seq<char>>,
    parsed: Option<JsonValue>,
) -> bool {
    let inferred_tags = spec_infer_tags(spec_to_lowercase(content));
    let inferred_purpose = spec_purpose(inferred_tags);
    let label = spec_source_label(page_title, app_name, source_url);
    match parsed {
        Some(v) => {
            &&& views(r.topic_tags@) == match spec_context_tags(Some(v)) {
                Some(t) => t,
                None => inferred_tags,
            }
            &&& r.source@ == match spec_as_text(spec_get(v, "source"@)) {
                Some(s) => s,
                None => label,
            }
            &&& r.likely_purpose@ == match spec_as_text(purpose_field(v)) {
                Some(s) => s,
                None => inferred_purpose,
            }
        },
        None => {
            &&& views(r.topic_tags@) == inferred_tags
            &&& r.source@ == label
            &&& r.likely_purpose@ == inferred_purpose
        },
    }
}

/// The context shown for a clip.
pub fn clip_context(
    content: &str,
    page_title: Option<&str>,
    app_name: Option<&str>,
    source_url: Option<&str>,
    ai_context: Option<&str>,
) -> (r: ClipContext)
    ensures
        clip_context_is(
            r,
            content@,
            match page_title {
                Some(s) => Some(s@),
                None => None,
            },
            match app_name {
                Some(s) => Some(s@),
                None => None,
            },
            match source_url {
                Some(s) => Some(s@),
                None => None,
            },
            match ai_context {
                Some(raw) => spec_json_parse(raw@),
                None => None,
            },
        ),
{
    let parsed = match ai_context {
        Some(raw) => json_parse(raw),
        None => None,
    };
    match parsed {
        Some(v) => {
            let tags = match context_tags(&v) {
                Some(t) => t,
                None => infer_tags(content),
            };
            let source = match v.get("source") {
                Some(s) => match s.as_text() {
                    Some(t) => t.clone(),
                    None => source_label(page_title, app_name, source_url),
                },
                None => source_label(page_title, app_name, source_url),
            };
            let field = match v.get("likely_purpose") {
                Some(x) => Some(x),
                None => v.get("likelyPurpose"),
            };
            let purpose = match field {
                Some(p) => match p.as_text() {
                    Some(t) => t.clone(),
                    None => string_of(&chars_of(infer_purpose(content))),
                },
                None => string_of(&chars_of(infer_purpose(content))),
            };
            ClipContext { source, likely_purpose: purpose, topic_tags: tags }
        },
        None => ClipContext {
            source: source_label(page_title, app_name, source_url),
            likely_purpose: string_of(&chars_of(infer_purpose(content))),
            topic_tags: infer_tags(content),
        },
    }
}

/// A preview of at most `max` characters, marked with "..." where cut.
pub fn preview(value: &str, max: usize) -> (r: String)
    ensures
        r@ == if value@.len() > max {
            value@.take(max as int) + "..."@
        } else {
            value@
        },
{
    let v = chars_of(value);
    if v.len() > max {
        string_of(&concat_str(&take_chars(&v, max), "..."))
    } else {
        string_of(&v)
    }
}

/// Related clips listed when the shell does not say, and the bounds.
pub const DEFAULT_RELATED_LIMIT: i64 = 5;

pub const MAX_RELATED_LIMIT: i64 = 20;

/// The number of related clips to list, held between 1 and 20.
pub fn related_limit(limit: Option<i64>) -> (r: i64)
    ensures
        ({
            let l = match limit {
                Some(l) => l,
                None => DEFAULT_RELATED_LIMIT,
            };
            r == if l < 1 {
                1
            } else if l > MAX_RELATED_LIMIT {
                MAX_RELATED_LIMIT
            } else {
                l
            }
        }),
{
    let l = match limit {
        Some(l) => l,
        None => DEFAULT_RELATED_LIMIT,
    };
    if l < 1 {
        1
    } else if l > MAX_RELATED_LIMIT {
        MAX_RELATED_LIMIT
    } else {
        l
    }
}

/// Sessions listed when the shell does not say, and the most it may ask for.
pub const DEFAULT_SESSION_LIMIT: i64 = 100;

pub const MAX_SESSION_LIMIT: i64 = 500;

/// The number of sessions to list, held between 1 and 500.
pub fn session_limit(limit: Option<i64>) -> (r: i64)
    ensures
        ({
            let l = match limit {
                Some(l) => l,
                None => DEFAULT_SESSION_LIMIT,
            };
            r == if l < 1 {
                1
            } else if l > MAX_SESSION_LIMIT {
                MAX_SESSION_LIMIT
            } else {
                l
            }
        }),
{
    let l = match limit {
        Some(l) => l,
        None => DEFAULT_SESSION_LIMIT,
    };
    if l < 1 {
        1
    } else if l > MAX_SESSION_LIMIT {
        MAX_SESSION_LIMIT
    } else {
        l
    }
}

} // verus!
