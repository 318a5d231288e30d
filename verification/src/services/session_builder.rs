//! Labels and summaries for research sessions, computed from the clips that a
//! session holds.

use vstd::prelude::*;

use crate::json::spec_json_print;
use crate::json::JsonValue;
use crate::json::json_print;
use crate::order::insert_sorted;
use crate::order::lemma_lt_asymmetric;
use crate::order::lemma_lt_irreflexive;
use crate::order::lemma_lt_total;
use crate::order::lemma_lt_transitive;
use crate::order::lt;
use crate::order::seq_lt;
use crate::order::strictly_sorted;
use crate::text::ascii_lower;
use crate::text::byte_len;
use crate::text::chars_eq;
use crate::text::chars_of;
use crate::text::eq_str;
use crate::text::find_from;
use crate::text::is_numeric;
use crate::text::matches_at;
use crate::text::occurs_at;
use crate::text::is_first_occurrence_from;
use crate::text::slice;
use crate::text::spec_ascii_lower;
use crate::text::spec_contains;
use crate::text::spec_is_numeric;
use crate::text::run_scan;
use crate::text::spec_runs;
use crate::text::spec_starts_with;
use crate::text::split_runs;
use crate::text::utf8_len;
use crate::text::word_sep;
use crate::text::Separator;
use crate::text::before_first;
use crate::text::before_first_exec;
use crate::text::first_index;
use crate::text::lemma_first_index;
use crate::text::spec_trim_start_matches;
use crate::text::trim_start_matches;
use crate::text::char_to_uppercase;
use crate::text::spec_char_to_uppercase;
use crate::text::spec_decimal;
use crate::text::spec_join;
use crate::text::spec_trim;
use crate::text::string_of;
use crate::text::concat;
use crate::text::concat_str;
use crate::text::decimal_i64;
use crate::text::join;
use crate::text::trim;
use crate::text::spec_take_chars;
use crate::json::views;
use crate::json::is_text_array;

verus! {

/// One clip of a session, as the session refresh reads it.
#[derive(Debug, Clone)]
pub struct SessionClip {
    pub content: String,
    pub app_name: Option<String>,
    pub source_url: Option<String>,
}

/// The label, summary and topic columns of a refreshed session.
#[derive(Debug, Clone)]
pub struct SessionDigest {
    pub label: String,
    pub summary: String,
    pub key_topics: Vec<String>,
    pub source_apps: Vec<String>,
    pub source_urls: Vec<String>,
    pub clip_count: i64,
}

// ---------------------------------------------------------------------------
// Domains
// ---------------------------------------------------------------------------

/// `s.split(pat).nth(1)`: the piece between the first and second occurrence of `pat`.
pub open spec fn second_piece(s: Seq<char>, pat: Seq<char>) -> Option<Seq<char>> {
    if spec_contains(s, pat) {
        Some(before_first(s.skip(first_index(s, pat) + pat.len()), pat))
    } else {
        None
    }
}

/// The host part of a URL, without leading `www.`: the text after `//` and
/// before the next `/`.
pub open spec fn spec_domain(url: Seq<char>) -> Seq<char> {
    let after = match second_piece(url, "//"@) {
        Some(p) => p,
        None => url,
    };
    spec_trim_start_matches(before_first(after, "/"@), "www."@)
}

/// The host of a URL without leading `www.`, as session labels and source
/// breakdowns show it.
pub fn domain(url: &Vec<char>) -> (r: Vec<char>)
    ensures
        r@ == spec_domain(url@),
{
    let sep = chars_of("//");
    let slash = chars_of("/");
    let after = match find_from(url, &sep, 0) {
        Some(i) => {
            proof {
                lemma_first_index(url@, sep@, i as int);
            }
            assert(i + sep.len() <= url.len());
            let rest = slice(url, i + sep.len(), url.len());
            assert(rest@ =~= url@.skip(i + sep@.len()));
            before_first_exec(&rest, &sep)
        },
        None => {
            assert(!spec_contains(url@, sep@)) by {
                if spec_contains(url@, sep@) {
                    let j = choose|j: int| occurs_at(url@, sep@, j);
                    assert(0 <= j);
                }
            }
            slice(url, 0, url.len())
        },
    };
    proof {
        assert(url@.subrange(0, url.len() as int) =~= url@);
    }
    let host = before_first_exec(&after, &slash);
    trim_start_matches(&host, "www.")
}

// ---------------------------------------------------------------------------
// Keywords
// ---------------------------------------------------------------------------

/// Words too common to name a topic.
pub open spec fn spec_is_stop_word(w: Seq<char>) -> bool {
    w == "a"@ || w == "an"@ || w == "and"@ || w == "as"@ || w == "at"@ || w == "be"@ || w
        == "by"@ || w == "class"@ || w == "const"@ || w == "def"@ || w == "for"@ || w == "from"@
        || w == "function"@ || w == "if"@ || w == "import"@ || w == "in"@ || w == "is"@ || w
        == "it"@ || w == "let"@ || w == "of"@ || w == "on"@ || w == "or"@ || w == "return"@ || w
        == "the"@ || w == "this"@ || w == "to"@ || w == "true"@ || w == "false"@ || w == "null"@
        || w == "undefined"@ || w == "var"@ || w == "with"@
}

fn is_stop_word(w: &Vec<char>) -> (r: bool)
    ensures
        r == spec_is_stop_word(w@),
{
    eq_str(w, "a") || eq_str(w, "an") || eq_str(w, "and") || eq_str(w, "as") || eq_str(w, "at")
        || eq_str(w, "be") || eq_str(w, "by") || eq_str(w, "class") || eq_str(w, "const")
        || eq_str(w, "def") || eq_str(w, "for") || eq_str(w, "from") || eq_str(w, "function")
        || eq_str(w, "if") || eq_str(w, "import") || eq_str(w, "in") || eq_str(w, "is")
        || eq_str(w, "it") || eq_str(w, "let") || eq_str(w, "of") || eq_str(w, "on") || eq_str(
        w,
        "or",
    ) || eq_str(w, "return") || eq_str(w, "the") || eq_str(w, "this") || eq_str(w, "to")
        || eq_str(w, "true") || eq_str(w, "false") || eq_str(w, "null") || eq_str(
        w,
        "undefined",
    ) || eq_str(w, "var") || eq_str(w, "with")
}

pub open spec fn all_numeric(w: Seq<char>) -> bool {
    forall|i: int| 0 <= i < w.len() ==> spec_is_numeric(#[trigger] w[i])
}

fn is_all_numeric(w: &Vec<char>) -> (r: bool)
    ensures
        r == all_numeric(w@),
{
    let mut i: usize = 0;
    while i < w.len()
        invariant
            i <= w.len(),
            forall|k: int| 0 <= k < i ==> spec_is_numeric(#[trigger] w@[k]),
        decreases w.len() - i,
    {
        if !is_numeric(w[i]) {
            return false;
        }
        i += 1;
    }
    true
}

/// A lower-cased word counts as a keyword: three bytes or more, no stop
/// word, and not made of digits alone.
pub open spec fn is_keyword(w: Seq<char>) -> bool {
    utf8_len(w) >= 3 && !spec_is_stop_word(w) && !all_numeric(w)
}

/// The keywords among lower-cased word runs, in order.
pub open spec fn keywords_of_runs(runs: Seq<Seq<char>>) -> Seq<Seq<char>>
    decreases runs.len(),
{
    if runs.len() == 0 {
        seq![]
    } else {
        let rest = keywords_of_runs(runs.drop_last());
        let w = spec_ascii_lower(runs.last());
        if is_keyword(w) {
            rest.push(w)
        } else {
            rest
        }
    }
}

/// The keywords of one clip's text: its runs of alphanumeric characters and
/// `_`, lower-cased in ASCII, that count as keywords.
pub open spec fn keywords_of(content: Seq<char>) -> Seq<Seq<char>> {
    keywords_of_runs(spec_runs(content, word_sep()))
}

/// All keywords of the clips, clip after clip.
pub open spec fn all_keywords(clips: Seq<SessionClip>) -> Seq<Seq<char>>
    decreases clips.len(),
{
    if clips.len() == 0 {
        seq![]
    } else {
        all_keywords(clips.drop_last()) + keywords_of(clips.last().content@)
    }
}

/// How many times `w` occurs in `s`.
pub open spec fn count_in(s: Seq<Seq<char>>, w: Seq<char>) -> nat
    decreases s.len(),
{
    if s.len() == 0 {
        0
    } else {
        count_in(s.drop_last(), w) + if s.last() == w {
            1nat
        } else {
            0nat
        }
    }
}

/// `a` ranks before `b` among the keywords `all`: more frequent, or as
/// frequent and alphabetically first.
pub open spec fn ranks_before(all: Seq<Seq<char>>, a: Seq<char>, b: Seq<char>) -> bool {
    count_in(all, a) > count_in(all, b) || (count_in(all, a) == count_in(all, b) && seq_lt(a, b))
}

/// `topics` are the `k` best-ranked keywords of `all` (fewer when `all`
/// has fewer distinct ones), best first.
pub open spec fn is_top_keywords(all: Seq<Seq<char>>, topics: Seq<Seq<char>>, k: nat) -> bool {
    &&& topics.len() <= k
    &&& forall|i: int| 0 <= i < topics.len() ==> count_in(all, #[trigger] topics[i]) > 0
    &&& forall|i: int, j: int|
        0 <= i < j < topics.len() ==> ranks_before(all, #[trigger] topics[i], #[trigger] topics[j])
    &&& forall|w: Seq<char>|
        count_in(all, w) > 0 && !topics.contains(w) ==> topics.len() == k && forall|i: int|
            0 <= i < topics.len() ==> ranks_before(all, #[trigger] topics[i], w)
}

proof fn lemma_count_in_le(s: Seq<Seq<char>>, w: Seq<char>)
    ensures
        count_in(s, w) <= s.len(),
    decreases s.len(),
{
    if s.len() > 0 {
        lemma_count_in_le(s.drop_last(), w);
    }
}

proof fn lemma_count_in_push(s: Seq<Seq<char>>, k: Seq<char>, w: Seq<char>)
    ensures
        count_in(s.push(k), w) == count_in(s, w) + if k == w {
            1nat
        } else {
            0nat
        },
{
    assert(s.push(k).drop_last() =~= s);
}

/// The characters of all the clips' texts together.
pub open spec fn total_chars(clips: Seq<SessionClip>) -> nat
    decreases clips.len(),
{
    if clips.len() == 0 {
        0
    } else {
        total_chars(clips.drop_last()) + clips.last().content@.len()
    }
}

/// Finished runs, and the open one if any, number at most the characters.
proof fn lemma_run_scan_len(s: Seq<char>, sep: spec_fn(char) -> bool)
    ensures
        run_scan(s, sep).0.len() + (if run_scan(s, sep).1.len() > 0 {
            1int
        } else {
            0int
        }) <= s.len(),
    decreases s.len(),
{
    if s.len() > 0 {
        lemma_run_scan_len(s.drop_last(), sep);
    }
}

proof fn lemma_keywords_of_runs_len(runs: Seq<Seq<char>>)
    ensures
        keywords_of_runs(runs).len() <= runs.len(),
    decreases runs.len(),
{
    if runs.len() > 0 {
        lemma_keywords_of_runs_len(runs.drop_last());
    }
}

/// A session has no more keywords than its texts have characters.
proof fn lemma_all_keywords_len(clips: Seq<SessionClip>)
    ensures
        all_keywords(clips).len() <= total_chars(clips),
    decreases clips.len(),
{
    if clips.len() > 0 {
        lemma_all_keywords_len(clips.drop_last());
        let c = clips.last().content@;
        lemma_run_scan_len(c, word_sep());
        lemma_keywords_of_runs_len(spec_runs(c, word_sep()));
    }
}

proof fn lemma_all_keywords_le(clips: Seq<SessionClip>, n: int)
    requires
        0 <= n <= clips.len(),
    ensures
        all_keywords(clips.take(n)).len() <= all_keywords(clips).len(),
    decreases clips.len(),
{
    if n < clips.len() {
        assert(clips.drop_last().take(n) =~= clips.take(n));
        lemma_all_keywords_le(clips.drop_last(), n);
    } else {
        assert(clips.take(n) =~= clips);
    }
}

/// The counting table: distinct keywords, each with its number of occurrences in `seen`.
pub open spec fn table_ok(table: Seq<(Vec<char>, usize)>, seen: Seq<Seq<char>>) -> bool {
    &&& forall|i: int, j: int|
        0 <= i < j < table.len() ==> #[trigger] table[i].0@ != #[trigger] table[j].0@
    &&& forall|i: int|
        0 <= i < table.len() ==> #[trigger] table[i].1 == count_in(seen, table[i].0@)
            && table[i].1 > 0
    &&& forall|w: Seq<char>|
        count_in(seen, w) > 0 ==> exists|i: int| 0 <= i < table.len() && #[trigger] table[i].0@ == w
}

/// Adds one occurrence of `k` to the counting table.
fn count_keyword(table: &mut Vec<(Vec<char>, usize)>, k: Vec<char>, Ghost(seen): Ghost<Seq<Seq<char>>>)
    requires
        table_ok(old(table)@, seen),
        seen.len() + 1 < usize::MAX,
    ensures
        table_ok(final(table)@, seen.push(k@)),
{
    let ghost s2 = seen.push(k@);
    let mut i: usize = 0;
    while i < table.len()
        invariant
            i <= table.len(),
            table@ == old(table)@,
            table_ok(table@, seen),
            seen.len() + 1 < usize::MAX,
            s2 == seen.push(k@),
            forall|j: int| 0 <= j < i ==> (#[trigger] table@[j]).0@ != k@,
        decreases table.len() - i,
    {
        if chars_eq(&table[i].0, &k) {
            proof {
                lemma_count_in_le(seen, k@);
            }
            let w = table[i].0.clone();
            let c = table[i].1;
            let ghost t0 = table@;
            table.set(i, (w, c + 1));
            proof {
                assert forall|j: int| 0 <= j < table@.len() implies #[trigger] table@[j].1
                    == count_in(s2, table@[j].0@) && table@[j].1 > 0 by {
                    lemma_count_in_push(seen, k@, table@[j].0@);
                    if j != i {
                        assert(table@[j] == t0[j]);
                    }
                }
                assert forall|w2: Seq<char>| count_in(s2, w2) > 0 implies exists|j: int|
                    0 <= j < table@.len() && #[trigger] table@[j].0@ == w2 by {
                    lemma_count_in_push(seen, k@, w2);
                    if w2 == k@ {
                        assert(table@[i as int].0@ == w2);
                    } else {
                        let j = choose|j: int| 0 <= j < t0.len() && #[trigger] t0[j].0@ == w2;
                        assert(table@[j].0@ == w2);
                    }
                }
                assert forall|a: int, b: int| 0 <= a < b < table@.len() implies #[trigger] table@[a].0@
                    != #[trigger] table@[b].0@ by {
                    assert(t0[a].0@ != t0[b].0@);
                }
            }
            return;
        }
        i += 1;
    }
    let ghost t0 = table@;
    proof {
        if count_in(seen, k@) > 0 {
            let j = choose|j: int| 0 <= j < t0.len() && #[trigger] t0[j].0@ == k@;
            assert(t0[j].0@ != k@);
        }
    }
    table.push((k, 1));
    proof {
        assert forall|j: int| 0 <= j < table@.len() implies #[trigger] table@[j].1 == count_in(
            s2,
            table@[j].0@,
        ) && table@[j].1 > 0 by {
            lemma_count_in_push(seen, k@, table@[j].0@);
            if j < t0.len() {
                assert(table@[j] == t0[j]);
            }
        }
        assert forall|w2: Seq<char>| count_in(s2, w2) > 0 implies exists|j: int|
            0 <= j < table@.len() && #[trigger] table@[j].0@ == w2 by {
            lemma_count_in_push(seen, k@, w2);
            if w2 == k@ {
                assert(table@[t0.len() as int].0@ == w2);
            } else {
                let j = choose|j: int| 0 <= j < t0.len() && #[trigger] t0[j].0@ == w2;
                assert(table@[j].0@ == w2);
            }
        }
        assert forall|a: int, b: int| 0 <= a < b < table@.len() implies #[trigger] table@[a].0@
            != #[trigger] table@[b].0@ by {
            if b < t0.len() {
                assert(t0[a].0@ != t0[b].0@);
            } else {
                assert(t0[a].0@ != k@);
            }
        }
    }
}

/// The keywords of one clip's text, counted into the table.
fn count_keywords_of(
    table: &mut Vec<(Vec<char>, usize)>,
    content: &Vec<char>,
    Ghost(seen): Ghost<Seq<Seq<char>>>,
    Ghost(bound): Ghost<nat>,
)
    requires
        table_ok(old(table)@, seen),
        seen.len() + keywords_of(content@).len() <= bound,
        bound < usize::MAX,
    ensures
        table_ok(final(table)@, seen + keywords_of(content@)),
{
    let runs = split_runs(content, Separator::NonWordChar);
    let ghost rs = runs@.map_values(|w: Vec<char>| w@);
    assert(rs == spec_runs(content@, word_sep()));
    let mut j: usize = 0;
    assert(keywords_of_runs(rs.take(0)) =~= seq![]);
    assert(seen + seq![] =~= seen);
    proof {
        lemma_keywords_prefix_le(rs, 0);
    }
    while j < runs.len()
        invariant
            j <= runs.len(),
            rs == runs@.map_values(|w: Vec<char>| w@),
            rs == spec_runs(content@, word_sep()),
            seen.len() + keywords_of_runs(rs).len() <= bound,
            bound < usize::MAX,
            table_ok(table@, seen + keywords_of_runs(rs.take(j as int))),
        decreases runs.len() - j,
    {
        assert(rs.take(j + 1).drop_last() =~= rs.take(j as int));
        let w = ascii_lower(&runs[j]);
        let n = byte_len(&w);
        proof {
            lemma_keywords_prefix_le(rs, j + 1);
        }
        if n >= 3 && !is_stop_word(&w) && !is_all_numeric(&w) {
            let ghost before = seen + keywords_of_runs(rs.take(j as int));
            count_keyword(table, w, Ghost(before));
            assert(before.push(w@) =~= seen + keywords_of_runs(rs.take(j + 1)));
        } else {
            proof {
                if n >= 3 {
                } else {
                    assert(utf8_len(w@) < 3);
                }
            }
        }
        j += 1;
    }
    assert(rs.take(j as int) =~= rs);
}

proof fn lemma_keywords_prefix_le(rs: Seq<Seq<char>>, n: int)
    requires
        0 <= n <= rs.len(),
    ensures
        keywords_of_runs(rs.take(n)).len() <= keywords_of_runs(rs).len(),
    decreases rs.len(),
{
    if n < rs.len() {
        assert(rs.drop_last().take(n) =~= rs.take(n));
        lemma_keywords_prefix_le(rs.drop_last(), n);
    } else {
        assert(rs.take(n) =~= rs);
    }
}

/// Entry `a` of the table ranks before entry `b`.
fn entry_before(a: &(Vec<char>, usize), b: &(Vec<char>, usize)) -> (r: bool)
    ensures
        r == (a.1 > b.1 || (a.1 == b.1 && seq_lt(a.0@, b.0@))),
{
    a.1 > b.1 || (a.1 == b.1 && lt(&a.0, &b.0))
}

/// The best-ranked keywords, at most `k`, best first.
fn top_keywords(table: &Vec<(Vec<char>, usize)>, k: usize, Ghost(all): Ghost<Seq<Seq<char>>>) -> (r:
    Vec<Vec<char>>)
    requires
        table_ok(table@, all),
    ensures
        is_top_keywords(all, r@.map_values(|w: Vec<char>| w@), k as nat),
{
    let mut picked: Vec<Vec<char>> = Vec::new();
    let mut taken: Vec<bool> = Vec::new();
    let mut t: usize = 0;
    while t < table.len()
        invariant
            t <= table.len(),
            taken@.len() == t,
            forall|i: int| 0 <= i < t ==> !(#[trigger] taken@[i]),
        decreases table.len() - t,
    {
        taken.push(false);
        t += 1;
    }
    let mut round: usize = 0;
    while round < k
        invariant
            table_ok(table@, all),
            taken@.len() == table@.len(),
            picked@.len() == round,
            round <= k,
            forall|i: int| #![trigger taken@[i]]
                0 <= i < table@.len() ==> (taken@[i] <==> picked@.map_values(
                    |w: Vec<char>| w@,
                ).contains(table@[i].0@)),
            forall|i: int|
                0 <= i < picked@.len() ==> count_in(all, #[trigger] picked@[i]@) > 0,
            forall|i: int, j: int|
                0 <= i < j < picked@.len() ==> ranks_before(all, #[trigger] picked@[i]@, #[trigger] picked@[j]@),
            forall|i: int, j: int|
                0 <= i < table@.len() && !taken@[i] && 0 <= j < picked@.len() ==> ranks_before(
                    all,
                    #[trigger] picked@[j]@,
                    #[trigger] table@[i].0@,
                ),
        decreases k - round,
    {
        let ghost pv = picked@.map_values(|w: Vec<char>| w@);
        let mut best: Option<usize> = None;
        let mut i: usize = 0;
        while i < table.len()
            invariant
                i <= table.len(),
                taken@.len() == table@.len(),
                table_ok(table@, all),
                match best {
                    Some(b) => b < i && !taken@[b as int] && forall|c: int|
                        0 <= c < i && !taken@[c] && c != b ==> ranks_before(
                            all,
                            table@[b as int].0@,
                            #[trigger] table@[c].0@,
                        ),
                    None => forall|c: int| 0 <= c < i ==> #[trigger] taken@[c],
                },
            decreases table.len() - i,
        {
            if !taken[i] {
                match best {
                    None => {
                        best = Some(i);
                    },
                    Some(b) => {
                        if entry_before(&table[i], &table[b]) {
                            proof {
                                assert forall|c: int|
                                    0 <= c < i + 1 && !taken@[c] && c != i implies ranks_before(
                                    all,
                                    table@[i as int].0@,
                                    #[trigger] table@[c].0@,
                                ) by {
                                    if c != b {
                                        assert(ranks_before(all, table@[b as int].0@, table@[c].0@));
                                        lemma_rank_transitive(
                                            all,
                                            table@[i as int].0@,
                                            table@[b as int].0@,
                                            table@[c].0@,
                                        );
                                    }
                                }
                            }
                            best = Some(i);
                        } else {
                            proof {
                                assert(table@[i as int].0@ != table@[b as int].0@);
                                lemma_rank_total(all, table@[i as int].0@, table@[b as int].0@);
                            }
                        }
                    },
                }
            }
            i += 1;
        }
        match best {
            None => {
                proof {
                    assert forall|w: Seq<char>| count_in(all, w) > 0 implies pv.contains(w) by {
                        let c = choose|c: int| 0 <= c < table@.len() && #[trigger] table@[c].0@ == w;
                        assert(taken@[c]);
                    }
                }
                return picked;
            },
            Some(b) => {
                let w = table[b].0.clone();
                let ghost old_taken = taken@;
                taken.set(b, true);
                picked.push(w);
                proof {
                    let pv2 = picked@.map_values(|w: Vec<char>| w@);
                    assert(pv2 =~= pv.push(table@[b as int].0@));
                    assert forall|c: int| #![trigger taken@[c]]
                        0 <= c < table@.len() implies (taken@[c] <==> pv2.contains(
                        table@[c].0@,
                    )) by {
                        if c == b {
                            assert(pv2[pv.len() as int] == table@[c].0@);
                        } else {
                            assert(old_taken[c] == taken@[c]);
                            if pv2.contains(table@[c].0@) {
                                let x = choose|x: int| 0 <= x < pv2.len() && pv2[x] == table@[c].0@;
                                if x == pv.len() {
                                    assert(table@[c].0@ != table@[b as int].0@);
                                } else {
                                    assert(pv[x] == table@[c].0@);
                                }
                            }
                            if old_taken[c] {
                                let x = choose|x: int| 0 <= x < pv.len() && pv[x] == table@[c].0@;
                                assert(pv2[x] == table@[c].0@);
                            }
                        }
                    }
                    assert(table@[b as int].1 > 0);
                    assert(count_in(all, table@[b as int].0@) > 0);
                    assert forall|x: int, y: int|
                        0 <= x < y < picked@.len() implies ranks_before(
                        all,
                        #[trigger] picked@[x]@,
                        #[trigger] picked@[y]@,
                    ) by {
                        if y == round {
                            assert(!old_taken[b as int]);
                        }
                    }
                    assert forall|c: int, j: int|
                        0 <= c < table@.len() && !taken@[c] && 0 <= j < picked@.len() implies ranks_before(
                        all,
                        #[trigger] picked@[j]@,
                        #[trigger] table@[c].0@,
                    ) by {
                        if j == round {
                            assert(c != b);
                        }
                    }
                }
                round += 1;
            },
        }
    }
    proof {
        let pv = picked@.map_values(|w: Vec<char>| w@);
        assert forall|w: Seq<char>| count_in(all, w) > 0 && !pv.contains(w) implies pv.len() == k
            && forall|i: int| 0 <= i < pv.len() ==> ranks_before(all, #[trigger] pv[i], w) by {
            let c = choose|c: int| 0 <= c < table@.len() && #[trigger] table@[c].0@ == w;
            assert(!taken@[c]);
            assert forall|i: int| 0 <= i < pv.len() implies ranks_before(all, #[trigger] pv[i], w) by {
                assert(ranks_before(all, picked@[i]@, table@[c].0@));
            }
        }
    }
    picked
}

proof fn lemma_rank_transitive(all: Seq<Seq<char>>, a: Seq<char>, b: Seq<char>, c: Seq<char>)
    requires
        ranks_before(all, a, b),
        ranks_before(all, b, c),
    ensures
        ranks_before(all, a, c),
{
    if count_in(all, a) == count_in(all, b) && count_in(all, b) == count_in(all, c) {
        lemma_lt_transitive(a, b, c);
    }
}

proof fn lemma_rank_total(all: Seq<Seq<char>>, a: Seq<char>, b: Seq<char>)
    requires
        a != b,
    ensures
        ranks_before(all, a, b) || ranks_before(all, b, a),
{
    lemma_lt_total(a, b);
}

// ---------------------------------------------------------------------------
// Labels
// ---------------------------------------------------------------------------

/// The app names of the clips that have one that is not blank.
pub open spec fn app_set(clips: Seq<SessionClip>) -> Set<Seq<char>>
    decreases clips.len(),
{
    if clips.len() == 0 {
        Set::empty()
    } else {
        let rest = app_set(clips.drop_last());
        match clips.last().app_name {
            Some(app) => if spec_trim(app@).len() > 0 {
                rest.insert(app@)
            } else {
                rest
            },
            None => rest,
        }
    }
}

/// The domains of the clips that have a source URL.
pub open spec fn domain_set(clips: Seq<SessionClip>) -> Set<Seq<char>>
    decreases clips.len(),
{
    if clips.len() == 0 {
        Set::empty()
    } else {
        let rest = domain_set(clips.drop_last());
        match clips.last().source_url {
            Some(url) => rest.insert(spec_domain(url@)),
            None => rest,
        }
    }
}

/// The first character upper-cased (`char::to_uppercase`), the rest kept.
pub open spec fn spec_title_case(w: Seq<char>) -> Seq<char> {
    if w.len() == 0 {
        w
    } else {
        spec_char_to_uppercase(w[0]) + w.drop_first()
    }
}

pub open spec fn title_cased(ws: Seq<Seq<char>>) -> Seq<Seq<char>> {
    ws.map_values(|w: Seq<char>| spec_title_case(w))
}

/// The session label: the first domain (or else the first app) and the two
/// leading topics.
pub open spec fn spec_session_label(
    apps: Seq<Seq<char>>,
    domains: Seq<Seq<char>>,
    topics: Seq<Seq<char>>,
) -> Seq<char> {
    let topic_label = spec_join(title_cased(spec_take_seq(topics, 2)), " & "@);
    let source: Option<Seq<char>> = if domains.len() > 0 {
        Some(domains[0])
    } else if apps.len() > 0 {
        Some(apps[0])
    } else {
        None
    };
    match source {
        Some(src) => if topic_label.len() > 0 {
            src + ": "@ + topic_label
        } else {
            src + ": Research"@
        },
        None => if topic_label.len() > 0 {
            topic_label + " research"@
        } else {
            "Research session"@
        },
    }
}

/// The session summary: clip count, apps and topics.
pub open spec fn spec_session_summary(
    count: int,
    apps: Seq<Seq<char>>,
    topics: Seq<Seq<char>>,
) -> Seq<char> {
    let apps_label = if apps.len() == 0 {
        "Unknown app"@
    } else {
        spec_join(apps, ", "@)
    };
    let topic_summary = if topics.len() == 0 {
        "general reference"@
    } else {
        spec_join(topics, ", "@)
    };
    spec_decimal(count) + " clips from "@ + apps_label + ". Key topics: "@ + topic_summary + "."@
}

pub open spec fn spec_take_seq(s: Seq<Seq<char>>, n: int) -> Seq<Seq<char>> {
    if s.len() <= n {
        s
    } else {
        s.take(n)
    }
}

pub open spec fn char_views(v: Seq<Vec<char>>) -> Seq<Seq<char>> {
    v.map_values(|w: Vec<char>| w@)
}

/// The first character of `w` upper-cased.
pub fn title_case(w: &Vec<char>) -> (r: Vec<char>)
    ensures
        r@ == spec_title_case(w@),
{
    if w.len() == 0 {
        slice(w, 0, 0)
    } else {
        let first = char_to_uppercase(w[0]);
        let rest = slice(w, 1, w.len());
        assert(rest@ =~= w@.drop_first());
        concat(&first, &rest)
    }
}

fn strings_of(v: &Vec<Vec<char>>) -> (r: Vec<String>)
    ensures
        views(r@) == char_views(v@),
{
    let mut out: Vec<String> = Vec::new();
    let mut i: usize = 0;
    while i < v.len()
        invariant
            i <= v.len(),
            out@.len() == i,
            views(out@) == char_views(v@.take(i as int)),
        decreases v.len() - i,
    {
        let ghost before = out@;
        out.push(string_of(&v[i]));
        proof {
            assert forall|k: int| 0 <= k < i + 1 implies views(out@)[k] == char_views(
                v@.take(i + 1),
            )[k] by {
                if k < i {
                    assert(views(before)[k] == char_views(v@.take(i as int))[k]);
                }
            }
        }
        i += 1;
        assert(views(out@) =~= char_views(v@.take(i as int)));
    }
    assert(v@.take(i as int) =~= v@);
    out
}

/// The label and summary of a session from its clips, oldest first: the two
/// best-ranked keywords, the first domain or app, and the clip count.
pub fn summarize_session(clips: &Vec<SessionClip>) -> (r: SessionDigest)
    requires
        clips.len() <= i64::MAX,
        total_chars(clips@) + 1 < usize::MAX,
    ensures
        r.clip_count == clips.len(),
        is_top_keywords(all_keywords(clips@), views(r.key_topics@), 4),
        strictly_sorted(views(r.source_apps@)),
        views(r.source_apps@).to_set() == app_set(clips@),
        strictly_sorted(views(r.source_urls@)),
        views(r.source_urls@).to_set() == domain_set(clips@),
        r.label@ == spec_session_label(
            views(r.source_apps@),
            views(r.source_urls@),
            views(r.key_topics@),
        ),
        r.summary@ == spec_session_summary(
            clips.len() as int,
            views(r.source_apps@),
            views(r.key_topics@),
        ),
        (exists|k: int|
            0 <= k < clips.len() && (#[trigger] clips@[k]).source_url is Some) ==> r.source_urls.len()
            > 0 && (views(r.source_urls@)[0] + ": "@).is_prefix_of(r.label@),
        (forall|k: int| 0 <= k < clips.len() ==> (#[trigger] clips@[k]).source_url is None) && (
        exists|k: int|
            0 <= k < clips.len() && has_named_app(#[trigger] clips@[k])) ==> r.source_apps.len() > 0
            && (views(r.source_apps@)[0] + ": "@).is_prefix_of(r.label@),
{
    let mut table: Vec<(Vec<char>, usize)> = Vec::new();
    let mut apps: Vec<Vec<char>> = Vec::new();
    let mut domains: Vec<Vec<char>> = Vec::new();
    let mut count: i64 = 0;
    let mut i: usize = 0;
    let ghost bound = all_keywords(clips@).len() + 1;
    proof {
        lemma_all_keywords_len(clips@);
    }
    assert(all_keywords(clips@.take(0)) =~= seq![]);
    assert(char_views(apps@) =~= seq![]);
    assert(char_views(domains@) =~= seq![]);
    assert(char_views(apps@).to_set() =~= Set::empty());
    assert(char_views(domains@).to_set() =~= Set::empty());
    while i < clips.len()
        invariant
            i <= clips.len(),
            count == i,
            clips.len() <= i64::MAX,
            bound == all_keywords(clips@).len() + 1,
            bound < usize::MAX,
            table_ok(table@, all_keywords(clips@.take(i as int))),
            strictly_sorted(char_views(apps@)),
            char_views(apps@).to_set() == app_set(clips@.take(i as int)),
            strictly_sorted(char_views(domains@)),
            char_views(domains@).to_set() == domain_set(clips@.take(i as int)),
        decreases clips.len() - i,
    {
        let ghost prefix = clips@.take(i + 1);
        assert(prefix.drop_last() =~= clips@.take(i as int));
        assert(prefix.last() == clips@[i as int]);
        count += 1;
        match &clips[i].app_name {
            Some(app) => {
                let a = chars_of(app.as_str());
                let t = trim(&a);
                if t.len() > 0 {
                    insert_sorted(&mut apps, a);
                }
            },
            None => {},
        }
        match &clips[i].source_url {
            Some(url) => {
                let u = chars_of(url.as_str());
                let d = domain(&u);
                insert_sorted(&mut domains, d);
            },
            None => {},
        }
        let content = chars_of(clips[i].content.as_str());
        proof {
            lemma_all_keywords_le(clips@, i + 1);
        }
        count_keywords_of(
            &mut table,
            &content,
            Ghost(all_keywords(clips@.take(i as int))),
            Ghost(bound),
        );
        i += 1;
    }
    assert(clips@.take(i as int) =~= clips@);
    let topics = top_keywords(&table, 4, Ghost(all_keywords(clips@)));
    let ghost tv = char_views(topics@);
    // Source of the label: the first domain, or else the first app.
    let n_lead: usize = if topics.len() < 2 {
        topics.len()
    } else {
        2
    };
    let mut lead: Vec<Vec<char>> = Vec::new();
    let mut k: usize = 0;
    while k < n_lead
        invariant
            k <= n_lead,
            n_lead <= topics.len(),
            tv == char_views(topics@),
            lead@.len() == k,
            char_views(lead@) == title_cased(tv.take(k as int)),
        decreases n_lead - k,
    {
        let ghost before = lead@;
        lead.push(title_case(&topics[k]));
        proof {
            assert forall|j: int| 0 <= j < k + 1 implies char_views(lead@)[j] == title_cased(
                tv.take(k + 1),
            )[j] by {
                if j < k {
                    assert(char_views(before)[j] == title_cased(tv.take(k as int))[j]);
                }
            }
        }
        k += 1;
        assert(char_views(lead@) =~= title_cased(tv.take(k as int)));
    }
    assert(tv.take(n_lead as int) =~= spec_take_seq(tv, 2));
    let topic_label = join(&lead, " & ");
    assert(char_views(lead@) == lead@.map_values(|w: Vec<char>| w@));
    let has_topics = topic_label.len() > 0;
    let label: Vec<char> = if domains.len() > 0 || apps.len() > 0 {
        let src = if domains.len() > 0 {
            slice(&domains[0], 0, domains[0].len())
        } else {
            slice(&apps[0], 0, apps[0].len())
        };
        proof {
            assert(domains.len() > 0 ==> src@ =~= char_views(domains@)[0]);
            assert(domains.len() == 0 ==> src@ =~= char_views(apps@)[0]);
        }
        if has_topics {
            let with_sep = concat_str(&src, ": ");
            concat(&with_sep, &topic_label)
        } else {
            concat_str(&src, ": Research")
        }
    } else if has_topics {
        concat_str(&topic_label, " research")
    } else {
        chars_of("Research session")
    };
    let apps_label = if apps.len() == 0 {
        chars_of("Unknown app")
    } else {
        join(&apps, ", ")
    };
    let topic_summary = if topics.len() == 0 {
        chars_of("general reference")
    } else {
        join(&topics, ", ")
    };
    let n = decimal_i64(count);
    let s1 = concat_str(&n, " clips from ");
    let s2 = concat(&s1, &apps_label);
    let s3 = concat_str(&s2, ". Key topics: ");
    let s4 = concat(&s3, &topic_summary);
    let summary = concat_str(&s4, ".");
    let key_topics = strings_of(&topics);
    let source_apps = strings_of(&apps);
    let source_urls = strings_of(&domains);
    proof {
        lemma_label_starts_with_source(char_views(apps@), char_views(domains@), char_views(topics@));
        lemma_sources_of_clips(clips@);
        let av = char_views(apps@);
        let dv = char_views(domains@);
        if exists|k: int| 0 <= k < clips.len() && (#[trigger] clips@[k]).source_url is Some {
            let d = choose|d: Seq<char>| domain_set(clips@).contains(d);
            assert(dv.to_set().contains(d));
        }
        if exists|k: int| 0 <= k < clips.len() && has_named_app(#[trigger] clips@[k]) {
            let a = choose|a: Seq<char>| app_set(clips@).contains(a);
            assert(av.to_set().contains(a));
        }
        if dv.len() > 0 {
            assert(dv.to_set().contains(dv[0]));
        }
    }
    SessionDigest {
        label: string_of(&label),
        summary: string_of(&summary),
        key_topics,
        source_apps,
        source_urls,
        clip_count: count,
    }
}

/// The JSON array of the strings, as `serde_json::to_string` prints it, or
/// `[]` where printing fails; how session columns store lists.
pub fn string_list_json(items: &Vec<String>) -> (r: String)
    ensures
        exists|v: JsonValue|
            is_text_array(v, views(items@)) && r@ == match spec_json_print(v) {
                Some(t) => t,
                None => "[]"@,
            },
{
    let mut values: Vec<JsonValue> = Vec::new();
    let mut i: usize = 0;
    while i < items.len()
        invariant
            i <= items.len(),
            values@.len() == i,
            forall|k: int| 0 <= k < i ==> #[trigger] values@[k] == JsonValue::Text(items@[k]),
        decreases items.len() - i,
    {
        values.push(JsonValue::Text(items[i].clone()));
        i += 1;
    }
    let v = JsonValue::Array(values);
    assert(is_text_array(v, views(items@)));
    let r = match json_print(&v) {
        Some(t) => t,
        None => {
            let e = chars_of("[]");
            string_of(&e)
        },
    };
    r
}

/// Every session gets a label, whatever its clips.
pub proof fn lemma_session_label_nonempty(
    apps: Seq<Seq<char>>,
    domains: Seq<Seq<char>>,
    topics: Seq<Seq<char>>,
)
    ensures
        spec_session_label(apps, domains, topics).len() > 0,
{
    reveal_strlit(": ");
    reveal_strlit(": Research");
    reveal_strlit(" research");
    reveal_strlit("Research session");
}


/// A clip with an app name that is not blank.
pub open spec fn has_named_app(c: SessionClip) -> bool {
    c.app_name matches Some(a) && spec_trim(a@).len() > 0
}

/// A session has a domain exactly when one of its clips has a source URL, and
/// has an app when one of its clips has a named app.
pub proof fn lemma_sources_of_clips(clips: Seq<SessionClip>)
    ensures
        (exists|d: Seq<char>| domain_set(clips).contains(d)) <==> exists|k: int|
            0 <= k < clips.len() && (#[trigger] clips[k]).source_url is Some,
        (exists|k: int| 0 <= k < clips.len() && has_named_app(#[trigger] clips[k])) ==> exists|
            a: Seq<char>,
        | app_set(clips).contains(a),
    decreases clips.len(),
{
    if clips.len() > 0 {
        let init = clips.drop_last();
        lemma_sources_of_clips(init);
        let last = clips.len() - 1;
        assert(clips[last] == clips.last());
        if exists|k: int| 0 <= k < init.len() && (#[trigger] init[k]).source_url is Some {
            let k = choose|k: int| 0 <= k < init.len() && (#[trigger] init[k]).source_url is Some;
            assert(clips[k] == init[k]);
            let d = choose|d: Seq<char>| domain_set(init).contains(d);
            assert(domain_set(clips).contains(d));
        }
        if exists|k: int| 0 <= k < clips.len() && (#[trigger] clips[k]).source_url is Some {
            if clips.last().source_url is None {
                let k = choose|k: int| 0 <= k < clips.len() && (#[trigger] clips[k]).source_url is Some;
                assert(init[k] == clips[k]);
            } else {
                assert(domain_set(clips).contains(spec_domain(clips.last().source_url->0@)));
            }
        }
        if exists|d: Seq<char>| domain_set(clips).contains(d) {
            if clips.last().source_url is None {
                assert(domain_set(clips) == domain_set(init));
                let k = choose|k: int| 0 <= k < init.len() && (#[trigger] init[k]).source_url is Some;
                assert(clips[k] == init[k]);
            }
        }
        if exists|k: int| 0 <= k < clips.len() && has_named_app(#[trigger] clips[k]) {
            if has_named_app(clips.last()) {
                assert(app_set(clips).contains(clips.last().app_name->0@));
            } else {
                let k = choose|k: int| 0 <= k < clips.len() && has_named_app(#[trigger] clips[k]);
                assert(init[k] == clips[k]);
                let a = choose|a: Seq<char>| app_set(init).contains(a);
                assert(app_set(clips).contains(a));
            }
        }
    }
}

/// Joined pieces begin with the first piece.
proof fn lemma_join_starts_with_first(parts: Seq<Seq<char>>, sep: Seq<char>)
    requires
        parts.len() > 0,
    ensures
        parts[0].is_prefix_of(spec_join(parts, sep)),
    decreases parts.len(),
{
    if parts.len() > 1 {
        let init = parts.drop_last();
        lemma_join_starts_with_first(init, sep);
        assert(init[0] == parts[0]);
        let j = spec_join(parts, sep);
        assert(j == spec_join(init, sep) + sep + parts.last());
        assert(parts[0] =~= j.subrange(0, parts[0].len() as int));
    }
}

/// After its source, a label leads with the best-ranked topic, title-cased;
/// without a source it starts with that topic.  (Title-casing upper-cases the
/// first character by `char::to_uppercase`, whose result is named, so the law
/// is stated for topics whose title-cased form is not empty.)
pub proof fn lemma_label_leads_with_top_topic(
    apps: Seq<Seq<char>>,
    domains: Seq<Seq<char>>,
    topics: Seq<Seq<char>>,
)
    requires
        topics.len() > 0,
        spec_title_case(topics[0]).len() > 0,
    ensures
        domains.len() > 0 ==> (domains[0] + ": "@ + spec_title_case(topics[0])).is_prefix_of(
            spec_session_label(apps, domains, topics),
        ),
        domains.len() == 0 && apps.len() > 0 ==> (apps[0] + ": "@ + spec_title_case(
            topics[0],
        )).is_prefix_of(spec_session_label(apps, domains, topics)),
        domains.len() == 0 && apps.len() == 0 ==> spec_title_case(topics[0]).is_prefix_of(
            spec_session_label(apps, domains, topics),
        ),
{
    let lead = title_cased(spec_take_seq(topics, 2));
    assert(lead[0] == spec_title_case(topics[0]));
    lemma_join_starts_with_first(lead, " & "@);
    let tl = spec_join(lead, " & "@);
    assert(tl.len() > 0);
    let label = spec_session_label(apps, domains, topics);
    if domains.len() > 0 || apps.len() > 0 {
        let src = if domains.len() > 0 {
            domains[0]
        } else {
            apps[0]
        };
        let p = src + ": "@ + spec_title_case(topics[0]);
        assert(label == src + ": "@ + tl);
        assert(p =~= label.subrange(0, p.len() as int));
    } else {
        let p = spec_title_case(topics[0]);
        assert(label == tl + " research"@);
        assert(p =~= label.subrange(0, p.len() as int));
    }
}

/// A label names its source first, followed by `: `: the first domain when
/// there is one, otherwise the first app.
pub proof fn lemma_label_starts_with_source(
    apps: Seq<Seq<char>>,
    domains: Seq<Seq<char>>,
    topics: Seq<Seq<char>>,
)
    ensures
        domains.len() > 0 ==> (domains[0] + ": "@).is_prefix_of(
            spec_session_label(apps, domains, topics),
        ),
        domains.len() == 0 && apps.len() > 0 ==> (apps[0] + ": "@).is_prefix_of(
            spec_session_label(apps, domains, topics),
        ),
{
    reveal_strlit(": ");
    reveal_strlit(": Research");
    let label = spec_session_label(apps, domains, topics);
    if domains.len() > 0 || apps.len() > 0 {
        let src = if domains.len() > 0 {
            domains[0]
        } else {
            apps[0]
        };
        let p = src + ": "@;
        assert(p =~= label.subrange(0, p.len() as int));
    }
}

} // verus!
