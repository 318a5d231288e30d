//! Query preparation for hybrid search: the normalised query, whether it
//! looks like code, and the full-text query.

use vstd::prelude::*;

use crate::json::views;
use crate::text::byte_len;
use crate::text::chars_of;
use crate::text::concat;
use crate::text::concat_str;
use crate::text::contains_str;
use crate::text::is_ascii_alphanumeric;
use crate::text::join;
use crate::text::replace_str;
use crate::text::spec_contains;
use crate::text::spec_is_ascii_alphanumeric;
use crate::text::spec_join;
use crate::text::spec_replace;
use crate::text::spec_to_lowercase;
use crate::text::spec_words;
use crate::text::split_whitespace;
use crate::text::string_of;
use crate::text::to_lowercase;
use crate::text::trim_str;
use crate::text::utf8_len;

verus! {

/// The query rewritten for matching: lower-cased, aliases expanded, filler
/// words blanked out, white space collapsed.
pub open spec fn spec_preprocess_query(query: Seq<char>) -> Seq<char> {
    let lower = spec_to_lowercase(query);
    let aliased = spec_replace(
        spec_replace(lower, "k8s"@, "kubernetes"@),
        "react hooks"@,
        "useState useEffect"@,
    );
    let blanked = spec_replace(
        spec_replace(
            spec_replace(
                spec_replace(
                    spec_replace(spec_replace(aliased, "find"@, " "@), "that"@, " "@),
                    "the"@,
                    " "@,
                ),
                "i copied"@,
                " "@,
            ),
            "show me"@,
            " "@,
        ),
        "please"@,
        " "@,
    );
    spec_join(spec_words(blanked), " "@)
}

pub fn preprocess_query(query: &str) -> (r: String)
    ensures
        r@ == spec_preprocess_query(query@),
{
    proof {
        reveal_strlit("k8s");
        reveal_strlit("react hooks");
        reveal_strlit("find");
        reveal_strlit("that");
        reveal_strlit("the");
        reveal_strlit("i copied");
        reveal_strlit("show me");
        reveal_strlit("please");
    }
    let lower = chars_of(to_lowercase(query).as_str());
    let a = replace_str(&lower, "k8s", "kubernetes");
    let a = replace_str(&a, "react hooks", "useState useEffect");
    let b = replace_str(&a, "find", " ");
    let b = replace_str(&b, "that", " ");
    let b = replace_str(&b, "the", " ");
    let b = replace_str(&b, "i copied", " ");
    let b = replace_str(&b, "show me", " ");
    let b = replace_str(&b, "please", " ");
    let words = split_whitespace(&b);
    string_of(&join(&words, " "))
}

/// A character that counts toward a query looking like code.
pub open spec fn is_code_symbol(c: char) -> bool {
    c == '{' || c == '}' || c == '(' || c == ')' || c == '[' || c == ']' || c == ';' || c == '='
        || c == '>' || c == '<' || c == ':' || c == '!'
}

pub open spec fn symbol_count(s: Seq<char>) -> nat
    decreases s.len(),
{
    if s.len() == 0 {
        0
    } else {
        symbol_count(s.drop_last()) + if is_code_symbol(s.last()) {
            1nat
        } else {
            0nat
        }
    }
}

/// A query looks like code: two code symbols or more, a code keyword, or a
/// single word of three bytes or more.
pub open spec fn spec_is_code_query(q: Seq<char>) -> bool {
    symbol_count(q) >= 2 || spec_contains(q, "def "@) || spec_contains(q, "fn "@) || spec_contains(
        q,
        "func "@,
    ) || spec_contains(q, "class "@) || spec_contains(q, "import "@) || spec_contains(
        q,
        "require"@,
    ) || spec_contains(q, "const "@) || (!spec_contains(q, " "@) && utf8_len(q) >= 3)
}

pub fn is_code_query(query: &str) -> (r: bool)
    ensures
        r == spec_is_code_query(query@),
        (spec_contains(query@, "def "@) || spec_contains(query@, "fn "@) || spec_contains(query@, "func "@) || spec_contains(query@, "class "@) || spec_contains(query@, "import "@) || spec_contains(query@, "require"@) || spec_contains(query@, "const "@)) ==> r,
{
    let q = chars_of(query);
    let mut count: usize = 0;
    let mut i: usize = 0;
    while i < q.len()
        invariant
            i <= q.len(),
            count == symbol_count(q@.take(i as int)),
            count <= i,
        decreases q.len() - i,
    {
        assert(q@.take(i + 1).drop_last() =~= q@.take(i as int));
        let c = q[i];
        if c == '{' || c == '}' || c == '(' || c == ')' || c == '[' || c == ']' || c == ';' || c
            == '=' || c == '>' || c == '<' || c == ':' || c == '!' {
            count += 1;
        }
        i += 1;
    }
    assert(q@.take(i as int) =~= q@);
    let n = byte_len(&q);
    count >= 2 || contains_str(&q, "def ") || contains_str(&q, "fn ") || contains_str(&q, "func ")
        || contains_str(&q, "class ") || contains_str(&q, "import ") || contains_str(&q, "require")
        || contains_str(&q, "const ") || (!contains_str(&q, " ") && n >= 3)
}

/// The query as one quoted full-text phrase, inner quotes doubled.
pub fn quote_fts(query: &str) -> (r: String)
    ensures
        r@ == "\""@ + spec_replace(query@, "\""@, "\"\""@) + "\""@,
{
    proof {
        reveal_strlit("\"");
    }
    let q = replace_str(&chars_of(query), "\"", "\"\"");
    string_of(&concat_str(&concat(&chars_of("\""), &q), "\""))
}

pub open spec fn spec_valid_identifier(v: Seq<char>) -> bool {
    v.len() > 0 && forall|i: int| 0 <= i < v.len() ==> (spec_is_ascii_alphanumeric(#[trigger] v[i]) || v[i] == '_')
}

/// A name that is safe to splice into SQL: ASCII letters, digits and `_`.
pub fn valid_identifier(value: &str) -> (r: bool)
    ensures
        r == spec_valid_identifier(value@),
{
    let v = chars_of(value);
    if v.len() == 0 {
        return false;
    }
    let mut i: usize = 0;
    while i < v.len()
        invariant
            i <= v.len(),
            v@ == value@,
            forall|k: int| 0 <= k < i ==> (spec_is_ascii_alphanumeric(#[trigger] v@[k]) || v@[k] == '_'),
        decreases v.len() - i,
    {
        if !(is_ascii_alphanumeric(v[i]) || v[i] == '_') {
            assert(!(spec_is_ascii_alphanumeric(v@[i as int]) || v@[i as int] == '_'));
            return false;
        }
        i += 1;
    }
    true
}

/// The words of the normalised query that are two bytes or more, each quoted
/// with its own quotes removed.
pub open spec fn quoted_words(words: Seq<Seq<char>>) -> Seq<Seq<char>>
    decreases words.len(),
{
    if words.len() == 0 {
        seq![]
    } else {
        let rest = quoted_words(words.drop_last());
        if utf8_len(words.last()) >= 2 {
            rest.push("\""@ + spec_replace(words.last(), "\""@, seq![]) + "\""@)
        } else {
            rest
        }
    }
}

/// The full-text query: for a code query the whole normalised query as one
/// phrase; otherwise its words of two bytes or more as phrases joined by `OR`.
pub open spec fn spec_fts_query(normalized: Seq<char>, code: bool) -> Seq<char> {
    if code {
        "\""@ + spec_replace(normalized, "\""@, "\"\""@) + "\""@
    } else {
        spec_join(quoted_words(spec_words(normalized)), " OR "@)
    }
}

pub fn fts_query(normalized: &str, code: bool) -> (r: String)
    ensures
        r@ == spec_fts_query(normalized@, code),
{
    if code {
        return quote_fts(normalized);
    }
    proof {
        reveal_strlit("\"");
        reveal_strlit("");
    }
    let words = split_whitespace(&chars_of(normalized));
    let ghost ws = words@.map_values(|w: Vec<char>| w@);
    let mut quoted: Vec<Vec<char>> = Vec::new();
    let mut i: usize = 0;
    while i < words.len()
        invariant
            i <= words.len(),
            ws == words@.map_values(|w: Vec<char>| w@),
            quoted@.map_values(|w: Vec<char>| w@) == quoted_words(ws.take(i as int)),
        "\""@ == seq!['"'],
        ""@ == Seq::<char>::empty(),
        decreases words.len() - i,
    {
        assert(ws.take(i + 1).drop_last() =~= ws.take(i as int));
        let w = &words[i];
        if byte_len(w) >= 2 {
            let inner = replace_str(w, "\"", "");
            let q = concat_str(&concat(&chars_of("\""), &inner), "\"");
            quoted.push(q);
        }
        i += 1;
        assert(quoted@.map_values(|w: Vec<char>| w@) =~= quoted_words(ws.take(i as int)));
    }
    assert(ws.take(i as int) =~= ws);
    string_of(&join(&quoted, " OR "))
}

/// The full-text table: the trigram table for code queries.
pub fn fts_table(code: bool) -> (r: &'static str)
    ensures
        r@ == if code {
            "clips_fts_code"@
        } else {
            "clips_fts"@
        },
{
    if code {
        "clips_fts_code"
    } else {
        "clips_fts"
    }
}

/// How a search is logged: `keyword_code` for code queries, else `hybrid`.
pub fn query_type(code: bool) -> (r: &'static str)
    ensures
        r@ == if code {
            "keyword_code"@
        } else {
            "hybrid"@
        },
{
    if code {
        "keyword_code"
    } else {
        "hybrid"
    }
}

/// A query shorter than three bytes once trimmed lists recent clips instead.
pub fn is_short_query(query: &str) -> (r: bool)
    ensures
        r == (utf8_len(crate::text::spec_trim(query@)) < 3),
{
    let t = trim_str(query);
    byte_len(&t) < 3
}

/// How a result was found: both ways, semantically, or by keyword.
pub fn search_type(semantic: bool, exact: bool) -> (r: &'static str)
    ensures
        r@ == if semantic && exact {
            "hybrid"@
        } else if semantic {
            "semantic"@
        } else {
            "keyword"@
        },
{
    if semantic && exact {
        "hybrid"
    } else if semantic {
        "semantic"
    } else {
        "keyword"
    }
}

/// The vector table in use: the registered one, else `clips_embeddings`;
/// `None` where the name is not a plain identifier.
pub fn active_table_name(registered: Option<String>) -> (r: Option<String>)
    ensures
        match r {
            Some(t) => t@ == (match registered {
                Some(x) => x@,
                None => "clips_embeddings"@,
            }) && spec_valid_identifier(t@),
            None => !spec_valid_identifier(
                match registered {
                    Some(x) => x@,
                    None => "clips_embeddings"@,
                },
            ),
        },
{
    let table = match registered {
        Some(t) => t,
        None => string_of(&chars_of("clips_embeddings")),
    };
    if valid_identifier(table.as_str()) {
        Some(table)
    } else {
        None
    }
}

/// The results a reranker may reorder: the first five, or fewer.
pub const RERANK_TOP: usize = 5;

/// The reranker's picks that point into the top results, in its order.
pub open spec fn ranked_in_top(ranked: Seq<usize>, top: int) -> Seq<usize>
    decreases ranked.len(),
{
    if ranked.len() == 0 {
        seq![]
    } else {
        let rest = ranked_in_top(ranked.drop_last(), top);
        if ranked.last() < top {
            rest.push(ranked.last())
        } else {
            rest
        }
    }
}

/// The top positions below `n` that the reranker did not pick, in order.
pub open spec fn unpicked(n: int, ranked: Seq<usize>) -> Seq<usize>
    decreases n,
{
    if n <= 0 {
        seq![]
    } else {
        let rest = unpicked(n - 1, ranked);
        if ranked.contains((n - 1) as usize) {
            rest
        } else {
            rest.push((n - 1) as usize)
        }
    }
}

/// The new order of `total` results after the top `top` were reranked: the
/// picks first, then the top results it left out, then the rest as they were.
pub open spec fn spec_rerank_order(total: int, top: int, ranked: Seq<usize>) -> Seq<usize> {
    ranked_in_top(ranked, top) + unpicked(top, ranked) + Seq::new(
        (total - top) as nat,
        |k: int| (top + k) as usize,
    )
}

pub fn rerank_order(total: usize, top_count: usize, ranked: &Vec<usize>) -> (r: Vec<usize>)
    requires
        top_count <= total,
    ensures
        r@ == spec_rerank_order(total as int, top_count as int, ranked@),
{
    let mut out: Vec<usize> = Vec::new();
    let mut i: usize = 0;
    while i < ranked.len()
        invariant
            i <= ranked.len(),
            out@ == ranked_in_top(ranked@.take(i as int), top_count as int),
        decreases ranked.len() - i,
    {
        assert(ranked@.take(i + 1).drop_last() =~= ranked@.take(i as int));
        if ranked[i] < top_count {
            out.push(ranked[i]);
        }
        i += 1;
    }
    assert(ranked@.take(i as int) =~= ranked@);
    let ghost picked = out@;
    let mut j: usize = 0;
    while j < top_count
        invariant
            j <= top_count,
            picked == ranked_in_top(ranked@, top_count as int),
            out@ == picked + unpicked(j as int, ranked@),
        decreases top_count - j,
    {
        let mut seen = false;
        let mut k: usize = 0;
        while k < ranked.len()
            invariant
                k <= ranked.len(),
                seen == exists|m: int| 0 <= m < k && ranked@[m] == j,
            decreases ranked.len() - k,
        {
            if ranked[k] == j {
                seen = true;
            }
            k += 1;
        }
        assert(seen == ranked@.contains(j));
        if !seen {
            out.push(j);
        }
        j += 1;
        assert(out@ =~= picked + unpicked(j as int, ranked@));
    }
    let ghost head = out@;
    let mut t: usize = top_count;
    while t < total
        invariant
            top_count <= t <= total,
            head == ranked_in_top(ranked@, top_count as int) + unpicked(top_count as int, ranked@),
            out@ == head + Seq::new((t - top_count) as nat, |k: int| (top_count + k) as usize),
        decreases total - t,
    {
        out.push(t);
        t += 1;
        assert(out@ =~= head + Seq::new((t - top_count) as nat, |k: int| (top_count + k) as usize));
    }
    out
}

proof fn lemma_ranked_in_top_facts(ranked: Seq<usize>, top: int)
    requires
        ranked.no_duplicates(),
    ensures
        ranked_in_top(ranked, top).no_duplicates(),
        forall|i: int|
            0 <= i < ranked_in_top(ranked, top).len() ==> (#[trigger] ranked_in_top(ranked, top)[i])
                < top && ranked.contains(ranked_in_top(ranked, top)[i]),
        forall|j: usize| j < top && ranked.contains(j) ==> ranked_in_top(ranked, top).contains(j),
    decreases ranked.len(),
{
    if ranked.len() > 0 {
        let init = ranked.drop_last();
        assert(init.no_duplicates());
        lemma_ranked_in_top_facts(init, top);
        let rest = ranked_in_top(init, top);
        let x = ranked.last();
        assert(!init.contains(x)) by {
            if init.contains(x) {
                let k = choose|k: int| 0 <= k < init.len() && init[k] == x;
                assert(ranked[k] == ranked[ranked.len() - 1]);
            }
        }
        assert forall|i: int| 0 <= i < rest.len() implies ranked.contains(#[trigger] rest[i]) by {
            let k = choose|k: int| 0 <= k < init.len() && init[k] == rest[i];
            assert(ranked[k] == rest[i]);
        }
        assert forall|j: usize| j < top && ranked.contains(j) implies ranked_in_top(
            ranked,
            top,
        ).contains(j) by {
            let k = choose|k: int| 0 <= k < ranked.len() && ranked[k] == j;
            if k < ranked.len() - 1 {
                assert(init[k] == j);
                assert(init.contains(j));
                let m = choose|m: int| 0 <= m < rest.len() && rest[m] == j;
                if x < top {
                    assert(rest.push(x)[m] == j);
                }
            } else {
                assert(rest.push(x)[rest.len() as int] == j);
            }
        }
    }
}

proof fn lemma_unpicked_facts(n: int, ranked: Seq<usize>)
    requires
        0 <= n <= usize::MAX + 1,
    ensures
        unpicked(n, ranked).no_duplicates(),
        forall|i: int|
            0 <= i < unpicked(n, ranked).len() ==> (#[trigger] unpicked(n, ranked)[i]) < n
                && !ranked.contains(unpicked(n, ranked)[i]),
        forall|j: usize| j < n && !ranked.contains(j) ==> unpicked(n, ranked).contains(j),
    decreases n,
{
    if n > 0 {
        lemma_unpicked_facts(n - 1, ranked);
        let rest = unpicked(n - 1, ranked);
        let x = (n - 1) as usize;
        assert forall|j: usize| j < n && !ranked.contains(j) implies unpicked(n, ranked).contains(
            j,
        ) by {
            if j < n - 1 {
                let m = choose|m: int| 0 <= m < rest.len() && rest[m] == j;
                if !ranked.contains(x) {
                    assert(rest.push(x)[m] == j);
                }
            } else {
                assert(rest.push(x)[rest.len() as int] == j);
            }
        }
    }
}

/// Reranking only reorders: where the reranker names each result at most
/// once, every one of the `total` results appears exactly once.
pub proof fn lemma_rerank_is_permutation(total: int, top: int, ranked: Seq<usize>)
    requires
        0 <= top <= total <= usize::MAX,
        ranked.no_duplicates(),
    ensures
        spec_rerank_order(total, top, ranked).len() == total,
        spec_rerank_order(total, top, ranked).no_duplicates(),
        forall|j: usize| j < total ==> spec_rerank_order(total, top, ranked).contains(j),
{
    lemma_ranked_in_top_facts(ranked, top);
    lemma_unpicked_facts(top, ranked);
    let a = ranked_in_top(ranked, top);
    let b = unpicked(top, ranked);
    let c = Seq::new((total - top) as nat, |k: int| (top + k) as usize);
    let r = spec_rerank_order(total, top, ranked);
    assert(r == a + b + c);
    // Each part holds distinct indices, and the parts are disjoint.
    assert forall|i: int, k: int| 0 <= i < k < r.len() implies r[i] != r[k] by {
        if k < a.len() {
            assert(a[i] != a[k]);
        } else if k < a.len() + b.len() {
            if i < a.len() {
                assert(ranked.contains(a[i]));
                assert(!ranked.contains(b[k - a.len()]));
            } else {
                assert(b[i - a.len()] != b[k - a.len()]);
            }
        } else {
            assert(c[k - a.len() - b.len()] >= top);
            if i < a.len() {
                assert(a[i] < top);
            } else if i < a.len() + b.len() {
                assert(b[i - a.len()] < top);
            }
        }
    }
    // The picks and the rest together cover the top results.
    assert(a.len() + b.len() == top) by {
        lemma_cover_count(a, b, top, ranked);
    }
    assert forall|j: usize| j < total implies r.contains(j) by {
        if j < top {
            if ranked.contains(j) {
                let m = choose|m: int| 0 <= m < a.len() && a[m] == j;
                assert(r[m] == j);
            } else {
                let m = choose|m: int| 0 <= m < b.len() && b[m] == j;
                assert(r[a.len() + m] == j);
            }
        } else {
            assert(r[a.len() + b.len() + (j - top)] == j);
        }
    }
}

/// The picks and the unpicked positions, both free of repeats, both within
/// `0..top` and covering it, number exactly `top`.
proof fn lemma_cover_count(a: Seq<usize>, b: Seq<usize>, top: int, ranked: Seq<usize>)
    requires
        0 <= top <= usize::MAX,
        a.no_duplicates(),
        b.no_duplicates(),
        forall|i: int| 0 <= i < a.len() ==> (#[trigger] a[i]) < top && ranked.contains(a[i]),
        forall|i: int| 0 <= i < b.len() ==> (#[trigger] b[i]) < top && !ranked.contains(b[i]),
        forall|j: usize| j < top && ranked.contains(j) ==> a.contains(j),
        forall|j: usize| j < top && !ranked.contains(j) ==> b.contains(j),
    ensures
        a.len() + b.len() == top,
{
    let sa = a.to_set();
    let sb = b.to_set();
    let full = Set::new(|j: usize| (j as int) < top);
    a.unique_seq_to_set();
    b.unique_seq_to_set();
    assert(sa.disjoint(sb)) by {
        assert forall|j: usize| !(sa.contains(j) && sb.contains(j)) by {
            if sa.contains(j) && sb.contains(j) {
                let m = choose|m: int| 0 <= m < a.len() && a[m] == j;
                let n = choose|n: int| 0 <= n < b.len() && b[n] == j;
                assert(ranked.contains(a[m]));
                assert(!ranked.contains(b[n]));
            }
        }
    }
    assert(sa.union(sb) =~= full) by {
        assert forall|j: usize| full.contains(j) implies sa.union(sb).contains(j) by {
            if ranked.contains(j) {
                assert(a.contains(j));
            } else {
                assert(b.contains(j));
            }
        }
        assert forall|j: usize| sa.union(sb).contains(j) implies full.contains(j) by {
            if sa.contains(j) {
                let m = choose|m: int| 0 <= m < a.len() && a[m] == j;
                assert(a[m] < top);
            } else {
                let m = choose|m: int| 0 <= m < b.len() && b[m] == j;
                assert(b[m] < top);
            }
        }
    }
    lemma_range_set_len(top);
    vstd::set_lib::lemma_set_disjoint_lens(sa, sb);
}

/// The indices below `n` number `n`.
proof fn lemma_range_set_len(n: int)
    requires
        0 <= n <= usize::MAX + 1,
    ensures
        Set::new(|j: usize| (j as int) < n).finite(),
        Set::new(|j: usize| (j as int) < n).len() == n,
    decreases n,
{
    let s = Set::new(|j: usize| (j as int) < n);
    if n == 0 {
        assert(s =~= Set::<usize>::empty());
    } else {
        lemma_range_set_len(n - 1);
        let p = Set::new(|j: usize| (j as int) < n - 1);
        assert(s =~= p.insert((n - 1) as usize));
    }
}


/// A query holding any of the code keywords `def `, `fn `, `func `, `class `,
/// `import `, `require` or `const ` is a code query, whatever else it holds.
pub proof fn lemma_code_keyword_makes_code_query(q: Seq<char>)
    ensures
        (spec_contains(q, "def "@) || spec_contains(q, "fn "@) || spec_contains(q, "func "@) || spec_contains(q, "class "@) || spec_contains(q, "import "@) || spec_contains(q, "require"@) || spec_contains(q, "const "@)) ==> spec_is_code_query(q),
{
}

} // verus!
