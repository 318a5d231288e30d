//! Character-level string operations, each with a specification over the
//! `Seq<char>` view of a string.

use vstd::prelude::*;

verus! {

// ---------------------------------------------------------------------------
// Specifications
// ---------------------------------------------------------------------------

/// Unicode `White_Space`, the property that `char::is_whitespace` tests.
pub open spec fn spec_is_whitespace(c: char) -> bool {
    let u = c as u32;
    (0x9 <= u && u <= 0xD) || u == 0x20 || u == 0x85 || u == 0xA0 || u == 0x1680 || (0x2000 <= u
        && u <= 0x200A) || u == 0x2028 || u == 0x2029 || u == 0x202F || u == 0x205F || u == 0x3000
}

pub open spec fn spec_is_ascii_alphanumeric(c: char) -> bool {
    ('0' <= c && c <= '9') || ('a' <= c && c <= 'z') || ('A' <= c && c <= 'Z')
}

pub open spec fn spec_ascii_lower_char(c: char) -> char {
    if 'A' <= c && c <= 'Z' {
        ((c as u32) + 32) as char
    } else {
        c
    }
}

pub open spec fn spec_ascii_lower(s: Seq<char>) -> Seq<char> {
    s.map_values(|c: char| spec_ascii_lower_char(c))
}

/// `pat` occurs in `s` starting at index `i`.
pub open spec fn occurs_at(s: Seq<char>, pat: Seq<char>, i: int) -> bool {
    0 <= i && i + pat.len() <= s.len() && s.subrange(i, i + pat.len()) == pat
}

pub open spec fn spec_contains(s: Seq<char>, pat: Seq<char>) -> bool {
    exists|i: int| occurs_at(s, pat, i)
}

pub open spec fn spec_starts_with(s: Seq<char>, pat: Seq<char>) -> bool {
    occurs_at(s, pat, 0)
}

pub open spec fn spec_ends_with(s: Seq<char>, pat: Seq<char>) -> bool {
    occurs_at(s, pat, s.len() - pat.len())
}

/// Index of the first occurrence of `pat` in `s` at or after `from`.
pub open spec fn is_first_occurrence_from(s: Seq<char>, pat: Seq<char>, from: int, i: int) -> bool {
    from <= i && occurs_at(s, pat, i) && forall|j: int| from <= j < i ==> !occurs_at(s, pat, j)
}

/// Leading whitespace removed.
pub open spec fn spec_trim_start(s: Seq<char>) -> Seq<char>
    decreases s.len(),
{
    if s.len() > 0 && spec_is_whitespace(s[0]) {
        spec_trim_start(s.drop_first())
    } else {
        s
    }
}

/// Trailing whitespace removed.
pub open spec fn spec_trim_end(s: Seq<char>) -> Seq<char>
    decreases s.len(),
{
    if s.len() > 0 && spec_is_whitespace(s.last()) {
        spec_trim_end(s.drop_last())
    } else {
        s
    }
}

/// What `str::trim` gives.
pub open spec fn spec_trim(s: Seq<char>) -> Seq<char> {
    spec_trim_end(spec_trim_start(s))
}

/// Every non-overlapping occurrence of `from`, found left to right, replaced by `to`.
pub open spec fn spec_replace(s: Seq<char>, from: Seq<char>, to: Seq<char>) -> Seq<char>
    decreases s.len(),
{
    if from.len() == 0 || s.len() == 0 {
        s
    } else if spec_starts_with(s, from) {
        to + spec_replace(s.skip(from.len() as int), from, to)
    } else {
        seq![s[0]] + spec_replace(s.drop_first(), from, to)
    }
}

/// The maximal runs of characters that are not separators, in order.
/// `run_scan(s, sep)` is the list of finished runs and the run still open at
/// the end of `s`.
pub open spec fn run_scan(s: Seq<char>, sep: spec_fn(char) -> bool) -> (Seq<Seq<char>>, Seq<char>)
    decreases s.len(),
{
    if s.len() == 0 {
        (seq![], seq![])
    } else {
        let (done, open) = run_scan(s.drop_last(), sep);
        if sep(s.last()) {
            if open.len() > 0 {
                (done.push(open), seq![])
            } else {
                (done, seq![])
            }
        } else {
            (done, open.push(s.last()))
        }
    }
}

/// The maximal non-empty runs of non-separator characters of `s`, in order.
pub open spec fn spec_runs(s: Seq<char>, sep: spec_fn(char) -> bool) -> Seq<Seq<char>> {
    let (done, open) = run_scan(s, sep);
    if open.len() > 0 {
        done.push(open)
    } else {
        done
    }
}

pub open spec fn ws_sep() -> spec_fn(char) -> bool {
    |c: char| spec_is_whitespace(c)
}

/// A character that `char::is_alphanumeric` accepts, or `_`.
pub open spec fn spec_is_word_char(c: char) -> bool {
    spec_is_alphanumeric(c) || c == '_'
}

pub open spec fn word_sep() -> spec_fn(char) -> bool {
    |c: char| !spec_is_word_char(c)
}

/// What `str::split_whitespace` yields.
pub open spec fn spec_words(s: Seq<char>) -> Seq<Seq<char>> {
    spec_runs(s, ws_sep())
}

/// The pieces joined, with `sep` between neighbours.
pub open spec fn spec_join(parts: Seq<Seq<char>>, sep: Seq<char>) -> Seq<char>
    decreases parts.len(),
{
    if parts.len() == 0 {
        seq![]
    } else if parts.len() == 1 {
        parts[0]
    } else {
        spec_join(parts.drop_last(), sep) + sep + parts.last()
    }
}

/// At most `n` leading characters.
pub open spec fn spec_take_chars(s: Seq<char>, n: int) -> Seq<char> {
    if s.len() <= n {
        s
    } else {
        s.take(n)
    }
}

/// UTF-8 length of a `char`.
pub open spec fn char_width(c: char) -> nat {
    let u = c as u32;
    if u < 0x80 {
        1
    } else if u < 0x800 {
        2
    } else if u < 0x10000 {
        3
    } else {
        4
    }
}

/// Number of bytes in the UTF-8 encoding of `s`, which is what `str::len` returns.
pub open spec fn utf8_len(s: Seq<char>) -> nat
    decreases s.len(),
{
    if s.len() == 0 {
        0
    } else {
        utf8_len(s.drop_last()) + char_width(s.last())
    }
}

/// `s.trim_start_matches(pat)`: leading repeats of `pat` removed.
pub open spec fn spec_trim_start_matches(s: Seq<char>, pat: Seq<char>) -> Seq<char>
    decreases s.len(),
{
    if pat.len() > 0 && spec_starts_with(s, pat) {
        spec_trim_start_matches(s.skip(pat.len() as int), pat)
    } else {
        s
    }
}

/// `s.trim_end_matches(pat)`: trailing repeats of `pat` removed.
pub open spec fn spec_trim_end_matches(s: Seq<char>, pat: Seq<char>) -> Seq<char>
    decreases s.len(),
{
    if pat.len() > 0 && spec_ends_with(s, pat) {
        spec_trim_end_matches(s.take(s.len() - pat.len()), pat)
    } else {
        s
    }
}

/// Index of the last occurrence of `pat` in `s`.
pub open spec fn is_last_occurrence(s: Seq<char>, pat: Seq<char>, i: int) -> bool {
    occurs_at(s, pat, i) && forall|j: int| i < j ==> !occurs_at(s, pat, j)
}

/// The index of the first occurrence of `pat` in `s` (meaningful when it occurs).
pub open spec fn first_index(s: Seq<char>, pat: Seq<char>) -> int {
    choose|i: int| is_first_occurrence_from(s, pat, 0, i)
}

pub proof fn lemma_first_index(s: Seq<char>, pat: Seq<char>, i: int)
    requires
        is_first_occurrence_from(s, pat, 0, i),
    ensures
        first_index(s, pat) == i,
{
    let c = first_index(s, pat);
    assert(is_first_occurrence_from(s, pat, 0, c));
    if c < i {
        assert(!occurs_at(s, pat, c));
    } else if c > i {
        assert(!occurs_at(s, pat, i));
    }
}

/// The text before the first occurrence of `pat` (all of `s` when there is none):
/// what `s.split(pat).next()` gives.
pub open spec fn before_first(s: Seq<char>, pat: Seq<char>) -> Seq<char> {
    if spec_contains(s, pat) {
        s.take(first_index(s, pat))
    } else {
        s
    }
}

/// The decimal digit for `d < 10`.
pub open spec fn digit_char(d: nat) -> char {
    ((48 + d) as u8) as char
}

/// Decimal digits of a natural number, without leading zeros.
pub open spec fn spec_digits(n: nat) -> Seq<char>
    decreases n,
{
    if n < 10 {
        seq![digit_char(n)]
    } else {
        spec_digits(n / 10).push(digit_char(n % 10))
    }
}

/// What `Display` prints for an integer.
pub open spec fn spec_decimal(n: int) -> Seq<char> {
    if n < 0 {
        seq!['-'] + spec_digits((-n) as nat)
    } else {
        spec_digits(n as nat)
    }
}

// ---------------------------------------------------------------------------
// Names for std results that take pages of Unicode tables to state
// ---------------------------------------------------------------------------

/// What `str::to_lowercase` returns for a string.
pub uninterp spec fn spec_to_lowercase(s: Seq<char>) -> Seq<char>;

/// What `char::to_uppercase` yields for a character.
pub uninterp spec fn spec_char_to_uppercase(c: char) -> Seq<char>;

/// Whether `char::is_alphanumeric` holds of a character.
pub uninterp spec fn spec_is_alphanumeric(c: char) -> bool;

/// Whether `char::is_numeric` holds of a character.
pub uninterp spec fn spec_is_numeric(c: char) -> bool;

// ---------------------------------------------------------------------------
// Trusted conversions to and from std strings
// ---------------------------------------------------------------------------

/// The characters of a string, in order.
pub fn chars_of(s: &str) -> (r: Vec<char>)
    ensures
        r@ == s@,
{
    broadcast use vstd::string::axiom_spec_iter;
    let mut v: Vec<char> = Vec::new();
    for c in it: s.chars()
        invariant
            v@ == it.seq().take(it.index() as int),
    {
        v.push(c);
        assert(v@ =~= it.seq().take(it.index() + 1));
    }
    assert(v@ =~= s@);
    v
}

/// Collects characters into a `String` with `FromIterator<char>`; the
/// string holds exactly those characters.
#[verifier::external_body]
pub(crate) fn string_of(v: &Vec<char>) -> (r: String)
    ensures
        r@ == v@,
{
    v.iter().collect()
}

/// Calls `str::to_lowercase`; its result is named, not stated.
#[verifier::external_body]
pub(crate) fn to_lowercase(s: &str) -> (r: String)
    ensures
        r@ == spec_to_lowercase(s@),
{
    s.to_lowercase()
}

/// Calls `char::to_uppercase` and collects what it yields; the result is named.
#[verifier::external_body]
pub(crate) fn char_to_uppercase(c: char) -> (r: Vec<char>)
    ensures
        r@ == spec_char_to_uppercase(c),
{
    c.to_uppercase().collect()
}

/// Calls `char::is_alphanumeric`; the result is named.
#[verifier::external_body]
pub(crate) fn is_alphanumeric(c: char) -> (r: bool)
    ensures
        r == spec_is_alphanumeric(c),
{
    c.is_alphanumeric()
}

/// Calls `char::is_numeric`; the result is named.
#[verifier::external_body]
pub(crate) fn is_numeric(c: char) -> (r: bool)
    ensures
        r == spec_is_numeric(c),
{
    c.is_numeric()
}

// ---------------------------------------------------------------------------
// Verified operations
// ---------------------------------------------------------------------------

pub fn is_whitespace(c: char) -> (r: bool)
    ensures
        r == spec_is_whitespace(c),
{
    let u = c as u32;
    (0x9 <= u && u <= 0xD) || u == 0x20 || u == 0x85 || u == 0xA0 || u == 0x1680 || (0x2000 <= u
        && u <= 0x200A) || u == 0x2028 || u == 0x2029 || u == 0x202F || u == 0x205F || u == 0x3000
}

pub fn is_ascii_alphanumeric(c: char) -> (r: bool)
    ensures
        r == spec_is_ascii_alphanumeric(c),
{
    ('0' <= c && c <= '9') || ('a' <= c && c <= 'z') || ('A' <= c && c <= 'Z')
}

pub fn ascii_lower_char(c: char) -> (r: char)
    ensures
        r == spec_ascii_lower_char(c),
{
    if 'A' <= c && c <= 'Z' {
        let b = ((c as u32) + 32) as u8;
        b as char
    } else {
        c
    }
}

pub fn ascii_lower(s: &Vec<char>) -> (r: Vec<char>)
    ensures
        r@ == spec_ascii_lower(s@),
{
    let mut out: Vec<char> = Vec::new();
    let mut i: usize = 0;
    while i < s.len()
        invariant
            i <= s.len(),
            out@ == spec_ascii_lower(s@.take(i as int)),
        decreases s.len() - i,
    {
        out.push(ascii_lower_char(s[i]));
        i += 1;
        assert(out@ =~= spec_ascii_lower(s@.take(i as int)));
    }
    assert(s@.take(i as int) =~= s@);
    out
}

/// Whether `pat` occurs in `s` at index `i`.
pub fn matches_at(s: &Vec<char>, pat: &Vec<char>, i: usize) -> (r: bool)
    ensures
        r == occurs_at(s@, pat@, i as int),
{
    if i > s.len() || pat.len() > s.len() - i {
        return false;
    }
    let mut j: usize = 0;
    while j < pat.len()
        invariant
            i + pat.len() <= s.len(),
            j <= pat.len(),
            forall|k: int| 0 <= k < j ==> s@[i + k] == pat@[k],
        decreases pat.len() - j,
    {
        if s[i + j] != pat[j] {
            assert(s@.subrange(i as int, i + pat.len())[j as int] != pat@[j as int]);
            return false;
        }
        j += 1;
    }
    assert(s@.subrange(i as int, i + pat.len()) =~= pat@);
    true
}

/// First index at or after `from` where `pat` occurs.
pub fn find_from(s: &Vec<char>, pat: &Vec<char>, from: usize) -> (r: Option<usize>)
    ensures
        match r {
            Some(i) => is_first_occurrence_from(s@, pat@, from as int, i as int),
            None => forall|j: int| from <= j ==> !occurs_at(s@, pat@, j),
        },
{
    let mut i = from;
    while i < s.len()
        invariant
            from <= i,
            forall|j: int| from <= j < i ==> !occurs_at(s@, pat@, j),
        decreases s.len() - i,
    {
        if matches_at(s, pat, i) {
            return Some(i);
        }
        i += 1;
    }
    if matches_at(s, pat, i) {
        return Some(i);
    }
    None
}

pub fn contains(s: &Vec<char>, pat: &Vec<char>) -> (r: bool)
    ensures
        r == spec_contains(s@, pat@),
{
    match find_from(s, pat, 0) {
        Some(i) => true,
        None => {
            assert forall|j: int| !occurs_at(s@, pat@, j) by {
                if j < 0 {
                }
            }
            false
        },
    }
}

/// `contains` for a string literal or any `&str` needle.
pub fn contains_str(s: &Vec<char>, pat: &str) -> (r: bool)
    ensures
        r == spec_contains(s@, pat@),
{
    let p = chars_of(pat);
    contains(s, &p)
}

pub fn starts_with(s: &Vec<char>, pat: &str) -> (r: bool)
    ensures
        r == spec_starts_with(s@, pat@),
{
    let p = chars_of(pat);
    matches_at(s, &p, 0)
}

pub fn ends_with(s: &Vec<char>, pat: &str) -> (r: bool)
    ensures
        r == spec_ends_with(s@, pat@),
{
    let p = chars_of(pat);
    if p.len() > s.len() {
        false
    } else {
        matches_at(s, &p, s.len() - p.len())
    }
}

/// Characters `lo..hi` of `s`.
pub fn slice(s: &Vec<char>, lo: usize, hi: usize) -> (r: Vec<char>)
    requires
        lo <= hi <= s.len(),
    ensures
        r@ == s@.subrange(lo as int, hi as int),
{
    let mut out: Vec<char> = Vec::new();
    let mut i = lo;
    while i < hi
        invariant
            lo <= i <= hi <= s.len(),
            out@ == s@.subrange(lo as int, i as int),
        decreases hi - i,
    {
        out.push(s[i]);
        i += 1;
        assert(out@ =~= s@.subrange(lo as int, i as int));
    }
    out
}

/// At most `n` leading characters, as `value.chars().take(n).collect()` gives.
pub fn take_chars(s: &Vec<char>, n: usize) -> (r: Vec<char>)
    ensures
        r@ == spec_take_chars(s@, n as int),
{
    if s.len() <= n {
        slice(s, 0, s.len())
    } else {
        slice(s, 0, n)
    }
}

proof fn lemma_trim_start_skip(s: Seq<char>, i: int)
    requires
        0 <= i < s.len(),
        spec_is_whitespace(s[i]),
    ensures
        spec_trim_start(s.skip(i)) == spec_trim_start(s.skip(i + 1)),
{
    assert(s.skip(i).drop_first() =~= s.skip(i + 1));
}

proof fn lemma_trim_end_take(s: Seq<char>, j: int)
    requires
        0 < j <= s.len(),
        spec_is_whitespace(s[j - 1]),
    ensures
        spec_trim_end(s.take(j)) == spec_trim_end(s.take(j - 1)),
{
    assert(s.take(j).drop_last() =~= s.take(j - 1));
}

/// `str::trim`: leading and trailing whitespace removed.
pub fn trim(s: &Vec<char>) -> (r: Vec<char>)
    ensures
        r@ == spec_trim(s@),
{
    let mut lo: usize = 0;
    assert(s@.skip(0) =~= s@);
    while lo < s.len() && is_whitespace(s[lo])
        invariant
            lo <= s.len(),
            spec_trim_start(s@) == spec_trim_start(s@.skip(lo as int)),
        decreases s.len() - lo,
    {
        proof {
            lemma_trim_start_skip(s@, lo as int);
        }
        lo += 1;
    }
    let ghost start = s@.skip(lo as int);
    assert(spec_trim_start(s@) == start);
    let mut hi: usize = s.len();
    assert(start.take(start.len() as int) =~= start);
    while hi > lo && is_whitespace(s[hi - 1])
        invariant
            lo <= hi <= s.len(),
            start == s@.skip(lo as int),
            spec_trim_end(start) == spec_trim_end(start.take(hi - lo)),
        decreases hi,
    {
        proof {
            lemma_trim_end_take(start, (hi - lo) as int);
        }
        hi -= 1;
    }
    assert(start.take(hi - lo) =~= s@.subrange(lo as int, hi as int));
    slice(s, lo, hi)
}

/// `str::trim` on a `&str`, as characters.
pub fn trim_str(s: &str) -> (r: Vec<char>)
    ensures
        r@ == spec_trim(s@),
{
    let v = chars_of(s);
    trim(&v)
}

proof fn lemma_replace_step_no_match(s: Seq<char>, from: Seq<char>, to: Seq<char>, i: int)
    requires
        from.len() > 0,
        0 <= i < s.len(),
        !occurs_at(s, from, i),
    ensures
        spec_replace(s.skip(i), from, to) == seq![s[i]] + spec_replace(s.skip(i + 1), from, to),
{
    let t = s.skip(i);
    assert(t.drop_first() =~= s.skip(i + 1));
    if spec_starts_with(t, from) {
        assert(t.subrange(0, from.len() as int) =~= s.subrange(i, i + from.len()));
    }
}

proof fn lemma_replace_step_match(s: Seq<char>, from: Seq<char>, to: Seq<char>, i: int)
    requires
        from.len() > 0,
        occurs_at(s, from, i),
    ensures
        spec_replace(s.skip(i), from, to) == to + spec_replace(s.skip(i + from.len()), from, to),
{
    let t = s.skip(i);
    assert(t.subrange(0, from.len() as int) =~= s.subrange(i, i + from.len()));
    assert(t.skip(from.len() as int) =~= s.skip(i + from.len()));
}

/// `str::replace`: every non-overlapping occurrence of `from`, left to right,
/// replaced by `to`.
pub fn replace(s: &Vec<char>, from: &Vec<char>, to: &Vec<char>) -> (r: Vec<char>)
    requires
        from.len() > 0,
    ensures
        r@ == spec_replace(s@, from@, to@),
{
    let mut out: Vec<char> = Vec::new();
    let mut i: usize = 0;
    assert(s@.skip(0) =~= s@);
    while i < s.len()
        invariant
            from.len() > 0,
            i <= s.len(),
            out@ + spec_replace(s@.skip(i as int), from@, to@) == spec_replace(s@, from@, to@),
        decreases s.len() - i,
    {
        if matches_at(s, from, i) {
            proof {
                lemma_replace_step_match(s@, from@, to@, i as int);
            }
            let mut k: usize = 0;
            let ghost before = out@;
            while k < to.len()
                invariant
                    k <= to.len(),
                    out@ == before + to@.take(k as int),
                decreases to.len() - k,
            {
                out.push(to[k]);
                k += 1;
                assert(out@ =~= before + to@.take(k as int));
            }
            assert(to@.take(to.len() as int) =~= to@);
            assert(before + (to@ + spec_replace(s@.skip(i + from.len()), from@, to@)) =~= (before
                + to@) + spec_replace(s@.skip(i + from.len()), from@, to@));
            i += from.len();
        } else {
            proof {
                lemma_replace_step_no_match(s@, from@, to@, i as int);
            }
            let ghost before = out@;
            out.push(s[i]);
            assert(before + (seq![s@[i as int]] + spec_replace(s@.skip(i + 1), from@, to@))
                =~= out@ + spec_replace(s@.skip(i + 1), from@, to@));
            i += 1;
        }
    }
    assert(s@.skip(i as int) =~= seq![]);
    assert(out@ + seq![] =~= out@);
    out
}

/// `replace` with string-literal patterns.
pub fn replace_str(s: &Vec<char>, from: &str, to: &str) -> (r: Vec<char>)
    requires
        from@.len() > 0,
    ensures
        r@ == spec_replace(s@, from@, to@),
{
    let f = chars_of(from);
    let t = chars_of(to);
    replace(s, &f, &t)
}

/// Which characters separate the runs that `split_runs` returns.
#[derive(Debug, Clone)]
pub enum Separator {
    /// Unicode white space, as `str::split_whitespace` splits.
    Whitespace,
    /// Anything but an alphanumeric character or `_`.
    NonWordChar,
}

pub open spec fn separator_fn(mode: Separator) -> spec_fn(char) -> bool {
    match mode {
        Separator::Whitespace => ws_sep(),
        Separator::NonWordChar => word_sep(),
    }
}

fn is_separator(mode: &Separator, c: char) -> (r: bool)
    ensures
        r == (separator_fn(*mode))(c),
{
    match mode {
        Separator::Whitespace => is_whitespace(c),
        Separator::NonWordChar => !(is_alphanumeric(c) || c == '_'),
    }
}

/// The maximal non-empty runs of non-separator characters.
pub fn split_runs(s: &Vec<char>, mode: Separator) -> (r: Vec<Vec<char>>)
    ensures
        r@.map_values(|w: Vec<char>| w@) == spec_runs(s@, separator_fn(mode)),
{
    let ghost sep = separator_fn(mode);
    let mut done: Vec<Vec<char>> = Vec::new();
    let mut open: Vec<char> = Vec::new();
    let mut i: usize = 0;
    while i < s.len()
        invariant
            i <= s.len(),
            sep == separator_fn(mode),
            (done@.map_values(|w: Vec<char>| w@), open@) == run_scan(s@.take(i as int), sep),
        decreases s.len() - i,
    {
        let c = s[i];
        assert(s@.take(i + 1).drop_last() =~= s@.take(i as int));
        if is_separator(&mode, c) {
            if open.len() > 0 {
                let w = open;
                done.push(w);
                open = Vec::new();
            }
        } else {
            open.push(c);
        }
        i += 1;
        assert(done@.map_values(|w: Vec<char>| w@) =~= run_scan(s@.take(i as int), sep).0);
        assert(open@ =~= run_scan(s@.take(i as int), sep).1);
    }
    assert(s@.take(i as int) =~= s@);
    if open.len() > 0 {
        done.push(open);
    }
    assert(done@.map_values(|w: Vec<char>| w@) =~= spec_runs(s@, sep));
    done
}

/// `str::split_whitespace`.
pub fn split_whitespace(s: &Vec<char>) -> (r: Vec<Vec<char>>)
    ensures
        r@.map_values(|w: Vec<char>| w@) == spec_words(s@),
{
    split_runs(s, Separator::Whitespace)
}

/// The pieces joined with `sep` between neighbours (`[..].join(sep)`).
pub fn join(parts: &Vec<Vec<char>>, sep: &str) -> (r: Vec<char>)
    ensures
        r@ == spec_join(parts@.map_values(|w: Vec<char>| w@), sep@),
{
    let sepv = chars_of(sep);
    let ghost ps = parts@.map_values(|w: Vec<char>| w@);
    let mut out: Vec<char> = Vec::new();
    let mut i: usize = 0;
    while i < parts.len()
        invariant
            i <= parts.len(),
            ps == parts@.map_values(|w: Vec<char>| w@),
            sepv@ == sep@,
            out@ == spec_join(ps.take(i as int), sep@),
        decreases parts.len() - i,
    {
        let ghost before = out@;
        assert(ps.take(i + 1).drop_last() =~= ps.take(i as int));
        if i > 0 {
            let mut k: usize = 0;
            while k < sepv.len()
                invariant
                    k <= sepv.len(),
                    out@ == before + sepv@.take(k as int),
                decreases sepv.len() - k,
            {
                out.push(sepv[k]);
                k += 1;
                assert(out@ =~= before + sepv@.take(k as int));
            }
            assert(sepv@.take(sepv.len() as int) =~= sepv@);
        }
        let ghost mid = out@;
        let w = &parts[i];
        let mut k: usize = 0;
        while k < w.len()
            invariant
                k <= w.len(),
                out@ == mid + w@.take(k as int),
            decreases w.len() - k,
        {
            out.push(w[k]);
            k += 1;
            assert(out@ =~= mid + w@.take(k as int));
        }
        assert(w@.take(w.len() as int) =~= w@);
        i += 1;
        if i == 1 {
            assert(out@ =~= spec_join(ps.take(i as int), sep@));
        } else {
            assert(out@ =~= spec_join(ps.take(i as int), sep@));
        }
    }
    assert(ps.take(i as int) =~= ps);
    out
}

/// Appends the characters of `b` to `a`.
pub fn concat(a: &Vec<char>, b: &Vec<char>) -> (r: Vec<char>)
    ensures
        r@ == a@ + b@,
{
    let mut out = slice(a, 0, a.len());
    assert(a@.subrange(0, a.len() as int) =~= a@);
    let mut k: usize = 0;
    while k < b.len()
        invariant
            k <= b.len(),
            out@ == a@ + b@.take(k as int),
        decreases b.len() - k,
    {
        out.push(b[k]);
        k += 1;
        assert(out@ =~= a@ + b@.take(k as int));
    }
    assert(b@.take(b.len() as int) =~= b@);
    out
}

/// Appends a string literal to a character vector.
pub fn concat_str(a: &Vec<char>, b: &str) -> (r: Vec<char>)
    ensures
        r@ == a@ + b@,
{
    let bv = chars_of(b);
    concat(a, &bv)
}

/// Character equality of two vectors.
pub fn chars_eq(a: &Vec<char>, b: &Vec<char>) -> (r: bool)
    ensures
        r == (a@ == b@),
{
    if a.len() != b.len() {
        return false;
    }
    let mut i: usize = 0;
    while i < a.len()
        invariant
            a.len() == b.len(),
            i <= a.len(),
            forall|k: int| 0 <= k < i ==> a@[k] == b@[k],
        decreases a.len() - i,
    {
        if a[i] != b[i] {
            return false;
        }
        i += 1;
    }
    assert(a@ =~= b@);
    true
}

/// Character equality of a vector and a `&str`.
pub fn eq_str(a: &Vec<char>, b: &str) -> (r: bool)
    ensures
        r == (a@ == b@),
{
    let bv = chars_of(b);
    chars_eq(a, &bv)
}

/// UTF-8 width of one character.
pub fn width_of(c: char) -> (r: usize)
    ensures
        r == char_width(c),
{
    let u = c as u32;
    if u < 0x80 {
        1
    } else if u < 0x800 {
        2
    } else if u < 0x10000 {
        3
    } else {
        4
    }
}

/// Number of UTF-8 bytes, saturating at `usize::MAX`.
pub fn byte_len(s: &Vec<char>) -> (r: usize)
    ensures
        r == if utf8_len(s@) <= usize::MAX { utf8_len(s@) } else { usize::MAX as nat },
{
    let mut total: usize = 0;
    let mut i: usize = 0;
    while i < s.len()
        invariant
            i <= s.len(),
            total == if utf8_len(s@.take(i as int)) <= usize::MAX {
                utf8_len(s@.take(i as int))
            } else {
                usize::MAX as nat
            },
        decreases s.len() - i,
    {
        assert(s@.take(i + 1).drop_last() =~= s@.take(i as int));
        let w = width_of(s[i]);
        if total > usize::MAX - w {
            total = usize::MAX;
        } else {
            total = total + w;
        }
        i += 1;
    }
    assert(s@.take(i as int) =~= s@);
    total
}

/// Decimal digits of `n`.
pub fn digits_u64(n: u64) -> (r: Vec<char>)
    ensures
        r@ == spec_digits(n as nat),
    decreases n,
{
    if n < 10 {
        let c = ((48 + n) as u8) as char;
        let mut v: Vec<char> = Vec::new();
        v.push(c);
        assert(v@ =~= seq![digit_char(n as nat)]);
        v
    } else {
        let mut v = digits_u64(n / 10);
        let c = ((48 + n % 10) as u8) as char;
        v.push(c);
        v
    }
}

/// `n.to_string()` for an `i64`.
pub fn decimal_i64(n: i64) -> (r: Vec<char>)
    ensures
        r@ == spec_decimal(n as int),
{
    if n < 0 {
        let m: u64 = (-(n as i128)) as u64;
        let d = digits_u64(m);
        let mut v: Vec<char> = Vec::new();
        v.push('-');
        let r = concat(&v, &d);
        assert(v@ =~= seq!['-']);
        r
    } else {
        digits_u64(n as u64)
    }
}

/// `s.trim_start_matches(pat)`.
pub fn trim_start_matches(s: &Vec<char>, pat: &str) -> (r: Vec<char>)
    ensures
        r@ == spec_trim_start_matches(s@, pat@),
{
    let pat = chars_of(pat);
    let mut i: usize = 0;
    assert(s@.skip(0) =~= s@);
    if pat.len() == 0 {
        return slice(s, 0, s.len());
    }
    while matches_at(s, &pat, i)
        invariant
            pat.len() > 0,
            i <= s.len(),
            spec_trim_start_matches(s@, pat@) == spec_trim_start_matches(s@.skip(i as int), pat@),
        decreases s.len() - i,
    {
        proof {
            let t = s@.skip(i as int);
            assert(t.subrange(0, pat.len() as int) =~= s@.subrange(i as int, i + pat.len()));
            assert(t.skip(pat.len() as int) =~= s@.skip(i + pat.len()));
        }
        i += pat.len();
    }
    proof {
        let t = s@.skip(i as int);
        if spec_starts_with(t, pat@) {
            assert(t.subrange(0, pat.len() as int) =~= s@.subrange(i as int, i + pat.len()));
        }
        assert(s@.skip(i as int) =~= s@.subrange(i as int, s.len() as int));
    }
    slice(s, i, s.len())
}

/// `s.trim_end_matches(pat)`.
pub fn trim_end_matches(s: &Vec<char>, pat: &str) -> (r: Vec<char>)
    ensures
        r@ == spec_trim_end_matches(s@, pat@),
{
    let pat = chars_of(pat);
    let mut j: usize = s.len();
    assert(s@.take(s.len() as int) =~= s@);
    if pat.len() == 0 {
        return slice(s, 0, s.len());
    }
    while j >= pat.len() && matches_at(s, &pat, j - pat.len())
        invariant
            pat.len() > 0,
            j <= s.len(),
            spec_trim_end_matches(s@, pat@) == spec_trim_end_matches(s@.take(j as int), pat@),
        decreases j,
    {
        proof {
            let t = s@.take(j as int);
            assert(t.subrange(t.len() - pat.len(), t.len() as int) =~= s@.subrange(
                j - pat.len(),
                j as int,
            ));
            assert(t.take(t.len() - pat.len()) =~= s@.take(j - pat.len()));
        }
        j -= pat.len();
    }
    proof {
        let t = s@.take(j as int);
        if spec_ends_with(t, pat@) {
            assert(t.subrange(t.len() - pat.len(), t.len() as int) =~= s@.subrange(
                j - pat.len(),
                j as int,
            ));
        }
        assert(s@.take(j as int) =~= s@.subrange(0, j as int));
    }
    slice(s, 0, j)
}

/// Index of the last occurrence of `pat`, as `str::rfind` gives.
pub fn rfind(s: &Vec<char>, pat: &Vec<char>) -> (r: Option<usize>)
    ensures
        match r {
            Some(i) => is_last_occurrence(s@, pat@, i as int),
            None => forall|j: int| !occurs_at(s@, pat@, j),
        },
{
    if pat.len() > s.len() {
        return None;
    }
    let mut i: usize = s.len() - pat.len();
    loop
        invariant
            pat.len() <= s.len(),
            i <= s.len() - pat.len(),
            forall|j: int| i < j ==> !occurs_at(s@, pat@, j),
        decreases i,
    {
        if matches_at(s, pat, i) {
            return Some(i);
        }
        if i == 0 {
            return None;
        }
        i -= 1;
    }
}

/// Whether a list of strings holds one equal to `w`.
pub fn list_contains(list: &Vec<String>, w: &Vec<char>) -> (r: bool)
    ensures
        r == list@.map_values(|s: String| s@).contains(w@),
{
    let ghost vs = list@.map_values(|s: String| s@);
    let mut i: usize = 0;
    while i < list.len()
        invariant
            i <= list.len(),
            vs == list@.map_values(|s: String| s@),
            forall|k: int| 0 <= k < i ==> vs[k] != w@,
        decreases list.len() - i,
    {
        let c = chars_of(list[i].as_str());
        if chars_eq(&c, w) {
            assert(vs[i as int] == w@);
            return true;
        }
        i += 1;
    }
    false
}

/// `n.to_string()` for a `usize`.
pub fn decimal_usize(n: usize) -> (r: Vec<char>)
    ensures
        r@ == spec_decimal(n as int),
{
    digits_u64(n as u64)
}

/// The text before the first occurrence of `pat`, or all of `s`.
pub fn before_first_exec(s: &Vec<char>, pat: &Vec<char>) -> (r: Vec<char>)
    ensures
        r@ == before_first(s@, pat@),
{
    match find_from(s, pat, 0) {
        Some(i) => {
            proof {
                lemma_first_index(s@, pat@, i as int);
            }
            slice(s, 0, i)
        },
        None => {
            assert(!spec_contains(s@, pat@)) by {
                if spec_contains(s@, pat@) {
                    let j = choose|j: int| occurs_at(s@, pat@, j);
                    assert(0 <= j);
                }
            }
            assert(s@.subrange(0, s.len() as int) =~= s@);
            slice(s, 0, s.len())
        },
    }
}

/// Index of the first occurrence of `pat`, as `str::find` gives it (in
/// characters).
pub fn index_of(s: &Vec<char>, pat: &Vec<char>) -> (r: Option<usize>)
    ensures
        match r {
            Some(i) => spec_contains(s@, pat@) && i == first_index(s@, pat@)
                && is_first_occurrence_from(s@, pat@, 0, i as int),
            None => !spec_contains(s@, pat@),
        },
{
    match find_from(s, pat, 0) {
        Some(i) => {
            proof {
                lemma_first_index(s@, pat@, i as int);
            }
            Some(i)
        },
        None => {
            assert(!spec_contains(s@, pat@)) by {
                if spec_contains(s@, pat@) {
                    let j = choose|j: int| occurs_at(s@, pat@, j);
                    assert(0 <= j);
                }
            }
            None
        },
    }
}

} // verus!
