//! The normal form and fingerprint under which repeated copies are found.

use vstd::prelude::*;

use crate::text::chars_of;
use crate::text::run_scan;
use crate::text::spec_is_whitespace;
use crate::text::spec_runs;
use crate::text::ws_sep;
use crate::text::join;
use crate::text::spec_join;
use crate::text::spec_to_lowercase;
use crate::text::spec_words;
use crate::text::split_whitespace;
use crate::text::string_of;
use crate::text::to_lowercase;

verus! {

/// The lower-case hexadecimal BLAKE3 digest of a text's UTF-8 bytes, as
/// `blake3::hash(..).to_hex()` prints it.
pub uninterp spec fn spec_blake3_hex(text: Seq<char>) -> Seq<char>;

pub open spec fn is_lower_hex(c: char) -> bool {
    ('0' <= c && c <= '9') || ('a' <= c && c <= 'f')
}

/// Hashes the UTF-8 bytes of `text` with `blake3::hash` and prints the
/// digest with `Hash::to_hex`.  The digest is named; what the source shows
/// of `to_hex` is stated: 64 characters, each from `0123456789abcdef`.
#[verifier::external_body]
fn blake3_hex(text: &str) -> (r: String)
    ensures
        r@ == spec_blake3_hex(text@),
        r@.len() == 64,
        forall|i: int| 0 <= i < r@.len() ==> is_lower_hex(#[trigger] r@[i]),
{
    blake3::hash(text.as_bytes()).to_hex().to_string()
}

/// Runs of white space collapsed to one space, the ends dropped, and the
/// whole lower-cased.
pub open spec fn spec_normalize_content(content: Seq<char>) -> Seq<char> {
    spec_to_lowercase(spec_join(spec_words(content), " "@))
}

pub fn normalize_content(content: &str) -> (r: String)
    ensures
        r@ == spec_normalize_content(content@),
{
    let words = split_whitespace(&chars_of(content));
    let joined = string_of(&join(&words, " "));
    to_lowercase(joined.as_str())
}

/// The fingerprint of a normalised text.
pub fn content_hash(normalized: &str) -> (r: String)
    ensures
        r@ == spec_blake3_hex(normalized@),
        r@.len() == 64,
        forall|i: int| 0 <= i < r@.len() ==> is_lower_hex(#[trigger] r@[i]),
{
    blake3_hex(normalized)
}

/// Copies that differ only in how their words are spaced, wrapped or
/// indented get the same normal form, hence the same fingerprint.
pub proof fn lemma_layout_does_not_change_fingerprint(a: Seq<char>, b: Seq<char>)
    requires
        spec_words(a) == spec_words(b),
    ensures
        spec_normalize_content(a) == spec_normalize_content(b),
        spec_blake3_hex(spec_normalize_content(a)) == spec_blake3_hex(spec_normalize_content(b)),
{
}

/// No white space at either end, and every white-space character is a plain
/// space followed by a character that is not white space: words separated
/// by single spaces.
pub open spec fn single_spaced(t: Seq<char>) -> bool {
    &&& t.len() > 0 ==> !spec_is_whitespace(t[0]) && !spec_is_whitespace(t.last())
    &&& forall|i: int|
        0 <= i < t.len() && spec_is_whitespace(#[trigger] t[i]) ==> t[i] == ' ' && i + 1 < t.len()
            && !spec_is_whitespace(t[i + 1])
}

/// A piece that is not empty and holds no white space.
pub open spec fn is_word(w: Seq<char>) -> bool {
    w.len() > 0 && forall|j: int| 0 <= j < w.len() ==> !spec_is_whitespace(#[trigger] w[j])
}

/// Scanning for runs of non-white-space keeps only words, and the run still
/// open holds no white space.
proof fn lemma_run_scan_words(s: Seq<char>)
    ensures
        forall|k: int|
            0 <= k < run_scan(s, ws_sep()).0.len() ==> is_word(#[trigger] run_scan(s, ws_sep()).0[k]),
        forall|j: int|
            0 <= j < run_scan(s, ws_sep()).1.len() ==> !spec_is_whitespace(
                #[trigger] run_scan(s, ws_sep()).1[j],
            ),
    decreases s.len(),
{
    if s.len() > 0 {
        lemma_run_scan_words(s.drop_last());
        let (done, open) = run_scan(s.drop_last(), ws_sep());
        if spec_is_whitespace(s.last()) {
            if open.len() > 0 {
                let d = done.push(open);
                assert forall|k: int| 0 <= k < d.len() implies is_word(#[trigger] d[k]) by {
                    if k < done.len() {
                        assert(d[k] == done[k]);
                    }
                }
            }
        } else {
            let o = open.push(s.last());
            assert forall|j: int| 0 <= j < o.len() implies !spec_is_whitespace(#[trigger] o[j]) by {
                if j < open.len() {
                    assert(o[j] == open[j]);
                }
            }
        }
    }
}

/// What `split_whitespace` yields are words.
pub proof fn lemma_words_are_words(s: Seq<char>)
    ensures
        forall|k: int| 0 <= k < spec_words(s).len() ==> is_word(#[trigger] spec_words(s)[k]),
{
    lemma_run_scan_words(s);
    let (done, open) = run_scan(s, ws_sep());
    assert(spec_words(s) == spec_runs(s, ws_sep()));
    if open.len() > 0 {
        let d = done.push(open);
        assert forall|k: int| 0 <= k < d.len() implies is_word(#[trigger] d[k]) by {
            if k < done.len() {
                assert(d[k] == done[k]);
            }
        }
    }
}

/// Words joined with single spaces are single-spaced, and not empty when
/// there is a word.
pub proof fn lemma_join_words_single_spaced(parts: Seq<Seq<char>>)
    requires
        forall|k: int| 0 <= k < parts.len() ==> is_word(#[trigger] parts[k]),
    ensures
        single_spaced(spec_join(parts, " "@)),
        parts.len() > 0 ==> spec_join(parts, " "@).len() > 0,
    decreases parts.len(),
{
    reveal_strlit(" ");
    if parts.len() == 1 {
        let w = parts[0];
        assert(is_word(w));
        assert(spec_join(parts, " "@) == w);
        assert(!spec_is_whitespace(w[0]));
        assert(!spec_is_whitespace(w[w.len() - 1]));
    } else if parts.len() > 1 {
        let init = parts.drop_last();
        assert forall|k: int| 0 <= k < init.len() implies is_word(#[trigger] init[k]) by {
            assert(init[k] == parts[k]);
        }
        lemma_join_words_single_spaced(init);
        let a = spec_join(init, " "@);
        let w = parts.last();
        assert(is_word(parts[parts.len() - 1]));
        let t = spec_join(parts, " "@);
        assert(t == a + " "@ + w);
        assert(t.len() == a.len() + 1 + w.len());
        assert(t[0] == a[0]);
        assert(t[t.len() - 1] == w[w.len() - 1]);
        assert(!spec_is_whitespace(w[w.len() - 1]));
        assert forall|i: int|
            0 <= i < t.len() && spec_is_whitespace(#[trigger] t[i]) implies t[i] == ' ' && i + 1
            < t.len() && !spec_is_whitespace(t[i + 1]) by {
            if i < a.len() {
                assert(t[i] == a[i]);
                if i + 1 < a.len() {
                    assert(t[i + 1] == a[i + 1]);
                } else {
                    assert(a[i] == a.last());
                }
            } else if i == a.len() {
                assert(t[i + 1] == w[0]);
            } else {
                assert(t[i] == w[i - a.len() - 1]);
            }
        }
    }
}

/// Before lower-casing, the normal form has no white space at either end and
/// exactly one space between neighbouring words.
pub proof fn lemma_normal_form_single_spaced(content: Seq<char>)
    ensures
        single_spaced(spec_join(spec_words(content), " "@)),
{
    lemma_words_are_words(content);
    lemma_join_words_single_spaced(spec_words(content));
}

} // verus!
