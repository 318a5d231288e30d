//! The decisions of the clipboard watcher: which copies are captured, when a
//! session starts, what kind of content a clip is, and what the shell is shown.
//! The polling loop itself, with its clipboard and database, stands outside.

use vstd::prelude::*;

use crate::models::FilterRule;
use crate::services::filter::evaluate;
use crate::services::filter::filter_result_is;
use crate::services::filter::spec_evaluate;
use crate::services::filter::FilterResult;
use crate::split::count_char;
use crate::split::count_char_in;
use crate::split::lines;
use crate::split::spec_lines;
use crate::state::BrowserContext;
use crate::text::byte_len;
use crate::text::char_width;
use crate::text::chars_eq;
use crate::text::chars_of;
use crate::text::contains_str;
use crate::text::slice;
use crate::text::spec_contains;
use crate::text::spec_starts_with;
use crate::text::spec_trim;
use crate::text::starts_with;
use crate::text::string_of;
use crate::text::trim;
use crate::text::trim_str;
use crate::text::utf8_len;
use crate::text::width_of;

verus! {

/// Copies longer than this many bytes are not captured.
pub const MAX_CONTENT_LENGTH: usize = 100_000;

/// A copy more than this many milliseconds after the previous one starts a
/// new session.
pub const SESSION_TIMEOUT: i64 = 900_000;

/// Browser context older than this many milliseconds is not attached.
pub const BROWSER_CONTEXT_TTL_MS: i64 = 5_000;

/// Seconds between two retention sweeps.
pub const RETENTION_INTERVAL_SECS: u64 = 300;

/// Bytes of UTF-8 a preview keeps before it is cut.
pub const PREVIEW_BYTES: usize = 120;

/// `a - b`, held at the bounds of `i64` as `i64::saturating_sub` does.
pub open spec fn saturating_sub_i64(a: i64, b: i64) -> int {
    let d = a - b;
    if d > i64::MAX {
        i64::MAX as int
    } else if d < i64::MIN {
        i64::MIN as int
    } else {
        d
    }
}

/// Context reported at `context_timestamp` is still fresh at `now`.
pub fn browser_context_is_fresh(now: i64, context_timestamp: i64) -> (r: bool)
    ensures
        r == (saturating_sub_i64(now, context_timestamp) <= BROWSER_CONTEXT_TTL_MS),
{
    match now.checked_sub(context_timestamp) {
        Some(d) => d <= BROWSER_CONTEXT_TTL_MS,
        None => context_timestamp > 0,
    }
}

/// The page to attach to a clip copied at `now`: the reported context when
/// browser context is enabled and the report is fresh, else none.
pub open spec fn spec_attached_context(enabled: bool, context: Option<BrowserContext>, now: i64) -> Option<
    (Seq<char>, Seq<char>),
> {
    match context {
        Some(ctx) => if enabled && saturating_sub_i64(now, ctx.timestamp) <= BROWSER_CONTEXT_TTL_MS {
            Some((ctx.url@, ctx.title@))
        } else {
            None
        },
        None => None,
    }
}

pub fn attached_context(enabled: bool, context: Option<BrowserContext>, now: i64) -> (r: (
    Option<String>,
    Option<String>,
))
    ensures
        match spec_attached_context(enabled, context, now) {
            Some((url, title)) => (r.0 matches Some(u) && u@ == url) && (r.1 matches Some(t)
                && t@ == title),
            None => r.0 is None && r.1 is None,
        },
{
    match context {
        Some(ctx) => {
            if enabled && browser_context_is_fresh(now, ctx.timestamp) {
                (Some(ctx.url), Some(ctx.title))
            } else {
                (None, None)
            }
        },
        None => (None, None),
    }
}

/// The clipboard text to capture, trimmed: none where it is blank, repeats
/// the last captured text, or is longer than the limit.
pub open spec fn spec_capture_text(text: Seq<char>, last: Seq<char>) -> Option<Seq<char>> {
    let t = spec_trim(text);
    if t.len() == 0 || t == last || utf8_len(text) > MAX_CONTENT_LENGTH {
        None
    } else {
        Some(t)
    }
}

pub fn capture_text(text: &str, last: &str) -> (r: Option<String>)
    ensures
        match r {
            Some(t) => spec_capture_text(text@, last@) == Some(t@),
            None => spec_capture_text(text@, last@) is None,
        },
{
    let raw = chars_of(text);
    let t = trim(&raw);
    if t.len() == 0 || chars_eq(&t, &chars_of(last)) || byte_len(&raw) > MAX_CONTENT_LENGTH {
        return None;
    }
    Some(string_of(&t))
}

/// What one poll of the clipboard comes to.
#[derive(Debug, Clone)]
pub enum CaptureOutcome {
    /// Capture is off, nothing was read, or the text is not to be captured.
    Skipped,
    /// The text matched a blocking rule and is not stored.
    Blocked(FilterResult),
    /// The trimmed text to store as a new clip.
    Captured(String),
}

/// One poll: with capture off, or nothing read, nothing happens.  Otherwise
/// the text passes the capture gate, is remembered as the last text even when
/// a rule then blocks it, and is captured only where no rule blocks it.
pub fn capture_step(enabled: bool, text: Option<&str>, last: &mut String, rules: &Vec<FilterRule>)
    -> (r: CaptureOutcome)
    ensures
        !enabled ==> r is Skipped && final(last)@ == old(last)@,
        match (enabled, text) {
            (true, Some(t)) => match spec_capture_text(t@, old(last)@) {
                None => r is Skipped && final(last)@ == old(last)@,
                Some(c) => final(last)@ == c && if spec_evaluate(c, rules@).0 {
                    r matches CaptureOutcome::Blocked(f) && filter_result_is(
                        f,
                        spec_evaluate(c, rules@),
                    )
                } else {
                    r matches CaptureOutcome::Captured(k) && k@ == c
                },
            },
            _ => r is Skipped && final(last)@ == old(last)@,
        },
{
    if !enabled {
        return CaptureOutcome::Skipped;
    }
    let t = match text {
        Some(t) => t,
        None => {
            return CaptureOutcome::Skipped;
        },
    };
    let trimmed = match capture_text(t, last.as_str()) {
        Some(c) => c,
        None => {
            return CaptureOutcome::Skipped;
        },
    };
    *last = trimmed.clone();
    let result = evaluate(trimmed.as_str(), rules);
    if result.blocked {
        CaptureOutcome::Blocked(result)
    } else {
        CaptureOutcome::Captured(trimmed)
    }
}

/// What a new copy does to the session.
#[derive(Debug, Clone, Copy, PartialEq, Eq, Structural)]
pub enum SessionStep {
    /// A new session starts with this copy.
    Start,
    /// The current session goes on and counts this copy.
    Extend,
    /// There is no session to count the copy in.
    Unchanged,
}

/// A copy after a long enough pause starts a session; otherwise it extends
/// the current one, where there is one.
pub open spec fn spec_session_step(now: i64, last_copied_at: i64, has_session: bool) -> SessionStep {
    if now - last_copied_at > SESSION_TIMEOUT {
        SessionStep::Start
    } else if has_session {
        SessionStep::Extend
    } else {
        SessionStep::Unchanged
    }
}

pub fn session_step(now: i64, last_copied_at: i64, has_session: bool) -> (r: SessionStep)
    requires
        i64::MIN <= now - last_copied_at <= i64::MAX,
    ensures
        r == spec_session_step(now, last_copied_at, has_session),
{
    if now - last_copied_at > SESSION_TIMEOUT {
        SessionStep::Start
    } else if has_session {
        SessionStep::Extend
    } else {
        SessionStep::Unchanged
    }
}

/// A retention sweep is due once the interval has passed since the last one.
pub fn retention_due(elapsed_secs: u64) -> (r: bool)
    ensures
        r == (elapsed_secs >= RETENTION_INTERVAL_SECS),
{
    elapsed_secs >= RETENTION_INTERVAL_SECS
}

/// A clip that is a duplicate is never embedded; any other waits for the embedder.
pub fn initial_embedding_status(duplicate: bool) -> (r: &'static str)
    ensures
        r@ == if duplicate {
            "skipped"@
        } else {
            "pending"@
        },
{
    if duplicate {
        "skipped"
    } else {
        "pending"
    }
}

// ---------------------------------------------------------------------------
// Content kind and language
// ---------------------------------------------------------------------------

/// A marker of source code somewhere in the text.
pub open spec fn has_code_indicator(t: Seq<char>) -> bool {
    spec_contains(t, "fn "@) || spec_contains(t, "pub "@) || spec_contains(t, "let "@)
        || spec_contains(t, "const "@) || spec_contains(t, "function "@) || spec_contains(
        t,
        "import "@,
    ) || spec_contains(t, "export "@) || spec_contains(t, "class "@) || spec_contains(t, "def "@)
        || spec_contains(t, "return "@) || spec_contains(t, "if ("@) || spec_contains(t, "for ("@)
        || spec_contains(t, "while ("@) || spec_contains(t, "=>"@) || spec_contains(t, "->"@)
        || spec_contains(t, "::"@) || spec_contains(t, "#{"@) || spec_contains(t, "$("@)
        || spec_contains(t, "#!/"@)
}

/// `url` for a single line that starts with an HTTP scheme; `code` for text
/// heavy in braces and semicolons, or with a code marker over more than two
/// lines; `text` otherwise.  The text is trimmed first.
pub open spec fn spec_detect_content_type(content: Seq<char>) -> Seq<char> {
    let t = spec_trim(content);
    let line_count = spec_lines(t).len();
    if (spec_starts_with(t, "http://"@) || spec_starts_with(t, "https://"@)) && line_count == 1 {
        "url"@
    } else if (count_char(t, '{') + count_char(t, '}') >= 2 && count_char(t, ';') > 1) || (
    has_code_indicator(t) && line_count > 2) {
        "code"@
    } else {
        "text"@
    }
}

fn code_indicator(t: &Vec<char>) -> (r: bool)
    ensures
        r == has_code_indicator(t@),
{
    contains_str(t, "fn ") || contains_str(t, "pub ") || contains_str(t, "let ") || contains_str(
        t,
        "const ",
    ) || contains_str(t, "function ") || contains_str(t, "import ") || contains_str(t, "export ")
        || contains_str(t, "class ") || contains_str(t, "def ") || contains_str(t, "return ")
        || contains_str(t, "if (") || contains_str(t, "for (") || contains_str(t, "while (")
        || contains_str(t, "=>") || contains_str(t, "->") || contains_str(t, "::") || contains_str(
        t,
        "#{",
    ) || contains_str(t, "$(") || contains_str(t, "#!/")
}

pub fn detect_content_type(content: &str) -> (r: &'static str)
    ensures
        r@ == spec_detect_content_type(content@),
{
    let t = trim_str(content);
    let line_count = lines(&t).len();
    if (starts_with(&t, "http://") || starts_with(&t, "https://")) && line_count == 1 {
        return "url";
    }
    let open = count_char_in(&t, '{');
    let close = count_char_in(&t, '}');
    let semis = count_char_in(&t, ';');
    if (open as u128 + close as u128 >= 2 && semis > 1) || (code_indicator(&t) && line_count > 2) {
        return "code";
    }
    "text"
}

/// The language of a code clip, judged by keywords: Rust, then
/// TypeScript or JavaScript, then Python, then Go.
pub open spec fn spec_detect_language(content: Seq<char>) -> Option<Seq<char>> {
    let t = spec_trim(content);
    if spec_contains(t, "fn "@) && (spec_contains(t, "pub "@) || spec_contains(t, "let "@)
        || spec_contains(t, "::"@)) {
        Some("rust"@)
    } else if spec_contains(t, "function "@) || spec_contains(t, "=>"@) || spec_contains(
        t,
        "const "@,
    ) {
        if spec_contains(t, ": "@) && (spec_contains(t, "interface "@) || spec_contains(
            t,
            "type "@,
        )) {
            Some("typescript"@)
        } else {
            Some("javascript"@)
        }
    } else if spec_contains(t, "def "@) && spec_contains(t, ":"@) {
        Some("python"@)
    } else if spec_contains(t, "package "@) && spec_contains(t, "func "@) {
        Some("go"@)
    } else {
        None
    }
}

fn owned(s: &str) -> (r: Option<String>)
    ensures
        r matches Some(x) && x@ == s@,
{
    Some(string_of(&chars_of(s)))
}

pub fn detect_language(content: &str) -> (r: Option<String>)
    ensures
        match r {
            Some(l) => spec_detect_language(content@) == Some(l@),
            None => spec_detect_language(content@) is None,
        },
        (spec_contains(spec_trim(content@), "fn "@) && (spec_contains(spec_trim(content@), "pub "@) || spec_contains(spec_trim(content@), "let "@)
            || spec_contains(spec_trim(content@), "::"@))) ==> (r is Some && r->0@ == "rust"@),
{
    let t = trim_str(content);
    if contains_str(&t, "fn ") && (contains_str(&t, "pub ") || contains_str(&t, "let ")
        || contains_str(&t, "::")) {
        owned("rust")
    } else if contains_str(&t, "function ") || contains_str(&t, "=>") || contains_str(
        &t,
        "const ",
    ) {
        if contains_str(&t, ": ") && (contains_str(&t, "interface ") || contains_str(
            &t,
            "type ",
        )) {
            owned("typescript")
        } else {
            owned("javascript")
        }
    } else if contains_str(&t, "def ") && contains_str(&t, ":") {
        owned("python")
    } else if contains_str(&t, "package ") && contains_str(&t, "func ") {
        owned("go")
    } else {
        None
    }
}

// ---------------------------------------------------------------------------
// Preview
// ---------------------------------------------------------------------------

pub proof fn lemma_utf8_len_take_step(s: Seq<char>, i: int)
    requires
        0 <= i < s.len(),
    ensures
        utf8_len(s.take(i + 1)) == utf8_len(s.take(i)) + char_width(s[i]),
{
    assert(s.take(i + 1).drop_last() =~= s.take(i));
}

/// Longer prefixes have more bytes.
pub proof fn lemma_utf8_len_take_mono(s: Seq<char>, a: int, b: int)
    requires
        0 <= a < b <= s.len(),
    ensures
        utf8_len(s.take(a)) < utf8_len(s.take(b)),
    decreases b - a,
{
    lemma_utf8_len_take_step(s, b - 1);
    if a < b - 1 {
        lemma_utf8_len_take_mono(s, a, b - 1);
    }
}

/// `s` has a character boundary `n` bytes in.
pub open spec fn has_boundary_at(s: Seq<char>, n: int) -> bool {
    exists|k: int| 0 <= k <= s.len() && utf8_len(s.take(k)) == n
}

/// The clip's first `PREVIEW_BYTES` bytes and an ellipsis, where it is longer.
pub open spec fn spec_clip_preview(t: Seq<char>) -> Seq<char> {
    if utf8_len(t) > PREVIEW_BYTES {
        t.take(choose|k: int| 0 <= k <= t.len() && utf8_len(t.take(k)) == PREVIEW_BYTES) + seq![
            '\u{2026}',
        ]
    } else {
        t
    }
}

/// The preview shown when a clip is saved.  The cut falls on the byte limit,
/// which must be a character boundary where the clip is longer.
pub fn clip_preview(trimmed: &str) -> (r: String)
    requires
        utf8_len(trimmed@) <= PREVIEW_BYTES || has_boundary_at(trimmed@, PREVIEW_BYTES as int),
    ensures
        r@ == spec_clip_preview(trimmed@),
{
    let t = chars_of(trimmed);
    if byte_len(&t) <= PREVIEW_BYTES {
        return string_of(&t);
    }
    let ghost s = t@;
    let ghost k0 = choose|k: int| 0 <= k <= s.len() && utf8_len(s.take(k)) == PREVIEW_BYTES;
    let mut total: usize = 0;
    let mut i: usize = 0;
    assert(s.take(0) =~= Seq::<char>::empty());
    while total < PREVIEW_BYTES
        invariant
            s == t@,
            0 <= k0 <= s.len(),
            utf8_len(s.take(k0)) == PREVIEW_BYTES,
            i <= k0,
            total == utf8_len(s.take(i as int)),
            total <= PREVIEW_BYTES,
        decreases k0 - i,
    {
        proof {
            assert(i < k0);
            lemma_utf8_len_take_step(s, i as int);
            if i + 1 < k0 {
                lemma_utf8_len_take_mono(s, i + 1, k0);
            }
        }
        total = total + width_of(t[i]);
        i += 1;
    }
    proof {
        if i < k0 {
            lemma_utf8_len_take_mono(s, i as int, k0);
        }
        assert(i == k0);
    }
    let mut out = slice(&t, 0, i);
    assert(s.take(i as int) =~= s.subrange(0, i as int));
    out.push('\u{2026}');
    string_of(&out)
}

// ---------------------------------------------------------------------------
// Laws
// ---------------------------------------------------------------------------

/// A captured text is trimmed and not blank, and the same clipboard content
/// is not captured again on the next poll.
pub proof fn lemma_repeat_copy_not_recaptured(text: Seq<char>, last: Seq<char>)
    ensures
        spec_capture_text(text, last) matches Some(t) ==> {
            &&& t == spec_trim(text)
            &&& t.len() > 0
            &&& t != last
            &&& spec_capture_text(text, t) is None
        },
{
}

/// Context that is fresh at some moment was fresh at every earlier moment
/// since it arrived: freshness only runs out.
pub proof fn lemma_context_freshness_runs_out(now: i64, earlier: i64, context_timestamp: i64)
    requires
        context_timestamp <= earlier <= now,
    ensures
        saturating_sub_i64(now, context_timestamp) <= BROWSER_CONTEXT_TTL_MS ==> saturating_sub_i64(
            earlier,
            context_timestamp,
        ) <= BROWSER_CONTEXT_TTL_MS,
{
}

/// Copies less than the timeout apart stay in one session: the later one
/// never starts a new session, and extends the current one when there is one.
pub proof fn lemma_quick_copies_share_session(now: i64, last_copied_at: i64, has_session: bool)
    requires
        now - last_copied_at <= SESSION_TIMEOUT,
    ensures
        spec_session_step(now, last_copied_at, has_session) != SessionStep::Start,
        has_session ==> spec_session_step(now, last_copied_at, has_session) == SessionStep::Extend,
{
}


/// A clip whose trimmed text holds `fn ` together with `let `, `pub ` or `::`
/// is Rust, whatever other language markers it also holds.
pub proof fn lemma_fn_with_let_is_rust(content: Seq<char>)
    ensures
        (spec_contains(spec_trim(content), "fn "@) && (spec_contains(spec_trim(content), "pub "@) || spec_contains(spec_trim(content), "let "@)
            || spec_contains(spec_trim(content), "::"@))) ==> spec_detect_language(content) == Some("rust"@),
{
}


/// A language is named only on a marker of it: `fn `, `function `, `=>`,
/// `const `, `def ` or `package ` somewhere in the trimmed clip.
pub proof fn lemma_language_needs_a_marker(content: Seq<char>)
    ensures
        spec_detect_language(content) is Some ==> spec_contains(spec_trim(content), "fn "@)
            || spec_contains(spec_trim(content), "function "@) || spec_contains(
            spec_trim(content),
            "=>"@,
        ) || spec_contains(spec_trim(content), "const "@) || spec_contains(
            spec_trim(content),
            "def "@,
        ) || spec_contains(spec_trim(content), "package "@),
{
}

/// Without a Rust marker, a clip holding `function `, `=>` or `const ` is
/// JavaScript or TypeScript.
pub proof fn lemma_script_markers_give_a_script(content: Seq<char>)
    ensures
        !spec_contains(spec_trim(content), "fn "@) && (spec_contains(
            spec_trim(content),
            "function "@,
        ) || spec_contains(spec_trim(content), "=>"@) || spec_contains(
            spec_trim(content),
            "const "@,
        )) ==> spec_detect_language(content) == Some("javascript"@) || spec_detect_language(content)
            == Some("typescript"@),
{
}

} // verus!
