//! Reading the focused application and window title out of what the
//! desktop's tools print.

use vstd::prelude::*;

use crate::json::spec_as_array;
use crate::json::spec_as_bool;
use crate::json::spec_as_text;
use crate::json::spec_get;
use crate::json::spec_get_opt;
use crate::json::parse_json;
use crate::json::spec_json_parse;
use crate::json::JsonValue;
use crate::split::first_where;
use crate::split::lemma_first_where_hit;
use crate::split::lemma_first_where_skip;
use crate::split::lines;
use crate::split::spec_lines;
use crate::split::spec_split_char;
use crate::split::split_char;
use crate::text::chars_of;
use crate::text::concat;
use crate::text::eq_str;
use crate::text::first_index;
use crate::text::index_of;
use crate::text::replace_str;
use crate::text::slice;
use crate::text::spec_contains;
use crate::text::spec_replace;
use crate::text::spec_starts_with;
use crate::text::spec_trim;
use crate::text::spec_words;
use crate::text::split_whitespace;
use crate::text::starts_with;
use crate::text::string_of;
use crate::text::trim;
use crate::text::trim_str;

verus! {

/// The focused application and its window title.
#[derive(Debug, Clone, PartialEq, Eq)]
pub struct WindowInfo {
    pub app_name: String,
    pub window_title: String,
}

impl Default for WindowInfo {
    /// An unknown application with no title.
    fn default() -> (r: Self)
        ensures
            r.app_name@ == "Unknown"@,
            r.window_title@ == Seq::<char>::empty(),
    {
        proof {
            reveal_strlit("");
        }
        WindowInfo { app_name: string_of(&chars_of("Unknown")), window_title: string_of(&chars_of("")) }
    }
}

/// The application and title of a window, as plain text.
pub open spec fn window_view(w: Option<WindowInfo>) -> Option<(Seq<char>, Seq<char>)> {
    match w {
        Some(w) => Some((w.app_name@, w.window_title@)),
        None => None,
    }
}

fn window(app: Vec<char>, title: Vec<char>) -> (r: WindowInfo)
    ensures
        r.app_name@ == app@,
        r.window_title@ == title@,
{
    WindowInfo { app_name: string_of(&app), window_title: string_of(&title) }
}

// ---------------------------------------------------------------------------
// X11: xprop
// ---------------------------------------------------------------------------

/// A word that names a window: hexadecimal, and not the null window.
pub open spec fn is_window_id(word: Seq<char>) -> bool {
    spec_starts_with(word, "0x"@) && word != "0x0"@
}

pub open spec fn window_id_test() -> spec_fn(Seq<char>) -> bool {
    |w: Seq<char>| is_window_id(w)
}

/// The first word of `xprop -root _NET_ACTIVE_WINDOW` output that names a window.
pub open spec fn spec_parse_active_window_id(value: Seq<char>) -> Option<Seq<char>> {
    first_where(spec_words(value), window_id_test())
}

pub fn parse_active_window_id(value: &str) -> (r: Option<String>)
    ensures
        match r {
            Some(id) => spec_parse_active_window_id(value@) == Some(id@),
            None => spec_parse_active_window_id(value@) is None,
        },
{
    let words = split_whitespace(&chars_of(value));
    let ghost ws = words@.map_values(|w: Vec<char>| w@);
    let mut i: usize = 0;
    assert(ws.skip(0) =~= ws);
    while i < words.len()
        invariant
            i <= words.len(),
            ws == words@.map_values(|w: Vec<char>| w@),
            ws == spec_words(value@),
            first_where(ws, window_id_test()) == first_where(ws.skip(i as int), window_id_test()),
        decreases words.len() - i,
    {
        let w = &words[i];
        if starts_with(w, "0x") && !eq_str(w, "0x0") {
            proof {
                assert(ws[i as int] == w@);
                lemma_first_where_hit(ws, window_id_test(), i as int);
            }
            return Some(string_of(w));
        }
        proof {
            assert(ws[i as int] == w@);
            lemma_first_where_skip(ws, window_id_test(), i as int);
        }
        i += 1;
    }
    assert(ws.skip(i as int) =~= Seq::<Seq<char>>::empty());
    None
}

pub open spec fn class_line_test() -> spec_fn(Seq<char>) -> bool {
    |l: Seq<char>| spec_starts_with(l, "WM_CLASS"@)
}

pub open spec fn title_line_test() -> spec_fn(Seq<char>) -> bool {
    |l: Seq<char>| spec_starts_with(l, "_NET_WM_NAME"@) || spec_starts_with(l, "WM_NAME"@)
}

/// The piece between the last two `"` of a line (what `rsplit('"').nth(1)`
/// gives), when the line has a `"`.
pub open spec fn last_quoted(line: Seq<char>) -> Option<Seq<char>> {
    let pieces = spec_split_char(line, '"');
    if pieces.len() >= 2 {
        Some(pieces[pieces.len() - 2])
    } else {
        None
    }
}

/// The piece after the first `"` up to the next one (what `split('"').nth(1)`
/// gives), when the line has a `"`.
pub open spec fn first_quoted(line: Seq<char>) -> Option<Seq<char>> {
    let pieces = spec_split_char(line, '"');
    if pieces.len() >= 2 {
        Some(pieces[1])
    } else {
        None
    }
}

/// The window that `xprop -id .. WM_CLASS _NET_WM_NAME WM_NAME` describes:
/// the class from the last quoted value of the first `WM_CLASS` line,
/// trimmed, and the title from the first quoted value of the first name line.
pub open spec fn spec_parse_xprop_window(value: Seq<char>) -> Option<(Seq<char>, Seq<char>)> {
    let ls = spec_lines(value);
    match first_where(ls, class_line_test()) {
        None => None,
        Some(class_line) => match last_quoted(class_line) {
            None => None,
            Some(class) => {
                let app = spec_trim(class);
                if app.len() == 0 {
                    None
                } else {
                    let title = match first_where(ls, title_line_test()) {
                        Some(l) => match first_quoted(l) {
                            Some(t) => t,
                            None => Seq::empty(),
                        },
                        None => Seq::empty(),
                    };
                    Some((app, title))
                }
            },
        },
    }
}

/// The first line that `test` accepts.
fn find_line(ls: &Vec<Vec<char>>, title: bool) -> (r: Option<usize>)
    ensures
        ({
            let lv = ls@.map_values(|l: Vec<char>| l@);
            let t = if title {
                title_line_test()
            } else {
                class_line_test()
            };
            match r {
                Some(i) => i < ls.len() && first_where(lv, t) == Some(lv[i as int]),
                None => first_where(lv, t) is None,
            }
        }),
{
    let ghost lv = ls@.map_values(|l: Vec<char>| l@);
    let ghost t = if title {
        title_line_test()
    } else {
        class_line_test()
    };
    let mut i: usize = 0;
    assert(lv.skip(0) =~= lv);
    while i < ls.len()
        invariant
            i <= ls.len(),
            lv == ls@.map_values(|l: Vec<char>| l@),
            t == (if title {
                title_line_test()
            } else {
                class_line_test()
            }),
            first_where(lv, t) == first_where(lv.skip(i as int), t),
        decreases ls.len() - i,
    {
        let l = &ls[i];
        let hit = if title {
            starts_with(l, "_NET_WM_NAME") || starts_with(l, "WM_NAME")
        } else {
            starts_with(l, "WM_CLASS")
        };
        assert(lv[i as int] == l@);
        if hit {
            proof {
                lemma_first_where_hit(lv, t, i as int);
            }
            return Some(i);
        }
        proof {
            lemma_first_where_skip(lv, t, i as int);
        }
        i += 1;
    }
    assert(lv.skip(i as int) =~= Seq::<Seq<char>>::empty());
    None
}

pub fn parse_xprop_window(value: &str) -> (r: Option<WindowInfo>)
    ensures
        window_view(r) == spec_parse_xprop_window(value@),
{
    let ls = lines(&chars_of(value));
    let ghost lv = ls@.map_values(|l: Vec<char>| l@);
    let ci = match find_line(&ls, false) {
        Some(i) => i,
        None => return None,
    };
    assert(lv[ci as int] == ls@[ci as int]@);
    let pieces = split_char(&ls[ci], '"');
    let ghost pv = pieces@.map_values(|p: Vec<char>| p@);
    if pieces.len() < 2 {
        return None;
    }
    assert(pv[pieces.len() - 2] == pieces@[pieces.len() - 2]@);
    let app = trim(&pieces[pieces.len() - 2]);
    if app.len() == 0 {
        return None;
    }
    let title = match find_line(&ls, true) {
        Some(ti) => {
            assert(lv[ti as int] == ls@[ti as int]@);
            let tp = split_char(&ls[ti], '"');
            let ghost tv = tp@.map_values(|p: Vec<char>| p@);
            if tp.len() >= 2 {
                assert(tv[1] == tp@[1]@);
                slice(&tp[1], 0, tp[1].len())
            } else {
                Vec::new()
            }
        },
        None => Vec::new(),
    };
    proof {
        assert(title@ =~= (match first_where(lv, title_line_test()) {
            Some(l) => match first_quoted(l) {
                Some(t) => t,
                None => Seq::<char>::empty(),
            },
            None => Seq::<char>::empty(),
        }));
    }
    Some(window(app, title))
}

// ---------------------------------------------------------------------------
// GNOME Shell: Eval output
// ---------------------------------------------------------------------------

/// `json` after the first occurrence of `pat`, when there is one.
pub open spec fn after_first(json: Seq<char>, pat: Seq<char>) -> Option<Seq<char>> {
    if spec_contains(json, pat) {
        Some(json.skip(first_index(json, pat) + pat.len()))
    } else {
        None
    }
}

/// The string value that follows `"key"` in a JSON-like text: the text
/// between the first `"` after the next `:` and the `"` that follows it;
/// empty where any of these is missing.
pub open spec fn spec_extract_json_string(json: Seq<char>, key: Seq<char>) -> Seq<char> {
    let search = seq!['"'] + key + seq!['"'];
    match after_first(json, search) {
        None => Seq::empty(),
        Some(after) => match after_first(after, seq![':']) {
            None => Seq::empty(),
            Some(after_colon) => match after_first(after_colon, seq!['"']) {
                None => Seq::empty(),
                Some(after_open) => if spec_contains(after_open, seq!['"']) {
                    after_open.take(first_index(after_open, seq!['"']))
                } else {
                    Seq::empty()
                },
            },
        },
    }
}

/// The rest of `s` after the first `pat`.
fn rest_after(s: &Vec<char>, pat: &Vec<char>) -> (r: Option<Vec<char>>)
    ensures
        match r {
            Some(v) => after_first(s@, pat@) == Some(v@),
            None => after_first(s@, pat@) is None,
        },
{
    match index_of(s, pat) {
        Some(i) => {
            assert(s@.skip(i + pat@.len()) =~= s@.subrange(i + pat.len(), s.len() as int));
            Some(slice(s, i + pat.len(), s.len()))
        },
        None => None,
    }
}

pub fn extract_json_string(json: &str, key: &str) -> (r: String)
    ensures
        r@ == spec_extract_json_string(json@, key@),
{
    let mut quote: Vec<char> = Vec::new();
    quote.push('"');
    let mut colon: Vec<char> = Vec::new();
    colon.push(':');
    let search = concat(&concat(&quote, &chars_of(key)), &quote);
    assert(quote@ =~= seq!['"']);
    assert(colon@ =~= seq![':']);
    let j = chars_of(json);
    let after = match rest_after(&j, &search) {
        Some(a) => a,
        None => return string_of(&Vec::new()),
    };
    let after_colon = match rest_after(&after, &colon) {
        Some(a) => a,
        None => return string_of(&Vec::new()),
    };
    let after_open = match rest_after(&after_colon, &quote) {
        Some(a) => a,
        None => return string_of(&Vec::new()),
    };
    match index_of(&after_open, &quote) {
        Some(close) => {
            assert(after_open@.take(close as int) =~= after_open@.subrange(0, close as int));
            string_of(&slice(&after_open, 0, close))
        },
        None => string_of(&Vec::new()),
    }
}

/// The window that GNOME Shell's `Eval` call describes, its escaped quotes
/// undone first; none where the application is empty.
pub open spec fn spec_gnome_window(output: Seq<char>) -> Option<(Seq<char>, Seq<char>)> {
    let result = spec_replace(output, "\\\""@, "\""@);
    let app = spec_extract_json_string(result, "app"@);
    if app.len() == 0 {
        None
    } else {
        Some((app, spec_extract_json_string(result, "title"@)))
    }
}

pub fn gnome_window(output: &str) -> (r: Option<WindowInfo>)
    ensures
        window_view(r) == spec_gnome_window(output@),
{
    proof {
        reveal_strlit("\\\"");
    }
    let result = string_of(&replace_str(&chars_of(output), "\\\"", "\""));
    let app = extract_json_string(result.as_str(), "app");
    if chars_of(app.as_str()).len() == 0 {
        return None;
    }
    let title = extract_json_string(result.as_str(), "title");
    Some(WindowInfo { app_name: app, window_title: title })
}

// ---------------------------------------------------------------------------
// xdotool, Hyprland, Sway
// ---------------------------------------------------------------------------

/// The process name and window title that xdotool reported, trimmed; none
/// where the name is empty.
pub open spec fn spec_parse_xdotool_window(app: Seq<char>, title: Seq<char>) -> Option<
    (Seq<char>, Seq<char>),
> {
    let a = spec_trim(app);
    if a.len() == 0 {
        None
    } else {
        Some((a, spec_trim(title)))
    }
}

pub fn parse_xdotool_window(app_name: &str, window_title: &str) -> (r: Option<WindowInfo>)
    ensures
        window_view(r) == spec_parse_xdotool_window(app_name@, window_title@),
{
    let app = trim_str(app_name);
    if app.len() == 0 {
        return None;
    }
    Some(window(app, trim_str(window_title)))
}

/// What `hyprctl activewindow -j` describes: its `class`, trimmed, and its
/// `title`; none where the class is missing or empty.
pub open spec fn spec_hyprland_window(window: JsonValue) -> Option<(Seq<char>, Seq<char>)> {
    match spec_as_text(spec_get(window, "class"@)) {
        None => None,
        Some(class) => {
            let app = spec_trim(class);
            if app.len() == 0 {
                None
            } else {
                Some(
                    (
                        app,
                        match spec_as_text(spec_get(window, "title"@)) {
                            Some(t) => t,
                            None => Seq::empty(),
                        },
                    ),
                )
            }
        },
    }
}

/// A text member of `v`, or empty.
fn text_or_empty(v: &JsonValue, key: &str) -> (r: Vec<char>)
    ensures
        r@ == match spec_as_text(spec_get(*v, key@)) {
            Some(t) => t,
            None => Seq::empty(),
        },
{
    match v.get(key) {
        Some(x) => match x.as_text() {
            Some(t) => chars_of(t.as_str()),
            None => Vec::new(),
        },
        None => Vec::new(),
    }
}

pub fn hyprland_window(window: &JsonValue) -> (r: Option<WindowInfo>)
    ensures
        window_view(r) == spec_hyprland_window(*window),
{
    let class = match window.get("class") {
        Some(c) => match c.as_text() {
            Some(t) => chars_of(t.as_str()),
            None => return None,
        },
        None => return None,
    };
    let app = trim(&class);
    if app.len() == 0 {
        return None;
    }
    Some(self::window(app, text_or_empty(window, "title")))
}

/// The application a Sway node names: its `app_id`, else the `class` of its
/// `window_properties`, else empty.
pub open spec fn sway_app(node: JsonValue) -> Seq<char> {
    match spec_as_text(spec_get(node, "app_id"@)) {
        Some(a) => a,
        None => match spec_as_text(spec_get_opt(spec_get(node, "window_properties"@), "class"@)) {
            Some(c) => c,
            None => Seq::empty(),
        },
    }
}

/// The children of a Sway node under `key`, when it has an array there.
pub open spec fn sway_children(node: JsonValue, key: Seq<char>) -> Option<Seq<JsonValue>> {
    spec_as_array(spec_get(node, key))
}

/// A node's children are smaller than the node.
pub proof fn lemma_children_smaller(node: JsonValue, key: Seq<char>)
    requires
        sway_children(node, key) is Some,
    ensures
        decreases_to!(node => sway_children(node, key)->0),
{
    match node {
        JsonValue::Object(members) => {
            let i = choose|i: int| crate::json::member_index(members@, key, i);
            let m = members@[i];
            match m.1 {
                JsonValue::Array(items) => {
                    assert(decreases_to!(node => members));
                    assert(decreases_to!(members => members@));
                    assert(decreases_to!(members@ => members@[i]));
                    assert(decreases_to!(m => m.1));
                    assert(decreases_to!(m.1 => items));
                    assert(decreases_to!(items => items@));
                },
                _ => {},
            }
        },
        _ => {},
    }
}

/// The focused window of a Sway tree: the node itself where it is focused
/// and names an application, else the first such window among its `nodes`,
/// then among its `floating_nodes`, depth first.
pub open spec fn spec_sway_focused(node: JsonValue) -> Option<(Seq<char>, Seq<char>)>
    decreases node,
{
    let own = if spec_as_bool(spec_get(node, "focused"@)) == Some(true) && sway_app(node).len()
        > 0 {
        Some(
            (
                sway_app(node),
                match spec_as_text(spec_get(node, "name"@)) {
                    Some(t) => t,
                    None => Seq::empty(),
                },
            ),
        )
    } else {
        None
    };
    if own is Some {
        own
    } else {
        let tiled = match sway_children(node, "nodes"@) {
            Some(items) => {
                proof {
                    lemma_children_smaller(node, "nodes"@);
                }
                spec_sway_among(items)
            },
            None => None,
        };
        if tiled is Some {
            tiled
        } else {
            match sway_children(node, "floating_nodes"@) {
                Some(items) => {
                    proof {
                        lemma_children_smaller(node, "floating_nodes"@);
                    }
                    spec_sway_among(items)
                },
                None => None,
            }
        }
    }
}

/// The first focused window found among `items`, in order.
pub open spec fn spec_sway_among(items: Seq<JsonValue>) -> Option<(Seq<char>, Seq<char>)>
    decreases items,
{
    if items.len() == 0 {
        None
    } else {
        let first = spec_sway_focused(items[0]);
        if first is Some {
            first
        } else {
            spec_sway_among(items.drop_first())
        }
    }
}

/// The application a Sway node names.
fn sway_app_of(node: &JsonValue) -> (r: Vec<char>)
    ensures
        r@ == sway_app(*node),
{
    match node.get("app_id") {
        Some(a) => match a.as_text() {
            Some(t) => return chars_of(t.as_str()),
            None => {},
        },
        None => {},
    }
    match node.get("window_properties") {
        Some(p) => text_or_empty(p, "class"),
        None => Vec::new(),
    }
}

/// The first focused window among the children of `node` under `key`.
fn sway_in(node: &JsonValue, key: &str) -> (r: Option<WindowInfo>)
    ensures
        window_view(r) == match sway_children(*node, key@) {
            Some(items) => spec_sway_among(items),
            None => None,
        },
    decreases *node, 0nat,
{
    let items = match node.get(key) {
        Some(c) => match c.as_array() {
            Some(items) => items,
            None => return None,
        },
        None => return None,
    };
    proof {
        lemma_children_smaller(*node, key@);
    }
    let ghost all = items@;
    let mut j: usize = 0;
    assert(all.skip(0) =~= all);
    while j < items.len()
        invariant
            j <= items.len(),
            all == items@,
            sway_children(*node, key@) == Some(all),
            decreases_to!(*node => all),
            spec_sway_among(all) == spec_sway_among(all.skip(j as int)),
        decreases items.len() - j,
    {
        assert(decreases_to!(all => all[j as int]));
        let found = find_sway_focused_node(&items[j]);
        let ghost rest = all.skip(j as int);
        assert(rest[0] == all[j as int]);
        assert(rest.drop_first() =~= all.skip(j + 1));
        if found.is_some() {
            return found;
        }
        j += 1;
    }
    assert(all.skip(j as int) =~= Seq::<JsonValue>::empty());
    None
}

/// The focused window of a Sway tree (`swaymsg -t get_tree -r`).
pub fn find_sway_focused_node(node: &JsonValue) -> (r: Option<WindowInfo>)
    ensures
        window_view(r) == spec_sway_focused(*node),
    decreases *node, 1nat,
{
    let focused = match node.get("focused") {
        Some(f) => f.as_bool(),
        None => None,
    };
    let is_focused = match focused {
        Some(b) => b,
        None => false,
    };
    if is_focused {
        let app = sway_app_of(node);
        if app.len() > 0 {
            let title = text_or_empty(node, "name");
            return Some(window(app, title));
        }
    }
    let tiled = sway_in(node, "nodes");
    if tiled.is_some() {
        return tiled;
    }
    sway_in(node, "floating_nodes")
}

/// The two halves of `app|||title` output, as `splitn(2, "|||")` cuts it.
pub open spec fn split_app_title(result: Seq<char>) -> (Seq<char>, Option<Seq<char>>) {
    if spec_contains(result, "|||"@) {
        let i = first_index(result, "|||"@);
        (result.take(i), Some(result.skip(i + 3)))
    } else {
        (result, None)
    }
}

fn split_app_title_exec(result: &Vec<char>) -> (r: (Vec<char>, Option<Vec<char>>))
    ensures
        r.0@ == split_app_title(result@).0,
        match r.1 {
            Some(t) => split_app_title(result@).1 == Some(t@),
            None => split_app_title(result@).1 is None,
        },
{
    proof {
        reveal_strlit("|||");
    }
    let sep = chars_of("|||");
    match index_of(result, &sep) {
        Some(i) => {
            assert(result@.take(i as int) =~= result@.subrange(0, i as int));
            assert(result@.skip(i + 3) =~= result@.subrange(i + 3, result.len() as int));
            (slice(result, 0, i), Some(slice(result, i + 3, result.len())))
        },
        None => (slice(result, 0, result.len()), None),
    }
}

/// The window that the macOS `osascript` probe printed as `app|||title`
/// (already trimmed): the application before the first `|||`, the title after it.
pub open spec fn spec_macos_window(result: Seq<char>) -> (Seq<char>, Seq<char>) {
    let (app, title) = split_app_title(result);
    (
        app,
        match title {
            Some(t) => t,
            None => Seq::empty(),
        },
    )
}

pub fn macos_window(result: &str) -> (r: WindowInfo)
    ensures
        (r.app_name@, r.window_title@) == spec_macos_window(result@),
{
    let (app, title) = split_app_title_exec(&chars_of(result));
    let t = match title {
        Some(t) => t,
        None => Vec::new(),
    };
    window(app, t)
}

/// The window that the Windows PowerShell probe printed as `process|||title`
/// (already trimmed): both halves trimmed; none where the process name is blank.
pub open spec fn spec_windows_window(result: Seq<char>) -> Option<(Seq<char>, Seq<char>)> {
    let (app, title) = split_app_title(result);
    if spec_trim(app).len() == 0 {
        None
    } else {
        Some(
            (
                spec_trim(app),
                match title {
                    Some(t) => spec_trim(t),
                    None => Seq::empty(),
                },
            ),
        )
    }
}

pub fn windows_window(result: &str) -> (r: Option<WindowInfo>)
    ensures
        window_view(r) == spec_windows_window(result@),
{
    let (app, title) = split_app_title_exec(&chars_of(result));
    let a = trim(&app);
    if a.len() == 0 {
        return None;
    }
    let t = match title {
        Some(t) => trim(&t),
        None => Vec::new(),
    };
    Some(window(a, t))
}

/// The focused window in what `swaymsg -t get_tree -r` printed; none where
/// the output is not JSON.
pub fn sway_tree_window(output: &str) -> (r: Option<WindowInfo>)
    ensures
        window_view(r) == match spec_json_parse(output@) {
            Some(tree) => spec_sway_focused(tree),
            None => None,
        },
{
    match parse_json(output) {
        Some(tree) => find_sway_focused_node(&tree),
        None => None,
    }
}

/// The window in what `hyprctl activewindow -j` printed; none where the
/// output is not JSON.
pub fn hyprland_output_window(output: &str) -> (r: Option<WindowInfo>)
    ensures
        window_view(r) == match spec_json_parse(output@) {
            Some(w) => spec_hyprland_window(w),
            None => None,
        },
{
    match parse_json(output) {
        Some(w) => hyprland_window(&w),
        None => None,
    }
}

} // verus!
