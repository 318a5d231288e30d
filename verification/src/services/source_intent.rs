//! Where a clip was copied from, as far as the application, URL and page
//! title tell.

use vstd::prelude::*;

use crate::text::chars_of;
use crate::text::contains_str;
use crate::text::spec_contains;
use crate::text::spec_to_lowercase;
use crate::text::to_lowercase;

verus! {

/// The kind of place a clip came from.
#[derive(Debug, Clone, Copy, PartialEq, Eq, Structural)]
pub enum SourceIntent {
    Docs,
    Github,
    StackOverflow,
    Terminal,
    Editor,
    Other,
}

impl SourceIntent {
    /// The name stored with a clip.
    pub fn as_str(self) -> (r: &'static str)
        ensures
            r@ == match self {
                SourceIntent::Docs => "docs"@,
                SourceIntent::Github => "github"@,
                SourceIntent::StackOverflow => "stackoverflow"@,
                SourceIntent::Terminal => "terminal"@,
                SourceIntent::Editor => "editor"@,
                SourceIntent::Other => "other"@,
            },
    {
        match self {
            SourceIntent::Docs => "docs",
            SourceIntent::Github => "github",
            SourceIntent::StackOverflow => "stackoverflow",
            SourceIntent::Terminal => "terminal",
            SourceIntent::Editor => "editor",
            SourceIntent::Other => "other",
        }
    }

    /// How far a source is trusted, in hundredths: documentation most,
    /// an unknown source least.
    pub fn trust_weight_percent(self) -> (r: u8)
        ensures
            r == match self {
                SourceIntent::Docs => 100u8,
                SourceIntent::Github => 90u8,
                SourceIntent::StackOverflow => 80u8,
                SourceIntent::Editor => 70u8,
                SourceIntent::Terminal => 60u8,
                SourceIntent::Other => 50u8,
            },
    {
        match self {
            SourceIntent::Docs => 100,
            SourceIntent::Github => 90,
            SourceIntent::StackOverflow => 80,
            SourceIntent::Editor => 70,
            SourceIntent::Terminal => 60,
            SourceIntent::Other => 50,
        }
    }
}

/// The text of an optional string, empty where there is none.
pub open spec fn text_or_empty(s: Option<&str>) -> Seq<char> {
    match s {
        Some(t) => t@,
        None => Seq::empty(),
    }
}

pub open spec fn is_editor(app: Seq<char>) -> bool {
    spec_contains(app, "code"@) || spec_contains(app, "cursor"@) || spec_contains(app, "sublime"@)
        || spec_contains(app, "jetbrains"@) || spec_contains(app, "vim"@) || spec_contains(
        app,
        "neovim"@,
    )
}

pub open spec fn is_terminal(app: Seq<char>) -> bool {
    spec_contains(app, "terminal"@) || spec_contains(app, "iterm"@) || spec_contains(
        app,
        "alacritty"@,
    ) || spec_contains(app, "powershell"@) || spec_contains(app, "console"@)
}

/// The source kind for lower-cased application name, URL and title: the URL
/// decides first (Stack Overflow, then GitHub, then documentation, which the
/// title can also show), then the application (editor, then terminal).
pub open spec fn spec_detect_lowered(app: Seq<char>, url: Seq<char>, title: Seq<char>) -> SourceIntent {
    if spec_contains(url, "stackoverflow.com"@) || spec_contains(url, "stackexchange.com"@) {
        SourceIntent::StackOverflow
    } else if spec_contains(url, "github.com"@) || spec_contains(url, "gist.github"@) {
        SourceIntent::Github
    } else if spec_contains(url, "docs."@) || spec_contains(url, "/docs"@) || spec_contains(
        title,
        "documentation"@,
    ) {
        SourceIntent::Docs
    } else if is_editor(app) {
        SourceIntent::Editor
    } else if is_terminal(app) {
        SourceIntent::Terminal
    } else {
        SourceIntent::Other
    }
}

/// `detect`'s result: the rule above on the lower-cased inputs, a missing
/// input counting as empty.
pub open spec fn spec_detect(app: Option<&str>, url: Option<&str>, title: Option<&str>) -> SourceIntent {
    spec_detect_lowered(
        spec_to_lowercase(text_or_empty(app)),
        spec_to_lowercase(text_or_empty(url)),
        spec_to_lowercase(text_or_empty(title)),
    )
}

fn lowered(s: Option<&str>) -> (r: Vec<char>)
    ensures
        r@ == spec_to_lowercase(text_or_empty(s)),
{
    proof {
        reveal_strlit("");
    }
    match s {
        Some(t) => chars_of(to_lowercase(t).as_str()),
        None => {
            assert(""@ =~= Seq::<char>::empty());
            chars_of(to_lowercase("").as_str())
        },
    }
}

pub fn detect(app: Option<&str>, url: Option<&str>, title: Option<&str>) -> (r: SourceIntent)
    ensures
        r == spec_detect(app, url, title),
        match url {
            Some(u) => ((spec_contains(spec_to_lowercase(u@), "docs."@) || spec_contains(spec_to_lowercase(u@), "/docs"@)) && !spec_contains(
            spec_to_lowercase(u@),
            "stackoverflow.com"@,
        ) && !spec_contains(spec_to_lowercase(u@), "stackexchange.com"@) && !spec_contains(spec_to_lowercase(u@), "github.com"@)
            && !spec_contains(spec_to_lowercase(u@), "gist.github"@)) ==> r == SourceIntent::Docs,
            None => true,
        },
{
    let app = lowered(app);
    let url = lowered(url);
    let title = lowered(title);
    if contains_str(&url, "stackoverflow.com") || contains_str(&url, "stackexchange.com") {
        return SourceIntent::StackOverflow;
    }
    if contains_str(&url, "github.com") || contains_str(&url, "gist.github") {
        return SourceIntent::Github;
    }
    if contains_str(&url, "docs.") || contains_str(&url, "/docs") || contains_str(
        &title,
        "documentation",
    ) {
        return SourceIntent::Docs;
    }
    if contains_str(&app, "code") || contains_str(&app, "cursor") || contains_str(&app, "sublime")
        || contains_str(&app, "jetbrains") || contains_str(&app, "vim") || contains_str(
        &app,
        "neovim",
    ) {
        return SourceIntent::Editor;
    }
    if contains_str(&app, "terminal") || contains_str(&app, "iterm") || contains_str(
        &app,
        "alacritty",
    ) || contains_str(&app, "powershell") || contains_str(&app, "console") {
        return SourceIntent::Terminal;
    }
    SourceIntent::Other
}


/// A URL into documentation pages (holding `docs.` or `/docs` once
/// lower-cased) is documentation, whatever the app and title, unless it is a
/// Stack Overflow, Stack Exchange or GitHub address.
pub proof fn lemma_docs_url_is_docs(app: Option<&str>, url: &str, title: Option<&str>)
    ensures
        ((spec_contains(spec_to_lowercase(url@), "docs."@) || spec_contains(spec_to_lowercase(url@), "/docs"@)) && !spec_contains(
            spec_to_lowercase(url@),
            "stackoverflow.com"@,
        ) && !spec_contains(spec_to_lowercase(url@), "stackexchange.com"@) && !spec_contains(spec_to_lowercase(url@), "github.com"@)
            && !spec_contains(spec_to_lowercase(url@), "gist.github"@)) ==> spec_detect(app, Some(url), title) == SourceIntent::Docs,
{
}


/// Where the URL is checked: a Stack Overflow or Stack Exchange address is
/// Stack Overflow, and otherwise a GitHub address is GitHub, whatever the app
/// and title; a page whose lower-cased title holds `documentation`, at an
/// address that is neither, is documentation.
pub proof fn lemma_url_kinds_decide_first(app: Option<&str>, url: &str, title: &str)
    ensures
        spec_contains(spec_to_lowercase(url@), "stackoverflow.com"@) || spec_contains(
            spec_to_lowercase(url@),
            "stackexchange.com"@,
        ) ==> spec_detect(app, Some(url), Some(title)) == SourceIntent::StackOverflow,
        !spec_contains(spec_to_lowercase(url@), "stackoverflow.com"@) && !spec_contains(
            spec_to_lowercase(url@),
            "stackexchange.com"@,
        ) && (spec_contains(spec_to_lowercase(url@), "github.com"@) || spec_contains(
            spec_to_lowercase(url@),
            "gist.github"@,
        )) ==> spec_detect(app, Some(url), Some(title)) == SourceIntent::Github,
        !spec_contains(spec_to_lowercase(url@), "stackoverflow.com"@) && !spec_contains(
            spec_to_lowercase(url@),
            "stackexchange.com"@,
        ) && !spec_contains(spec_to_lowercase(url@), "github.com"@) && !spec_contains(
            spec_to_lowercase(url@),
            "gist.github"@,
        ) && spec_contains(spec_to_lowercase(title@), "documentation"@) ==> spec_detect(
            app,
            Some(url),
            Some(title),
        ) == SourceIntent::Docs,
{
}

} // verus!
