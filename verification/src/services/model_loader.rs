//! Where model files are downloaded from and cached, and how the download
//! follows Hugging Face's redirects.  The requests and file writes stand
//! outside; the decisions between them are here.

use vstd::prelude::*;

use crate::text::chars_of;
use crate::text::concat;
use crate::text::concat_str;
use crate::text::is_last_occurrence;
use crate::text::replace_str;
use crate::text::rfind;
use crate::text::slice;
use crate::text::spec_contains;
use crate::text::spec_replace;
use crate::text::spec_starts_with;
use crate::text::starts_with;
use crate::text::string_of;

verus! {

/// Redirects followed before a download gives up.
pub const MAX_REDIRECTS: usize = 8;

/// Why following a download redirect failed.
#[derive(Debug, Clone, Copy, PartialEq, Eq, Structural)]
pub enum RedirectError {
    /// A relative redirect came from a URL without a `/`.
    InvalidBase,
    /// A redirect response named no `Location`.
    MissingLocation,
    /// More than `MAX_REDIRECTS` redirects in a row.
    TooManyRedirects,
}

impl RedirectError {
    pub fn message(self) -> (r: &'static str)
        ensures
            r@ == match self {
                RedirectError::InvalidBase => "Invalid redirect base URL"@,
                RedirectError::MissingLocation => "Model download redirect has no Location header"@,
                RedirectError::TooManyRedirects => "Model download exceeded 8 redirects"@,
            },
    {
        match self {
            RedirectError::InvalidBase => "Invalid redirect base URL",
            RedirectError::MissingLocation => "Model download redirect has no Location header",
            RedirectError::TooManyRedirects => "Model download exceeded 8 redirects",
        }
    }
}

/// Where a redirect from `current` to `location` leads: an absolute URL as it
/// is, a path on Hugging Face's host, or a name next to the current URL's
/// last path segment.
pub open spec fn spec_resolve_redirect(current: Seq<char>, location: Seq<char>) -> Result<
    Seq<char>,
    RedirectError,
> {
    if spec_starts_with(location, "https://"@) || spec_starts_with(location, "http://"@) {
        Ok(location)
    } else if spec_starts_with(location, "/"@) {
        Ok("https://huggingface.co"@ + location)
    } else if spec_contains(current, "/"@) {
        let i = choose|i: int| is_last_occurrence(current, "/"@, i);
        Ok(current.take(i) + "/"@ + location)
    } else {
        Err(RedirectError::InvalidBase)
    }
}

pub fn resolve_redirect(current_url: &str, location: &str) -> (r: Result<String, RedirectError>)
    ensures
        match r {
            Ok(u) => spec_resolve_redirect(current_url@, location@) == Ok::<
                Seq<char>,
                RedirectError,
            >(u@),
            Err(e) => spec_resolve_redirect(current_url@, location@) == Err::<
                Seq<char>,
                RedirectError,
            >(e),
        },
{
    let loc = chars_of(location);
    if starts_with(&loc, "https://") || starts_with(&loc, "http://") {
        return Ok(string_of(&loc));
    }
    if starts_with(&loc, "/") {
        return Ok(string_of(&concat(&chars_of("https://huggingface.co"), &loc)));
    }
    let cur = chars_of(current_url);
    let slash = chars_of("/");
    match rfind(&cur, &slash) {
        Some(i) => {
            proof {
                let c = choose|c: int| is_last_occurrence(cur@, "/"@, c);
                assert(is_last_occurrence(cur@, "/"@, c));
                assert(c == i) by {
                    if c < i {
                        assert(!crate::text::occurs_at(cur@, "/"@, i as int));
                    } else if c > i {
                        assert(!crate::text::occurs_at(cur@, "/"@, c));
                    }
                }
                assert(cur@.take(i as int) =~= cur@.subrange(0, i as int));
            }
            let parent = slice(&cur, 0, i);
            Ok(string_of(&concat(&concat(&parent, &slash), &loc)))
        },
        None => {
            assert(!spec_contains(cur@, "/"@));
            Err(RedirectError::InvalidBase)
        },
    }
}

/// A status in the 3xx range asks the client to go elsewhere.
pub open spec fn is_redirect_status(status: u16) -> bool {
    300 <= status < 400
}

pub fn is_redirect(status: u16) -> (r: bool)
    ensures
        r == is_redirect_status(status),
{
    300 <= status && status < 400
}

/// What a download does with a response: a redirect leads on to the
/// resolved `Location` (`Some`), anything else is the answer (`None`).
pub fn next_hop(current_url: &str, status: u16, location: Option<&str>) -> (r: Result<
    Option<String>,
    RedirectError,
>)
    ensures
        !is_redirect_status(status) ==> r matches Ok(None),
        is_redirect_status(status) ==> match location {
            None => r == Err::<Option<String>, RedirectError>(RedirectError::MissingLocation),
            Some(l) => match r {
                Ok(Some(u)) => spec_resolve_redirect(current_url@, l@) == Ok::<
                    Seq<char>,
                    RedirectError,
                >(u@),
                Ok(None) => false,
                Err(e) => spec_resolve_redirect(current_url@, l@) == Err::<
                    Seq<char>,
                    RedirectError,
                >(e),
            },
        },
{
    if !is_redirect(status) {
        return Ok(None);
    }
    match location {
        None => Err(RedirectError::MissingLocation),
        Some(l) => match resolve_redirect(current_url, l) {
            Ok(u) => Ok(Some(u)),
            Err(e) => Err(e),
        },
    }
}

/// The address of a file in a Hugging Face repository's main branch.
pub fn download_url(repository: &str, remote_path: &str) -> (r: String)
    ensures
        r@ == "https://huggingface.co/"@ + repository@ + "/resolve/main/"@ + remote_path@,
{
    let a = concat(&chars_of("https://huggingface.co/"), &chars_of(repository));
    let b = concat_str(&a, "/resolve/main/");
    string_of(&concat(&b, &chars_of(remote_path)))
}

/// The directory an older fastembed cache kept a repository in.
pub fn legacy_repo_dir(repository: &str) -> (r: String)
    ensures
        r@ == "models--"@ + spec_replace(repository@, "/"@, "--"@),
{
    proof {
        reveal_strlit("/");
    }
    let replaced = replace_str(&chars_of(repository), "/", "--");
    string_of(&concat(&chars_of("models--"), &replaced))
}

/// The files a model needs: its ONNX file and the four tokenizer files.
pub fn cache_files(model_file: &'static str) -> (r: Vec<&'static str>)
    ensures
        r@ == seq![
            model_file,
            "tokenizer.json",
            "config.json",
            "special_tokens_map.json",
            "tokenizer_config.json",
        ],
{
    let mut v: Vec<&'static str> = Vec::new();
    v.push(model_file);
    v.push("tokenizer.json");
    v.push("config.json");
    v.push("special_tokens_map.json");
    v.push("tokenizer_config.json");
    assert(v@ =~= seq![
        model_file,
        "tokenizer.json",
        "config.json",
        "special_tokens_map.json",
        "tokenizer_config.json",
    ]);
    v
}

} // verus!
