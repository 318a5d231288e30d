//! What the local context endpoint does with a report from the browser
//! extension.  The server and its runtime stand outside.

use vstd::prelude::*;

use crate::state::BrowserContext;
use crate::text::byte_len;
use crate::text::chars_of;
use crate::text::trim_str;
use crate::text::utf8_len;
use crate::text::spec_trim;

verus! {

/// The address the endpoint listens on.
pub const CONTEXT_ADDRESS: &'static str = "127.0.0.1:17531";

/// Longest accepted URL, title and selection, in bytes.
pub const MAX_URL_BYTES: usize = 8_192;

pub const MAX_TITLE_BYTES: usize = 2_048;

pub const MAX_SELECTION_BYTES: usize = 100_000;

/// HTTP statuses the endpoint answers a refused report with.
pub const STATUS_NO_CONTENT: u16 = 204;

pub const STATUS_BAD_REQUEST: u16 = 400;

/// A page report from the browser extension.
#[derive(Debug, Clone)]
pub struct ContextPayload {
    pub url: String,
    pub title: String,
    pub selected_text: Option<String>,
    pub favicon_url: Option<String>,
}

/// A report that a well-behaved extension could send: a URL that is not
/// blank, and every part within its size limit.
pub open spec fn valid_payload(p: ContextPayload) -> bool {
    &&& spec_trim(p.url@).len() > 0
    &&& utf8_len(p.url@) <= MAX_URL_BYTES
    &&& utf8_len(p.title@) <= MAX_TITLE_BYTES
    &&& match p.selected_text {
        Some(t) => utf8_len(t@) <= MAX_SELECTION_BYTES,
        None => true,
    }
    &&& match p.favicon_url {
        Some(u) => utf8_len(u@) <= MAX_URL_BYTES,
        None => true,
    }
}

/// The context to keep from a report received at `now`: refused with 204
/// while browser context is off, with 400 when the report is invalid;
/// otherwise its URL and title, stamped with `now`.
pub fn accept_context(enabled: bool, payload: ContextPayload, now: i64) -> (r: Result<
    BrowserContext,
    u16,
>)
    ensures
        !enabled ==> r == Err::<BrowserContext, u16>(STATUS_NO_CONTENT),
        enabled && !valid_payload(payload) ==> r == Err::<BrowserContext, u16>(STATUS_BAD_REQUEST),
        enabled && valid_payload(payload) ==> (r matches Ok(c) && c.url@ == payload.url@ && c.title@
            == payload.title@ && c.timestamp == now),
{
    if !enabled {
        return Err(STATUS_NO_CONTENT);
    }
    let url = chars_of(payload.url.as_str());
    let bad_selection = match &payload.selected_text {
        Some(t) => byte_len(&chars_of(t.as_str())) > MAX_SELECTION_BYTES,
        None => false,
    };
    let bad_favicon = match &payload.favicon_url {
        Some(u) => byte_len(&chars_of(u.as_str())) > MAX_URL_BYTES,
        None => false,
    };
    if trim_str(payload.url.as_str()).len() == 0 || byte_len(&url) > MAX_URL_BYTES || byte_len(
        &chars_of(payload.title.as_str()),
    ) > MAX_TITLE_BYTES || bad_selection || bad_favicon {
        return Err(STATUS_BAD_REQUEST);
    }
    Ok(BrowserContext { url: payload.url, title: payload.title, timestamp: now })
}

} // verus!
