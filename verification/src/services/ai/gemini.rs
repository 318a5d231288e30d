//! Requests to Gemini and the reading of its replies.

use vstd::prelude::*;

use crate::services::ai::answer_outcome;
use crate::services::ai::evidence_ids;
use crate::services::ai::header;
use crate::services::ai::header_is;
use crate::services::ai::parse_answer;
use crate::services::ai::AiError;
use crate::services::ai::EvidenceClip;
use crate::services::ai::GroundedAnswer;
use crate::services::ai::ProviderConfig;
use crate::services::ai::ProviderRequest;
use crate::services::ai::MAX_OUTPUT_TOKENS;
use crate::json::items_of;
use crate::json::jtext;
use crate::json::json_parse;
use crate::json::json_print;
use crate::json::member;
use crate::json::member_named;
use crate::json::members_of;
use crate::json::number_member;
use crate::json::spec_as_text;
use crate::json::spec_at_opt;
use crate::json::spec_get_opt;
use crate::json::spec_json_parse;
use crate::json::spec_json_print;
use crate::json::text_member;
use crate::json::JsonValue;
use crate::text::chars_of;
use crate::text::concat;
use crate::text::concat_str;
use crate::text::string_of;

verus! {

/// The URL that generates content with `model`.
pub open spec fn generate_url(model: Seq<char>) -> Seq<char> {
    "https://generativelanguage.googleapis.com/v1beta/models/"@ + model + ":generateContent"@
}

/// The URL that describes `model`.
pub open spec fn model_url(model: Seq<char>) -> Seq<char> {
    "https://generativelanguage.googleapis.com/v1beta/models/"@ + model
}

/// `v` is the body of a generate request: the prompt as the one part of the
/// one content, a JSON response type and the output-token limit.
pub open spec fn is_generate_body(v: JsonValue, prompt: Seq<char>) -> bool {
    let m = members_of(v);
    &&& v is Object
    &&& m.len() == 2
    &&& member_named(m, 0, "contents"@) && items_of(m[0].1).len() == 1
    &&& members_of(items_of(m[0].1)[0]).len() == 1
    &&& member_named(members_of(items_of(m[0].1)[0]), 0, "parts"@)
    &&& items_of(members_of(items_of(m[0].1)[0])[0].1).len() == 1
    &&& members_of(items_of(members_of(items_of(m[0].1)[0])[0].1)[0]).len() == 1
    &&& text_member(members_of(items_of(members_of(items_of(m[0].1)[0])[0].1)[0]), 0, "text"@, prompt)
    &&& member_named(m, 1, "generationConfig"@) && members_of(m[1].1).len() == 2
    &&& text_member(members_of(m[1].1), 0, "responseMimeType"@, "application/json"@)
    &&& number_member(members_of(m[1].1), 1, "maxOutputTokens"@, "500"@)
}

fn obj1(key: &str, value: JsonValue) -> (r: JsonValue)
    ensures
        r is Object,
        members_of(r).len() == 1,
        members_of(r)[0].0@ == key@,
        members_of(r)[0].1 == value,
{
    let mut m: Vec<(String, JsonValue)> = Vec::new();
    m.push(member(key, value));
    JsonValue::Object(m)
}

fn arr1(value: JsonValue) -> (r: JsonValue)
    ensures
        r is Array,
        items_of(r).len() == 1,
        items_of(r)[0] == value,
{
    let mut a: Vec<JsonValue> = Vec::new();
    a.push(value);
    JsonValue::Array(a)
}

/// The request that asks `config.model` to answer `prompt`: POST to the
/// generate URL with the API key header.  Fails with `NotConfigured` without
/// an API key, and with `RequestFailed` where the body cannot be printed.
pub fn generate_request(config: &ProviderConfig, prompt: &str) -> (r: Result<ProviderRequest, AiError>)
    ensures
        match r {
            Ok(req) => {
                &&& config.api_key matches Some(key)
                &&& req.url@ == generate_url(config.model@)
                &&& req.headers@.len() == 2
                &&& header_is(req.headers@, 0, "x-goog-api-key"@, key@)
                &&& header_is(req.headers@, 1, "Content-Type"@, "application/json"@)
                &&& req.body matches Some(b) && exists|v: JsonValue|
                    is_generate_body(v, prompt@) && spec_json_print(v) == Some(b@)
            },
            Err(e) => (e == AiError::NotConfigured && config.api_key is None) || (e
                == AiError::RequestFailed && config.api_key is Some && exists|v: JsonValue|
                is_generate_body(v, prompt@) && spec_json_print(v) is None),
        },
{
    let part = obj1("text", jtext(prompt));
    let content = obj1("parts", arr1(part));
    let mut cfg: Vec<(String, JsonValue)> = Vec::new();
    cfg.push(member("responseMimeType", jtext("application/json")));
    cfg.push(member("maxOutputTokens", JsonValue::Number(string_of(&crate::text::digits_u64(MAX_OUTPUT_TOKENS as u64)))));
    let mut m: Vec<(String, JsonValue)> = Vec::new();
    m.push(member("contents", arr1(content)));
    m.push(member("generationConfig", JsonValue::Object(cfg)));
    let body = JsonValue::Object(m);
    proof {
        reveal_with_fuel(crate::text::spec_digits, 4);
        reveal_strlit("500");
        assert(crate::text::spec_digits(500) =~= "500"@);
    }
    assert(is_generate_body(body, prompt@));
    let key = match &config.api_key {
        Some(k) => k,
        None => {
            return Err(AiError::NotConfigured);
        },
    };
    let url = concat_str(&concat(&chars_of("https://generativelanguage.googleapis.com/v1beta/models/"), &chars_of(config.model.as_str())), ":generateContent");
    let text = match json_print(&body) {
        Some(t) => t,
        None => {
            return Err(AiError::RequestFailed);
        },
    };
    let mut headers: Vec<(String, String)> = Vec::new();
    headers.push(header("x-goog-api-key", &chars_of(key.as_str())));
    headers.push(header("Content-Type", &chars_of("application/json")));
    Ok(ProviderRequest { url: string_of(&url), headers, body: Some(text) })
}

/// The answer text in a generate reply: the text of the first part of the
/// first candidate's content.
pub open spec fn reply_text(v: Option<JsonValue>) -> Option<Seq<char>> {
    spec_as_text(
        spec_get_opt(
            spec_at_opt(spec_get_opt(spec_get_opt(spec_at_opt(spec_get_opt(v, "candidates"@), 0), "content"@), "parts"@), 0),
            "text"@,
        ),
    )
}

/// The answer in a generate reply `body`: `RequestFailed` where the body is
/// not JSON, `InvalidAnswer` where it has no answer text, and otherwise the
/// text checked by `parse_answer` against the evidence IDs.
pub fn read_reply(body: &str, evidence: &Vec<EvidenceClip>) -> (r: Result<GroundedAnswer, AiError>)
    ensures
        match spec_json_parse(body@) {
            None => r == Err::<GroundedAnswer, AiError>(AiError::RequestFailed),
            Some(v) => match reply_text(Some(v)) {
                None => r == Err::<GroundedAnswer, AiError>(AiError::InvalidAnswer),
                Some(raw) => answer_outcome(r, raw, evidence@, "gemini"@),
            },
        },
{
    let v = match json_parse(body) {
        Some(v) => v,
        None => {
            return Err(AiError::RequestFailed);
        },
    };
    let raw = match v.get("candidates") {
        Some(c) => match c.at(0) {
            Some(c0) => match c0.get("content") {
                Some(ct) => match ct.get("parts") {
                    Some(p) => match p.at(0) {
                        Some(p0) => match p0.get("text") {
                            Some(t) => t.as_text(),
                            None => None,
                        },
                        None => None,
                    },
                    None => None,
                },
                None => None,
            },
            None => None,
        },
        None => None,
    };
    match raw {
        Some(text) => {
            let ids = evidence_ids(evidence);
            parse_answer(text.as_str(), &ids, "gemini")
        },
        None => Err(AiError::InvalidAnswer),
    }
}

/// The request that checks that `config.model` exists: GET the model URL with
/// the API key header.  Fails with `NotConfigured` without an API key.
pub fn test_request(config: &ProviderConfig) -> (r: Result<ProviderRequest, AiError>)
    ensures
        match r {
            Ok(req) => {
                &&& config.api_key matches Some(key)
                &&& req.url@ == model_url(config.model@)
                &&& req.headers@.len() == 1
                &&& header_is(req.headers@, 0, "x-goog-api-key"@, key@)
                &&& req.body is None
            },
            Err(e) => e == AiError::NotConfigured && config.api_key is None,
        },
{
    let key = match &config.api_key {
        Some(k) => k,
        None => {
            return Err(AiError::NotConfigured);
        },
    };
    let url = concat(&chars_of("https://generativelanguage.googleapis.com/v1beta/models/"), &chars_of(config.model.as_str()));
    let mut headers: Vec<(String, String)> = Vec::new();
    headers.push(header("x-goog-api-key", &chars_of(key.as_str())));
    Ok(ProviderRequest { url: string_of(&url), headers, body: None })
}

} // verus!
