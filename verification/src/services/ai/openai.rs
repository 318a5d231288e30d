//! Requests to OpenAI and the reading of its replies.

use vstd::prelude::*;

use crate::services::ai::answer_outcome;
use crate::services::ai::evidence_ids;
use crate::services::ai::header;
use crate::services::ai::header_is;
use crate::services::ai::parse_answer;
use crate::services::ai::AiError;
use crate::services::ai::EvidenceClip;
use crate::services::ai::GroundedAnswer;
use crate::services::ai::ProviderConfig;
use crate::services::ai::ProviderRequest;
use crate::services::ai::MAX_OUTPUT_TOKENS;
use crate::json::bool_member;
use crate::json::items_of;
use crate::json::jtext;
use crate::json::json_parse;
use crate::json::json_print;
use crate::json::member;
use crate::json::member_named;
use crate::json::members_of;
use crate::json::number_member;
use crate::json::spec_as_text;
use crate::json::spec_get_opt;
use crate::json::spec_json_parse;
use crate::json::spec_json_print;
use crate::json::text_member;
use crate::json::JsonValue;
use crate::text::chars_of;
use crate::text::concat;
use crate::text::eq_str;
use crate::text::string_of;

verus! {

/// `v` is the body of a responses request: model, no storage, the prompt as
/// the one user input, the output-token limit and a JSON object format.
pub open spec fn is_responses_body(v: JsonValue, model: Seq<char>, prompt: Seq<char>) -> bool {
    let m = members_of(v);
    let input = items_of(m[2].1);
    let content = items_of(members_of(input[0])[1].1);
    let fmt = members_of(members_of(m[4].1)[0].1);
    &&& v is Object
    &&& m.len() == 5
    &&& text_member(m, 0, "model"@, model)
    &&& bool_member(m, 1, "store"@, false)
    &&& member_named(m, 2, "input"@) && m[2].1 is Array && input.len() == 1
    &&& input[0] is Object && members_of(input[0]).len() == 2
    &&& text_member(members_of(input[0]), 0, "role"@, "user"@)
    &&& member_named(members_of(input[0]), 1, "content"@) && content.len() == 1
    &&& content[0] is Object && members_of(content[0]).len() == 2
    &&& text_member(members_of(content[0]), 0, "type"@, "input_text"@)
    &&& text_member(members_of(content[0]), 1, "text"@, prompt)
    &&& number_member(m, 3, "max_output_tokens"@, "500"@)
    &&& member_named(m, 4, "text"@) && m[4].1 is Object && members_of(m[4].1).len() == 1
    &&& member_named(members_of(m[4].1), 0, "format"@) && members_of(m[4].1)[0].1 is Object
    &&& fmt.len() == 1 && text_member(fmt, 0, "type"@, "json_object"@)
}

fn obj2(k1: &str, v1: JsonValue, k2: &str, v2: JsonValue) -> (r: JsonValue)
    ensures
        r is Object,
        members_of(r).len() == 2,
        members_of(r)[0].0@ == k1@,
        members_of(r)[0].1 == v1,
        members_of(r)[1].0@ == k2@,
        members_of(r)[1].1 == v2,
{
    let mut m: Vec<(String, JsonValue)> = Vec::new();
    m.push(member(k1, v1));
    m.push(member(k2, v2));
    JsonValue::Object(m)
}

fn one(value: JsonValue) -> (r: JsonValue)
    ensures
        r is Array,
        items_of(r).len() == 1,
        items_of(r)[0] == value,
{
    let mut a: Vec<JsonValue> = Vec::new();
    a.push(value);
    JsonValue::Array(a)
}

/// The request that asks `config.model` to answer `prompt`: POST to the
/// responses endpoint with a bearer token.  Fails with `NotConfigured`
/// without an API key, and with `RequestFailed` where the body cannot be printed.
pub fn generate_request(config: &ProviderConfig, prompt: &str) -> (r: Result<ProviderRequest, AiError>)
    ensures
        match r {
            Ok(req) => {
                &&& config.api_key matches Some(key)
                &&& req.url@ == "https://api.openai.com/v1/responses"@
                &&& req.headers@.len() == 2
                &&& header_is(req.headers@, 0, "Authorization"@, "Bearer "@ + key@)
                &&& header_is(req.headers@, 1, "Content-Type"@, "application/json"@)
                &&& req.body matches Some(b) && exists|v: JsonValue|
                    is_responses_body(v, config.model@, prompt@) && spec_json_print(v) == Some(b@)
            },
            Err(e) => (e == AiError::NotConfigured && config.api_key is None) || (e
                == AiError::RequestFailed && config.api_key is Some && exists|v: JsonValue|
                is_responses_body(v, config.model@, prompt@) && spec_json_print(v) is None),
        },
{
    let content = one(obj2("type", jtext("input_text"), "text", jtext(prompt)));
    let input = one(obj2("role", jtext("user"), "content", content));
    let mut fmt: Vec<(String, JsonValue)> = Vec::new();
    fmt.push(member("type", jtext("json_object")));
    let mut text: Vec<(String, JsonValue)> = Vec::new();
    text.push(member("format", JsonValue::Object(fmt)));
    let mut m: Vec<(String, JsonValue)> = Vec::new();
    m.push(member("model", JsonValue::Text(config.model.clone())));
    m.push(member("store", JsonValue::Bool(false)));
    m.push(member("input", input));
    m.push(member("max_output_tokens", JsonValue::Number(string_of(&crate::text::digits_u64(MAX_OUTPUT_TOKENS as u64)))));
    m.push(member("text", JsonValue::Object(text)));
    let body = JsonValue::Object(m);
    proof {
        reveal_with_fuel(crate::text::spec_digits, 4);
        reveal_strlit("500");
        assert(crate::text::spec_digits(500) =~= "500"@);
    }
    assert(is_responses_body(body, config.model@, prompt@));
    let key = match &config.api_key {
        Some(k) => k,
        None => {
            return Err(AiError::NotConfigured);
        },
    };
    let printed = match json_print(&body) {
        Some(t) => t,
        None => {
            return Err(AiError::RequestFailed);
        },
    };
    let mut headers: Vec<(String, String)> = Vec::new();
    headers.push(header("Authorization", &concat(&chars_of("Bearer "), &chars_of(key.as_str()))));
    headers.push(header("Content-Type", &chars_of("application/json")));
    Ok(ProviderRequest { url: string_of(&chars_of("https://api.openai.com/v1/responses")), headers, body: Some(printed) })
}

/// The first string found under a `text` key, depth first: an object's
/// members in order (a `text` member that is not a string is passed over),
/// an array's items in order.
pub open spec fn spec_find_text(v: JsonValue) -> Option<Seq<char>>
    decreases v,
{
    match v {
        JsonValue::Object(m) => find_in_members(m@),
        JsonValue::Array(a) => find_in_items(a@),
        _ => None,
    }
}

pub open spec fn find_in_members(ms: Seq<(String, JsonValue)>) -> Option<Seq<char>>
    decreases ms,
{
    if ms.len() == 0 {
        None
    } else {
        let here = if ms[0].0@ == "text"@ {
            spec_as_text(Some(ms[0].1))
        } else {
            spec_find_text(ms[0].1)
        };
        match here {
            Some(t) => Some(t),
            None => find_in_members(ms.drop_first()),
        }
    }
}

pub open spec fn find_in_items(items: Seq<JsonValue>) -> Option<Seq<char>>
    decreases items,
{
    if items.len() == 0 {
        None
    } else {
        match spec_find_text(items[0]) {
            Some(t) => Some(t),
            None => find_in_items(items.drop_first()),
        }
    }
}

/// The first string under a `text` key anywhere in `v`, depth first.
pub fn find_text(v: &JsonValue) -> (r: Option<String>)
    ensures
        match r {
            Some(t) => spec_find_text(*v) == Some(t@),
            None => spec_find_text(*v) is None,
        },
    decreases v,
{
    match v {
        JsonValue::Object(m) => {
            let mut i: usize = 0;
            assert(m@.skip(0) =~= m@);
            while i < m.len()
                invariant
                    i <= m.len(),
                    *v == JsonValue::Object(*m),
                    find_in_members(m@) == find_in_members(m@.skip(i as int)),
                decreases m.len() - i,
            {
                let ghost rest = m@.skip(i as int);
                assert(rest[0] == m@[i as int]);
                assert(rest.drop_first() =~= m@.skip(i + 1));
                if eq_str(&chars_of(m[i].0.as_str()), "text") {
                    match m[i].1.as_text() {
                        Some(t) => {
                            return Some(t.clone());
                        },
                        None => {},
                    }
                } else {
                    assert(decreases_to!(*v => m@[i as int].1));
                    match find_text(&m[i].1) {
                        Some(t) => {
                            return Some(t);
                        },
                        None => {},
                    }
                }
                i += 1;
            }
            None
        },
        JsonValue::Array(a) => {
            let mut i: usize = 0;
            assert(a@.skip(0) =~= a@);
            while i < a.len()
                invariant
                    i <= a.len(),
                    *v == JsonValue::Array(*a),
                    find_in_items(a@) == find_in_items(a@.skip(i as int)),
                decreases a.len() - i,
            {
                let ghost rest = a@.skip(i as int);
                assert(rest[0] == a@[i as int]);
                assert(rest.drop_first() =~= a@.skip(i + 1));
                assert(decreases_to!(*v => a@[i as int]));
                match find_text(&a[i]) {
                    Some(t) => {
                        return Some(t);
                    },
                    None => {},
                }
                i += 1;
            }
            None
        },
        _ => None,
    }
}

/// The answer text of a responses reply: `output_text` when it is a string,
/// and otherwise the first string under a `text` key.
pub open spec fn reply_text(v: JsonValue) -> Option<Seq<char>> {
    match spec_as_text(spec_get_opt(Some(v), "output_text"@)) {
        Some(t) => Some(t),
        None => spec_find_text(v),
    }
}

/// The answer in a responses reply `body`: `RequestFailed` where the body is
/// not JSON, `InvalidAnswer` where it has no answer text, and otherwise the
/// text checked by `parse_answer` against the evidence IDs.
pub fn read_reply(body: &str, evidence: &Vec<EvidenceClip>) -> (r: Result<GroundedAnswer, AiError>)
    ensures
        match spec_json_parse(body@) {
            None => r == Err::<GroundedAnswer, AiError>(AiError::RequestFailed),
            Some(v) => match reply_text(v) {
                None => r == Err::<GroundedAnswer, AiError>(AiError::InvalidAnswer),
                Some(raw) => answer_outcome(r, raw, evidence@, "openai"@),
            },
        },
{
    let v = match json_parse(body) {
        Some(v) => v,
        None => {
            return Err(AiError::RequestFailed);
        },
    };
    let direct = match v.get("output_text") {
        Some(t) => match t.as_text() {
            Some(s) => Some(s.clone()),
            None => None,
        },
        None => None,
    };
    let raw = match direct {
        Some(s) => Some(s),
        None => find_text(&v),
    };
    match raw {
        Some(text) => {
            let ids = evidence_ids(evidence);
            parse_answer(text.as_str(), &ids, "openai")
        },
        None => Err(AiError::InvalidAnswer),
    }
}

/// The request that checks the API key: GET the model list with a bearer
/// token.  Fails with `NotConfigured` without an API key.
pub fn test_request(config: &ProviderConfig) -> (r: Result<ProviderRequest, AiError>)
    ensures
        match r {
            Ok(req) => {
                &&& config.api_key matches Some(key)
                &&& req.url@ == "https://api.openai.com/v1/models"@
                &&& req.headers@.len() == 1
                &&& header_is(req.headers@, 0, "Authorization"@, "Bearer "@ + key@)
                &&& req.body is None
            },
            Err(e) => e == AiError::NotConfigured && config.api_key is None,
        },
{
    let key = match &config.api_key {
        Some(k) => k,
        None => {
            return Err(AiError::NotConfigured);
        },
    };
    let mut headers: Vec<(String, String)> = Vec::new();
    headers.push(header("Authorization", &concat(&chars_of("Bearer "), &chars_of(key.as_str()))));
    Ok(ProviderRequest { url: string_of(&chars_of("https://api.openai.com/v1/models")), headers, body: None })
}

} // verus!
