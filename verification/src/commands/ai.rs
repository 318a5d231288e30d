//! Provider settings, the choice between a provider answer and a local one,
//! and the evidence a question may use.

use vstd::prelude::*;

use crate::json::json_parse;
use crate::json::spec_as_array;
use crate::json::spec_get;
use crate::json::spec_json_parse;
use crate::json::spec_text_items;
use crate::json::text_items;
use crate::json::views;
use crate::json::JsonValue;
use crate::models::FilterRule;
use crate::services::ai::local_answer;
use crate::services::ai::local_answer_text;
use crate::services::ai::spec_parse_provider;
use crate::services::ai::take_at_most;
use crate::services::ai::AiError;
use crate::services::ai::AiSettings;
use crate::services::ai::EvidenceClip;
use crate::services::ai::GroundedAnswer;
use crate::services::ai::Provider;
use crate::services::ai::ProviderConfig;
use crate::services::ai::MAX_CLIPS;
use crate::services::filter::evaluate;
use crate::services::filter::spec_evaluate;
use crate::text::chars_eq;
use crate::text::chars_of;
use crate::text::spec_starts_with;
use crate::text::spec_trim;
use crate::text::spec_trim_end_matches;
use crate::text::starts_with;
use crate::text::string_of;
use crate::text::trim;
use crate::text::trim_end_matches;
use crate::text::trim_str;

verus! {

/// Provider settings as the settings screen submits them.
#[derive(Debug, Clone)]
pub struct AiSettingsInput {
    pub provider: String,
    pub model: String,
    pub ollama_url: String,
    pub api_key: Option<String>,
    pub clear_api_key: bool,
    pub cloud_consent: bool,
}

/// An answer as the shell receives it.
#[derive(Debug, Clone)]
pub struct GroundedAnswerResponse {
    pub answer: String,
    pub citations: Vec<String>,
    pub confidence: String,
    pub source: String,
    pub fallback_reason: Option<String>,
}

impl From<GroundedAnswer> for GroundedAnswerResponse {
    fn from(answer: GroundedAnswer) -> (r: Self) {
        GroundedAnswerResponse {
            answer: answer.answer,
            citations: answer.citations,
            confidence: answer.confidence,
            source: answer.source,
            fallback_reason: answer.fallback_reason,
        }
    }
}

impl vstd::std_specs::convert::FromSpecImpl<GroundedAnswer> for GroundedAnswerResponse {
    open spec fn obeys_from_spec() -> bool {
        true
    }

    open spec fn from_spec(answer: GroundedAnswer) -> Self {
        GroundedAnswerResponse {
            answer: answer.answer,
            citations: answer.citations,
            confidence: answer.confidence,
            source: answer.source,
            fallback_reason: answer.fallback_reason,
        }
    }
}

/// OpenAI and Gemini send evidence off the machine.
pub open spec fn is_cloud(p: Provider) -> bool {
    p == Provider::Openai || p == Provider::Gemini
}

pub open spec fn spec_default_model(p: Provider) -> Seq<char> {
    match p {
        Provider::Ollama => "llama3.2:3b"@,
        Provider::Openai => "gpt-4o-mini"@,
        Provider::Gemini => "gemini-2.0-flash"@,
        Provider::Disabled => "llama3.2:3b"@,
    }
}

/// The model used where the settings name none.
pub fn default_model(provider: Provider) -> (r: &'static str)
    ensures
        r@ == spec_default_model(provider),
{
    match provider {
        Provider::Ollama => "llama3.2:3b",
        Provider::Openai => "gpt-4o-mini",
        Provider::Gemini => "gemini-2.0-flash",
        Provider::Disabled => "llama3.2:3b",
    }
}

pub open spec fn spec_is_loopback_url(url: Seq<char>) -> bool {
    spec_starts_with(url, "http://localhost"@) || spec_starts_with(url, "http://127.0.0.1"@)
        || spec_starts_with(url, "http://[::1]"@) || spec_starts_with(url, "https://localhost"@)
        || spec_starts_with(url, "https://127.0.0.1"@) || spec_starts_with(url, "https://[::1]"@)
}

/// Whether a URL points at this machine.
pub fn is_loopback_url(url: &str) -> (r: bool)
    ensures
        r == spec_is_loopback_url(url@),
{
    let u = chars_of(url);
    starts_with(&u, "http://localhost") || starts_with(&u, "http://127.0.0.1") || starts_with(
        &u,
        "http://[::1]",
    ) || starts_with(&u, "https://localhost") || starts_with(&u, "https://127.0.0.1")
        || starts_with(&u, "https://[::1]")
}

/// The submitted settings that pass the first checks.
#[derive(Debug, Clone)]
pub struct CheckedAiSettings {
    pub provider: Provider,
    pub model: String,
    pub ollama_url: String,
}

/// The Ollama address as submitted: trimmed, trailing slashes removed.
pub open spec fn submitted_url(url: Seq<char>) -> Seq<char> {
    spec_trim_end_matches(spec_trim(url), "/"@)
}

/// The checks on submitted settings, before the stored API key is read.
pub open spec fn spec_check_ai_settings(input: AiSettingsInput) -> Result<
    (Provider, Seq<char>, Seq<char>),
    Seq<char>,
> {
    match spec_parse_provider(input.provider@) {
        None => Err("Unsupported AI provider"@),
        Some(provider) => {
            let model = if spec_trim(input.model@).len() == 0 {
                spec_default_model(provider)
            } else {
                spec_trim(input.model@)
            };
            let url = submitted_url(input.ollama_url@);
            if model.len() > 120 {
                Err("Model name is too long"@)
            } else if input.api_key matches Some(k) && k@.len() > 512 {
                Err("API key is too long"@)
            } else if is_cloud(provider) && !input.cloud_consent {
                Err("Cloud consent is required before enabling this provider"@)
            } else if provider == Provider::Ollama && !spec_is_loopback_url(url) {
                Err("Ollama URL must use localhost, 127.0.0.1, or ::1"@)
            } else {
                Ok((provider, model, url))
            }
        },
    }
}

fn err_text<T>(msg: &str) -> (r: Result<T, String>)
    ensures
        r matches Err(e) && e@ == msg@,
{
    Err(string_of(&chars_of(msg)))
}

/// Checks submitted provider settings: a known provider, a model name of at
/// most 120 characters (the provider's default where blank), an API key of at
/// most 512 characters, consent for a cloud provider, and a loopback address
/// for Ollama.
pub fn check_ai_settings(input: &AiSettingsInput) -> (r: Result<CheckedAiSettings, String>)
    ensures
        match (r, spec_check_ai_settings(*input)) {
            (Ok(c), Ok(s)) => c.provider == s.0 && c.model@ == s.1 && c.ollama_url@ == s.2,
            (Err(e), Err(m)) => e@ == m,
            _ => false,
        },
{
    let provider = match Provider::parse(input.provider.as_str()) {
        Some(p) => p,
        None => {
            return err_text("Unsupported AI provider");
        },
    };
    let trimmed = trim_str(input.model.as_str());
    let model = if trimmed.len() == 0 {
        chars_of(default_model(provider))
    } else {
        trimmed
    };
    let url = trim_end_matches(&trim_str(input.ollama_url.as_str()), "/");
    if model.len() > 120 {
        return err_text("Model name is too long");
    }
    match &input.api_key {
        Some(k) => {
            if chars_of(k.as_str()).len() > 512 {
                return err_text("API key is too long");
            }
        },
        None => {},
    }
    if (provider == Provider::Openai || provider == Provider::Gemini) && !input.cloud_consent {
        return err_text("Cloud consent is required before enabling this provider");
    }
    if provider == Provider::Ollama && !is_loopback_url(string_of(&url).as_str()) {
        return err_text("Ollama URL must use localhost, 127.0.0.1, or ::1");
    }
    Ok(CheckedAiSettings { provider, model: string_of(&model), ollama_url: string_of(&url) })
}

/// The API key to store: none when clearing, else the trimmed submitted key
/// when it is not blank, else the stored one.
pub open spec fn spec_resolve_key(
    submitted: Option<String>,
    clear: bool,
    existing: Option<String>,
) -> Option<Seq<char>> {
    if clear {
        None
    } else {
        let fresh = match submitted {
            Some(k) => spec_trim(k@),
            None => seq![],
        };
        if fresh.len() > 0 {
            Some(fresh)
        } else {
            match existing {
                Some(e) => Some(e@),
                None => None,
            }
        }
    }
}

/// The API key to store; a cloud provider needs one.
pub fn resolve_api_key(
    provider: Provider,
    submitted: &Option<String>,
    clear: bool,
    existing: Option<String>,
) -> (r: Result<Option<String>, String>)
    ensures
        match r {
            Ok(k) => (match (k, spec_resolve_key(*submitted, clear, existing)) {
                (Some(a), Some(b)) => a@ == b,
                (None, None) => true,
                _ => false,
            }) && !(is_cloud(provider) && spec_resolve_key(*submitted, clear, existing) is None),
            Err(e) => e@ == "An API key is required for this provider"@ && is_cloud(provider)
                && spec_resolve_key(*submitted, clear, existing) is None,
        },
{
    let key: Option<String> = if clear {
        None
    } else {
        let fresh = match submitted {
            Some(k) => {
                let t = trim_str(k.as_str());
                if t.len() > 0 {
                    Some(string_of(&t))
                } else {
                    None
                }
            },
            None => None,
        };
        match fresh {
            Some(f) => Some(f),
            None => existing,
        }
    };
    if (provider == Provider::Openai || provider == Provider::Gemini) && key.is_none() {
        return err_text("An API key is required for this provider");
    }
    Ok(key)
}

/// The Ollama address to store: the default local one where none was given.
pub fn stored_ollama_url(url: &str) -> (r: String)
    ensures
        r@ == if url@.len() == 0 {
            "http://localhost:11434"@
        } else {
            url@
        },
{
    let u = chars_of(url);
    if u.len() == 0 {
        string_of(&chars_of("http://localhost:11434"))
    } else {
        string_of(&u)
    }
}

/// Settings as the settings screen shows them, from the stored columns.
pub fn ai_settings_from_row(
    provider: String,
    model: String,
    ollama_url: String,
    api_key: Option<String>,
    cloud_consent: i32,
) -> (r: AiSettings)
    ensures
        r.provider == provider,
        r.model == model,
        r.ollama_url == ollama_url,
        r.has_api_key == (api_key matches Some(k) && k@.len() > 0),
        r.cloud_consent == (cloud_consent != 0),
{
    let has_api_key = match &api_key {
        Some(k) => chars_of(k.as_str()).len() > 0,
        None => false,
    };
    AiSettings { provider, model, ollama_url, has_api_key, cloud_consent: cloud_consent != 0 }
}

/// Settings as a request needs them, from the stored columns: an unknown
/// provider name counts as no provider.
pub fn provider_config_from_row(
    provider: String,
    model: String,
    api_key: Option<String>,
    ollama_url: String,
    cloud_consent: i32,
) -> (r: ProviderConfig)
    ensures
        r.provider == match spec_parse_provider(provider@) {
            Some(p) => p,
            None => Provider::Disabled,
        },
        r.model == model,
        r.api_key == api_key,
        r.ollama_url == ollama_url,
        r.cloud_consent == (cloud_consent != 0),
{
    let p = match Provider::parse(provider.as_str()) {
        Some(p) => p,
        None => Provider::Disabled,
    };
    ProviderConfig { provider: p, model, api_key, ollama_url, cloud_consent: cloud_consent != 0 }
}

/// Whether the configured provider may be tested: a cloud provider needs consent.
pub fn test_gate(config: &ProviderConfig) -> (r: Result<(), String>)
    ensures
        match r {
            Ok(()) => !(is_cloud(config.provider) && !config.cloud_consent),
            Err(e) => e@ == "Cloud consent is required before testing this provider"@ && is_cloud(
                config.provider,
            ) && !config.cloud_consent,
        },
{
    if (config.provider == Provider::Openai || config.provider == Provider::Gemini)
        && !config.cloud_consent {
        return err_text("Cloud consent is required before testing this provider");
    }
    Ok(())
}

// ---------------------------------------------------------------------------
// Which answer a question gets
// ---------------------------------------------------------------------------

/// What a question gets before any provider is asked.
#[derive(Debug, Clone)]
pub enum AnswerPlan {
    /// A local answer, with the reason why no provider was asked.
    Local(Option<String>),
    /// An error for the shell.
    Refuse(String),
    /// Ask the configured provider.
    Ask(Provider),
}

/// The plan: a local answer when asked for one or when no provider is set;
/// for a cloud provider without consent or without permission for this
/// question, a local answer with the reason, or an error when no local
/// fallback is allowed; else the provider.
pub open spec fn spec_answer_plan(
    config: ProviderConfig,
    local_only: Option<bool>,
    allow_cloud: Option<bool>,
    allow_local_fallback: Option<bool>,
) -> (int, Seq<char>) {
    let strict = !(match allow_local_fallback {
        Some(b) => b,
        None => true,
    });
    let local = match local_only {
        Some(b) => b,
        None => false,
    };
    let cloud_ok = match allow_cloud {
        Some(b) => b,
        None => false,
    };
    if local {
        (0, seq![])
    } else if config.provider == Provider::Disabled {
        if strict {
            (
                1,
                "No AI answer provider is configured. Select an available provider in Settings."@,
            )
        } else {
            (0, seq![])
        }
    } else if is_cloud(config.provider) && (!config.cloud_consent || !cloud_ok) {
        if strict {
            (
                1,
                if !config.cloud_consent {
                    "Cloud consent is required before using the configured AI provider."@
                } else {
                    "Cloud answer permission is required before using the configured AI provider."@
                },
            )
        } else {
            (
                2,
                if !config.cloud_consent {
                    "Cloud consent was not granted"@
                } else {
                    "Cloud answer requires confirmation for this search"@
                },
            )
        }
    } else {
        (3, seq![])
    }
}

/// `plan` is the plan that `spec` describes: 0 a local answer without a
/// reason, 1 an error, 2 a local answer with a reason, 3 the provider.
pub open spec fn plan_is(plan: AnswerPlan, spec: (int, Seq<char>), provider: Provider) -> bool {
    match plan {
        AnswerPlan::Local(None) => spec.0 == 0,
        AnswerPlan::Local(Some(r)) => spec.0 == 2 && r@ == spec.1,
        AnswerPlan::Refuse(e) => spec.0 == 1 && e@ == spec.1,
        AnswerPlan::Ask(p) => spec.0 == 3 && p == provider,
    }
}

pub fn answer_plan(
    config: &ProviderConfig,
    local_only: Option<bool>,
    allow_cloud: Option<bool>,
    allow_local_fallback: Option<bool>,
) -> (r: AnswerPlan)
    ensures
        plan_is(r, spec_answer_plan(*config, local_only, allow_cloud, allow_local_fallback), config.provider),
{
    let strict = !match allow_local_fallback {
        Some(b) => b,
        None => true,
    };
    let local = match local_only {
        Some(b) => b,
        None => false,
    };
    let cloud_ok = match allow_cloud {
        Some(b) => b,
        None => false,
    };
    if local {
        return AnswerPlan::Local(None);
    }
    if config.provider == Provider::Disabled {
        if strict {
            return AnswerPlan::Refuse(
                string_of(
                    &chars_of(
                        "No AI answer provider is configured. Select an available provider in Settings.",
                    ),
                ),
            );
        }
        return AnswerPlan::Local(None);
    }
    let cloud = config.provider == Provider::Openai || config.provider == Provider::Gemini;
    if cloud && (!config.cloud_consent || !cloud_ok) {
        if strict {
            let msg = if !config.cloud_consent {
                chars_of("Cloud consent is required before using the configured AI provider.")
            } else {
                chars_of(
                    "Cloud answer permission is required before using the configured AI provider.",
                )
            };
            return AnswerPlan::Refuse(string_of(&msg));
        }
        let reason = if !config.cloud_consent {
            chars_of("Cloud consent was not granted")
        } else {
            chars_of("Cloud answer requires confirmation for this search")
        };
        return AnswerPlan::Local(Some(string_of(&reason)));
    }
    AnswerPlan::Ask(config.provider)
}

/// What the shell gets once the provider has answered or failed: the answer,
/// or on failure the error's message when no local fallback is allowed and
/// otherwise a local answer that gives the message as the reason.
pub fn settle_answer(
    query: &str,
    evidence: &Vec<EvidenceClip>,
    result: Result<GroundedAnswer, AiError>,
    allow_local_fallback: Option<bool>,
) -> (r: Result<GroundedAnswerResponse, String>)
    ensures
        match result {
            Ok(g) => r == Ok::<GroundedAnswerResponse, String>(
                GroundedAnswerResponse {
                    answer: g.answer,
                    citations: g.citations,
                    confidence: g.confidence,
                    source: g.source,
                    fallback_reason: g.fallback_reason,
                },
            ),
            Err(e) => if !(match allow_local_fallback {
                Some(b) => b,
                None => true,
            }) {
                r matches Err(m) && m@ == crate::services::ai::ai_error_message(e)
            } else {
                r matches Ok(a) && a.answer@ == local_answer_text(query@, evidence@) && views(
                    a.citations@,
                ) == take_at_most(evidence@.map_values(|c: EvidenceClip| c.id@), 3)
                    && a.confidence@ == "low"@ && a.source@ == "local"@ && (a.fallback_reason
                    matches Some(m) && m@ == crate::services::ai::ai_error_message(e))
            },
        },
{
    let strict = !match allow_local_fallback {
        Some(b) => b,
        None => true,
    };
    match result {
        Ok(answer) => Ok(GroundedAnswerResponse::from(answer)),
        Err(e) => {
            let msg = string_of(&chars_of(e.message()));
            if strict {
                Err(msg)
            } else {
                Ok(GroundedAnswerResponse::from(local_answer(query, evidence, Some(msg))))
            }
        },
    }
}

// ---------------------------------------------------------------------------
// Evidence
// ---------------------------------------------------------------------------

/// The IDs a question may use, in order: among the first five given, each
/// once.
pub open spec fn spec_evidence_candidates(ids: Seq<Seq<char>>) -> Seq<Seq<char>>
    decreases ids.len(),
{
    if ids.len() == 0 {
        seq![]
    } else {
        let rest = spec_evidence_candidates(ids.drop_last());
        if ids.len() > MAX_CLIPS || rest.contains(ids.last()) {
            rest
        } else {
            rest.push(ids.last())
        }
    }
}

pub fn evidence_candidates(ids: &Vec<String>) -> (r: Vec<String>)
    ensures
        views(r@) == spec_evidence_candidates(views(ids@)),
{
    let mut out: Vec<String> = Vec::new();
    let mut i: usize = 0;
    let ghost iv = views(ids@);
    while i < ids.len()
        invariant
            i <= ids.len(),
            iv == views(ids@),
            views(out@) == spec_evidence_candidates(iv.take(i as int)),
        decreases ids.len() - i,
    {
        assert(iv.take(i + 1).drop_last() =~= iv.take(i as int));
        let c = chars_of(ids[i].as_str());
        if i < MAX_CLIPS && !crate::text::list_contains(&out, &c) {
            out.push(ids[i].clone());
        }
        i += 1;
        assert(views(out@) =~= spec_evidence_candidates(iv.take(i as int)));
    }
    assert(iv.take(i as int) =~= iv);
    out
}

/// The `topic_tags` (or, when that member is missing, `topicTags`) member
/// of stored clip context.
pub open spec fn context_tags_field(v: JsonValue) -> Option<JsonValue> {
    match spec_get(v, "topic_tags"@) {
        Some(x) => Some(x),
        None => spec_get(v, "topicTags"@),
    }
}

/// The string tags in stored clip context, when it is JSON with a tag array.
pub open spec fn spec_context_tags(parsed: Option<JsonValue>) -> Option<Seq<Seq<char>>> {
    match parsed {
        Some(v) => match spec_as_array(context_tags_field(v)) {
            Some(items) => Some(spec_text_items(items)),
            None => None,
        },
        None => None,
    }
}

/// The string tags of stored clip context.
pub fn context_tags(v: &JsonValue) -> (r: Option<Vec<String>>)
    ensures
        match (r, spec_context_tags(Some(*v))) {
            (Some(a), Some(b)) => views(a@) == b,
            (None, None) => true,
            _ => false,
        },
{
    let field = match v.get("topic_tags") {
        Some(x) => Some(x),
        None => v.get("topicTags"),
    };
    match field {
        Some(f) => match f.as_array() {
            Some(items) => Some(text_items(items)),
            None => None,
        },
        None => None,
    }
}

/// The label of an evidence clip's origin: its URL, else its page title, else
/// its app, else "Source unavailable".
pub open spec fn spec_evidence_source(
    source_url: Option<String>,
    page_title: Option<String>,
    app_name: Option<String>,
) -> Seq<char> {
    match source_url {
        Some(u) => u@,
        None => match page_title {
            Some(t) => t@,
            None => match app_name {
                Some(a) => a@,
                None => "Source unavailable"@,
            },
        },
    }
}

/// A stored clip as evidence, or nothing where it is marked sensitive or a
/// rule blocks its content.  Its topics are the first six tags of its stored
/// context.
pub fn evidence_from_row(
    id: String,
    content: String,
    page_title: Option<String>,
    app_name: Option<String>,
    source_url: Option<String>,
    copied_at: i64,
    context: Option<String>,
    is_sensitive: i32,
    rules: &Vec<FilterRule>,
) -> (r: Option<EvidenceClip>)
    ensures
        match r {
            None => is_sensitive != 0 || spec_evaluate(content@, rules@).0,
            Some(e) => {
                &&& is_sensitive == 0 && !spec_evaluate(content@, rules@).0
                &&& e.id == id && e.content == content && e.copied_at == copied_at
                &&& e.source@ == spec_evidence_source(source_url, page_title, app_name)
                &&& views(e.topics@) == match context {
                    Some(raw) => match spec_context_tags(spec_json_parse(raw@)) {
                        Some(tags) => take_at_most(tags, 6),
                        None => seq![],
                    },
                    None => seq![],
                }
            },
        },
{
    if is_sensitive != 0 || evaluate(content.as_str(), rules).blocked {
        return None;
    }
    let mut topics: Vec<String> = match &context {
        Some(raw) => match json_parse(raw.as_str()) {
            Some(v) => match context_tags(&v) {
                Some(tags) => tags,
                None => Vec::new(),
            },
            None => Vec::new(),
        },
        None => Vec::new(),
    };
    assert(views(Seq::<String>::empty()) =~= seq![]);
    if topics.len() > 6 {
        topics.truncate(6);
    }
    assert(views(topics@) =~= match context {
        Some(raw) => match spec_context_tags(spec_json_parse(raw@)) {
            Some(tags) => take_at_most(tags, 6),
            None => seq![],
        },
        None => seq![],
    });
    let source = match source_url {
        Some(u) => u,
        None => match page_title {
            Some(t) => t,
            None => match app_name {
                Some(a) => a,
                None => string_of(&chars_of("Source unavailable")),
            },
        },
    };
    Some(EvidenceClip { id, content, source, copied_at, topics })
}

// ---------------------------------------------------------------------------
// Laws
// ---------------------------------------------------------------------------

/// Accepted settings keep data on the machine unless the user agreed: a
/// cloud provider is accepted only with cloud consent, and Ollama only at a
/// loopback address.
pub proof fn lemma_accepted_settings_respect_privacy(input: AiSettingsInput)
    ensures
        spec_check_ai_settings(input) matches Ok((provider, model, url)) ==> {
            &&& (is_cloud(provider) ==> input.cloud_consent)
            &&& (provider == Provider::Ollama ==> spec_is_loopback_url(url))
            &&& model.len() <= 120
        },
{
}

/// A cloud provider is asked only when the settings hold cloud consent and
/// this question was given permission; without a provider nothing is asked.
pub proof fn lemma_cloud_is_asked_only_with_permission(
    config: ProviderConfig,
    local_only: Option<bool>,
    allow_cloud: Option<bool>,
    allow_local_fallback: Option<bool>,
)
    ensures
        spec_answer_plan(config, local_only, allow_cloud, allow_local_fallback).0 == 3 ==> {
            &&& config.provider != Provider::Disabled
            &&& local_only != Some(true)
            &&& (is_cloud(config.provider) ==> config.cloud_consent && allow_cloud == Some(true))
        },
{
}

/// The evidence a question may cite holds each clip once, and at most five.
pub proof fn lemma_evidence_candidates_distinct(ids: Seq<Seq<char>>)
    ensures
        spec_evidence_candidates(ids).no_duplicates(),
        spec_evidence_candidates(ids).len() <= MAX_CLIPS,
    decreases ids.len(),
{
    if ids.len() > 0 {
        lemma_evidence_candidates_distinct(ids.drop_last());
        lemma_evidence_candidates_len(ids.drop_last());
    }
}

proof fn lemma_evidence_candidates_len(ids: Seq<Seq<char>>)
    ensures
        spec_evidence_candidates(ids).len() <= ids.len(),
        spec_evidence_candidates(ids).len() <= MAX_CLIPS,
    decreases ids.len(),
{
    if ids.len() > 0 {
        lemma_evidence_candidates_len(ids.drop_last());
    }
}

} // verus!
