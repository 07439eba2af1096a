//! Questions to an AI provider: which one a business uses, with which key and
//! model, and what is sent to it.

use crate::text::{
    cat, cat3, clone_opt, contains_text, given, holds, is_given, lowercase, opt_view, push_decimal, same, to_lowercase,
};
use vstd::prelude::*;

verus! {

/// The model of the free provider, unless another is set.
pub open spec fn default_nvidia_model() -> Seq<char> {
    "meta/llama-3.1-70b-instruct"@
}

/// The model to fall back on where the free provider has retired one; of
/// another vendor than the default.
pub open spec fn fallback_nvidia_model() -> Seq<char> {
    "mistralai/mixtral-8x7b-instruct-v0.1"@
}

/// An AI provider.
#[derive(Clone, Copy, PartialEq, Eq, Structural, Debug)]
pub enum Provider {
    NvidiaNim,
    Gemini,
    OpenAi,
    Claude,
}

/// The names of the one provider whose names are a matter of configuration:
/// what its settings are called by, what errors call it, and its model.
#[derive(Debug)]
pub struct ConfiguredNames {
    pub key: String,
    pub api: String,
    pub model: String,
}

/// The provider that a setting names in lower case; the free one for any
/// other text. `own` is the configured name.
pub open spec fn provider_named(name: Seq<char>, own: Seq<char>) -> Provider {
    if name == "gemini"@ {
        Provider::Gemini
    } else if name == "openai"@ {
        Provider::OpenAi
    } else if name == own || name == "anthropic"@ {
        Provider::Claude
    } else {
        Provider::NvidiaNim
    }
}

/// The first of two settings that is there; empty where neither is.
pub open spec fn first_set(stored: Option<Seq<char>>, environment: Option<Seq<char>>) -> Seq<char> {
    match stored {
        Some(s) => s,
        None => match environment {
            Some(e) => e,
            None => Seq::empty(),
        },
    }
}

/// The provider that a lower-case name stands for.
pub fn provider_for(name: &str, own: &str) -> (p: Provider)
    ensures
        p == provider_named(name@, own@),
{
    if same(name, "gemini") {
        Provider::Gemini
    } else if same(name, "openai") {
        Provider::OpenAi
    } else if same(name, own) || same(name, "anthropic") {
        Provider::Claude
    } else {
        Provider::NvidiaNim
    }
}

impl Provider {
    /// The provider of a business: its own setting first, then that of the
    /// environment. The case of the letters does not matter.
    pub fn resolve(stored: &Option<String>, environment: &Option<String>, names: &ConfiguredNames) -> (p: Provider)
        ensures
            p == provider_named(lowercase(first_set(opt_view(*stored), opt_view(*environment))), names.key@),
    {
        let raw = match stored {
            Some(s) => s.clone(),
            None => match environment {
                Some(e) => e.clone(),
                None => String::new(),
            },
        };
        provider_for(to_lowercase(raw.as_str()).as_str(), names.key.as_str())
    }

    /// The name that the provider's settings carry.
    pub open spec fn key_name(self, names: ConfiguredNames) -> Seq<char> {
        match self {
            Provider::NvidiaNim => "nvidia"@,
            Provider::Gemini => "gemini"@,
            Provider::OpenAi => "openai"@,
            Provider::Claude => names.key@,
        }
    }

    /// The name that the provider's settings carry.
    pub fn key<'a>(&self, names: &'a ConfiguredNames) -> (s: &'a str)
        ensures
            s@ == self.key_name(*names),
    {
        match self {
            Provider::NvidiaNim => "nvidia",
            Provider::Gemini => "gemini",
            Provider::OpenAi => "openai",
            Provider::Claude => names.key.as_str(),
        }
    }

    /// The setting that holds the key.
    pub fn key_setting(&self, names: &ConfiguredNames) -> (s: String)
        ensures
            s@ == "ai_"@ + self.key_name(*names) + "_api_key"@,
    {
        cat3("ai_", self.key(names), "_api_key")
    }

    /// The setting that holds the model.
    pub fn model_setting(&self, names: &ConfiguredNames) -> (s: String)
        ensures
            s@ == "ai_"@ + self.key_name(*names) + "_model"@,
    {
        cat3("ai_", self.key(names), "_model")
    }

    /// The variable of the environment that holds a key.
    pub fn key_variable(&self) -> (s: &'static str)
        ensures
            s@ == match *self {
                Provider::NvidiaNim => "NVIDIA_API_KEY"@,
                Provider::Gemini => "GOOGLE_API_KEY"@,
                Provider::OpenAi => "OPENAI_API_KEY"@,
                Provider::Claude => "ANTHROPIC_API_KEY"@,
            },
    {
        match self {
            Provider::NvidiaNim => "NVIDIA_API_KEY",
            Provider::Gemini => "GOOGLE_API_KEY",
            Provider::OpenAi => "OPENAI_API_KEY",
            Provider::Claude => "ANTHROPIC_API_KEY",
        }
    }

    /// The model, unless another is set.
    pub open spec fn default_model_name(self, names: ConfiguredNames) -> Seq<char> {
        match self {
            Provider::NvidiaNim => default_nvidia_model(),
            Provider::Gemini => "gemini-3.6-flash"@,
            Provider::OpenAi => "gpt-4o-mini"@,
            Provider::Claude => names.model@,
        }
    }

    /// The model, unless another is set.
    pub fn default_model<'a>(&self, names: &'a ConfiguredNames) -> (s: &'a str)
        ensures
            s@ == self.default_model_name(*names),
    {
        match self {
            Provider::NvidiaNim => "meta/llama-3.1-70b-instruct",
            Provider::Gemini => "gemini-3.6-flash",
            Provider::OpenAi => "gpt-4o-mini",
            Provider::Claude => names.model.as_str(),
        }
    }

    /// What the sentence for a missing key adds where a key is free.
    pub open spec fn free_hint(self) -> Seq<char> {
        match self {
            Provider::NvidiaNim => " — free, no credit card, get one at https://build.nvidia.com"@,
            Provider::Gemini => " — free, no credit card, get one at https://aistudio.google.com"@,
            _ => Seq::empty(),
        }
    }

    /// What the provider is called in an error.
    pub open spec fn api_name(self, names: ConfiguredNames) -> Seq<char> {
        match self {
            Provider::NvidiaNim => "NVIDIA NIM"@,
            Provider::Gemini => "Gemini"@,
            Provider::OpenAi => "OpenAI"@,
            Provider::Claude => names.api@,
        }
    }

    /// What the provider is called in an error.
    pub fn api<'a>(&self, names: &'a ConfiguredNames) -> (s: &'a str)
        ensures
            s@ == self.api_name(*names),
    {
        match self {
            Provider::NvidiaNim => "NVIDIA NIM",
            Provider::Gemini => "Gemini",
            Provider::OpenAi => "OpenAI",
            Provider::Claude => names.api.as_str(),
        }
    }
}

/// The sentence for a missing key.
pub open spec fn missing_key_message(p: Provider) -> Seq<char> {
    "AI assistant not configured for this provider"@ + p.free_hint()
        + ". Add a key under Admin → AI Settings. Everything else in the app works without this."@
}

/// The key of a provider: the stored one first, then that of the environment;
/// a blank one counts for nothing. An error is the sentence to show.
pub fn resolve_key(p: Provider, stored: &Option<String>, environment: &Option<String>) -> (r: Result<String, String>)
    ensures
        match r {
            Ok(k) => if given(opt_view(*stored)) {
                opt_view(*stored) == Some(k@)
            } else {
                given(opt_view(*environment)) && opt_view(*environment) == Some(k@)
            },
            Err(text) => {
                &&& !given(opt_view(*stored)) && !given(opt_view(*environment))
                &&& text@ == missing_key_message(p)
            },
        },
{
    if is_given(stored) {
        if let Some(k) = stored {
            return Ok(k.clone());
        }
    }
    if is_given(environment) {
        if let Some(k) = environment {
            return Ok(k.clone());
        }
    }
    let mut s = "AI assistant not configured for this provider".to_owned();
    match p {
        Provider::NvidiaNim => {
            s.append(" — free, no credit card, get one at https://build.nvidia.com");
        },
        Provider::Gemini => {
            s.append(" — free, no credit card, get one at https://aistudio.google.com");
        },
        _ => {},
    }
    assert(s@ =~= "AI assistant not configured for this provider"@ + p.free_hint());
    s.append(". Add a key under Admin → AI Settings. Everything else in the app works without this.");
    Err(s)
}

/// The model of a provider: the one that is set, or its own.
pub fn model_for(p: Provider, stored: &Option<String>, names: &ConfiguredNames) -> (s: String)
    ensures
        s@ == match opt_view(*stored) {
            Some(m) => m,
            None => p.default_model_name(*names),
        },
{
    match stored {
        Some(m) => m.clone(),
        None => p.default_model(names).to_owned(),
    }
}

// ---------------------------------------------------------------------------
// Calls
// ---------------------------------------------------------------------------

/// One earlier turn of a conversation; the role is `user` or `ai`.
#[derive(Debug)]
pub struct Turn {
    pub role: String,
    pub content: String,
}

/// All that a call needs besides the question: nothing in it comes from the
/// database any more.
#[derive(Debug)]
pub struct PreparedAiCall {
    pub provider: Provider,
    pub api_key: String,
    pub model: String,
    pub system_prompt: String,
}

/// What the assistant is told before anything else.
pub open spec fn instructions() -> Seq<char> {
    "You are a business assistant embedded in an SME's ERP system. You are given a structured snapshot of the business's CURRENT real data below — use it as ground truth and do not invent numbers that aren't in it. If the snapshot doesn't contain what's needed to answer, say so plainly rather than guessing. Keep answers short, concrete, and in plain language a busy shop owner would understand. Structure every answer with a short heading, then the direct answer, followed by a 'What to do next' section when an action is useful. Use Markdown headings and bullet lists sparingly so the answer is easy to scan. Never invent numbers or recommendations that the snapshot does not support.\n\nBUSINESS SNAPSHOT:\n"@
}

/// What a business has set for its assistant.
#[derive(Debug)]
pub struct AiSettings {
    pub stored_key: Option<String>,
    pub environment_key: Option<String>,
    pub stored_model: Option<String>,
}

/// Prepares a call: the instructions with the snapshot of the business, the
/// key and the model of the provider.
pub fn prepare(
    provider: Provider,
    names: &ConfiguredNames,
    settings: &AiSettings,
    snapshot: &str,
) -> (r: Result<PreparedAiCall, String>)
    ensures
        match r {
            Ok(c) => {
                &&& c.provider == provider
                &&& c.api_key@ == (if given(opt_view(settings.stored_key)) {
                    opt_view(settings.stored_key)->0
                } else {
                    opt_view(settings.environment_key)->0
                })
                &&& c.model@ == (match opt_view(settings.stored_model) {
                    Some(m) => m,
                    None => provider.default_model_name(*names),
                })
                &&& c.system_prompt@ == instructions() + snapshot@
                &&& given(opt_view(settings.stored_key)) || given(opt_view(settings.environment_key))
            },
            Err(text) => {
                &&& !given(opt_view(settings.stored_key)) && !given(opt_view(settings.environment_key))
                &&& text@ == missing_key_message(provider)
            },
        },
{
    match resolve_key(provider, &settings.stored_key, &settings.environment_key) {
        Err(text) => Err(text),
        Ok(api_key) => Ok(
            PreparedAiCall {
                provider,
                api_key,
                model: model_for(provider, &settings.stored_model, names),
                system_prompt: cat(
                    "You are a business assistant embedded in an SME's ERP system. You are given a structured snapshot of the business's CURRENT real data below — use it as ground truth and do not invent numbers that aren't in it. If the snapshot doesn't contain what's needed to answer, say so plainly rather than guessing. Keep answers short, concrete, and in plain language a busy shop owner would understand. Structure every answer with a short heading, then the direct answer, followed by a 'What to do next' section when an action is useful. Use Markdown headings and bullet lists sparingly so the answer is easy to scan. Never invent numbers or recommendations that the snapshot does not support.\n\nBUSINESS SNAPSHOT:\n",
                    snapshot,
                ),
            },
        ),
    }
}

/// One message of a request.
#[derive(Debug)]
pub struct Message {
    pub role: String,
    pub content: String,
}

impl View for Message {
    type V = (Seq<char>, Seq<char>);

    open spec fn view(&self) -> (Seq<char>, Seq<char>) {
        (self.role@, self.content@)
    }
}

/// The messages as pairs of role and content.
pub open spec fn message_views(list: Seq<Message>) -> Seq<(Seq<char>, Seq<char>)> {
    list.map_values(|m: Message| m@)
}

/// The earlier turns with the roles that a provider calls them by: `own` for
/// those of the assistant, `user` for all others.
pub open spec fn turn_messages(history: Seq<Turn>, own: Seq<char>) -> Seq<(Seq<char>, Seq<char>)> {
    history.map_values(
        |t: Turn|
            (
                if t.role@ == "ai"@ {
                    own
                } else {
                    "user"@
                },
                t.content@,
            ),
    )
}

/// The messages of a request, in the order in which they were said: the
/// instructions first where the provider takes them as a message, and the
/// question last.
pub open spec fn request_messages(
    p: Provider,
    system_prompt: Seq<char>,
    question: Seq<char>,
    history: Seq<Turn>,
) -> Seq<(Seq<char>, Seq<char>)> {
    match p {
        Provider::NvidiaNim | Provider::OpenAi => seq![("system"@, system_prompt)] + turn_messages(
            history,
            "assistant"@,
        ) + seq![("user"@, question)],
        Provider::Gemini => turn_messages(history, "model"@) + seq![("user"@, question)],
        Provider::Claude => turn_messages(history, "assistant"@) + seq![("user"@, question)],
    }
}

/// A header of a request.
pub open spec fn request_headers(p: Provider, key: Seq<char>) -> Seq<(Seq<char>, Seq<char>)> {
    match p {
        Provider::NvidiaNim | Provider::OpenAi => seq![
            ("Authorization"@, "Bearer "@ + key),
            ("content-type"@, "application/json"@),
        ],
        Provider::Gemini => seq![("content-type"@, "application/json"@)],
        Provider::Claude => seq![
            ("x-api-key"@, key),
            ("anthropic-version"@, "2023-06-01"@),
            ("content-type"@, "application/json"@),
        ],
    }
}

/// Where a request goes.
pub open spec fn request_url(p: Provider, model: Seq<char>, key: Seq<char>) -> Seq<char> {
    match p {
        Provider::NvidiaNim => "https://integrate.api.nvidia.com/v1/chat/completions"@,
        Provider::Gemini => "https://generativelanguage.googleapis.com/v1beta/models/"@ + model
            + ":generateContent?key="@ + key,
        Provider::OpenAi => "https://api.openai.com/v1/chat/completions"@,
        Provider::Claude => "https://api.anthropic.com/v1/messages"@,
    }
}

/// The most tokens of an answer, where a provider is told.
pub const MAX_TOKENS: u32 = 500;

/// A request to a provider.
#[derive(Debug)]
pub struct AiRequest {
    pub provider: Provider,
    pub url: String,
    pub headers: Vec<Message>,
    pub model: String,
    /// The instructions, for the providers that take them apart.
    pub system: String,
    pub messages: Vec<Message>,
}

/// The request for a question under a model.
pub open spec fn request_is(
    r: AiRequest,
    p: Provider,
    api_key: Seq<char>,
    model: Seq<char>,
    system_prompt: Seq<char>,
    question: Seq<char>,
    history: Seq<Turn>,
) -> bool {
    &&& r.provider == p
    &&& r.url@ == request_url(p, model, api_key)
    &&& message_views(r.headers@) == request_headers(p, api_key)
    &&& r.model@ == model
    &&& r.system@ == system_prompt
    &&& message_views(r.messages@) == request_messages(p, system_prompt, question, history)
}

fn push_message(list: &mut Vec<Message>, role: &str, content: &str)
    ensures
        message_views(final(list)@) == message_views(old(list)@).push((role@, content@)),
{
    list.push(Message { role: role.to_owned(), content: content.to_owned() });
    assert(message_views(list@) =~= message_views(old(list)@).push((role@, content@)));
}

fn push_turns(list: &mut Vec<Message>, history: &Vec<Turn>, own: &str)
    ensures
        message_views(final(list)@) == message_views(old(list)@) + turn_messages(history@, own@),
{
    let ghost before = message_views(list@);
    let ghost all = turn_messages(history@, own@);
    let mut i: usize = 0;
    assert(before + all.take(0) =~= before);
    while i < history.len()
        invariant
            i <= history@.len(),
            all == turn_messages(history@, own@),
            message_views(list@) == before + all.take(i as int),
        decreases history@.len() - i,
    {
        let role = if same(history[i].role.as_str(), "ai") {
            own
        } else {
            "user"
        };
        push_message(list, role, history[i].content.as_str());
        assert(before + all.take(i + 1) =~= (before + all.take(i as int)).push(all[i as int]));
        i = i + 1;
    }
    assert(all.take(all.len() as int) =~= all);
}

fn build_request(
    p: Provider,
    api_key: &str,
    model: &str,
    system_prompt: &str,
    question: &str,
    history: &Vec<Turn>,
) -> (r: AiRequest)
    ensures
        request_is(r, p, api_key@, model@, system_prompt@, question@, history@),
{
    let mut messages: Vec<Message> = Vec::new();
    let mut headers: Vec<Message> = Vec::new();
    let ghost none = Seq::<(Seq<char>, Seq<char>)>::empty();
    assert(message_views(messages@) =~= none);
    assert(message_views(headers@) =~= none);
    let url = match p {
        Provider::NvidiaNim => "https://integrate.api.nvidia.com/v1/chat/completions".to_owned(),
        Provider::OpenAi => "https://api.openai.com/v1/chat/completions".to_owned(),
        Provider::Claude => "https://api.anthropic.com/v1/messages".to_owned(),
        Provider::Gemini => {
            let mut u = "https://generativelanguage.googleapis.com/v1beta/models/".to_owned();
            u.append(model);
            u.append(":generateContent?key=");
            u.append(api_key);
            u
        },
    };
    match p {
        Provider::NvidiaNim | Provider::OpenAi => {
            push_message(&mut headers, "Authorization", cat("Bearer ", api_key).as_str());
            push_message(&mut messages, "system", system_prompt);
            push_turns(&mut messages, history, "assistant");
        },
        Provider::Gemini => {
            push_turns(&mut messages, history, "model");
        },
        Provider::Claude => {
            push_message(&mut headers, "x-api-key", api_key);
            push_message(&mut headers, "anthropic-version", "2023-06-01");
            push_turns(&mut messages, history, "assistant");
        },
    }
    push_message(&mut headers, "content-type", "application/json");
    push_message(&mut messages, "user", question);
    assert(message_views(messages@) =~= request_messages(p, system_prompt@, question@, history@));
    assert(message_views(headers@) =~= request_headers(p, api_key@));
    AiRequest {
        provider: p,
        url,
        headers,
        model: model.to_owned(),
        system: system_prompt.to_owned(),
        messages,
    }
}

/// The request for a question in a conversation.
pub fn send(prepared: &PreparedAiCall, question: &str, history: &Vec<Turn>) -> (r: AiRequest)
    ensures
        request_is(
            r,
            prepared.provider,
            prepared.api_key@,
            prepared.model@,
            prepared.system_prompt@,
            question@,
            history@,
        ),
{
    build_request(
        prepared.provider,
        prepared.api_key.as_str(),
        prepared.model.as_str(),
        prepared.system_prompt.as_str(),
        question,
        history,
    )
}

/// Whether a failed request is tried again with the fallback model: only with
/// the free provider, where the model is not the fallback itself, and where
/// the provider says that it is gone.
pub open spec fn falls_back(p: Provider, model: Seq<char>, error: Seq<char>) -> bool {
    p == Provider::NvidiaNim && model != fallback_nvidia_model() && holds(error, "returned 410"@)
}

/// The request to send after one has failed, where there is one. `failed` is
/// the model of the request and `error` the sentence of its failure.
pub fn next_request(
    prepared: &PreparedAiCall,
    failed: &str,
    error: &str,
    question: &str,
    history: &Vec<Turn>,
) -> (r: Option<AiRequest>)
    ensures
        match r {
            Some(q) => falls_back(prepared.provider, failed@, error@) && request_is(
                q,
                prepared.provider,
                prepared.api_key@,
                fallback_nvidia_model(),
                prepared.system_prompt@,
                question@,
                history@,
            ),
            None => !falls_back(prepared.provider, failed@, error@),
        },
{
    if prepared.provider == Provider::NvidiaNim && !same(failed, "mistralai/mixtral-8x7b-instruct-v0.1")
        && contains_text(error, "returned 410") {
        Some(
            build_request(
                prepared.provider,
                prepared.api_key.as_str(),
                "mistralai/mixtral-8x7b-instruct-v0.1",
                prepared.system_prompt.as_str(),
                question,
                history,
            ),
        )
    } else {
        None
    }
}

/// The sentence where the provider answered with an error.
pub open spec fn status_message(api: Seq<char>, status: int, body: Seq<char>) -> Seq<char> {
    api + " API returned "@ + crate::text::decimal(status as nat) + ": "@ + body
}

/// The sentence where the provider answered with an error.
pub fn status_error_text(p: Provider, names: &ConfiguredNames, status: u16, body: &str) -> (s: String)
    ensures
        s@ == status_message(p.api_name(*names), status as int, body@),
{
    let mut s = p.api(names).to_owned();
    s.append(" API returned ");
    push_decimal(&mut s, status as u64);
    s.append(": ");
    s.append(body);
    s
}

/// The sentence where the fallback failed too.
pub fn fallback_error_text(model: &str, error: &str) -> (s: String)
    ensures
        s@ == "NVIDIA NIM model '"@ + model@ + "' is no longer available, and the fallback model '"@
            + fallback_nvidia_model() + "' also failed: "@ + error@
            + ". NVIDIA periodically retires older models — pick a current one from https://build.nvidia.com/models and set it under Admin → AI Settings."@,
{
    let mut s = "NVIDIA NIM model '".to_owned();
    s.append(model);
    s.append("' is no longer available, and the fallback model '");
    s.append("mistralai/mixtral-8x7b-instruct-v0.1");
    s.append("' also failed: ");
    s.append(error);
    s.append(
        ". NVIDIA periodically retires older models — pick a current one from https://build.nvidia.com/models and set it under Admin → AI Settings.",
    );
    s
}

/// A retired model of a business that has set none is tried again with another
/// one, and a request is tried again at most once.
pub proof fn law_fallback_is_another_model(names: ConfiguredNames, status_body: Seq<char>, error: Seq<char>)
    ensures
        falls_back(
            Provider::NvidiaNim,
            Provider::NvidiaNim.default_model_name(names),
            status_message(Provider::NvidiaNim.api_name(names), 410, status_body),
        ),
        !falls_back(Provider::NvidiaNim, fallback_nvidia_model(), error),
{
    reveal_strlit("meta/llama-3.1-70b-instruct");
    reveal_strlit("mistralai/mixtral-8x7b-instruct-v0.1");
    assert(default_nvidia_model().len() != fallback_nvidia_model().len());
    let m = status_message(Provider::NvidiaNim.api_name(names), 410, status_body);
    reveal_strlit("NVIDIA NIM");
    reveal_strlit(" API returned ");
    reveal_strlit("returned 410");
    reveal_with_fuel(crate::text::decimal, 4);
    let tail = m.skip(15);
    assert(tail.take(12) =~= "returned 410"@);
    assert(crate::text::begins(m.skip(15), "returned 410"@));
}

// ---------------------------------------------------------------------------
// What the settings page shows
// ---------------------------------------------------------------------------

/// Whether a key is set, without the key itself.
pub fn key_is_set(stored: &Option<String>) -> (b: bool)
    ensures
        b == given(opt_view(*stored)),
{
    is_given(stored)
}

/// The provider that the settings page shows.
pub fn shown_provider(stored: &Option<String>) -> (s: String)
    ensures
        s@ == match opt_view(*stored) {
            Some(p) => p,
            None => "nvidia"@,
        },
{
    match clone_opt(stored) {
        Some(p) => p,
        None => "nvidia".to_owned(),
    }
}

/// A request tells what was said in the order in which it was said, each turn as
/// the one who said it, and ends with the question. The instructions come before
/// all of it where the provider takes them as a message.
pub proof fn law_requests_tell_what_was_said(
    p: Provider,
    system_prompt: Seq<char>,
    question: Seq<char>,
    history: Seq<Turn>,
    i: int,
)
    requires
        0 <= i < history.len(),
    ensures
        ({
            let list = request_messages(p, system_prompt, question, history);
            let first = if p == Provider::NvidiaNim || p == Provider::OpenAi {
                1int
            } else {
                0
            };
            &&& list.len() == first + history.len() + 1
            &&& list.last() == ("user"@, question)
            &&& first == 1 ==> list[0] == ("system"@, system_prompt)
            &&& list[first + i].1 == history[i].content@
            &&& list[first + i].0 == "user"@ <==> history[i].role@ != "ai"@
            &&& history[i].role@ == "ai"@ ==> list[first + i].0 == if p == Provider::Gemini {
                "model"@
            } else {
                "assistant"@
            }
        }),
{
    reveal_strlit("user");
    reveal_strlit("model");
    reveal_strlit("assistant");
    assert("user"@.len() == 4 && "model"@.len() == 5 && "assistant"@.len() == 9);
}

/// Each provider is found by the name that its settings carry, and the setting of
/// the business counts before that of the environment.
pub proof fn law_providers_are_found_by_their_name(
    p: Provider,
    names: ConfiguredNames,
    stored: Seq<char>,
    environment: Option<Seq<char>>,
)
    requires
        names.key@ != "gemini"@ && names.key@ != "openai"@ && names.key@ != "nvidia"@,
    ensures
        provider_named(p.key_name(names), names.key@) == p,
        first_set(Some(stored), environment) == stored,
        environment is Some ==> first_set(None, environment) == environment->0,
{
    reveal_strlit("gemini");
    reveal_strlit("openai");
    reveal_strlit("nvidia");
    reveal_strlit("anthropic");
    assert("gemini"@[0] == 'g' && "openai"@[0] == 'o' && "nvidia"@[0] == 'n' && "anthropic"@[0] == 'a');
}

/// A request goes to its own provider and shows that provider the key, and asks for
/// an answer by the model where the address says which.
pub proof fn law_requests_show_the_key(p: Provider, model: Seq<char>, key: Seq<char>)
    ensures
        p == Provider::NvidiaNim || p == Provider::OpenAi ==> request_headers(p, key)[0] == (
            "Authorization"@,
            "Bearer "@ + key,
        ),
        p == Provider::Claude ==> request_headers(p, key)[0] == ("x-api-key"@, key),
        p == Provider::Gemini ==> request_url(p, model, key)
            == "https://generativelanguage.googleapis.com/v1beta/models/"@ + model + ":generateContent?key="@ + key,
        p == Provider::NvidiaNim ==> crate::text::begins(request_url(p, model, key), "https://integrate.api.nvidia.com/"@),
        p == Provider::OpenAi ==> crate::text::begins(request_url(p, model, key), "https://api.openai.com/"@),
{
    reveal_strlit("https://integrate.api.nvidia.com/v1/chat/completions");
    reveal_strlit("https://integrate.api.nvidia.com/");
    reveal_strlit("https://api.openai.com/v1/chat/completions");
    reveal_strlit("https://api.openai.com/");
    assert("https://integrate.api.nvidia.com/v1/chat/completions"@.take(33) =~= "https://integrate.api.nvidia.com/"@);
    assert("https://api.openai.com/v1/chat/completions"@.take(23) =~= "https://api.openai.com/"@);
}

} // verus!
