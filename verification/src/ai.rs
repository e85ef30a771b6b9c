//! Talking to a language model: which provider and model to use, the
//! requests to send, and what to make of each reply.
use vstd::prelude::*;
use crate::text::{owned, split_char, split_str, str_eq, trim_str, trim_ws};

verus! {

// ---------------------------------------------------------------------------
// JSON strings
// ---------------------------------------------------------------------------

pub open spec fn hex_digit(d: int) -> char {
    if d < 10 {
        ((d + 48) as u32) as char
    } else {
        ((d + 87) as u32) as char
    }
}

/// How one character is written inside a JSON string by `serde_json`: quote
/// and backslash escaped, the usual short escapes for backspace, tab, line
/// feed, form feed and carriage return, other characters below U+0020 as
/// `\u00XX` with lower-case hex digits, and everything else as it is.
pub open spec fn json_escape_char(c: char) -> Seq<char> {
    if c == '"' {
        seq!['\\', '"']
    } else if c == '\\' {
        seq!['\\', '\\']
    } else if c == '\u{8}' {
        seq!['\\', 'b']
    } else if c == '\t' {
        seq!['\\', 't']
    } else if c == '\n' {
        seq!['\\', 'n']
    } else if c == '\u{c}' {
        seq!['\\', 'f']
    } else if c == '\r' {
        seq!['\\', 'r']
    } else if (c as u32) < 0x20 {
        seq!['\\', 'u', '0', '0', hex_digit((c as u32) as int / 16), hex_digit((c as u32) as int % 16)]
    } else {
        seq![c]
    }
}

pub open spec fn json_escape(s: Seq<char>) -> Seq<char>
    decreases s.len(),
{
    if s.len() == 0 {
        Seq::empty()
    } else {
        json_escape(s.drop_last()) + json_escape_char(s.last())
    }
}

/// `s` as a JSON string literal, quotes included.
pub open spec fn json_string(s: Seq<char>) -> Seq<char> {
    seq!['"'] + json_escape(s) + seq!['"']
}

/// `serde_json::to_string` on a string slice: the JSON string literal of `s`,
/// as `serde_json`'s writer produces it (its escape table and `\u00XX`
/// form). Serialising a string into the crate's in-memory buffer has no
/// failing path, so the result is always there.
#[verifier::external_body]
fn json_quote(s: &str) -> (r: Option<String>)
    ensures
        r is Some,
        r->0@ == json_string(s@),
{
    match serde_json::to_string(s) {
        Ok(t) => Some(t),
        Err(_) => None,
    }
}

// ---------------------------------------------------------------------------
// Configuration
// ---------------------------------------------------------------------------

/// Which kind of service answers.
#[derive(Clone, Copy, Debug, PartialEq, Eq, Structural)]
pub enum Provider {
    Gemini,
    OpenAiCompatible,
}

/// The service, model(s), address and key of a language model.
pub struct AiConfig {
    pub provider: Provider,
    pub model: String,
    pub base_url: Option<String>,
    pub api_key: String,
}

/// Why no configuration could be made.
#[derive(Debug)]
pub enum AiConfigError {
    MissingGeminiKey,
    MissingApiKey(String),
    MissingBaseUrl(String),
}

impl AiConfigError {
    pub fn message(&self) -> (m: String)
        ensures
            m@ == match self {
                AiConfigError::MissingGeminiKey => "GEMINI_API_KEY must be set for Gemini provider"@,
                AiConfigError::MissingApiKey(p) => p@ + "_API_KEY must be set"@,
                AiConfigError::MissingBaseUrl(p) => p@ + "_BASE_URL must be set"@,
            },
    {
        match self {
            AiConfigError::MissingGeminiKey => String::from_str(
                "GEMINI_API_KEY must be set for Gemini provider",
            ),
            AiConfigError::MissingApiKey(p) => {
                let mut m = owned(p.as_str());
                m.append("_API_KEY must be set");
                m
            },
            AiConfigError::MissingBaseUrl(p) => {
                let mut m = owned(p.as_str());
                m.append("_BASE_URL must be set");
                m
            },
        }
    }
}

/// The name of the environment variable `prefix_suffix`.
pub fn env_key(prefix: &str, suffix: &str) -> (k: String)
    ensures
        k@ == prefix@ + "_"@ + suffix@,
{
    let mut k = owned(prefix);
    k.append("_");
    k.append(suffix);
    k
}

/// The provider named by a setting: `openai_compatible`, else Gemini.
pub open spec fn provider_named(name: Option<Seq<char>>) -> Provider {
    if name == Some("openai_compatible"@) {
        Provider::OpenAiCompatible
    } else {
        Provider::Gemini
    }
}

pub open spec fn opt_view(o: Option<String>) -> Option<Seq<char>> {
    match o {
        Some(s) => Some(s@),
        None => None,
    }
}

/// A configuration from the settings `PREFIX_PROVIDER`, `PREFIX_MODEL`,
/// `GEMINI_API_KEY`, `PREFIX_API_KEY` and `PREFIX_BASE_URL` (absent when unset):
/// Gemini needs its key, an OpenAI-compatible service needs a key and an
/// address; the model defaults to `gemini-1.5-pro`.
pub fn config_from_settings(
    prefix: &str,
    provider: Option<String>,
    model: Option<String>,
    gemini_key: Option<String>,
    api_key: Option<String>,
    base_url: Option<String>,
) -> (r: Result<AiConfig, AiConfigError>)
    ensures
        match r {
            Ok(c) => {
                &&& c.provider == provider_named(opt_view(provider))
                &&& c.model@ == match model {
                    Some(m) => m@,
                    None => "gemini-1.5-pro"@,
                }
                &&& c.provider == Provider::Gemini ==> gemini_key is Some && c.api_key@
                    == gemini_key->0@ && c.base_url is None
                &&& c.provider == Provider::OpenAiCompatible ==> api_key is Some && base_url is Some
                    && c.api_key@ == api_key->0@ && c.base_url is Some && c.base_url->0@
                    == base_url->0@
            },
            Err(AiConfigError::MissingGeminiKey) => provider_named(opt_view(provider))
                == Provider::Gemini && gemini_key is None,
            Err(AiConfigError::MissingApiKey(p)) => provider_named(opt_view(provider))
                == Provider::OpenAiCompatible && api_key is None && p@ == prefix@,
            Err(AiConfigError::MissingBaseUrl(p)) => provider_named(opt_view(provider))
                == Provider::OpenAiCompatible && api_key is Some && base_url is None && p@
                == prefix@,
        },
{
    let kind = match &provider {
        Some(p) => if str_eq(p.as_str(), "openai_compatible") {
            Provider::OpenAiCompatible
        } else {
            Provider::Gemini
        },
        None => Provider::Gemini,
    };
    let model = match model {
        Some(m) => m,
        None => String::from_str("gemini-1.5-pro"),
    };
    match kind {
        Provider::Gemini => match gemini_key {
            Some(k) => Ok(AiConfig { provider: kind, model, base_url: None, api_key: k }),
            None => Err(AiConfigError::MissingGeminiKey),
        },
        Provider::OpenAiCompatible => {
            let k = match api_key {
                Some(k) => k,
                None => return Err(AiConfigError::MissingApiKey(owned(prefix))),
            };
            let b = match base_url {
                Some(b) => b,
                None => return Err(AiConfigError::MissingBaseUrl(owned(prefix))),
            };
            Ok(AiConfig { provider: kind, model, base_url: Some(b), api_key: k })
        },
    }
}

// ---------------------------------------------------------------------------
// Requests
// ---------------------------------------------------------------------------

/// The Gemini models to try, in order: the model setting split at commas,
/// each trimmed.
pub open spec fn gemini_models(model: Seq<char>) -> Seq<Seq<char>> {
    split_char(model, ',').map_values(|m: Seq<char>| trim_ws(m))
}

pub open spec fn gemini_url(model: Seq<char>, key: Seq<char>) -> Seq<char> {
    "https://generativelanguage.googleapis.com/v1beta/models/"@ + model + ":generateContent?key="@
        + key
}

/// The body of a Gemini request: `{"contents":[{"parts":[{"text":PROMPT}]}]}`.
pub open spec fn gemini_body(prompt: Seq<char>) -> Seq<char> {
    "{\"contents\":[{\"parts\":[{\"text\":"@ + json_string(prompt) + "}]}]}"@
}

pub open spec fn openai_url(base: Seq<char>) -> Seq<char> {
    base + "/chat/completions"@
}

/// The body of an OpenAI-compatible request, its keys in the sorted order in
/// which `serde_json` writes an object:
/// `{"messages":[{"content":PROMPT,"role":"user"}],"model":MODEL}`.
pub open spec fn openai_body(model: Seq<char>, prompt: Seq<char>) -> Seq<char> {
    "{\"messages\":[{\"content\":"@ + json_string(prompt) + ",\"role\":\"user\"}],\"model\":"@
        + json_string(model) + "}"@
}

/// What the app is to do next.
pub enum AiAction {
    /// Send `body` (JSON) by POST to `url`, with `bearer` as the bearer token
    /// when it is given, and report the reply.
    Post { url: String, body: String, bearer: Option<String> },
    /// The exchange is over.
    Done(Result<String, AiFailure>),
}

/// Why no text came back.
#[derive(Debug)]
pub enum AiFailure {
    /// Every Gemini model failed; the last failure is given.
    AllModelsFailed(Option<String>),
    /// The OpenAI-compatible request or its decoding failed.
    Request(String),
    /// The OpenAI-compatible reply held no text.
    NoText,
}

impl AiFailure {
    pub fn message(&self) -> (m: String)
        ensures
            m@ == match self {
                AiFailure::AllModelsFailed(Some(e)) => "All specified Gemini models failed. Last error: Some("@
                    + e@ + ")"@,
                AiFailure::AllModelsFailed(None) => "All specified Gemini models failed. Last error: None"@,
                AiFailure::Request(e) => e@,
                AiFailure::NoText => "Failed to extract text from OpenAI compatible response"@,
            },
    {
        match self {
            AiFailure::AllModelsFailed(Some(e)) => {
                let mut m = String::from_str("All specified Gemini models failed. Last error: Some(");
                m.append(e.as_str());
                m.append(")");
                m
            },
            AiFailure::AllModelsFailed(None) => String::from_str(
                "All specified Gemini models failed. Last error: None",
            ),
            AiFailure::Request(e) => owned(e.as_str()),
            AiFailure::NoText => String::from_str(
                "Failed to extract text from OpenAI compatible response",
            ),
        }
    }
}

/// What came back for a request.
pub enum AiReply {
    /// The request could not be sent or answered.
    SendFailed(String),
    /// The service answered with an unsuccessful HTTP status (Gemini only).
    HttpError(String),
    /// The answer was not JSON.
    BadJson(String),
    /// The answer was JSON: the text it holds, its finish reason, and the
    /// whole answer pretty-printed.
    Parsed { text: Option<String>, finish_reason: Option<String>, raw: String },
}

/// The failure recorded for a Gemini model after an unusable reply.
pub open spec fn gemini_failure(reply: AiReply, model: Seq<char>) -> Seq<char> {
    match reply {
        AiReply::SendFailed(e) => "Request failed for "@ + model + ": "@ + e@,
        AiReply::HttpError(s) => "HTTP error for "@ + model + ": "@ + s@,
        AiReply::BadJson(e) => "JSON error for "@ + model + ": "@ + e@,
        AiReply::Parsed { raw, .. } => "Failed to extract text from "@ + model + ". Raw: "@ + raw@,
    }
}

/// A Gemini reply with text gives that text; one without text that finished
/// with `STOP` means the program needs no input, which is the empty text.
pub open spec fn gemini_answer(reply: AiReply) -> Option<Seq<char>> {
    match reply {
        AiReply::Parsed { text: Some(t), .. } => Some(t@),
        AiReply::Parsed { text: None, finish_reason: Some(f), .. } => if f@ == "STOP"@ {
            Some(Seq::empty())
        } else {
            None
        },
        _ => None,
    }
}

/// An exchange with a language model in progress.
pub struct AiSession {
    pub provider: Provider,
    /// The models to ask, in order (for an OpenAI-compatible service, its
    /// one model).
    pub models: Vec<String>,
    /// The model being asked.
    pub next: usize,
    pub last_error: Option<String>,
    pub api_key: String,
    pub body: String,
}

pub open spec fn models_view(v: Seq<String>) -> Seq<Seq<char>> {
    v.map_values(|s: String| s@)
}

impl AiSession {
    /// The session is waiting for the reply to a request.
    pub open spec fn awaiting(&self) -> bool {
        self.next < self.models@.len()
    }
}

fn gemini_url_for(model: &str, key: &str) -> (u: String)
    ensures
        u@ == gemini_url(model@, key@),
{
    let mut u = String::from_str("https://generativelanguage.googleapis.com/v1beta/models/");
    u.append(model);
    u.append(":generateContent?key=");
    u.append(key);
    u
}

/// Starts asking `config` about `prompt`: the session and its first request.
pub fn start_request(config: &AiConfig, prompt: &str) -> (r: (AiSession, AiAction))
    requires
        config.provider == Provider::OpenAiCompatible ==> config.base_url is Some,
    ensures
        r.0.provider == config.provider,
        r.0.next == 0,
        r.0.last_error is None,
        r.0.api_key@ == config.api_key@,
        config.provider == Provider::Gemini ==> models_view(r.0.models@) == gemini_models(
            config.model@,
        ),
        config.provider == Provider::OpenAiCompatible ==> models_view(r.0.models@) == seq![
            config.model@,
        ],
        r.1 is Post,
        match r.1 {
            AiAction::Post { url, body, bearer } => {
                &&& r.0.awaiting()
                &&& body@ == r.0.body@
                &&& config.provider == Provider::Gemini ==> url@ == gemini_url(
                    gemini_models(config.model@)[0],
                    config.api_key@,
                ) && body@ == gemini_body(prompt@) && bearer is None
                &&& config.provider == Provider::OpenAiCompatible ==> url@ == openai_url(
                    config.base_url->0@,
                ) && body@ == openai_body(config.model@, prompt@) && bearer is Some
                    && bearer->0@ == config.api_key@
            },
            AiAction::Done(_) => false,
        },
{
    let q = json_quote(prompt).unwrap();
    match config.provider {
        Provider::Gemini => {
            let parts = split_str(config.model.as_str(), ',');
            let ghost sp = split_char(config.model@, ',');
            let mut models: Vec<String> = Vec::new();
            let mut i: usize = 0;
            while i < parts.len()
                invariant
                    parts@.len() == sp.len(),
                    sp == split_char(config.model@, ','),
                    forall|k: int| 0 <= k < parts@.len() ==> #[trigger] parts@[k]@ == sp[k],
                    i <= parts@.len(),
                    models@.len() == i,
                    forall|k: int| 0 <= k < i ==> #[trigger] models@[k]@ == trim_ws(sp[k]),
                decreases parts@.len() - i,
            {
                models.push(trim_str(parts[i].as_str()));
                i += 1;
            }
            proof {
                assert(models_view(models@) =~= gemini_models(config.model@));
                crate::text::lemma_split_len(config.model@, ',');
            }
            let mut body = String::from_str("{\"contents\":[{\"parts\":[{\"text\":");
            body.append(q.as_str());
            body.append("}]}]}");
            let url = gemini_url_for(models[0].as_str(), config.api_key.as_str());
            let s = AiSession {
                provider: Provider::Gemini,
                models,
                next: 0,
                last_error: None,
                api_key: owned(config.api_key.as_str()),
                body: owned(body.as_str()),
            };
            (s, AiAction::Post { url, body, bearer: None })
        },
        Provider::OpenAiCompatible => {
            let mut models: Vec<String> = Vec::new();
            models.push(owned(config.model.as_str()));
            proof {
                assert(models_view(models@) =~= seq![config.model@]);
            }
            let m = json_quote(config.model.as_str()).unwrap();
            let mut body = String::from_str("{\"messages\":[{\"content\":");
            body.append(q.as_str());
            body.append(",\"role\":\"user\"}],\"model\":");
            body.append(m.as_str());
            body.append("}");
            let base = config.base_url.as_ref().unwrap();
            let mut url = owned(base.as_str());
            url.append("/chat/completions");
            let s = AiSession {
                provider: Provider::OpenAiCompatible,
                models,
                next: 0,
                last_error: None,
                api_key: owned(config.api_key.as_str()),
                body: owned(body.as_str()),
            };
            (s, AiAction::Post { url, body, bearer: Some(owned(config.api_key.as_str())) })
        },
    }
}

fn gemini_failure_text(reply: &AiReply, model: &str) -> (t: String)
    ensures
        t@ == gemini_failure(*reply, model@),
{
    match reply {
        AiReply::SendFailed(e) => {
            let mut t = String::from_str("Request failed for ");
            t.append(model);
            t.append(": ");
            t.append(e.as_str());
            t
        },
        AiReply::HttpError(s) => {
            let mut t = String::from_str("HTTP error for ");
            t.append(model);
            t.append(": ");
            t.append(s.as_str());
            t
        },
        AiReply::BadJson(e) => {
            let mut t = String::from_str("JSON error for ");
            t.append(model);
            t.append(": ");
            t.append(e.as_str());
            t
        },
        AiReply::Parsed { raw, .. } => {
            let mut t = String::from_str("Failed to extract text from ");
            t.append(model);
            t.append(". Raw: ");
            t.append(raw.as_str());
            t
        },
    }
}

impl AiSession {
    /// What to do after `reply` came back for the current request.
    ///
    /// Gemini: a reply with text (or an empty one that finished with `STOP`)
    /// ends the exchange with that text; any other reply is recorded as the
    /// last failure and the next model is asked, until none is left.
    /// OpenAI-compatible: the text of the reply, or the failure.
    pub fn step(&mut self, reply: AiReply) -> (a: AiAction)
        requires
            old(self).awaiting(),
        ensures
            final(self).provider == old(self).provider,
            final(self).models@ == old(self).models@,
            final(self).api_key@ == old(self).api_key@,
            final(self).body@ == old(self).body@,
            old(self).provider == Provider::Gemini ==> {
                let model = old(self).models@[old(self).next as int]@;
                match gemini_answer(reply) {
                    Some(t) => a matches AiAction::Done(Ok(x)) && x@ == t && final(self).next
                        == old(self).next,
                    None => {
                        &&& final(self).next == old(self).next + 1
                        &&& final(self).last_error is Some
                        &&& final(self).last_error->0@ == gemini_failure(reply, model)
                        &&& final(self).awaiting() ==> (a matches AiAction::Post { url, body, bearer }
                            && url@ == gemini_url(
                            final(self).models@[final(self).next as int]@,
                            final(self).api_key@,
                        ) && body@ == final(self).body@ && bearer is None)
                        &&& !final(self).awaiting() ==> (a matches AiAction::Done(
                            Err(AiFailure::AllModelsFailed(Some(e))),
                        ) && e@ == gemini_failure(reply, model))
                    },
                }
            },
            old(self).provider == Provider::OpenAiCompatible ==> {
                &&& final(self).next == old(self).next + 1
                &&& a matches AiAction::Done(res)
                &&& match reply {
                    AiReply::Parsed { text: Some(t), .. } => res matches Ok(x) && x@ == t@,
                    AiReply::Parsed { text: None, .. } => res matches Err(AiFailure::NoText),
                    AiReply::SendFailed(e) => res matches Err(AiFailure::Request(x)) && x@ == e@,
                    AiReply::HttpError(e) => res matches Err(AiFailure::Request(x)) && x@ == e@,
                    AiReply::BadJson(e) => res matches Err(AiFailure::Request(x)) && x@ == e@,
                }
            },
    {
        let n = self.models.len();
        assert(self.next < n);
        match self.provider {
            Provider::OpenAiCompatible => {
                self.next = self.next + 1;
                let res = match reply {
                    AiReply::Parsed { text: Some(t), .. } => Ok(t),
                    AiReply::Parsed { text: None, .. } => Err(AiFailure::NoText),
                    AiReply::SendFailed(e) => Err(AiFailure::Request(e)),
                    AiReply::HttpError(e) => Err(AiFailure::Request(e)),
                    AiReply::BadJson(e) => Err(AiFailure::Request(e)),
                };
                AiAction::Done(res)
            },
            Provider::Gemini => {
                let answer: Option<String> = match &reply {
                    AiReply::Parsed { text: Some(t), .. } => Some(owned(t.as_str())),
                    AiReply::Parsed { text: None, finish_reason: Some(f), .. } => {
                        if str_eq(f.as_str(), "STOP") {
                            Some(String::new())
                        } else {
                            None
                        }
                    },
                    _ => None,
                };
                match answer {
                    Some(t) => AiAction::Done(Ok(t)),
                    None => {
                        let err = gemini_failure_text(&reply, self.models[self.next].as_str());
                        self.last_error = Some(owned(err.as_str()));
                        self.next = self.next + 1;
                        if self.next < self.models.len() {
                            let url = gemini_url_for(
                                self.models[self.next].as_str(),
                                self.api_key.as_str(),
                            );
                            AiAction::Post { url, body: owned(self.body.as_str()), bearer: None }
                        } else {
                            AiAction::Done(Err(AiFailure::AllModelsFailed(Some(err))))
                        }
                    },
                }
            },
        }
    }
}

} // verus!
