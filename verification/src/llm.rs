//! The agent backed by an OpenAI-compatible model: its configuration, and
//! what is said when it has no key for an endpoint that needs one.

use vstd::prelude::*;

use crate::text::{cat, debug_quoted, quoted, trim, trimmed};

verus! {

/// The environment variable holding the API key.
pub const API_KEY_ENV: &'static str = "AG_UI_LLM_API_KEY";

/// Read when [`API_KEY_ENV`] is unset.
pub const FALLBACK_API_KEY_ENV: &'static str = "GEMINI_API_KEY";

/// The environment variable holding the base URL.
pub const BASE_URL_ENV: &'static str = "AG_UI_LLM_BASE_URL";

/// The environment variable holding the model id.
pub const MODEL_ENV: &'static str = "AG_UI_LLM_MODEL";

/// Where requests go unless [`BASE_URL_ENV`] says otherwise.
pub const DEFAULT_BASE_URL: &'static str = "https://generativelanguage.googleapis.com/v1beta/openai";

/// The model the agent talks to by default.
pub const DEFAULT_MODEL: &'static str = "gemini-2.5-flash-lite";

/// The tool the agent owns and executes itself.
pub const WEATHER_TOOL: &'static str = "get_weather";

/// No API key was found, and the endpoint the agent would have talked to
/// needs one.
#[derive(Clone, Copy, Debug, PartialEq, Eq)]
pub struct MissingApiKey;

impl MissingApiKey {
    /// What is said about it.
    pub open spec fn text(&self) -> Seq<char> {
        "neither AG_UI_LLM_API_KEY nor GEMINI_API_KEY is set, and https://generativelanguage.googleapis.com/v1beta/openai needs a key (set AG_UI_LLM_BASE_URL to a local server such as http://localhost:11434/v1 to run without one)"@
    }

    /// What is said about it.
    pub fn to_string(&self) -> (text: String)
        ensures
            text@ == self.text(),
    {
        "neither AG_UI_LLM_API_KEY nor GEMINI_API_KEY is set, and https://generativelanguage.googleapis.com/v1beta/openai needs a key (set AG_UI_LLM_BASE_URL to a local server such as http://localhost:11434/v1 to run without one)".to_owned()
    }
}

/// The key to send: the first of the two variables that is set.
pub fn chosen_key(primary: Option<String>, fallback: Option<String>) -> (key: Option<String>)
    ensures
        key == (match primary {
            Some(p) => Some(p),
            None => fallback,
        }),
{
    match primary {
        Some(p) => Some(p),
        None => fallback,
    }
}

/// `reqwest::Client`, the HTTP client an agent talks to its model with.
#[verifier::external_type_specification]
#[verifier::external_body]
pub struct ExClient(reqwest::Client);

/// `reqwest::ClientBuilder` with a connect timeout and a per-read timeout of
/// the given seconds, built; a builder that fails gives `Client::default()`,
/// which panics only where no TLS backend or resolver can be set up. Nothing
/// is stated of the client.
#[verifier::external_body]
pub(crate) fn model_client(connect_secs: u64, read_secs: u64) -> reqwest::Client {
    reqwest::Client::builder()
        .connect_timeout(std::time::Duration::from_secs(connect_secs))
        .read_timeout(std::time::Duration::from_secs(read_secs))
        .build()
        .unwrap_or_default()
}

/// How long connecting to the model may take, in seconds.
pub const CONNECT_TIMEOUT_SECS: u64 = 10;

/// How long one read of the model's stream may take, in seconds: a stalled
/// stream is bounded, a slow one is not.
pub const READ_TIMEOUT_SECS: u64 = 60;

/// `text` without the `/` characters it ends with.
pub open spec fn without_trailing_slashes(text: Seq<char>) -> Seq<char>
    decreases text.len(),
{
    if text.len() > 0 && text.last() == '/' {
        without_trailing_slashes(text.drop_last())
    } else {
        text
    }
}

/// `str::trim_end_matches('/')`.
fn strip_trailing_slashes(text: &str) -> (stripped: &str)
    ensures
        stripped@ == without_trailing_slashes(text@),
{
    let mut n = text.unicode_len();
    assert(text@.take(n as int) =~= text@);
    while n > 0 && text.get_char(n - 1) == '/'
        invariant
            n <= text@.len(),
            without_trailing_slashes(text@) == without_trailing_slashes(text@.take(n as int)),
        decreases n,
    {
        assert(text@.take(n as int).drop_last() =~= text@.take(n - 1));
        n = n - 1;
    }
    let stripped = text.substring_char(0, n);
    assert(stripped@ =~= text@.take(n as int));
    stripped
}

/// A key worth sending: one that is not blank.
pub open spec fn usable_key(key: Option<String>) -> Option<String> {
    match key {
        Some(k) => if trimmed(k@).len() > 0 {
            Some(k)
        } else {
            None
        },
        None => None,
    }
}

/// An agent backed by an OpenAI-compatible chat endpoint.
pub struct LlmAgent {
    client: reqwest::Client,
    base_url: String,
    model: String,
    api_key: Option<String>,
}

impl LlmAgent {
    /// The endpoint, without trailing slashes.
    pub closed spec fn base_url_spec(&self) -> Seq<char> {
        self.base_url@
    }

    /// The model asked.
    pub closed spec fn model_spec(&self) -> Seq<char> {
        self.model@
    }

    /// The key sent, if any.
    pub closed spec fn key_spec(&self) -> Option<String> {
        self.api_key
    }

    /// An agent for `model` at `base_url`: trailing slashes are dropped (a
    /// path would otherwise double them), and a blank key is no key (an
    /// empty bearer header is a rejected request, not an anonymous one).
    pub fn new(base_url: &str, model: &str, api_key: Option<String>) -> (agent: Self)
        ensures
            agent.base_url_spec() == without_trailing_slashes(base_url@),
            agent.model_spec() == model@,
            agent.key_spec() == usable_key(api_key),
    {
        let key = match api_key {
            Some(k) => if trim(k.as_str()).is_empty() {
                None
            } else {
                Some(k)
            },
            None => None,
        };
        LlmAgent {
            client: model_client(CONNECT_TIMEOUT_SECS, READ_TIMEOUT_SECS),
            base_url: strip_trailing_slashes(base_url).to_owned(),
            model: model.to_owned(),
            api_key: key,
        }
    }

    /// The agent the settings describe, or `MissingApiKey` where neither
    /// key is set and the endpoint is the default one, which needs a key.
    /// `base_url` and `model` fall back to their defaults where unset.
    pub fn from_settings(
        base_url: Option<String>,
        model: Option<String>,
        api_key: Option<String>,
        fallback_api_key: Option<String>,
    ) -> (agent: Result<Self, MissingApiKey>)
        ensures
            ({
                let url = match base_url {
                    Some(u) => u@,
                    None => DEFAULT_BASE_URL@,
                };
                let key = match api_key {
                    Some(k) => Some(k),
                    None => fallback_api_key,
                };
                if key is None && without_trailing_slashes(url) == DEFAULT_BASE_URL@ {
                    agent is Err
                } else {
                    agent matches Ok(a) && a.base_url_spec() == without_trailing_slashes(url) && a.model_spec()
                        == (match model {
                        Some(m) => m@,
                        None => DEFAULT_MODEL@,
                    }) && a.key_spec() == usable_key(key)
                }
            }),
    {
        let url = match base_url {
            Some(u) => u,
            None => DEFAULT_BASE_URL.to_owned(),
        };
        let model = match model {
            Some(m) => m,
            None => DEFAULT_MODEL.to_owned(),
        };
        let key = chosen_key(api_key, fallback_api_key);
        if key.is_none() {
            let stripped = strip_trailing_slashes(url.as_str()).to_owned();
            let default_url = DEFAULT_BASE_URL.to_owned();
            if stripped == default_url {
                return Err(MissingApiKey);
            }
        }
        Ok(Self::new(url.as_str(), model.as_str(), key))
    }

    /// The same agent, asking `model`.
    pub fn model(self, model: &str) -> (agent: Self)
        ensures
            agent.model_spec() == model@,
            agent.base_url_spec() == self.base_url_spec(),
            agent.key_spec() == self.key_spec(),
            agent.client_spec() == self.client_spec(),
    {
        LlmAgent { model: model.to_owned(), ..self }
    }

    /// The model this agent asks.
    pub fn model_name(&self) -> (model: &str)
        ensures
            model@ == self.model_spec(),
    {
        self.model.as_str()
    }

    /// The endpoint this agent is pointed at; it carries no credential.
    pub fn base_url(&self) -> (url: &str)
        ensures
            url@ == self.base_url_spec(),
    {
        self.base_url.as_str()
    }

    /// The key sent as a bearer token, if any.
    pub fn api_key(&self) -> (key: Option<&str>)
        ensures
            match self.key_spec() {
                Some(k) => key matches Some(x) && x@ == k@,
                None => key is None,
            },
    {
        match &self.api_key {
            Some(k) => Some(k.as_str()),
            None => None,
        }
    }

    /// The HTTP client the agent sends with.
    pub closed spec fn client_spec(&self) -> reqwest::Client {
        self.client
    }

    /// The HTTP client the agent sends with.
    pub fn client(&self) -> (client: &reqwest::Client)
        ensures
            *client == self.client_spec(),
    {
        &self.client
    }

    /// How the agent shows in a log line: its endpoint and model, and
    /// whether it has a key, which is redacted.
    pub open spec fn debug_text(&self) -> Seq<char> {
        "LlmAgent { base_url: "@ + debug_quoted(self.base_url_spec()) + ", model: "@ + debug_quoted(self.model_spec())
            + ", api_key: "@ + match self.key_spec() {
            Some(_) => "Some(\"<redacted>\")"@,
            None => "None"@,
        } + " }"@
    }

    /// The agent as a log line shows it, in the layout of `Debug`; the key
    /// is never part of it.
    pub fn debug_line(&self) -> (line: String)
        ensures
            line@ == self.debug_text(),
    {
        let line = cat("LlmAgent { base_url: ".to_owned(), quoted(self.base_url.as_str()).as_str());
        let line = cat(line, ", model: ");
        let line = cat(line, quoted(self.model.as_str()).as_str());
        let line = cat(line, ", api_key: ");
        let line = match &self.api_key {
            Some(_) => cat(line, "Some(\"<redacted>\")"),
            None => cat(line, "None"),
        };
        cat(line, " }")
    }
}

/// The key never reaches a log line: two agents at the same endpoint and
/// model show the same whenever both have a key, whatever the keys are.
pub proof fn law_the_key_never_reaches_a_debug_line(a: LlmAgent, b: LlmAgent)
    requires
        a.base_url_spec() == b.base_url_spec(),
        a.model_spec() == b.model_spec(),
        a.key_spec() is Some == b.key_spec() is Some,
    ensures
        a.debug_text() == b.debug_text(),
{
}

/// An environment value worth reading: trimmed, and absent where blank.
pub fn setting(value: Option<String>) -> (kept: Option<String>)
    ensures
        match value {
            Some(v) => if trimmed(v@).len() > 0 {
                kept matches Some(k) && k@ == trimmed(v@)
            } else {
                kept is None
            },
            None => kept is None,
        },
{
    match value {
        Some(v) => {
            let t = trim(v.as_str());
            if t.is_empty() {
                None
            } else {
                Some(t.to_owned())
            }
        },
        None => None,
    }
}

} // verus!
