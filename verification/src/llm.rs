//! The model adapter layer: what is asked of a model, and what comes back.

use vstd::prelude::*;
use vstd::string::StringExecFns;
use crate::error::WarpError;
use crate::text::{chars_of, is_white_space, is_whitespace, string_of, str_eq};

verus! {

/// Prompt sent to a model provider.
#[derive(Debug, Clone)]
pub struct Prompt {
    pub text: String,
}

/// Response returned by a model provider.
#[derive(Debug, Clone, PartialEq, Eq)]
pub struct Resp {
    pub text: String,
}

/// The task that a prompt sets the model.
#[derive(Debug, Clone, Copy, PartialEq, Eq, Structural)]
pub enum Intent {
    Translate,
    Explain,
    ChangeModel,
    PluginSuggest,
}

/// The spelling of an intent in a prompt.
pub open spec fn intent_name(intent: Intent) -> Seq<char> {
    match intent {
        Intent::Translate => "translate"@,
        Intent::Explain => "explain"@,
        Intent::ChangeModel => "change_model"@,
        Intent::PluginSuggest => "plugin_suggest"@,
    }
}

impl Intent {
    /// The spelling of this intent in a prompt.
    pub fn name(&self) -> (name: &'static str)
        ensures
            name@ == intent_name(*self),
    {
        match self {
            Intent::Translate => "translate",
            Intent::Explain => "explain",
            Intent::ChangeModel => "change_model",
            Intent::PluginSuggest => "plugin_suggest",
        }
    }

    /// The spelling of this intent in a prompt, as an owned string.
    pub fn to_string(&self) -> (name: String)
        ensures
            name@ == intent_name(*self),
    {
        self.name().to_string()
    }
}

/// What the model answered, tagged by the intent that it was asked with.
/// The payload is the response text as it came.
#[derive(Debug, Clone, PartialEq, Eq)]
pub enum LlmAction {
    Command(String),
    Explanation(String),
    Model(String),
    Plugin(String),
}

impl LlmAction {
    /// The intent whose tag this action bears.
    pub open spec fn intent(self) -> Intent {
        match self {
            LlmAction::Command(_) => Intent::Translate,
            LlmAction::Explanation(_) => Intent::Explain,
            LlmAction::Model(_) => Intent::ChangeModel,
            LlmAction::Plugin(_) => Intent::PluginSuggest,
        }
    }

    /// The response text that this action carries.
    pub open spec fn text(self) -> Seq<char> {
        match self {
            LlmAction::Command(t) => t@,
            LlmAction::Explanation(t) => t@,
            LlmAction::Model(t) => t@,
            LlmAction::Plugin(t) => t@,
        }
    }

    /// Wraps a response in the tag that matches `intent`.
    pub fn from_response(intent: Intent, resp: Resp) -> (action: LlmAction)
        ensures
            action.intent() == intent,
            action.text() == resp.text@,
    {
        match intent {
            Intent::Translate => LlmAction::Command(resp.text),
            Intent::Explain => LlmAction::Explanation(resp.text),
            Intent::ChangeModel => LlmAction::Model(resp.text),
            Intent::PluginSuggest => LlmAction::Plugin(resp.text),
        }
    }

    /// What becomes of the outcome of a completion that was asked with
    /// `intent`: a response is tagged, an error is handed on as it is.
    pub fn from_outcome(intent: Intent, outcome: Result<Resp, WarpError>) -> (result: Result<
        LlmAction,
        WarpError,
    >)
        ensures
            match outcome {
                Ok(resp) => result matches Ok(action) && action.intent() == intent
                    && action.text() == resp.text@,
                Err(e) => result == Err::<LlmAction, WarpError>(e),
            },
    {
        match outcome {
            Ok(resp) => Ok(LlmAction::from_response(intent, resp)),
            Err(e) => Err(e),
        }
    }

    /// The response text, whatever the tag.
    pub fn into_text(self) -> (text: String)
        ensures
            text@ == self.text(),
    {
        match self {
            LlmAction::Command(t) => t,
            LlmAction::Explanation(t) => t,
            LlmAction::Model(t) => t,
            LlmAction::Plugin(t) => t,
        }
    }
}

/// The provider kinds that share one completion contract.
#[derive(Debug, Clone, Copy, PartialEq, Eq, Structural)]
pub enum Provider {
    Ollama,
    OpenRouter,
    AIFoundry,
    Custom,
}

/// The provider that a name selects: `ollama`, `openrouter` and `aifoundry`
/// name theirs, every other name the custom one.
pub open spec fn provider_named(name: Seq<char>) -> Provider {
    if name == "ollama"@ {
        Provider::Ollama
    } else if name == "openrouter"@ {
        Provider::OpenRouter
    } else if name == "aifoundry"@ {
        Provider::AIFoundry
    } else {
        Provider::Custom
    }
}

impl Provider {
    /// The provider that `name` selects.
    pub fn from_name(name: &str) -> (provider: Provider)
        ensures
            provider == provider_named(name@),
    {
        if str_eq(name, "ollama") {
            Provider::Ollama
        } else if str_eq(name, "openrouter") {
            Provider::OpenRouter
        } else if str_eq(name, "aifoundry") {
            Provider::AIFoundry
        } else {
            Provider::Custom
        }
    }
}

/// Where and how a provider is reached.
#[derive(Debug, Clone)]
pub struct LlmConfig {
    pub provider: Provider,
    pub base_url: String,
    pub api_key: Option<String>,
    pub model: String,
}

/// The text of an optional string.
pub open spec fn opt_text(s: Option<String>) -> Option<Seq<char>> {
    match s {
        Some(t) => Some(t@),
        None => None,
    }
}

/// A copy of an optional string.
pub fn clone_opt(s: &Option<String>) -> (copy: Option<String>)
    ensures
        opt_text(copy) == opt_text(*s),
{
    match s {
        Some(t) => Some(t.clone()),
        None => None,
    }
}

/// One provider bound to its settings: the provider kind, and what the
/// shared HTTP sender needs to reach it.
#[derive(Debug, Clone)]
pub struct Adapter {
    pub kind: Provider,
    pub base_url: String,
    pub api_key: Option<String>,
    pub model: String,
}

impl Adapter {
    /// The adapter of the given kind.
    pub fn new(kind: Provider, base_url: String, api_key: Option<String>, model: String) -> (adapter:
        Adapter)
        ensures
            adapter == (Adapter { kind, base_url, api_key, model }),
    {
        Adapter { kind, base_url, api_key, model }
    }

    /// The adapter for Ollama.
    pub fn ollama(base_url: String, api_key: Option<String>, model: String) -> (adapter: Adapter)
        ensures
            adapter == (Adapter { kind: Provider::Ollama, base_url, api_key, model }),
    {
        Adapter::new(Provider::Ollama, base_url, api_key, model)
    }

    /// The adapter for OpenRouter.
    pub fn open_router(base_url: String, api_key: Option<String>, model: String) -> (adapter:
        Adapter)
        ensures
            adapter == (Adapter { kind: Provider::OpenRouter, base_url, api_key, model }),
    {
        Adapter::new(Provider::OpenRouter, base_url, api_key, model)
    }

    /// The adapter for AI Foundry.
    pub fn ai_foundry(base_url: String, api_key: Option<String>, model: String) -> (adapter:
        Adapter)
        ensures
            adapter == (Adapter { kind: Provider::AIFoundry, base_url, api_key, model }),
    {
        Adapter::new(Provider::AIFoundry, base_url, api_key, model)
    }

    /// The adapter for a provider of the user's own.
    pub fn custom(base_url: String, api_key: Option<String>, model: String) -> (adapter: Adapter)
        ensures
            adapter == (Adapter { kind: Provider::Custom, base_url, api_key, model }),
    {
        Adapter::new(Provider::Custom, base_url, api_key, model)
    }
}

/// The adapter that `cfg` describes: of the kind that `cfg` names, bound
/// to copies of its settings.
pub fn provider_from_config(cfg: &LlmConfig) -> (adapter: Adapter)
    ensures
        adapter.kind == cfg.provider,
        adapter.base_url@ == cfg.base_url@,
        opt_text(adapter.api_key) == opt_text(cfg.api_key),
        adapter.model@ == cfg.model@,
{
    match cfg.provider {
        Provider::Ollama => Adapter::ollama(
            cfg.base_url.clone(),
            clone_opt(&cfg.api_key),
            cfg.model.clone(),
        ),
        Provider::OpenRouter => Adapter::open_router(
            cfg.base_url.clone(),
            clone_opt(&cfg.api_key),
            cfg.model.clone(),
        ),
        Provider::AIFoundry => Adapter::ai_foundry(
            cfg.base_url.clone(),
            clone_opt(&cfg.api_key),
            cfg.model.clone(),
        ),
        Provider::Custom => Adapter::custom(
            cfg.base_url.clone(),
            clone_opt(&cfg.api_key),
            cfg.model.clone(),
        ),
    }
}

/// Something that completes prompts.
pub trait LlmProvider: Send + Sync {
    /// The provider's answer to `req`, or the error that kept it from answering.
    fn complete(&self, req: Prompt) -> Result<Resp, WarpError>;
}

/// What a prompt may tell of the machine, and the telemetry switch that
/// gates it.
#[derive(Debug, Clone)]
pub struct Environment {
    /// The name of the operating system.
    pub os: String,
    /// The user's shell.
    pub shell: String,
    /// The search path for programs.
    pub path: String,
    /// The value of the telemetry switch, if it is set.
    pub telemetry: Option<String>,
}

/// The environment variable that holds the telemetry switch.
pub const TELEMETRY_SWITCH: &'static str = "OPENWARP_TELEMETRY";

/// Telemetry is on when the switch is set to `1`, and only then.
pub open spec fn telemetry_on(switch: Option<Seq<char>>) -> bool {
    switch == Some("1"@)
}

/// What replaces a path in a redacted text.
pub const PATH_MARK: &'static str = "<path>";

/// The examples that close every prompt.
pub const FEW_SHOT: &'static str =
    "winget install git -> winget install git\nchoco install git -> choco install git\napt install git -> apt-get install git\nbrew install git -> brew install git";

/// `s` from index `from` on, with each path replaced by `PATH_MARK`. A path
/// is a `/` and the run of characters other than white space that follows
/// it; `in_path` says that `from` lies within such a run.
pub open spec fn redact_from(s: Seq<char>, from: int, in_path: bool) -> Seq<char>
    decreases s.len() - from,
{
    if from < 0 || from >= s.len() {
        Seq::empty()
    } else if in_path {
        if is_white_space(s[from]) {
            seq![s[from]] + redact_from(s, from + 1, false)
        } else {
            redact_from(s, from + 1, true)
        }
    } else if s[from] == '/' {
        PATH_MARK@ + redact_from(s, from + 1, true)
    } else {
        seq![s[from]] + redact_from(s, from + 1, false)
    }
}

/// `s` with each path replaced by `PATH_MARK`.
pub open spec fn redact_paths(s: Seq<char>) -> Seq<char> {
    redact_from(s, 0, false)
}

/// Replaces each path in `text` by `PATH_MARK`.
pub fn redact(text: &str) -> (out: String)
    ensures
        out@ == redact_paths(text@),
{
    let chars = chars_of(text);
    let mark = chars_of(PATH_MARK);
    let mut out: Vec<char> = Vec::new();
    let mut in_path = false;
    let mut i: usize = 0;
    while i < chars.len()
        invariant
            i <= chars.len(),
            chars@ == text@,
            mark@ == PATH_MARK@,
            redact_paths(text@) == out@ + redact_from(text@, i as int, in_path),
        decreases chars.len() - i,
    {
        let c = chars[i];
        let ghost rest = redact_from(text@, i + 1, if in_path {
            !is_white_space(c)
        } else {
            c == '/'
        });
        if in_path {
            if is_whitespace(c) {
                proof {
                    assert(out@ + (seq![c] + rest) == out@.push(c) + rest);
                }
                out.push(c);
                in_path = false;
            }
        } else if c == '/' {
            proof {
                assert(out@ + (mark@ + rest) == (out@ + mark@) + rest);
            }
            crate::text::push_chars(&mut out, mark.as_slice());
            in_path = true;
        } else {
            proof {
                assert(out@ + (seq![c] + rest) == out@.push(c) + rest);
            }
            out.push(c);
        }
        i = i + 1;
    }
    string_of(out.as_slice())
}

/// The prompt template, one field to a line.
pub open spec fn prompt_text(
    os: Seq<char>,
    shell: Seq<char>,
    path: Seq<char>,
    failure: Seq<char>,
    intent: Intent,
    input: Seq<char>,
) -> Seq<char> {
    "OS: "@ + os + "\nShell: "@ + shell + "\nPATH: "@ + path + "\nFailure: "@ + failure
        + "\nIntent: "@ + intent_name(intent) + "\nInput: "@ + input + "\n"@ + FEW_SHOT@
        + "\nOutput:"@
}

/// The text of an optional failure: empty where there is none.
pub open spec fn failure_text(failure: Option<&str>) -> Seq<char> {
    match failure {
        Some(f) => f@,
        None => Seq::empty(),
    }
}

/// The prompt for `intent` and `text`. With telemetry on it tells the
/// environment as it is. Otherwise it tells nothing of it, and paths in
/// `text` are redacted.
pub open spec fn prompt_for(
    env: Environment,
    intent: Intent,
    text: Seq<char>,
    failure: Seq<char>,
) -> Seq<char> {
    if telemetry_on(opt_text(env.telemetry)) {
        prompt_text(env.os@, env.shell@, env.path@, failure, intent, text)
    } else {
        prompt_text("unknown"@, "redacted"@, "<redacted>"@, failure, intent, redact_paths(text))
    }
}

/// Whether telemetry is on in `env`.
pub fn telemetry_enabled(env: &Environment) -> (on: bool)
    ensures
        on == telemetry_on(opt_text(env.telemetry)),
{
    match &env.telemetry {
        Some(v) => str_eq(v.as_str(), "1"),
        None => false,
    }
}

/// Builds the prompt for `intent`.
pub fn build_prompt(env: &Environment, intent: Intent, text: &str, failure: Option<&str>) -> (prompt:
    String)
    ensures
        prompt@ == prompt_for(*env, intent, text@, failure_text(failure)),
{
    let failure: &str = match failure {
        Some(f) => f,
        None => "",
    };
    proof {
        reveal_strlit("");
        assert(""@ == Seq::<char>::empty());
    }
    let mut prompt = String::new();
    proof {
        assert(prompt@ + "OS: "@ == "OS: "@);
    }
    prompt.append("OS: ");
    if telemetry_enabled(env) {
        prompt.append(env.os.as_str());
        prompt.append("\nShell: ");
        prompt.append(env.shell.as_str());
        prompt.append("\nPATH: ");
        prompt.append(env.path.as_str());
    } else {
        prompt.append("unknown");
        prompt.append("\nShell: ");
        prompt.append("redacted");
        prompt.append("\nPATH: ");
        prompt.append("<redacted>");
    }
    prompt.append("\nFailure: ");
    prompt.append(failure);
    prompt.append("\nIntent: ");
    prompt.append(intent.name());
    prompt.append("\nInput: ");
    if telemetry_enabled(env) {
        prompt.append(text);
    } else {
        let redacted = redact(text);
        prompt.append(redacted.as_str());
    }
    prompt.append("\n");
    prompt.append(FEW_SHOT);
    prompt.append("\nOutput:");
    prompt
}

/// Asks `provider` to act on `text` with the given intent: hands it the
/// prompt that `build_prompt` builds, and gives what `LlmAction::from_outcome`
/// makes of its outcome. Whether there is a response is the provider's to say.
pub fn infer<P: LlmProvider + ?Sized>(
    provider: &P,
    env: &Environment,
    intent: Intent,
    text: &str,
    failure: Option<&str>,
) -> (result: Result<LlmAction, WarpError>)
    ensures
        result matches Ok(action) ==> action.intent() == intent,
{
    let prompt = build_prompt(env, intent, text, failure);
    LlmAction::from_outcome(intent, provider.complete(Prompt { text: prompt }))
}

/// With telemetry off a prompt tells nothing of the environment: whatever
/// the operating system, the shell and the search path are, the prompt is
/// the same.
pub proof fn lemma_prompt_hides_environment(
    a: Environment,
    b: Environment,
    intent: Intent,
    text: Seq<char>,
    failure: Seq<char>,
)
    requires
        !telemetry_on(opt_text(a.telemetry)),
        !telemetry_on(opt_text(b.telemetry)),
    ensures
        prompt_for(a, intent, text, failure) == prompt_for(b, intent, text, failure),
{
}

/// Redaction leaves no `/` behind. So every path of the text has gone: a
/// path begins with one.
pub proof fn lemma_redacted_has_no_slash(text: Seq<char>)
    ensures
        forall|k: int| 0 <= k < redact_paths(text).len() ==> redact_paths(text)[k] != '/',
{
    lemma_redact_from_has_no_slash(text, 0, false);
}

/// Redaction from any index on, inside a path or outside, leaves no `/`.
proof fn lemma_redact_from_has_no_slash(text: Seq<char>, from: int, in_path: bool)
    ensures
        forall|k: int|
            0 <= k < redact_from(text, from, in_path).len() ==> redact_from(text, from, in_path)[k]
                != '/',
    decreases text.len() - from,
{
    let out = redact_from(text, from, in_path);
    if 0 <= from < text.len() {
        let c = text[from];
        let next = if in_path {
            !is_white_space(c)
        } else {
            c == '/'
        };
        let rest = redact_from(text, from + 1, next);
        lemma_redact_from_has_no_slash(text, from + 1, next);
        reveal_strlit("<path>");
        assert forall|k: int| 0 <= k < out.len() implies out[k] != '/' by {
            if in_path && !is_white_space(c) {
                assert(out == rest);
            } else if !in_path && c == '/' {
                assert(out == PATH_MARK@ + rest);
                if k >= PATH_MARK@.len() {
                    assert(out[k] == rest[k - PATH_MARK@.len()]);
                }
            } else {
                assert(out == seq![c] + rest);
                if k > 0 {
                    assert(out[k] == rest[k - 1]);
                }
            }
        }
    }
}

} // verus!
