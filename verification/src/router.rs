//! The router: the decisions that turn one line of the user into a route.
//!
//! The router decides and does nothing else. Where a decision needs the
//! cache or the model, the step that it returns says what to ask for, and
//! the answer is handed to the method that takes the next decision.

use vstd::prelude::*;
use crate::context::{pushed_all, CacheWrite, ContextEngine};
use crate::llm::{
    clone_opt, opt_text, provider_from_config, Adapter, Intent, LlmAction, LlmConfig, Provider,
};
use crate::safety::{safety_scan, scan, Safety};
use crate::terminal::Block;
use crate::text::{chars_of, has_prefix, starts_with, string_of, sub_chars};

verus! {

/// What begins a line that changes the model.
pub const MODEL_PREFIX: &'static str = "!model ";

/// What begins a line that spawns a shell.
pub const SPAWN_PREFIX: &'static str = "!spawn ";

/// What begins a line for a plugin.
pub const PLUGIN_PREFIX: &'static str = "!plugin ";

/// What begins a line that asks for an explanation.
pub const EXPLAIN_PREFIX: &'static str = "?";

/// The classified interpretation of one line.
#[derive(Debug, Clone, PartialEq, Eq)]
pub enum Route {
    /// Run `cmd`, which the scanner found to be of the given safety.
    Exec { cmd: String, safety: Safety },
    /// Show the model's explanation.
    Explain { text: String },
    /// The model was changed to the given one.
    Switch(String),
    /// Spawn the given shell.
    Spawn(String),
    /// Hand `arg` to the plugin `name`.
    Plugin { name: String, arg: String },
}

/// A route, as texts.
pub enum RouteView {
    Exec { cmd: Seq<char>, safety: Safety },
    Explain { text: Seq<char> },
    Switch(Seq<char>),
    Spawn(Seq<char>),
    Plugin { name: Seq<char>, arg: Seq<char> },
}

impl View for Route {
    type V = RouteView;

    open spec fn view(&self) -> RouteView {
        match *self {
            Route::Exec { cmd, safety } => RouteView::Exec { cmd: cmd@, safety },
            Route::Explain { text } => RouteView::Explain { text: text@ },
            Route::Switch(model) => RouteView::Switch(model@),
            Route::Spawn(shell) => RouteView::Spawn(shell@),
            Route::Plugin { name, arg } => RouteView::Plugin { name: name@, arg: arg@ },
        }
    }
}

/// What the router needs next, or the route that it has reached.
#[derive(Debug, Clone, PartialEq, Eq)]
pub enum Step {
    /// The line is classified: this is its route.
    Done(Route),
    /// The line is to be translated: read the cache under the line first.
    Lookup,
    /// Ask the model to act on `text` with the given intent, telling it of
    /// the last failure if there is one.
    Ask { intent: Intent, text: String, failure: Option<String> },
}

/// A step, as texts.
pub enum StepView {
    Done(RouteView),
    Lookup,
    Ask { intent: Intent, text: Seq<char>, failure: Option<Seq<char>> },
}

impl View for Step {
    type V = StepView;

    open spec fn view(&self) -> StepView {
        match *self {
            Step::Done(route) => StepView::Done(route@),
            Step::Lookup => StepView::Lookup,
            Step::Ask { intent, text, failure } => StepView::Ask {
                intent,
                text: text@,
                failure: opt_text(failure),
            },
        }
    }
}

/// The first index of `s` at which a blank stands: the end of `s` if there
/// is none.
pub open spec fn token_end(s: Seq<char>, from: int) -> int
    decreases s.len() - from,
{
    if 0 <= from < s.len() && s[from] != ' ' {
        token_end(s, from + 1)
    } else {
        from
    }
}

/// The route of a line for a plugin, given what follows the prefix: the
/// name is the first token, up to the first blank, and the argument is all
/// that follows that blank.
pub open spec fn plugin_route(rest: Seq<char>) -> RouteView {
    let end = token_end(rest, 0);
    RouteView::Plugin {
        name: rest.take(end),
        arg: if end < rest.len() {
            rest.skip(end + 1)
        } else {
            Seq::empty()
        },
    }
}

/// The first step for a line: the decision table, applied in order.
pub open spec fn first_step(line: Seq<char>) -> StepView {
    if starts_with(line, MODEL_PREFIX@) {
        StepView::Done(RouteView::Switch(line.skip(MODEL_PREFIX@.len() as int)))
    } else if starts_with(line, SPAWN_PREFIX@) {
        StepView::Done(RouteView::Spawn(line.skip(SPAWN_PREFIX@.len() as int)))
    } else if starts_with(line, PLUGIN_PREFIX@) {
        StepView::Done(plugin_route(line.skip(PLUGIN_PREFIX@.len() as int)))
    } else if starts_with(line, EXPLAIN_PREFIX@) {
        StepView::Ask {
            intent: Intent::Explain,
            text: line.skip(EXPLAIN_PREFIX@.len() as int),
            failure: None,
        }
    } else {
        StepView::Lookup
    }
}

/// The route that runs `cmd`: the scanner has the say on its safety.
pub open spec fn exec_route(cmd: Seq<char>) -> RouteView {
    RouteView::Exec { cmd, safety: scan(cmd) }
}

/// Whether the pipeline may run `route`: it runs a command, and the
/// command is safe or the user has acknowledged the danger.
pub open spec fn may_run(route: RouteView, i_know: bool) -> bool {
    match route {
        RouteView::Exec { cmd, safety } => safety == Safety::Safe || i_know,
        _ => false,
    }
}

/// What is remembered of a command that has run: nothing if it succeeded,
/// else the text of its last block, which is empty if it wrote none.
pub open spec fn failure_after(blocks: Seq<Block>, succeeded: bool) -> Option<Seq<char>> {
    if succeeded {
        None
    } else if blocks.len() > 0 {
        Some(blocks.last().text@)
    } else {
        Some(Seq::empty())
    }
}

/// A translation that the model gave: the route to emit, and what to write
/// to the cache.
#[derive(Debug, Clone, PartialEq, Eq)]
pub struct Translation {
    pub route: Route,
    pub write: CacheWrite,
}

/// The state of a router, as texts.
pub struct RouterView {
    /// The provider kind that the router is bound to.
    pub provider: Provider,
    /// Where the provider is reached.
    pub base_url: Seq<char>,
    /// The key that authenticates requests, if any.
    pub api_key: Option<Seq<char>>,
    /// The model that translations use.
    pub model: Seq<char>,
    /// The text of the last failure, if the last command failed.
    pub last_failure: Option<Seq<char>>,
    /// Whether the user has acknowledged the danger of dangerous commands.
    pub i_know: bool,
    /// The history of blocks.
    pub history: Seq<Block>,
}

/// The router of one session.
pub struct CommandRouter {
    cfg: LlmConfig,
    context: ContextEngine,
    last_failure: Option<String>,
    i_know: bool,
}

impl View for CommandRouter {
    type V = RouterView;

    closed spec fn view(&self) -> RouterView {
        RouterView {
            provider: self.cfg.provider,
            base_url: self.cfg.base_url@,
            api_key: opt_text(self.cfg.api_key),
            model: self.cfg.model@,
            last_failure: opt_text(self.last_failure),
            i_know: self.i_know,
            history: self.context@,
        }
    }
}

impl CommandRouter {
    /// A router bound to `cfg`, with nothing failed yet.
    pub fn new(cfg: LlmConfig, context: ContextEngine, i_know: bool) -> (router: CommandRouter)
        ensures
            router@ == (RouterView {
                provider: cfg.provider,
                base_url: cfg.base_url@,
                api_key: opt_text(cfg.api_key),
                model: cfg.model@,
                last_failure: None,
                i_know,
                history: context@,
            }),
    {
        CommandRouter { cfg, context, last_failure: None, i_know }
    }

    /// The model that translations use.
    pub fn model(&self) -> (model: &str)
        ensures
            model@ == self@.model,
    {
        self.cfg.model.as_str()
    }

    /// The text of the last failure, if the last command failed.
    pub fn last_failure(&self) -> (failure: Option<&str>)
        ensures
            match failure {
                Some(f) => self@.last_failure == Some(f@),
                None => self@.last_failure is None,
            },
    {
        match &self.last_failure {
            Some(f) => Some(f.as_str()),
            None => None,
        }
    }

    /// The history of the session.
    pub fn context(&self) -> (context: &ContextEngine)
        ensures
            context@ == self@.history,
    {
        &self.context
    }

    /// The adapter for the provider and the model that the router is bound
    /// to now.
    pub fn adapter(&self) -> (adapter: Adapter)
        ensures
            adapter.kind == self@.provider,
            adapter.base_url@ == self@.base_url,
            opt_text(adapter.api_key) == self@.api_key,
            adapter.model@ == self@.model,
    {
        provider_from_config(&self.cfg)
    }

    /// Takes a line of the user and gives the first step for it. A line
    /// that switches the model binds the router to that model; no other
    /// line changes the router.
    pub fn route(&mut self, line: &str) -> (step: Step)
        ensures
            step@ == first_step(line@),
            final(self)@ == (match first_step(line@) {
                StepView::Done(RouteView::Switch(model)) => RouterView { model, ..old(self)@ },
                _ => old(self)@,
            }),
    {
        let chars = chars_of(line);
        let text = chars.as_slice();
        if has_prefix(text, MODEL_PREFIX) {
            let model = rest_after(text, MODEL_PREFIX);
            self.cfg.model = model.clone();
            Step::Done(Route::Switch(model))
        } else if has_prefix(text, SPAWN_PREFIX) {
            Step::Done(Route::Spawn(rest_after(text, SPAWN_PREFIX)))
        } else if has_prefix(text, PLUGIN_PREFIX) {
            let rest = chars_of(rest_after(text, PLUGIN_PREFIX).as_str());
            let mut end: usize = 0;
            while end < rest.len() && rest[end] != ' '
                invariant
                    end <= rest.len(),
                    token_end(rest@, 0) == token_end(rest@, end as int),
                decreases rest.len() - end,
            {
                end = end + 1;
            }
            let name = string_of(sub_chars(rest.as_slice(), 0, end).as_slice());
            let arg = if end < rest.len() {
                string_of(sub_chars(rest.as_slice(), end + 1, rest.len()).as_slice())
            } else {
                String::new()
            };
            Step::Done(Route::Plugin { name, arg })
        } else if has_prefix(text, EXPLAIN_PREFIX) {
            Step::Ask {
                intent: Intent::Explain,
                text: rest_after(text, EXPLAIN_PREFIX),
                failure: None,
            }
        } else {
            Step::Lookup
        }
    }

    /// The step after the cache was read under `line`. A hit is run as it
    /// is, once the scanner has seen it; on a miss the model is asked to
    /// translate the line, and told of the last failure.
    pub fn cached(&self, line: &str, hit: Option<String>) -> (step: Step)
        ensures
            step@ == (match hit {
                Some(cmd) => StepView::Done(exec_route(cmd@)),
                None => StepView::Ask {
                    intent: Intent::Translate,
                    text: line@,
                    failure: self@.last_failure,
                },
            }),
    {
        match hit {
            Some(cmd) => {
                let safety = safety_scan(cmd.as_str());
                Step::Done(Route::Exec { cmd, safety })
            },
            None => Step::Ask {
                intent: Intent::Translate,
                text: line.to_string(),
                failure: clone_opt(&self.last_failure),
            },
        }
    }

    /// The outcome of a translation: the text of `action` is the command
    /// for `line`. It is written to the cache under the line, and run once
    /// the scanner has seen it.
    pub fn translated(&self, line: &str, action: LlmAction) -> (outcome: Translation)
        ensures
            outcome.route@ == exec_route(action.text()),
            outcome.write.key@ == vstd::utf8::encode_utf8(line@),
            outcome.write.value@ == vstd::utf8::encode_utf8(action.text()),
    {
        let cmd = action.into_text();
        let write = self.context.cache_translation(line, cmd.as_str());
        let safety = safety_scan(cmd.as_str());
        Translation { route: Route::Exec { cmd, safety }, write }
    }

    /// The route for an explanation that the model gave.
    pub fn explained(&self, action: LlmAction) -> (route: Route)
        ensures
            route@ == (RouteView::Explain { text: action.text() }),
    {
        Route::Explain { text: action.into_text() }
    }

    /// Whether the pipeline may run `route`. A dangerous command is
    /// reported and not run, unless the user has acknowledged the danger.
    pub fn permits(&self, route: &Route) -> (allowed: bool)
        ensures
            allowed == may_run(route@, self@.i_know),
    {
        match route {
            Route::Exec { cmd: _, safety } => match safety {
                Safety::Safe => true,
                Safety::Dangerous => self.i_know,
            },
            _ => false,
        }
    }

    /// Records a command that has run: its blocks enter the history in
    /// order, and its failure, if it failed, is kept for the next
    /// translation.
    pub fn record(&mut self, blocks: Vec<Block>, succeeded: bool)
        ensures
            final(self)@ == (RouterView {
                history: pushed_all(old(self)@.history, blocks@),
                last_failure: failure_after(blocks@, succeeded),
                ..old(self)@
            }),
    {
        let failure = if succeeded {
            None
        } else if blocks.len() > 0 {
            Some(blocks[blocks.len() - 1].text.clone())
        } else {
            Some(String::new())
        };
        self.last_failure = failure;
        let ghost all = blocks@;
        for block in it: blocks
            invariant
                it.seq() == all,
                self@ == (RouterView {
                    history: pushed_all(old(self)@.history, all.take(it.index() as int)),
                    last_failure: failure_after(all, succeeded),
                    ..old(self)@
                }),
        {
            proof {
                assert(all.take(it.index() + 1).drop_last() == all.take(it.index() as int));
            }
            self.context.push(block);
        }
        proof {
            assert(all.take(all.len() as int) == all);
        }
    }
}

/// The text of `line` after `prefix`, with which it begins.
fn rest_after(line: &[char], prefix: &str) -> (rest: String)
    requires
        starts_with(line@, prefix@),
    ensures
        rest@ == line@.skip(prefix@.len() as int),
{
    let n = chars_of(prefix).len();
    string_of(sub_chars(line, n, line.len()).as_slice())
}

} // verus!
