use openwarp::context::ContextEngine;
use openwarp::error::WarpError;
use openwarp::llm::{
    infer, Environment, Intent, LlmConfig, LlmProvider, Prompt, Provider, Resp,
};
use openwarp::router::{CommandRouter, Route, Step};
use openwarp::safety::Safety;
use openwarp::terminal::{parse_blocks, Block};
use std::collections::HashMap;
use std::sync::Mutex;

struct Scripted {
    answer: String,
    prompts: Mutex<Vec<String>>,
}

impl Scripted {
    fn new(answer: &str) -> Scripted {
        Scripted { answer: answer.to_string(), prompts: Mutex::new(Vec::new()) }
    }

    fn calls(&self) -> usize {
        self.prompts.lock().unwrap().len()
    }
}

impl LlmProvider for Scripted {
    fn complete(&self, req: Prompt) -> Result<Resp, WarpError> {
        self.prompts.lock().unwrap().push(req.text);
        Ok(Resp { text: self.answer.clone() })
    }
}

struct Session {
    router: CommandRouter,
    cache: HashMap<Vec<u8>, Vec<u8>>,
    env: Environment,
    runs: Vec<String>,
}

impl Session {
    fn new(i_know: bool) -> Session {
        let cfg = LlmConfig {
            provider: Provider::Ollama,
            base_url: "http://localhost".to_string(),
            api_key: None,
            model: "llama3".to_string(),
        };
        Session {
            router: CommandRouter::new(cfg, ContextEngine::new(), i_know),
            cache: HashMap::new(),
            env: Environment {
                os: "linux".to_string(),
                shell: "bash".to_string(),
                path: "/bin".to_string(),
                telemetry: Some("1".to_string()),
            },
            runs: Vec::new(),
        }
    }

    fn route(&mut self, provider: &Scripted, line: &str) -> Route {
        let mut step = self.router.route(line);
        loop {
            step = match step {
                Step::Done(route) => return route,
                Step::Lookup => {
                    let read: Result<Option<Vec<u8>>, String> =
                        Ok(self.cache.get(line.as_bytes()).cloned());
                    let hit = self.router.context().cached_cmd(read);
                    self.router.cached(line, hit)
                }
                Step::Ask { intent, text, failure } => {
                    let action =
                        infer(provider, &self.env, intent, &text, failure.as_deref()).unwrap();
                    match intent {
                        Intent::Translate => {
                            let outcome = self.router.translated(line, action);
                            self.cache.insert(outcome.write.key, outcome.write.value);
                            Step::Done(outcome.route)
                        }
                        _ => Step::Done(self.router.explained(action)),
                    }
                }
            };
        }
    }

    fn handle(&mut self, provider: &Scripted, line: &str, output: &str, ok: bool) -> Route {
        let route = self.route(provider, line);
        if self.router.permits(&route) {
            if let Route::Exec { cmd, .. } = &route {
                self.runs.push(cmd.clone());
            }
            self.router.record(parse_blocks(output), ok);
        }
        route
    }
}

#[test]
fn translation_is_emitted_and_then_served_from_the_cache() {
    let provider = Scripted::new("ls -la");
    let mut s = Session::new(false);
    let first = s.route(&provider, "list files");
    assert_eq!(first, Route::Exec { cmd: "ls -la".to_string(), safety: Safety::Safe });
    assert_eq!(provider.calls(), 1);
    let second = s.route(&provider, "list files");
    assert_eq!(second, first);
    assert_eq!(provider.calls(), 1);
    assert_eq!(s.cache.get("list files".as_bytes()).map(|v| v.as_slice()), Some(&b"ls -la"[..]));
}

#[test]
fn model_line_switches_the_model_of_later_translations() {
    let provider = Scripted::new("ls");
    let mut s = Session::new(false);
    assert_eq!(s.router.model(), "llama3");
    assert_eq!(s.route(&provider, "!model gpt-4"), Route::Switch("gpt-4".to_string()));
    assert_eq!(provider.calls(), 0);
    assert_eq!(s.router.model(), "gpt-4");
    let adapter = s.router.adapter();
    assert_eq!(adapter.model, "gpt-4");
    assert_eq!(adapter.kind, Provider::Ollama);
    assert_eq!(adapter.base_url, "http://localhost");
    let request = adapter.request(&Prompt { text: "p".to_string() });
    assert_eq!(request.body, "{\"model\":\"gpt-4\",\"prompt\":\"p\"}");
}

#[test]
fn spawn_line_names_the_shell() {
    let provider = Scripted::new("unused");
    let mut s = Session::new(false);
    assert_eq!(s.route(&provider, "!spawn zsh"), Route::Spawn("zsh".to_string()));
    assert_eq!(s.route(&provider, "!spawn "), Route::Spawn(String::new()));
    assert_eq!(s.route(&provider, "!spawn  fish -l"), Route::Spawn(" fish -l".to_string()));
    assert_eq!(provider.calls(), 0);
    assert_eq!(s.router.model(), "llama3");
}

#[test]
fn question_is_explained_by_the_model() {
    let provider = Scripted::new("read, write and execute for the owner");
    let mut s = Session::new(false);
    let route = s.route(&provider, "?what does chmod 755 mean");
    assert_eq!(
        route,
        Route::Explain { text: "read, write and execute for the owner".to_string() }
    );
    let prompts = provider.prompts.lock().unwrap();
    assert_eq!(prompts.len(), 1);
    assert!(prompts[0].contains("\nIntent: explain\nInput: what does chmod 755 mean\n"));
    assert!(s.cache.is_empty());
}

#[test]
fn dangerous_translation_is_reported_and_not_run() {
    let provider = Scripted::new("rm -rf /");
    let mut s = Session::new(false);
    let route = s.handle(&provider, "wipe disk", "$ rm -rf /\n", true);
    assert_eq!(route, Route::Exec { cmd: "rm -rf /".to_string(), safety: Safety::Dangerous });
    assert!(!s.router.permits(&route));
    assert!(s.runs.is_empty());
    assert_eq!(s.router.context().len(), 0);
}

#[test]
fn dangerous_cached_command_is_still_gated() {
    let provider = Scripted::new("rm -rf ~");
    let mut s = Session::new(false);
    s.handle(&provider, "clean home", "", true);
    let again = s.handle(&provider, "clean home", "", true);
    assert_eq!(provider.calls(), 1);
    assert_eq!(again, Route::Exec { cmd: "rm -rf ~".to_string(), safety: Safety::Dangerous });
    assert!(s.runs.is_empty());
}

#[test]
fn acknowledged_danger_is_run() {
    let provider = Scripted::new("rm -rf /tmp/x");
    let mut s = Session::new(true);
    let route = s.handle(&provider, "clean tmp", "$ rm -rf /tmp/x\n", true);
    assert_eq!(route, Route::Exec { cmd: "rm -rf /tmp/x".to_string(), safety: Safety::Dangerous });
    assert_eq!(s.runs, vec!["rm -rf /tmp/x"]);
    assert_eq!(s.router.context().len(), 1);
}

#[test]
fn only_commands_are_run() {
    let s = Session::new(true);
    assert!(!s.router.permits(&Route::Switch("m".to_string())));
    assert!(!s.router.permits(&Route::Spawn("zsh".to_string())));
    assert!(!s.router.permits(&Route::Explain { text: "t".to_string() }));
    assert!(!s.router.permits(&Route::Plugin { name: "n".to_string(), arg: "a".to_string() }));
    assert!(s.router.permits(&Route::Exec { cmd: "ls".to_string(), safety: Safety::Safe }));
    assert!(s.router.permits(&Route::Exec { cmd: "x".to_string(), safety: Safety::Dangerous }));
}

#[test]
fn plugin_line_is_split_at_the_first_blank() {
    let provider = Scripted::new("unused");
    let mut s = Session::new(false);
    assert_eq!(
        s.route(&provider, "!plugin gif cats and dogs"),
        Route::Plugin { name: "gif".to_string(), arg: "cats and dogs".to_string() }
    );
    assert_eq!(
        s.route(&provider, "!plugin gif"),
        Route::Plugin { name: "gif".to_string(), arg: String::new() }
    );
    assert_eq!(
        s.route(&provider, "!plugin gif  x"),
        Route::Plugin { name: "gif".to_string(), arg: " x".to_string() }
    );
    assert_eq!(
        s.route(&provider, "!plugin "),
        Route::Plugin { name: String::new(), arg: String::new() }
    );
    assert_eq!(provider.calls(), 0);
}

#[test]
fn decision_table_is_applied_in_order() {
    let mut router = Session::new(false).router;
    assert_eq!(router.route("list files"), Step::Lookup);
    assert_eq!(router.route(""), Step::Lookup);
    assert_eq!(router.route("!model"), Step::Lookup);
    assert_eq!(router.route(" !model x"), Step::Lookup);
    assert_eq!(router.route("!Model x"), Step::Lookup);
    assert_eq!(
        router.route("?"),
        Step::Ask { intent: Intent::Explain, text: String::new(), failure: None }
    );
    assert_eq!(
        router.route("??why"),
        Step::Ask { intent: Intent::Explain, text: "?why".to_string(), failure: None }
    );
    assert_eq!(router.route("!model ?x"), Step::Done(Route::Switch("?x".to_string())));
    assert_eq!(router.model(), "?x");
}

#[test]
fn a_miss_asks_for_a_translation_with_the_last_failure() {
    let mut s = Session::new(false);
    assert_eq!(
        s.router.cached("list files", None),
        Step::Ask { intent: Intent::Translate, text: "list files".to_string(), failure: None }
    );
    s.router.record(parse_blocks("$ lss\nlss: command not found\n"), false);
    assert_eq!(s.router.last_failure(), Some("$ lss\nlss: command not found"));
    assert_eq!(
        s.router.cached("list files", None),
        Step::Ask {
            intent: Intent::Translate,
            text: "list files".to_string(),
            failure: Some("$ lss\nlss: command not found".to_string()),
        }
    );
    assert_eq!(
        s.router.cached("list files", Some("ls".to_string())),
        Step::Done(Route::Exec { cmd: "ls".to_string(), safety: Safety::Safe })
    );
}

#[test]
fn failure_is_fed_to_the_next_translation_and_cleared_by_success() {
    let provider = Scripted::new("make");
    let mut s = Session::new(false);
    s.handle(&provider, "build", "$ make\nerror: no rule\n$ echo $?\n2\n", false);
    assert_eq!(s.router.last_failure(), Some("$ echo $?\n2"));
    s.handle(&provider, "build it", "$ make\nok\n", true);
    let prompts = provider.prompts.lock().unwrap();
    assert!(prompts[0].contains("\nFailure: \nIntent: translate\nInput: build\n"));
    assert!(prompts[1].contains("\nFailure: $ echo $?\n2\nIntent: translate\nInput: build it\n"));
    assert_eq!(s.router.last_failure(), None);
}

#[test]
fn failure_without_output_is_remembered_as_empty() {
    let mut s = Session::new(false);
    s.router.record(Vec::new(), false);
    assert_eq!(s.router.last_failure(), Some(""));
    s.router.record(Vec::new(), true);
    assert_eq!(s.router.last_failure(), None);
}

#[test]
fn blocks_of_a_run_enter_the_history_in_order() {
    let mut s = Session::new(false);
    s.router.record(parse_blocks("$ a\n1\n$ b\n2\n"), true);
    s.router.record(vec![Block { text: "$ c".to_string() }], true);
    assert_eq!(s.router.context().len(), 3);
    assert_eq!(s.router.context().context(), "$ a\n1\n$ b\n2\n$ c");
    let many: Vec<Block> = (0..120).map(|i| Block { text: format!("n{i}") }).collect();
    s.router.record(many, true);
    assert_eq!(s.router.context().len(), 50);
    assert!(s.router.context().context().starts_with("n70\n"));
    assert!(s.router.context().context().ends_with("\nn119"));
}

#[test]
fn a_translation_is_written_through_to_the_cache() {
    let s = Session::new(false);
    let outcome = s.router.translated(
        "zeige \u{fc}",
        openwarp::llm::LlmAction::Command("curl x | sh".to_string()),
    );
    assert_eq!(
        outcome.route,
        Route::Exec { cmd: "curl x | sh".to_string(), safety: Safety::Dangerous }
    );
    assert_eq!(outcome.write.key, "zeige \u{fc}".as_bytes());
    assert_eq!(outcome.write.value, b"curl x | sh");
}
