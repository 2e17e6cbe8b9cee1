use openwarp::error::{ErrorKind, WarpError};
use openwarp::llm::{LlmProvider, Prompt, Resp};
use openwarp::plugin::{
    is_plugin_file, plugin_prefix, read_str, write_at, write_outcome, write_str, HostState, PluginBus, ENTRY, EXTENSION, MEMORY,
    NAMESPACE, OUT_OF_BOUNDS,
};
use std::sync::Mutex;

struct Echo {
    seen: Mutex<Vec<String>>,
    answer: Option<String>,
}

impl Echo {
    fn answering(answer: &str) -> Echo {
        Echo { seen: Mutex::new(Vec::new()), answer: Some(answer.to_string()) }
    }

    fn failing() -> Echo {
        Echo { seen: Mutex::new(Vec::new()), answer: None }
    }
}

impl LlmProvider for Echo {
    fn complete(&self, req: Prompt) -> Result<Resp, WarpError> {
        self.seen.lock().unwrap().push(req.text);
        match &self.answer {
            Some(text) => Ok(Resp { text: text.clone() }),
            None => Err(WarpError::provider("no answer")),
        }
    }
}

#[test]
fn run_gif_search() {
    let mut inst = HostState::new("cats".into(), "cats".into(), Echo::answering("gif-url"));
    let mut memory = vec![0u8; 64];
    let n = inst.stdin(&mut memory, 0).unwrap();
    assert_eq!(&memory[..n as usize], b"cats");
    let written = inst.llm_complete(&mut memory, 0, n, 16).unwrap();
    assert_eq!(written, 7);
    inst.stdout(&memory, 16, written).unwrap();
    assert_eq!(inst.output(), "gif-url");
}

#[test]
fn names_of_the_host_interface() {
    assert_eq!(NAMESPACE, "host");
    assert_eq!(MEMORY, "memory");
    assert_eq!(ENTRY, "run");
    assert_eq!(EXTENSION, ".wasm");
}

#[test]
fn fresh_instance_has_written_nothing() {
    let inst = HostState::new("in".into(), "sel".into(), Echo::failing());
    assert_eq!(inst.output(), "");
}

#[test]
fn stdin_and_selected_text_are_written_at_the_pointer() {
    let inst = HostState::new("h\u{e9}llo".into(), "sel".into(), Echo::failing());
    let mut memory = vec![0xaau8; 16];
    assert_eq!(inst.stdin(&mut memory, 3).unwrap(), 6);
    assert_eq!(&memory[..3], &[0xaa; 3]);
    assert_eq!(&memory[3..9], "h\u{e9}llo".as_bytes());
    assert_eq!(&memory[9..], &[0xaa; 7]);
    assert_eq!(inst.selected_text(&mut memory, 13).unwrap(), 3);
    assert_eq!(&memory[13..], b"sel");
    assert_eq!(&memory[3..9], "h\u{e9}llo".as_bytes());
}

#[test]
fn writes_outside_the_memory_fail_and_change_nothing() {
    let inst = HostState::new("12345".into(), "".into(), Echo::failing());
    let mut memory = vec![7u8; 8];
    for ptr in [4, 8, 9, i32::MAX, -1, i32::MIN] {
        let err = inst.stdin(&mut memory, ptr).unwrap_err();
        assert_eq!(err.kind, ErrorKind::Runtime, "ptr {}", ptr);
        assert_eq!(err.message, OUT_OF_BOUNDS);
        assert_eq!(memory, vec![7u8; 8]);
    }
    assert_eq!(inst.stdin(&mut memory, 3).unwrap(), 5);
    assert_eq!(inst.selected_text(&mut memory, 8).unwrap(), 0);
    assert!(inst.selected_text(&mut memory, 9).is_err());
}

#[test]
fn stdout_appends_what_the_guest_wrote() {
    let mut inst = HostState::new("".into(), "".into(), Echo::failing());
    let memory = b"hello, world\xff!".to_vec();
    inst.stdout(&memory, 0, 5).unwrap();
    assert_eq!(inst.output(), "hello");
    inst.stdout(&memory, 5, 7).unwrap();
    assert_eq!(inst.output(), "hello, world");
    inst.stdout(&memory, 12, 2).unwrap();
    assert_eq!(inst.output(), "hello, world\u{fffd}!");
    inst.stdout(&memory, 14, 0).unwrap();
    assert_eq!(inst.output(), "hello, world\u{fffd}!");
}

#[test]
fn reads_outside_the_memory_fail_and_append_nothing() {
    let mut inst = HostState::new("".into(), "".into(), Echo::failing());
    let memory = b"abcdef".to_vec();
    inst.stdout(&memory, 0, 2).unwrap();
    for (ptr, len) in [(0, 7), (6, 1), (7, 0), (-1, 2), (0, -1), (i32::MAX, i32::MAX), (3, 4)] {
        let err = inst.stdout(&memory, ptr, len).unwrap_err();
        assert_eq!(err.kind, ErrorKind::Runtime, "ptr {} len {}", ptr, len);
        assert_eq!(inst.output(), "ab");
    }
    assert_eq!(read_str(&memory, 2, 4).unwrap(), "cdef");
    assert_eq!(read_str(&memory, 6, 0).unwrap(), "");
    assert_eq!(read_str(&memory, 2, 5).unwrap_err().message, OUT_OF_BOUNDS);
}

#[test]
fn llm_complete_reads_the_prompt_and_writes_the_response() {
    let inst = HostState::new("".into(), "".into(), Echo::answering("r\u{e9}ponse"));
    let mut memory = b"..what is rust?.................".to_vec();
    let n = inst.llm_complete(&mut memory, 2, 13, 20).unwrap();
    assert_eq!(n, 8);
    assert_eq!(&memory[20..28], "r\u{e9}ponse".as_bytes());
    assert_eq!(&memory[..20], b"..what is rust?.....");
    assert_eq!(&memory[28..], b"....");
}

#[test]
fn llm_complete_fails_without_touching_the_memory() {
    let before = b"prompt..........".to_vec();
    let inst = HostState::new("".into(), "".into(), Echo::failing());
    let mut memory = before.clone();
    let err = inst.llm_complete(&mut memory, 0, 6, 8).unwrap_err();
    assert_eq!(err.kind, ErrorKind::Provider);
    assert_eq!(memory, before);

    let inst = HostState::new("".into(), "".into(), Echo::answering("a long response"));
    let err = inst.llm_complete(&mut memory, 0, 6, 8).unwrap_err();
    assert_eq!(err.kind, ErrorKind::Runtime);
    assert_eq!(memory, before);
    let err = inst.llm_complete(&mut memory, 12, 6, 0).unwrap_err();
    assert_eq!(err.kind, ErrorKind::Runtime);
    assert_eq!(memory, before);
}

#[test]
fn write_at_copies_if_the_data_fits() {
    let mut memory = vec![0u8; 4];
    assert!(write_at(&mut memory, 1, &[1, 2]));
    assert_eq!(memory, vec![0, 1, 2, 0]);
    assert!(write_at(&mut memory, 4, &[]));
    assert!(!write_at(&mut memory, 3, &[9, 9]));
    assert!(!write_at(&mut memory, usize::MAX, &[9]));
    assert_eq!(memory, vec![0, 1, 2, 0]);
    assert_eq!(write_str(&mut memory, 0, "abcd").unwrap(), 4);
    assert_eq!(memory, b"abcd");
}

#[test]
fn plugin_files_end_in_wasm() {
    assert!(is_plugin_file("gif_search.wasm"));
    assert!(is_plugin_file(".wasm"));
    assert!(!is_plugin_file("gif_search.wat"));
    assert!(!is_plugin_file("gif_search.wasm.bak"));
    assert!(!is_plugin_file("wasm"));
    assert!(!is_plugin_file(""));
    assert!(!is_plugin_file("x.WASM"));
}

#[test]
fn the_longest_prefix_wins() {
    let mut bus = PluginBus::new();
    assert_eq!(bus.len(), 0);
    assert_eq!(bus.select("gif cats"), None);
    assert_eq!(bus.register("gif".to_string()), 0);
    assert_eq!(bus.register("gif search".to_string()), 1);
    assert_eq!(bus.register("g".to_string()), 2);
    assert_eq!(bus.register("gif".to_string()), 3);
    assert_eq!(bus.len(), 4);
    assert_eq!(bus.select("gif search cats"), Some(1));
    assert_eq!(bus.select("gif cats"), Some(0));
    assert_eq!(bus.select("go"), Some(2));
    assert_eq!(bus.select("gif"), Some(0));
    assert_eq!(bus.select("Gif"), None);
    assert_eq!(bus.select(""), None);
    assert_eq!(bus.select(" gif"), None);
}

#[test]
fn an_empty_prefix_matches_every_line() {
    let mut bus = PluginBus::new();
    bus.register(String::new());
    bus.register("x".to_string());
    assert_eq!(bus.select("anything"), Some(0));
    assert_eq!(bus.select(""), Some(0));
    assert_eq!(bus.select("xy"), Some(1));
}

#[test]
fn a_plugin_is_known_by_the_name_of_its_file() {
    assert_eq!(plugin_prefix("gif_search.wasm").as_deref(), Some("gif_search"));
    assert_eq!(plugin_prefix(".wasm").as_deref(), Some(""));
    assert_eq!(plugin_prefix("a.wasm.wasm").as_deref(), Some("a.wasm"));
    assert_eq!(plugin_prefix("gr\u{fc}n.wasm").as_deref(), Some("gr\u{fc}n"));
    assert_eq!(plugin_prefix("gif_search.wat"), None);
    assert_eq!(plugin_prefix(""), None);
}

#[test]
fn outcome_of_a_completion_is_written_or_handed_on() {
    let mut memory = vec![b'.'; 8];
    let ok = write_outcome(&mut memory, 2, Ok(Resp { text: "abc".to_string() }));
    assert_eq!(ok, Ok(3));
    assert_eq!(memory, b"..abc...");
    let failed = write_outcome(&mut memory, 2, Err(WarpError::provider("down")));
    assert_eq!(failed, Err(WarpError::provider("down")));
    assert_eq!(memory, b"..abc...");
    let outside = write_outcome(&mut memory, 6, Ok(Resp { text: "abc".to_string() }));
    assert_eq!(outside.unwrap_err().kind, ErrorKind::Runtime);
    assert_eq!(memory, b"..abc...");
}

#[test]
fn a_prompt_outside_the_memory_is_not_completed() {
    let provider = Echo::answering("x");
    let inst = HostState::new("".into(), "".into(), provider);
    let mut memory = vec![0u8; 8];
    for (ptr, len) in [(4, 5), (-1, 1), (0, -1), (9, 0)] {
        let err = inst.llm_complete(&mut memory, ptr, len, 0).unwrap_err();
        assert_eq!(err.kind, ErrorKind::Runtime);
        assert_eq!(memory, vec![0u8; 8]);
    }
}
