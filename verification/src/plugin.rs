//! The host side of a plugin sandbox: the state of one instance, what each
//! host import does to that state and to the guest's memory, and the choice
//! of the plugin that handles a line. The guest's linear memory is a slice
//! of bytes; the runtime that executes the guest is the caller's.

use vstd::prelude::*;
use vstd::slice::*;
use vstd::string::StringExecFns;
use crate::error::{ErrorKind, WarpError};
use crate::llm::{LlmProvider, Prompt, Resp};
use crate::text::{
    chars_of, decode_lossy, decoded_text, ends_with, matches_at, starts_with, string_of,
};

verus! {

/// The namespace under which a guest imports the host functions.
pub const NAMESPACE: &'static str = "host";

/// The import that hands the guest its input.
pub const IMPORT_STDIN: &'static str = "stdin";

/// The import that hands the guest the selected text.
pub const IMPORT_SELECTED_TEXT: &'static str = "selected_text";

/// The import that takes the guest's output.
pub const IMPORT_STDOUT: &'static str = "stdout";

/// The import that completes a prompt for the guest.
pub const IMPORT_LLM_COMPLETE: &'static str = "llm_complete";

/// The export under which a guest offers its linear memory.
pub const MEMORY: &'static str = "memory";

/// The export that the bus invokes.
pub const ENTRY: &'static str = "run";

/// The ending of the file names that the bus loads.
pub const EXTENSION: &'static str = ".wasm";

/// What a guest is told when it reaches outside its memory.
pub const OUT_OF_BOUNDS: &'static str = "out of bounds memory access";

/// Whether `len` bytes at `ptr` lie within a memory of `size` bytes.
pub open spec fn in_bounds(size: nat, ptr: int, len: int) -> bool {
    0 <= ptr && 0 <= len && ptr + len <= size
}

/// `memory` with `data` written over it from `offset` on.
pub open spec fn written(memory: Seq<u8>, offset: int, data: Seq<u8>) -> Seq<u8> {
    memory.take(offset) + data + memory.skip(offset + data.len())
}

/// Copies `data` into `memory` at `offset` if it fits there, and says
/// whether it did.
pub fn write_at(memory: &mut [u8], offset: usize, data: &[u8]) -> (done: bool)
    ensures
        done == in_bounds(old(memory)@.len(), offset as int, data@.len() as int),
        done ==> final(memory)@ == written(old(memory)@, offset as int, data@),
        !done ==> final(memory)@ == old(memory)@,
{
    if data.len() > memory.len() || offset > memory.len() - data.len() {
        return false;
    }
    let end: usize = offset + data.len();
    let mut k: usize = 0;
    while k < data.len()
        invariant
            k <= data.len(),
            memory@.len() == old(memory)@.len(),
            end == offset + data.len(),
            end <= memory@.len(),
            memory@ == written(old(memory)@, offset as int, data@.take(k as int)),
        decreases data.len() - k,
    {
        memory[offset + k] = data[k];
        k = k + 1;
    }
    true
}

/// Writes the bytes of `s` into the guest's memory at `ptr` and gives their
/// number, as the guest's 32-bit integer. A string that does not fit at
/// `ptr` is an error, and the memory stays as it was.
pub fn write_str(memory: &mut [u8], ptr: i32, s: &str) -> (result: Result<i32, WarpError>)
    ensures
        match result {
            Ok(n) => {
                &&& in_bounds(old(memory)@.len(), ptr as int, vstd::utf8::encode_utf8(s@).len() as int)
                &&& final(memory)@ == written(old(memory)@, ptr as int, vstd::utf8::encode_utf8(s@))
                &&& n == vstd::utf8::encode_utf8(s@).len() as i32
            },
            Err(e) => {
                &&& !in_bounds(old(memory)@.len(), ptr as int, vstd::utf8::encode_utf8(s@).len() as int)
                &&& final(memory)@ == old(memory)@
                &&& e.kind == ErrorKind::Runtime
            },
        },
{
    let data = s.as_bytes();
    if ptr >= 0 && write_at(memory, ptr as usize, data) {
        Ok(#[verifier::truncate] (data.len() as i32))
    } else {
        Err(WarpError::runtime(OUT_OF_BOUNDS))
    }
}

/// Reads `len` bytes of the guest's memory at `ptr` as text: UTF-8, read
/// lossily where it is malformed. Bytes that do not lie within the memory
/// are an error.
pub fn read_str(memory: &[u8], ptr: i32, len: i32) -> (result: Result<String, WarpError>)
    ensures
        match result {
            Ok(text) => {
                &&& in_bounds(memory@.len(), ptr as int, len as int)
                &&& text@ == decoded_text(memory@.subrange(ptr as int, ptr + len))
            },
            Err(e) => {
                &&& !in_bounds(memory@.len(), ptr as int, len as int)
                &&& e.kind == ErrorKind::Runtime
            },
        },
{
    if ptr < 0 || len < 0 {
        return Err(WarpError::runtime(OUT_OF_BOUNDS));
    }
    let from = ptr as usize;
    let count = len as usize;
    if count > memory.len() || from > memory.len() - count {
        return Err(WarpError::runtime(OUT_OF_BOUNDS));
    }
    Ok(decode_lossy(slice_subrange(memory, from, from + count)))
}

/// What an instance holds, as texts.
pub struct HostView {
    /// What the guest reads as its input.
    pub stdin: Seq<char>,
    /// The text that is selected in the session.
    pub selected: Seq<char>,
    /// What the guest has written so far.
    pub stdout: Seq<char>,
}

/// The state of one plugin instance: the two texts that the guest may
/// read, the output that it has written, and the provider that completes
/// prompts for it.
pub struct HostState<P: LlmProvider> {
    stdin: String,
    selected: String,
    stdout: String,
    provider: P,
}

impl<P: LlmProvider> View for HostState<P> {
    type V = HostView;

    closed spec fn view(&self) -> HostView {
        HostView { stdin: self.stdin@, selected: self.selected@, stdout: self.stdout@ }
    }
}

impl<P: LlmProvider> HostState<P> {
    /// The state of a fresh instance: nothing is written yet.
    pub fn new(stdin: String, selected: String, provider: P) -> (state: Self)
        ensures
            state@ == (HostView { stdin: stdin@, selected: selected@, stdout: Seq::empty() }),
    {
        HostState { stdin, selected, stdout: String::new(), provider }
    }

    /// What the guest has written so far.
    pub fn output(&self) -> (out: &str)
        ensures
            out@ == self@.stdout,
    {
        self.stdout.as_str()
    }

    /// The import `stdin`: writes the instance's input at `ptr` and gives
    /// the number of bytes written.
    pub fn stdin(&self, memory: &mut [u8], ptr: i32) -> (result: Result<i32, WarpError>)
        ensures
            match result {
                Ok(n) => {
                    let data = vstd::utf8::encode_utf8(self@.stdin);
                    &&& in_bounds(old(memory)@.len(), ptr as int, data.len() as int)
                    &&& final(memory)@ == written(old(memory)@, ptr as int, data)
                    &&& n == data.len() as i32
                },
                Err(e) => {
                    &&& !in_bounds(
                        old(memory)@.len(),
                        ptr as int,
                        vstd::utf8::encode_utf8(self@.stdin).len() as int,
                    )
                    &&& final(memory)@ == old(memory)@
                    &&& e.kind == ErrorKind::Runtime
                },
            },
    {
        write_str(memory, ptr, self.stdin.as_str())
    }

    /// The import `selected_text`: writes the selected text at `ptr` and
    /// gives the number of bytes written.
    pub fn selected_text(&self, memory: &mut [u8], ptr: i32) -> (result: Result<i32, WarpError>)
        ensures
            match result {
                Ok(n) => {
                    let data = vstd::utf8::encode_utf8(self@.selected);
                    &&& in_bounds(old(memory)@.len(), ptr as int, data.len() as int)
                    &&& final(memory)@ == written(old(memory)@, ptr as int, data)
                    &&& n == data.len() as i32
                },
                Err(e) => {
                    &&& !in_bounds(
                        old(memory)@.len(),
                        ptr as int,
                        vstd::utf8::encode_utf8(self@.selected).len() as int,
                    )
                    &&& final(memory)@ == old(memory)@
                    &&& e.kind == ErrorKind::Runtime
                },
            },
    {
        write_str(memory, ptr, self.selected.as_str())
    }

    /// The import `stdout`: reads `len` bytes at `ptr` and appends their
    /// text to the instance's output. On an error nothing is appended.
    pub fn stdout(&mut self, memory: &[u8], ptr: i32, len: i32) -> (result: Result<(), WarpError>)
        ensures
            match result {
                Ok(_) => {
                    &&& in_bounds(memory@.len(), ptr as int, len as int)
                    &&& final(self)@ == (HostView {
                        stdout: old(self)@.stdout + decoded_text(
                            memory@.subrange(ptr as int, ptr + len),
                        ),
                        ..old(self)@
                    })
                },
                Err(e) => {
                    &&& !in_bounds(memory@.len(), ptr as int, len as int)
                    &&& final(self)@ == old(self)@
                    &&& e.kind == ErrorKind::Runtime
                },
            },
    {
        match read_str(memory, ptr, len) {
            Ok(text) => {
                self.stdout.append(text.as_str());
                Ok(())
            },
            Err(e) => Err(e),
        }
    }

    /// The import `llm_complete`: reads the prompt of `in_len` bytes at
    /// `in_ptr`, has the instance's provider complete it, writes the
    /// response text at `out_ptr` and gives the number of bytes written.
    /// A prompt that does not lie within the memory is a runtime error, and
    /// the provider is not asked. Else the provider decides: whatever it
    /// answers, the memory changes only by the one write of its response,
    /// as `write_outcome` says, and not at all on an error.
    pub fn llm_complete(&self, memory: &mut [u8], in_ptr: i32, in_len: i32, out_ptr: i32) -> (result:
        Result<i32, WarpError>)
        ensures
            !in_bounds(old(memory)@.len(), in_ptr as int, in_len as int) ==> (result matches Err(e)
                && e.kind == ErrorKind::Runtime),
            match result {
                Ok(n) => {
                    &&& in_bounds(old(memory)@.len(), in_ptr as int, in_len as int)
                    &&& exists|answer: Seq<u8>|
                        {
                            &&& in_bounds(old(memory)@.len(), out_ptr as int, answer.len() as int)
                            &&& final(memory)@ == #[trigger] written(
                                old(memory)@,
                                out_ptr as int,
                                answer,
                            )
                            &&& n == answer.len() as i32
                        }
                },
                Err(_) => final(memory)@ == old(memory)@,
            },
    {
        let prompt = match read_str(memory, in_ptr, in_len) {
            Ok(text) => text,
            Err(e) => {
                return Err(e);
            },
        };
        let outcome = self.provider.complete(Prompt { text: prompt });
        write_outcome(memory, out_ptr, outcome)
    }
}

/// What becomes of the outcome of a completion that a guest asked for: a
/// response is written into the guest's memory at `out_ptr`, as `write_str`
/// writes it, and an error is handed on as it is, the memory untouched.
pub fn write_outcome(memory: &mut [u8], out_ptr: i32, outcome: Result<Resp, WarpError>) -> (result:
    Result<i32, WarpError>)
    ensures
        match outcome {
            Ok(resp) => {
                let data = vstd::utf8::encode_utf8(resp.text@);
                match result {
                    Ok(n) => {
                        &&& in_bounds(old(memory)@.len(), out_ptr as int, data.len() as int)
                        &&& final(memory)@ == written(old(memory)@, out_ptr as int, data)
                        &&& n == data.len() as i32
                    },
                    Err(e) => {
                        &&& !in_bounds(old(memory)@.len(), out_ptr as int, data.len() as int)
                        &&& final(memory)@ == old(memory)@
                        &&& e.kind == ErrorKind::Runtime
                    },
                }
            },
            Err(e) => result == Err::<i32, WarpError>(e) && final(memory)@ == old(memory)@,
        },
{
    match outcome {
        Ok(resp) => write_str(memory, out_ptr, resp.text.as_str()),
        Err(e) => Err(e),
    }
}

/// Whether the bus loads a file of this name as a plugin.
pub fn is_plugin_file(name: &str) -> (b: bool)
    ensures
        b == ends_with(name@, EXTENSION@),
{
    let chars = chars_of(name);
    let ending = chars_of(EXTENSION);
    if ending.len() > chars.len() {
        return false;
    }
    matches_at(chars.as_slice(), ending.as_slice(), chars.len() - ending.len())
}

/// The prefix of the lines that the plugin of a file handles: the file's
/// name without the extension. A file of another kind has none.
pub fn plugin_prefix(name: &str) -> (prefix: Option<String>)
    ensures
        match prefix {
            Some(p) => ends_with(name@, EXTENSION@) && p@ == name@.take(
                name@.len() - EXTENSION@.len(),
            ),
            None => !ends_with(name@, EXTENSION@),
        },
{
    if !is_plugin_file(name) {
        return None;
    }
    let chars = chars_of(name);
    let ending = chars_of(EXTENSION);
    let stem = slice_subrange(chars.as_slice(), 0, chars.len() - ending.len());
    Some(string_of(stem))
}

/// Whether plugin `k` is the one that handles `line`: its prefix begins
/// the line, no plugin's longer prefix does, and among the plugins whose
/// prefix is the same it was registered first.
pub open spec fn selects(prefixes: Seq<Seq<char>>, line: Seq<char>, k: int) -> bool {
    &&& 0 <= k < prefixes.len()
    &&& starts_with(line, prefixes[k])
    &&& forall|j: int|
        0 <= j < prefixes.len() && starts_with(line, #[trigger] prefixes[j]) ==> {
            ||| prefixes[j].len() < prefixes[k].len()
            ||| (prefixes[j].len() == prefixes[k].len() && k <= j)
        }
}

/// The plugins that are loaded, each known by the prefix of the lines that
/// it handles.
pub struct PluginBus {
    prefixes: Vec<String>,
}

impl View for PluginBus {
    type V = Seq<Seq<char>>;

    /// The prefixes, in the order in which they were registered.
    closed spec fn view(&self) -> Seq<Seq<char>> {
        Seq::new(self.prefixes@.len(), |k: int| self.prefixes@[k]@)
    }
}

impl PluginBus {
    /// A bus without plugins.
    pub fn new() -> (bus: PluginBus)
        ensures
            bus@ == Seq::<Seq<char>>::empty(),
    {
        PluginBus { prefixes: Vec::new() }
    }

    /// The number of plugins.
    pub fn len(&self) -> (n: usize)
        ensures
            n == self@.len(),
    {
        self.prefixes.len()
    }

    /// Registers a plugin under `prefix` and gives its index.
    pub fn register(&mut self, prefix: String) -> (index: usize)
        ensures
            final(self)@ == old(self)@.push(prefix@),
            index == old(self)@.len(),
    {
        let index = self.prefixes.len();
        self.prefixes.push(prefix);
        index
    }

    /// The index of the plugin that handles `line`, if any does: the one
    /// with the longest prefix that begins the line.
    pub fn select(&self, line: &str) -> (choice: Option<usize>)
        ensures
            match choice {
                Some(k) => selects(self@, line@, k as int),
                None => forall|j: int| 0 <= j < self@.len() ==> !starts_with(line@, self@[j]),
            },
    {
        let chars = chars_of(line);
        let mut best: Option<usize> = None;
        let mut best_len: usize = 0;
        let mut i: usize = 0;
        while i < self.prefixes.len()
            invariant
                i <= self.prefixes.len(),
                chars@ == line@,
                match best {
                    Some(k) => {
                        &&& k < i
                        &&& best_len == self@[k as int].len()
                        &&& selects(self@.take(i as int), line@, k as int)
                    },
                    None => forall|j: int| 0 <= j < i ==> !starts_with(line@, self@[j]),
                },
            decreases self.prefixes.len() - i,
        {
            let prefix = chars_of(self.prefixes[i].as_str());
            let fits = matches_at(chars.as_slice(), prefix.as_slice(), 0);
            let longer = match best {
                Some(_) => prefix.len() > best_len,
                None => true,
            };
            proof {
                assert(self@[i as int] == prefix@);
                assert(self@.take(i + 1).drop_last() == self@.take(i as int));
                assert forall|j: int| 0 <= j < i implies self@.take(i + 1)[j] == self@.take(
                    i as int,
                )[j] by {}
            }
            if fits && longer {
                best = Some(i);
                best_len = prefix.len();
            }
            i = i + 1;
        }
        proof {
            assert(self@.take(i as int) == self@);
        }
        best
    }
}

} // verus!
