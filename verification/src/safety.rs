//! The safety scanner: a classification of a command by its text alone.
//! Nothing of the shell's grammar is parsed.

use vstd::prelude::*;
use crate::text::{
    chars_of, contains, find_from, is_white_space, is_whitespace, matches_at, occurs_at,
};

verus! {

/// What the scanner finds a command to be.
#[derive(Debug, Clone, Copy, PartialEq, Eq, Structural)]
pub enum Safety {
    Safe,
    Dangerous,
}

/// The recursive, forced removal.
pub const REMOVE: &'static str = "rm -rf";

/// The raw copy, with the blank that sets it off from its operands.
pub const COPY: &'static str = "dd ";

/// An output operand that names a device.
pub const DEVICE_TARGET: &'static str = "of=/dev/";

/// The beginning of every command that makes a file system.
pub const MAKE_FS: &'static str = "mkfs";

/// The shell function that calls itself twice, without end.
pub const FORK_BOMB: &'static str = ":(){:|:&};:";

/// The program that fetches what a URL names.
pub const FETCH: &'static str = "curl";

/// The shell, as the program at the receiving end of a pipe.
pub const SHELL: &'static str = "sh";

/// Whether `needle` stands in `hay` at or after index `from`.
pub open spec fn occurs_after(hay: Seq<char>, needle: Seq<char>, from: int) -> bool {
    exists|at: int| from <= at && occurs_at(hay, needle, at)
}

/// Whether an argument that begins with `/` or `~` begins at index `at`
/// of `cmd`, set off by white space before it.
pub open spec fn rooted_arg_at(cmd: Seq<char>, at: int) -> bool {
    &&& 0 < at < cmd.len()
    &&& is_white_space(cmd[at - 1])
    &&& (cmd[at] == '/' || cmd[at] == '~')
}

/// Whether such an argument begins after index `from`.
pub open spec fn rooted_arg_after(cmd: Seq<char>, from: int) -> bool {
    exists|at: int| from < at && rooted_arg_at(cmd, at)
}

/// `rm -rf` with an argument that begins with `/` or `~` somewhere behind it.
pub open spec fn removes_root(cmd: Seq<char>) -> bool {
    exists|at: int|
        occurs_at(cmd, REMOVE@, at) && #[trigger] rooted_arg_after(cmd, at + REMOVE@.len())
}

/// `dd` with an output operand under `/dev/` somewhere behind it.
pub open spec fn writes_device(cmd: Seq<char>) -> bool {
    exists|at: int|
        occurs_at(cmd, COPY@, at) && #[trigger] occurs_after(cmd, DEVICE_TARGET@, at + COPY@.len())
}

/// The first index at or after `from` at which no white space stands: the
/// end of `s` if there is none.
pub open spec fn blanks_end(s: Seq<char>, from: int) -> int
    decreases s.len() - from,
{
    if 0 <= from < s.len() && is_white_space(s[from]) {
        blanks_end(s, from + 1)
    } else {
        from
    }
}

/// Whether a pipe stands at index `at` of `cmd` and feeds the shell: after
/// the pipe and any white space comes the word `sh`, which ends with the
/// command or with white space.
pub open spec fn pipes_to_shell_at(cmd: Seq<char>, at: int) -> bool {
    &&& 0 <= at < cmd.len()
    &&& cmd[at] == '|'
    &&& {
        let word = blanks_end(cmd, at + 1);
        &&& occurs_at(cmd, SHELL@, word)
        &&& (word + SHELL@.len() == cmd.len() || is_white_space(cmd[word + SHELL@.len()]))
    }
}

/// Whether a pipe at or after index `from` feeds the shell.
pub open spec fn pipes_to_shell_after(cmd: Seq<char>, from: int) -> bool {
    exists|at: int| from <= at && pipes_to_shell_at(cmd, at)
}

/// `curl` with a pipe into the shell somewhere behind it.
pub open spec fn fetches_into_shell(cmd: Seq<char>) -> bool {
    exists|at: int|
        occurs_at(cmd, FETCH@, at) && #[trigger] pipes_to_shell_after(cmd, at + FETCH@.len())
}

/// Whether `cmd` matches one of the dangerous patterns.
pub open spec fn is_dangerous(cmd: Seq<char>) -> bool {
    ||| removes_root(cmd)
    ||| writes_device(cmd)
    ||| contains(cmd, MAKE_FS@)
    ||| contains(cmd, FORK_BOMB@)
    ||| fetches_into_shell(cmd)
}

/// The classification of `cmd`.
pub open spec fn scan(cmd: Seq<char>) -> Safety {
    if is_dangerous(cmd) {
        Safety::Dangerous
    } else {
        Safety::Safe
    }
}

/// Decides `rooted_arg_after`.
fn has_rooted_arg_after(cmd: &[char], from: usize) -> (b: bool)
    ensures
        b == rooted_arg_after(cmd@, from as int),
{
    if from >= cmd.len() {
        return false;
    }
    let mut at: usize = from + 1;
    while at < cmd.len()
        invariant
            from < at,
            forall|j: int| from < j < at ==> !rooted_arg_at(cmd@, j),
        decreases cmd.len() - at,
    {
        if is_whitespace(cmd[at - 1]) && (cmd[at] == '/' || cmd[at] == '~') {
            assert(rooted_arg_at(cmd@, at as int));
            return true;
        }
        at = at + 1;
    }
    false
}

/// Decides `pipes_to_shell_at`.
fn pipes_to_shell(cmd: &[char], shell: &[char], at: usize) -> (b: bool)
    requires
        at < cmd@.len(),
        shell@ == SHELL@,
    ensures
        b == pipes_to_shell_at(cmd@, at as int),
{
    if cmd[at] != '|' {
        return false;
    }
    let mut word: usize = at + 1;
    while word < cmd.len() && is_whitespace(cmd[word])
        invariant
            at < word <= cmd.len(),
            blanks_end(cmd@, at + 1) == blanks_end(cmd@, word as int),
        decreases cmd.len() - word,
    {
        word = word + 1;
    }
    if !matches_at(cmd, shell, word) {
        return false;
    }
    let end = word + shell.len();
    end == cmd.len() || is_whitespace(cmd[end])
}

/// Decides `pipes_to_shell_after`.
fn has_pipe_to_shell_after(cmd: &[char], shell: &[char], from: usize) -> (b: bool)
    requires
        shell@ == SHELL@,
    ensures
        b == pipes_to_shell_after(cmd@, from as int),
{
    let mut at: usize = from;
    while at < cmd.len()
        invariant
            from <= at,
            shell@ == SHELL@,
            forall|j: int| from <= j < at ==> !pipes_to_shell_at(cmd@, j),
        decreases cmd.len() - at,
    {
        if pipes_to_shell(cmd, shell, at) {
            return true;
        }
        at = at + 1;
    }
    false
}

/// Classifies a command. It is dangerous if it holds `rm -rf` and, behind
/// it, an argument that begins with `/` or `~`; `dd` and, behind it, an
/// output operand under `/dev/`; `mkfs`; the fork bomb `:(){:|:&};:`; or
/// `curl` and, behind it, a pipe into `sh`. Every other command is safe.
pub fn safety_scan(cmd: &str) -> (safety: Safety)
    ensures
        safety == scan(cmd@),
{
    let chars = chars_of(cmd);
    let text = chars.as_slice();
    let remove = chars_of(REMOVE);
    if let Some(at) = find_from(text, remove.as_slice(), 0) {
        assert(at + remove.len() <= text.len());
        if has_rooted_arg_after(text, at + remove.len()) {
            return Safety::Dangerous;
        }
    }
    assert(!removes_root(cmd@)) by {
        if removes_root(cmd@) {
            let w = choose|w: int|
                occurs_at(cmd@, REMOVE@, w) && #[trigger] rooted_arg_after(
                    cmd@,
                    w + REMOVE@.len(),
                );
            let arg = choose|arg: int| w + REMOVE@.len() < arg && rooted_arg_at(cmd@, arg);
            assert(rooted_arg_at(cmd@, arg));
        }
    }
    let copy = chars_of(COPY);
    let target = chars_of(DEVICE_TARGET);
    if let Some(at) = find_from(text, copy.as_slice(), 0) {
        assert(at + copy.len() <= text.len());
        if let Some(to) = find_from(text, target.as_slice(), at + copy.len()) {
            assert(occurs_after(cmd@, DEVICE_TARGET@, at + COPY@.len())) by {
                assert(occurs_at(cmd@, DEVICE_TARGET@, to as int));
            }
            return Safety::Dangerous;
        }
    }
    assert(!writes_device(cmd@)) by {
        if writes_device(cmd@) {
            let w = choose|w: int|
                occurs_at(cmd@, COPY@, w) && #[trigger] occurs_after(
                    cmd@,
                    DEVICE_TARGET@,
                    w + COPY@.len(),
                );
            let t = choose|t: int| w + COPY@.len() <= t && occurs_at(cmd@, DEVICE_TARGET@, t);
            assert(occurs_at(cmd@, DEVICE_TARGET@, t));
        }
    }
    let make_fs = chars_of(MAKE_FS);
    if find_from(text, make_fs.as_slice(), 0).is_some() {
        return Safety::Dangerous;
    }
    let bomb = chars_of(FORK_BOMB);
    if find_from(text, bomb.as_slice(), 0).is_some() {
        return Safety::Dangerous;
    }
    let fetch = chars_of(FETCH);
    let shell = chars_of(SHELL);
    if let Some(at) = find_from(text, fetch.as_slice(), 0) {
        assert(at + fetch.len() <= text.len());
        if has_pipe_to_shell_after(text, shell.as_slice(), at + fetch.len()) {
            return Safety::Dangerous;
        }
    }
    assert(!fetches_into_shell(cmd@)) by {
        if fetches_into_shell(cmd@) {
            let w = choose|w: int|
                occurs_at(cmd@, FETCH@, w) && #[trigger] pipes_to_shell_after(
                    cmd@,
                    w + FETCH@.len(),
                );
            let p = choose|p: int| w + FETCH@.len() <= p && pipes_to_shell_at(cmd@, p);
            assert(pipes_to_shell_at(cmd@, p));
        }
    }
    Safety::Safe
}

/// The scanner is a function of the command's text: commands of the same
/// text are classified alike.
pub proof fn lemma_scan_is_pure(a: Seq<char>, b: Seq<char>)
    requires
        a == b,
    ensures
        scan(a) == scan(b),
{
}

} // verus!
