//! ANSI control sequences of the form `ESC [ params final`, where `params`
//! is a run of digits and semicolons and `final` is one of `m`, `K`, `J`.

use vstd::prelude::*;
use crate::text::{chars_of, string_of};

verus! {

/// The escape character that opens a control sequence.
pub const ESC: char = '\u{1b}';

/// Whether `c` may stand among the parameters of a control sequence.
pub open spec fn is_param(c: char) -> bool {
    ('0' <= c && c <= '9') || c == ';'
}

/// Whether `c` may close a control sequence.
pub open spec fn is_final(c: char) -> bool {
    c == 'm' || c == 'K' || c == 'J'
}

/// The first index at or after `from` at which no parameter character
/// stands: the end of `s` if there is none.
pub open spec fn params_end(s: Seq<char>, from: int) -> int
    decreases s.len() - from,
{
    if 0 <= from < s.len() && is_param(s[from]) {
        params_end(s, from + 1)
    } else {
        from
    }
}

/// The length of the control sequence that begins at index `at` of `s`, or
/// 0 if none begins there.
pub open spec fn csi_len(s: Seq<char>, at: int) -> int {
    if 0 <= at && at + 1 < s.len() && s[at] == ESC && s[at + 1] == '[' {
        let end = params_end(s, at + 2);
        if end < s.len() && is_final(s[end]) {
            end + 1 - at
        } else {
            0
        }
    } else {
        0
    }
}

/// `s` from index `from` on without its control sequences, found from left
/// to right: where one begins it is left out whole, and the search goes on
/// behind it.
pub open spec fn strip_from(s: Seq<char>, from: int) -> Seq<char>
    decreases s.len() - from,
{
    if from < 0 || from >= s.len() {
        Seq::empty()
    } else if csi_len(s, from) > 0 {
        strip_from(s, from + csi_len(s, from))
    } else {
        seq![s[from]] + strip_from(s, from + 1)
    }
}

/// `s` without its control sequences.
pub open spec fn strip_csi(s: Seq<char>) -> Seq<char> {
    strip_from(s, 0)
}

/// Whether no control sequence begins anywhere in `s`.
pub open spec fn csi_free(s: Seq<char>) -> bool {
    forall|at: int| 0 <= at < s.len() ==> csi_len(s, at) == 0
}

/// Decides `is_param`.
pub fn is_param_char(c: char) -> (b: bool)
    ensures
        b == is_param(c),
{
    ('0' <= c && c <= '9') || c == ';'
}

/// Decides `is_final`.
pub fn is_final_char(c: char) -> (b: bool)
    ensures
        b == is_final(c),
{
    c == 'm' || c == 'K' || c == 'J'
}

/// The length of the control sequence that begins at `at`, or 0.
pub fn sequence_len(chars: &[char], at: usize) -> (n: usize)
    requires
        at < chars@.len(),
    ensures
        n == csi_len(chars@, at as int),
        at + n <= chars@.len(),
{
    let len = chars.len();
    if len - at < 2 || chars[at] != ESC || chars[at + 1] != '[' {
        return 0;
    }
    let mut end: usize = at + 2;
    while end < len && is_param_char(chars[end])
        invariant
            at + 2 <= end <= len,
            len == chars@.len(),
            params_end(chars@, at + 2) == params_end(chars@, end as int),
        decreases len - end,
    {
        end = end + 1;
    }
    if end < len && is_final_char(chars[end]) {
        end + 1 - at
    } else {
        0
    }
}

/// `chars` without its control sequences.
pub fn strip_ansi_chars(chars: &[char]) -> (out: Vec<char>)
    ensures
        out@ == strip_csi(chars@),
{
    let mut out: Vec<char> = Vec::new();
    let mut i: usize = 0;
    while i < chars.len()
        invariant
            i <= chars.len(),
            strip_csi(chars@) == out@ + strip_from(chars@, i as int),
        decreases chars.len() - i,
    {
        let n = sequence_len(chars, i);
        if n > 0 {
            i = i + n;
        } else {
            proof {
                let rest = strip_from(chars@, i + 1);
                assert(out@ + (seq![chars@[i as int]] + rest) == out@.push(chars@[i as int])
                    + rest);
            }
            out.push(chars[i]);
            i = i + 1;
        }
    }
    out
}

/// Strips the control sequences from a line.
pub fn strip_ansi(input: &str) -> (out: String)
    ensures
        out@ == strip_csi(input@),
{
    let chars = chars_of(input);
    let clean = strip_ansi_chars(chars.as_slice());
    string_of(clean.as_slice())
}

/// Parameters end at or after the index at which they begin, within `s`.
pub proof fn lemma_params_end_bounds(s: Seq<char>, from: int)
    requires
        0 <= from <= s.len(),
    ensures
        from <= params_end(s, from) <= s.len(),
    decreases s.len() - from,
{
    if from < s.len() && is_param(s[from]) {
        lemma_params_end_bounds(s, from + 1);
    }
}

/// A control sequence has at least three characters and ends within `s`.
pub proof fn lemma_csi_len_bounds(s: Seq<char>, at: int)
    ensures
        csi_len(s, at) == 0 || (3 <= csi_len(s, at) && 0 <= at && at + csi_len(s, at) <= s.len()),
{
    if 0 <= at && at + 1 < s.len() {
        lemma_params_end_bounds(s, at + 2);
    }
}

/// The parameters that begin at `from` end in a prefix of `s` no later
/// than in `s`, and at the same index if they end inside the prefix.
pub proof fn lemma_params_end_prefix(s: Seq<char>, n: int, from: int)
    requires
        0 <= from <= n <= s.len(),
    ensures
        from <= params_end(s.take(n), from) <= n,
        params_end(s.take(n), from) <= params_end(s, from),
        params_end(s.take(n), from) < n ==> params_end(s, from) == params_end(s.take(n), from),
    decreases n - from,
{
    lemma_params_end_bounds(s, from);
    if from < n && is_param(s[from]) {
        assert(s.take(n)[from] == s[from]);
        lemma_params_end_prefix(s, n, from + 1);
    }
}

/// The parameters that begin in the second of two joined texts end where
/// they end in that text alone.
pub proof fn lemma_params_end_shift(head: Seq<char>, tail: Seq<char>, from: int)
    requires
        0 <= from <= tail.len(),
    ensures
        params_end(head + tail, head.len() + from) == head.len() + params_end(tail, from),
    decreases tail.len() - from,
{
    if from < tail.len() {
        assert((head + tail)[head.len() + from] == tail[from]);
        if is_param(tail[from]) {
            lemma_params_end_shift(head, tail, from + 1);
        }
    }
}

/// A control sequence of a prefix of `s` is a control sequence of `s`.
pub proof fn lemma_csi_len_prefix(s: Seq<char>, n: int, at: int)
    requires
        0 <= n <= s.len(),
        csi_len(s.take(n), at) > 0,
    ensures
        csi_len(s, at) == csi_len(s.take(n), at),
{
    let p = s.take(n);
    assert(p[at] == s[at] && p[at + 1] == s[at + 1]);
    lemma_params_end_prefix(s, n, at + 2);
    let end = params_end(p, at + 2);
    assert(p[end] == s[end]);
}

/// A text that is free of control sequences has only prefixes that are.
pub proof fn lemma_csi_free_prefix(s: Seq<char>, n: int)
    requires
        0 <= n <= s.len(),
        csi_free(s),
    ensures
        csi_free(s.take(n)),
{
    assert forall|at: int| 0 <= at < s.take(n).len() implies csi_len(s.take(n), at) == 0 by {
        lemma_csi_len_bounds(s.take(n), at);
        if csi_len(s.take(n), at) > 0 {
            lemma_csi_len_prefix(s, n, at);
        }
    }
}

/// Two texts that are free of control sequences stay so when a line feed
/// joins them: no control sequence holds a line feed.
pub proof fn lemma_csi_free_joined(a: Seq<char>, b: Seq<char>)
    requires
        csi_free(a),
        csi_free(b),
    ensures
        csi_free(a.push('\n') + b),
{
    let head = a.push('\n');
    let c = head + b;
    assert forall|at: int| 0 <= at < c.len() implies csi_len(c, at) == 0 by {
        lemma_csi_len_bounds(c, at);
        if csi_len(c, at) > 0 {
            let end = params_end(c, at + 2);
            if at < a.len() {
                assert(c[a.len() as int] == '\n');
                assert(c.take(a.len() as int) == a);
                assert(at + 1 < a.len());
                lemma_params_end_prefix(c, a.len() as int, at + 2);
                lemma_params_end_stops(c, at + 2, a.len() as int);
                assert(end < a.len());
                assert(a[at] == c[at] && a[at + 1] == c[at + 1] && a[end] == c[end]);
                assert(csi_len(a, at) > 0);
            } else {
                assert(c[a.len() as int] == '\n');
                assert(at > a.len());
                let off = head.len() as int;
                let k = at - off;
                assert(c[at] == b[k] && c[at + 1] == b[k + 1]);
                lemma_params_end_shift(head, b, k + 2);
                assert(c[end] == b[end - off]);
                assert(csi_len(b, k) > 0);
            }
        }
    }
}

/// Parameters end at the latest where a character stands that is none.
pub proof fn lemma_params_end_stops(s: Seq<char>, from: int, stop: int)
    requires
        0 <= from <= stop < s.len(),
        !is_param(s[stop]),
    ensures
        params_end(s, from) <= stop,
    decreases stop - from,
{
    if from < stop && is_param(s[from]) {
        lemma_params_end_stops(s, from + 1, stop);
    }
}

/// Whether every escape character of `s` begins a control sequence.
pub open spec fn escapes_are_sequences(s: Seq<char>) -> bool {
    forall|at: int| 0 <= at < s.len() && s[at] == ESC ==> csi_len(s, at) > 0
}

/// Where every escape character begins a control sequence, stripping from
/// any index on leaves no escape character.
pub proof fn lemma_strip_from_leaves_no_escape(s: Seq<char>, from: int)
    requires
        escapes_are_sequences(s),
    ensures
        forall|k: int| 0 <= k < strip_from(s, from).len() ==> strip_from(s, from)[k] != ESC,
    decreases s.len() - from,
{
    if 0 <= from < s.len() {
        lemma_csi_len_bounds(s, from);
        if csi_len(s, from) > 0 {
            lemma_strip_from_leaves_no_escape(s, from + csi_len(s, from));
            assert(strip_from(s, from) == strip_from(s, from + csi_len(s, from)));
        } else {
            lemma_strip_from_leaves_no_escape(s, from + 1);
            let rest = strip_from(s, from + 1);
            let out = strip_from(s, from);
            assert(out == seq![s[from]] + rest);
            assert(s[from] != ESC) by {
                if s[from] == ESC {
                    assert(csi_len(s, from) > 0);
                }
            }
            assert forall|k: int| 0 <= k < out.len() implies out[k] != ESC by {
                if k > 0 {
                    assert(out[k] == rest[k - 1]);
                }
            }
        }
    } else {
        assert(strip_from(s, from).len() == 0);
    }
}

/// Where every escape character begins a control sequence, what stripping
/// leaves is free of control sequences.
pub proof fn lemma_strip_of_sequences_is_free(s: Seq<char>)
    requires
        escapes_are_sequences(s),
    ensures
        csi_free(strip_csi(s)),
{
    lemma_strip_from_leaves_no_escape(s, 0);
}

/// A control sequence of `s` is a control sequence of `s` with more text
/// behind it.
pub proof fn lemma_csi_len_extend(s: Seq<char>, tail: Seq<char>, at: int)
    requires
        csi_len(s, at) > 0,
    ensures
        csi_len(s + tail, at) == csi_len(s, at),
{
    let whole = s + tail;
    assert(whole.take(s.len() as int) == s);
    lemma_csi_len_prefix(whole, s.len() as int, at);
}

/// A control sequence of `s` is a control sequence of `s` with more text
/// before it, as much further on as that text is long.
pub proof fn lemma_csi_len_shift(head: Seq<char>, s: Seq<char>, at: int)
    requires
        csi_len(s, at) > 0,
    ensures
        csi_len(head + s, head.len() + at) == csi_len(s, at),
{
    let whole = head + s;
    lemma_params_end_bounds(s, at + 2);
    lemma_params_end_shift(head, s, at + 2);
    let end = params_end(s, at + 2);
    assert(whole[head.len() + at] == s[at]);
    assert(whole[head.len() + at + 1] == s[at + 1]);
    assert(whole[head.len() + end] == s[end]);
}

/// A control sequence of `s` is a control sequence of every prefix of `s`
/// in which it ends.
pub proof fn lemma_csi_len_take(s: Seq<char>, n: int, at: int)
    requires
        csi_len(s, at) > 0,
        at + csi_len(s, at) <= n <= s.len(),
    ensures
        csi_len(s.take(n), at) == csi_len(s, at),
{
    let p = s.take(n);
    lemma_params_end_bounds(s, at + 2);
    lemma_params_end_prefix(s, n, at + 2);
    let end = params_end(s, at + 2);
    assert(p[at] == s[at] && p[at + 1] == s[at + 1] && p[end] == s[end]);
}

} // verus!
