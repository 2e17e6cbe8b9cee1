//! Character sequences: the mathematical vocabulary shared by every module,
//! and the executable conversions between `str`, `String` and `Vec<char>`.
//!
//! Contracts throughout the crate speak of a text as a `Seq<char>`, the view
//! of a `str`, a `String` or a `Vec<char>`.

use vstd::prelude::*;
use vstd::slice::*;

verus! {

/// `String::push` appends one character to the string.
pub assume_specification[ String::push ](s: &mut String, c: char)
    ensures
        final(s)@ == old(s)@.push(c),
;

/// The characters of `s`, in order.
pub fn chars_of(s: &str) -> (out: Vec<char>)
    ensures
        out@ == s@,
{
    let mut out: Vec<char> = Vec::new();
    for c in it: s.chars()
        invariant
            it.seq() == s@,
            out@ == s@.take(it.index() as int),
    {
        proof {
            assert(s@.take(it.index() as int).push(c) == s@.take(it.index() + 1));
        }
        out.push(c);
    }
    out
}

/// The string made of the characters of `chars`.
pub fn string_of(chars: &[char]) -> (out: String)
    ensures
        out@ == chars@,
{
    let mut out = String::new();
    let mut i: usize = 0;
    while i < chars.len()
        invariant
            i <= chars.len(),
            out@ == chars@.take(i as int),
        decreases chars.len() - i,
    {
        out.push(chars[i]);
        proof {
            assert(chars@.take(i as int).push(chars@[i as int]) == chars@.take(i + 1));
        }
        i = i + 1;
    }
    out
}

/// The characters of `chars` from index `from` up to, not including, `to`.
pub fn sub_chars(chars: &[char], from: usize, to: usize) -> (out: Vec<char>)
    requires
        from <= to <= chars@.len(),
    ensures
        out@ == chars@.subrange(from as int, to as int),
{
    slice_to_vec(slice_subrange(chars, from, to))
}

/// Appends the characters of `tail` to `buf`.
pub fn push_chars(buf: &mut Vec<char>, tail: &[char])
    ensures
        final(buf)@ == old(buf)@ + tail@,
{
    let mut i: usize = 0;
    while i < tail.len()
        invariant
            i <= tail.len(),
            buf@ == old(buf)@ + tail@.take(i as int),
        decreases tail.len() - i,
    {
        buf.push(tail[i]);
        proof {
            assert(tail@.take(i as int).push(tail@[i as int]) == tail@.take(i + 1));
        }
        i = i + 1;
    }
}

/// Whether `c` has the Unicode property `White_Space`.
pub open spec fn is_white_space(c: char) -> bool {
    ||| ('\u{9}' <= c && c <= '\u{d}')
    ||| c == ' '
    ||| c == '\u{85}'
    ||| c == '\u{a0}'
    ||| c == '\u{1680}'
    ||| ('\u{2000}' <= c && c <= '\u{200a}')
    ||| c == '\u{2028}'
    ||| c == '\u{2029}'
    ||| c == '\u{202f}'
    ||| c == '\u{205f}'
    ||| c == '\u{3000}'
}

/// Decides `is_white_space`.
pub fn is_whitespace(c: char) -> (b: bool)
    ensures
        b == is_white_space(c),
{
    ('\u{9}' <= c && c <= '\u{d}') || c == ' ' || c == '\u{85}' || c == '\u{a0}' || c == '\u{1680}'
        || ('\u{2000}' <= c && c <= '\u{200a}') || c == '\u{2028}' || c == '\u{2029}' || c
        == '\u{202f}' || c == '\u{205f}' || c == '\u{3000}'
}

/// `s` without the white space at its end.
pub open spec fn trim_end(s: Seq<char>) -> Seq<char>
    decreases s.len(),
{
    if s.len() > 0 && is_white_space(s.last()) {
        trim_end(s.drop_last())
    } else {
        s
    }
}

/// What `trim_end` leaves of `s` is a prefix of `s`.
pub proof fn lemma_trim_end_prefix(s: Seq<char>)
    ensures
        trim_end(s).len() <= s.len(),
        trim_end(s) == s.take(trim_end(s).len() as int),
    decreases s.len(),
{
    if s.len() > 0 && is_white_space(s.last()) {
        lemma_trim_end_prefix(s.drop_last());
        assert(s.drop_last().take(trim_end(s).len() as int) == s.take(trim_end(s).len() as int));
    } else {
        assert(s.take(s.len() as int) == s);
    }
}

/// `trim_end` keeps everything up to the last character that is no white
/// space.
pub proof fn lemma_trim_end_keeps(s: Seq<char>, at: int)
    requires
        0 <= at < s.len(),
        !is_white_space(s[at]),
    ensures
        trim_end(s).len() > at,
    decreases s.len(),
{
    if is_white_space(s.last()) {
        lemma_trim_end_keeps(s.drop_last(), at);
    }
}

/// The length of `trim_end` of `chars`.
pub fn trim_end_len(chars: &[char]) -> (n: usize)
    ensures
        n <= chars@.len(),
        chars@.take(n as int) == trim_end(chars@),
{
    let mut n: usize = chars.len();
    proof {
        assert(chars@.take(n as int) == chars@);
    }
    while n > 0 && is_whitespace(chars[n - 1])
        invariant
            n <= chars.len(),
            trim_end(chars@.take(n as int)) == trim_end(chars@),
        decreases n,
    {
        proof {
            assert(chars@.take(n as int).drop_last() == chars@.take(n - 1));
        }
        n = n - 1;
    }
    n
}

/// Whether `needle` stands in `hay` at index `at`.
pub open spec fn occurs_at(hay: Seq<char>, needle: Seq<char>, at: int) -> bool {
    &&& 0 <= at
    &&& at + needle.len() <= hay.len()
    &&& hay.subrange(at, at + needle.len()) == needle
}

/// Whether `hay` begins with `prefix`.
pub open spec fn starts_with(hay: Seq<char>, prefix: Seq<char>) -> bool {
    occurs_at(hay, prefix, 0)
}

/// Whether `hay` ends with `suffix`.
pub open spec fn ends_with(hay: Seq<char>, suffix: Seq<char>) -> bool {
    occurs_at(hay, suffix, hay.len() - suffix.len())
}

/// Whether `needle` stands somewhere in `hay`.
pub open spec fn contains(hay: Seq<char>, needle: Seq<char>) -> bool {
    exists|at: int| occurs_at(hay, needle, at)
}

/// Decides `occurs_at`.
pub fn matches_at(hay: &[char], needle: &[char], at: usize) -> (b: bool)
    ensures
        b == occurs_at(hay@, needle@, at as int),
{
    if needle.len() > hay.len() || at > hay.len() - needle.len() {
        return false;
    }
    let mut k: usize = 0;
    while k < needle.len()
        invariant
            k <= needle.len(),
            at + needle.len() <= hay.len(),
            hay@.subrange(at as int, at + k) == needle@.take(k as int),
        decreases needle.len() - k,
    {
        if hay[at + k] != needle[k] {
            proof {
                let window = hay@.subrange(at as int, at + needle.len());
                assert(window[k as int] != needle@[k as int]);
            }
            return false;
        }
        proof {
            assert(hay@.subrange(at as int, at + k).push(hay@[at + k]) == hay@.subrange(
                at as int,
                at + k + 1,
            ));
            assert(needle@.take(k as int).push(needle@[k as int]) == needle@.take(k + 1));
        }
        k = k + 1;
    }
    proof {
        assert(needle@.take(k as int) == needle@);
    }
    true
}

/// Whether `a` and `b` hold the same text.
pub fn same_text(a: &[char], b: &[char]) -> (same: bool)
    ensures
        same == (a@ == b@),
{
    proof {
        assert(a@.len() == b@.len() ==> a@.subrange(0, b@.len() as int) == a@);
    }
    a.len() == b.len() && matches_at(a, b, 0)
}

/// Whether the strings `a` and `b` hold the same text.
pub fn str_eq(a: &str, b: &str) -> (same: bool)
    ensures
        same == (a@ == b@),
{
    let x = chars_of(a);
    let y = chars_of(b);
    same_text(x.as_slice(), y.as_slice())
}

/// Whether `hay` begins with the text of `prefix`.
pub fn has_prefix(hay: &[char], prefix: &str) -> (b: bool)
    ensures
        b == starts_with(hay@, prefix@),
{
    let p = chars_of(prefix);
    matches_at(hay, p.as_slice(), 0)
}

/// The first index at or after `from` at which `needle` stands in `hay`.
pub fn find_from(hay: &[char], needle: &[char], from: usize) -> (found: Option<usize>)
    ensures
        match found {
            Some(at) => {
                &&& from <= at
                &&& occurs_at(hay@, needle@, at as int)
                &&& forall|j: int| from <= j < at ==> !occurs_at(hay@, needle@, j)
            },
            None => forall|j: int| from <= j ==> !occurs_at(hay@, needle@, j),
        },
{
    if needle.len() > hay.len() {
        return None;
    }
    let last: usize = hay.len() - needle.len();
    let mut at: usize = from;
    while at < last
        invariant
            from <= at,
            last == hay.len() - needle.len(),
            forall|j: int| from <= j < at ==> !occurs_at(hay@, needle@, j),
        decreases last - at,
    {
        if matches_at(hay, needle, at) {
            return Some(at);
        }
        at = at + 1;
    }
    if at == last && matches_at(hay, needle, at) {
        return Some(at);
    }
    None
}

/// The lines of `s`: `s` is cut after each line feed, and a line is what
/// stands before its line feed, without the carriage return that directly
/// precedes that line feed. Text after the last line feed is a line as it
/// stands; if there is none, no empty line is added.
pub open spec fn lines(s: Seq<char>) -> Seq<Seq<char>>
    decreases s.len(),
{
    if s.len() == 0 {
        Seq::empty()
    } else if s[0] == '\n' {
        seq![Seq::empty()] + lines(s.skip(1))
    } else if s[0] == '\r' && s.len() > 1 && s[1] == '\n' {
        lines(s.skip(1))
    } else {
        open_line(seq![s[0]], lines(s.skip(1)))
    }
}

/// `rest` with `head` put before its first line; `head` alone is a line if
/// `rest` has none and `head` is not empty.
pub open spec fn open_line(head: Seq<char>, rest: Seq<Seq<char>>) -> Seq<Seq<char>> {
    if rest.len() > 0 {
        seq![head + rest[0]] + rest.skip(1)
    } else if head.len() > 0 {
        seq![head]
    } else {
        Seq::empty()
    }
}

/// The texts that a vector of character vectors holds.
pub open spec fn texts(items: Seq<Vec<char>>) -> Seq<Seq<char>> {
    Seq::new(items.len(), |k: int| items[k]@)
}

/// The lines of `chars`, as `str::lines` yields them.
pub fn split_lines(chars: &[char]) -> (out: Vec<Vec<char>>)
    ensures
        texts(out@) == lines(chars@),
{
    let mut out: Vec<Vec<char>> = Vec::new();
    let mut line: Vec<char> = Vec::new();
    let mut i: usize = 0;
    proof {
        assert(chars@.skip(0) == chars@);
        assert(texts(out@) == Seq::<Seq<char>>::empty());
        lemma_open_line_nothing(lines(chars@));
    }
    while i < chars.len()
        invariant
            i <= chars.len(),
            lines(chars@) == texts(out@) + open_line(line@, lines(chars@.skip(i as int))),
        decreases chars.len() - i,
    {
        let c = chars[i];
        let ghost rest = chars@.skip(i as int);
        proof {
            assert(rest.skip(1) == chars@.skip(i + 1));
            assert(rest[0] == c);
        }
        if c == '\n' {
            proof {
                let after = lines(rest.skip(1));
                lemma_open_line_nothing(after);
                assert(open_line(line@, lines(rest)) == seq![line@] + open_line(
                    Seq::empty(),
                    after,
                ));
                lemma_texts_push(out@, line);
            }
            out.push(line);
            line = Vec::new();
        } else if c == '\r' && i + 1 < chars.len() && chars[i + 1] == '\n' {
            proof {
                assert(rest[1] == chars@[i + 1]);
            }
        } else {
            proof {
                let after = lines(rest.skip(1));
                assert(rest.len() > 1 ==> rest[1] == chars@[i + 1]);
                assert(open_line(line@, open_line(seq![c], after)) == open_line(
                    line@.push(c),
                    after,
                )) by {
                    if after.len() > 0 {
                        assert(line@ + (seq![c] + after[0]) == line@.push(c) + after[0]);
                        assert((seq![seq![c] + after[0]] + after.skip(1)).skip(1) == after.skip(
                            1,
                        ));
                    } else {
                        assert(line@ + seq![c] == line@.push(c));
                        assert(seq![seq![c]].skip(1) == Seq::<Seq<char>>::empty());
                    }
                }
            }
            line.push(c);
        }
        i = i + 1;
    }
    proof {
        assert(chars@.skip(i as int).len() == 0);
    }
    if line.len() > 0 {
        proof {
            lemma_texts_push(out@, line);
        }
        out.push(line);
    }
    out
}

/// Putting nothing before the first line changes no line.
proof fn lemma_open_line_nothing(rest: Seq<Seq<char>>)
    ensures
        open_line(Seq::empty(), rest) == rest,
{
    if rest.len() > 0 {
        assert(Seq::<char>::empty() + rest[0] == rest[0]);
        assert(seq![rest[0]] + rest.skip(1) == rest);
    }
}

/// Pushing an item pushes its text.
pub proof fn lemma_texts_push(items: Seq<Vec<char>>, item: Vec<char>)
    ensures
        texts(items.push(item)) == texts(items).push(item@),
{
    assert(texts(items.push(item)) =~= texts(items).push(item@));
}

/// The texts of `parts` in order, with `sep` between neighbours.
pub open spec fn join(parts: Seq<Seq<char>>, sep: char) -> Seq<char>
    decreases parts.len(),
{
    if parts.len() == 0 {
        Seq::empty()
    } else if parts.len() == 1 {
        parts[0]
    } else {
        join(parts.drop_last(), sep).push(sep) + parts.last()
    }
}

/// What `String::from_utf8_lossy` makes of bytes that are not UTF-8: their
/// text with U+FFFD in place of each malformed sequence.
pub uninterp spec fn utf8_lossy(bytes: Seq<u8>) -> Seq<char>;

/// The text that `bytes` decode to: the text that they encode where they
/// are UTF-8, and the lossy reading of them where they are not.
pub open spec fn decoded_text(bytes: Seq<u8>) -> Seq<char> {
    if vstd::utf8::valid_utf8(bytes) {
        vstd::utf8::decode_utf8(bytes)
    } else {
        utf8_lossy(bytes)
    }
}

/// `String::from_utf8_lossy`, with the result made an owned string. UTF-8
/// comes back as the text that it encodes; of other bytes the contract
/// names the result.
#[verifier::external_body]
pub(crate) fn decode_lossy(bytes: &[u8]) -> (text: String)
    ensures
        vstd::utf8::valid_utf8(bytes@) ==> text@ == vstd::utf8::decode_utf8(bytes@),
        !vstd::utf8::valid_utf8(bytes@) ==> text@ == utf8_lossy(bytes@),
{
    String::from_utf8_lossy(bytes).into_owned()
}

} // verus!
