//! Terminal output as blocks: one block for each prompt and what follows it.

use vstd::prelude::*;
use vstd::slice::*;
use crate::ansi::{
    csi_free, csi_len, escapes_are_sequences, is_final, lemma_csi_free_joined,
    lemma_csi_free_prefix, lemma_csi_len_bounds, lemma_csi_len_extend, lemma_csi_len_shift,
    lemma_csi_len_take, lemma_params_end_bounds, lemma_strip_of_sequences_is_free, params_end,
    strip_ansi_chars, strip_csi,
};
use crate::text::{
    chars_of, decode_lossy, decoded_text, join, lemma_texts_push, lemma_trim_end_keeps,
    lemma_trim_end_prefix, lines,
    matches_at, push_chars, split_lines, starts_with, string_of, texts, trim_end, trim_end_len,
};

verus! {

/// A block of terminal output grouped by prompt.
#[derive(Debug, Clone, PartialEq, Eq)]
pub struct Block {
    pub text: String,
}

/// What a line begins with when a prompt stands on it.
pub const MARKER: &'static str = "$ ";

/// Whether a prompt stands at the beginning of `line`.
pub open spec fn is_marker_line(line: Seq<char>) -> bool {
    starts_with(line, MARKER@)
}

/// The lines of `output`, each without its control sequences.
pub open spec fn stripped_lines(output: Seq<char>) -> Seq<Seq<char>> {
    let raw = lines(output);
    Seq::new(raw.len(), |k: int| strip_csi(raw[k]))
}

/// `ls` without the empty lines at its beginning.
pub open spec fn skip_blank(ls: Seq<Seq<char>>) -> Seq<Seq<char>>
    decreases ls.len(),
{
    if ls.len() > 0 && ls[0].len() == 0 {
        skip_blank(ls.skip(1))
    } else {
        ls
    }
}

/// `ls` cut into groups of neighbouring lines, in order: the first line
/// opens a group, and so does every line on which a prompt stands; every
/// other line belongs to the group of the line before it.
pub open spec fn groups(ls: Seq<Seq<char>>) -> Seq<Seq<Seq<char>>>
    decreases ls.len(),
{
    if ls.len() == 0 {
        Seq::empty()
    } else {
        let before = groups(ls.drop_last());
        if before.len() == 0 || is_marker_line(ls.last()) {
            before.push(seq![ls.last()])
        } else {
            before.drop_last().push(before.last().push(ls.last()))
        }
    }
}

/// The text of the block that a group of lines makes: the lines joined by
/// line feeds, without white space at the end.
pub open spec fn block_text(group: Seq<Seq<char>>) -> Seq<char> {
    trim_end(join(group, '\n'))
}

/// The texts of the blocks that lines make, once their control sequences
/// are gone: the groups of those lines, less the empty lines at the very
/// beginning.
pub open spec fn blocks_of_lines(ls: Seq<Seq<char>>) -> Seq<Seq<char>> {
    let g = groups(skip_blank(ls));
    Seq::new(g.len(), |k: int| block_text(g[k]))
}

/// The texts of the blocks of `output`.
pub open spec fn blocks_of(output: Seq<char>) -> Seq<Seq<char>> {
    blocks_of_lines(stripped_lines(output))
}

/// The texts of `blocks`.
pub open spec fn block_texts(blocks: Seq<Block>) -> Seq<Seq<char>> {
    Seq::new(blocks.len(), |k: int| blocks[k].text@)
}

/// The texts of blocks after the block of one more group is pushed.
proof fn lemma_block_texts_push(blocks: Seq<Block>, block: Block, g: Seq<Seq<Seq<char>>>)
    requires
        g.len() > 0,
        block_texts(blocks) == Seq::new((g.len() - 1) as nat, |k: int| block_text(g[k])),
        block.text@ == block_text(g.last()),
    ensures
        block_texts(blocks.push(block)) == Seq::new(g.len(), |k: int| block_text(g[k])),
{
    let pushed = block_texts(blocks.push(block));
    let wanted = Seq::new(g.len(), |k: int| block_text(g[k]));
    assert(block_texts(blocks).len() == blocks.len());
    assert(blocks.len() == g.len() - 1);
    assert forall|k: int| 0 <= k < pushed.len() implies pushed[k] == wanted[k] by {
        if k < blocks.len() {
            assert(pushed[k] == block_texts(blocks)[k]);
        }
    }
    assert(pushed =~= wanted);
}

/// The block whose text is `chars` without white space at the end.
fn block_from(chars: &Vec<char>) -> (block: Block)
    ensures
        block.text@ == trim_end(chars@),
{
    let n = trim_end_len(chars.as_slice());
    Block { text: string_of(slice_subrange(chars.as_slice(), 0, n)) }
}

/// Groups lines that hold no control sequences into blocks.
pub fn group_lines(ls: &Vec<Vec<char>>) -> (blocks: Vec<Block>)
    ensures
        block_texts(blocks@) == blocks_of_lines(texts(ls@)),
{
    let marker = chars_of(MARKER);
    let n = ls.len();
    let ghost all = texts(ls@);
    let mut start: usize = 0;
    proof {
        assert(all.skip(0) == all);
    }
    while start < n && ls[start].len() == 0
        invariant
            start <= n,
            n == ls.len(),
            all == texts(ls@),
            skip_blank(all) == skip_blank(all.skip(start as int)),
        decreases n - start,
    {
        proof {
            assert(all.skip(start as int).skip(1) == all.skip(start + 1));
        }
        start = start + 1;
    }
    let ghost kept = all.skip(start as int);
    proof {
        assert(skip_blank(all) == kept);
        reveal_strlit("$ ");
    }
    let mut blocks: Vec<Block> = Vec::new();
    let mut current: Vec<char> = Vec::new();
    let mut i: usize = start;
    while i < n
        invariant
            start <= i <= n,
            n == ls.len(),
            all == texts(ls@),
            kept == all.skip(start as int),
            marker@ == MARKER@,
            MARKER@.len() == 2,
            start < n ==> all[start as int].len() > 0,
            i == start ==> blocks@.len() == 0 && current@.len() == 0,
            i > start ==> ({
                let g = groups(kept.take(i - start));
                &&& g.len() > 0
                &&& g.last().len() > 0
                &&& block_texts(blocks@) == Seq::new(
                    (g.len() - 1) as nat,
                    |k: int| block_text(g[k]),
                )
                &&& current@ == join(g.last(), '\n')
                &&& current@.len() > 0
            }),
        decreases n - i,
    {
        let line = &ls[i];
        let ghost before = groups(kept.take(i - start));
        let ghost after = groups(kept.take(i + 1 - start));
        proof {
            assert(kept.take(i + 1 - start).drop_last() == kept.take(i - start));
            assert(kept.take(i + 1 - start).last() == line@);
        }
        let opens = matches_at(line.as_slice(), marker.as_slice(), 0);
        if opens && current.len() > 0 {
            let block = block_from(&current);
            proof {
                assert(after == before.push(seq![line@]));
                lemma_block_texts_push(blocks@, block, before);
                assert(Seq::new(before.len(), |k: int| block_text(before[k])) == Seq::new(
                    (after.len() - 1) as nat,
                    |k: int| block_text(after[k]),
                ));
            }
            blocks.push(block);
            current = Vec::new();
        }
        if current.len() > 0 {
            proof {
                assert(after == before.drop_last().push(before.last().push(line@)));
                assert(after.last().drop_last() == before.last());
                assert(Seq::new((before.len() - 1) as nat, |k: int| block_text(before[k]))
                    == Seq::new((after.len() - 1) as nat, |k: int| block_text(after[k])));
            }
            current.push('\n');
        } else {
            proof {
                assert(after.last() == seq![line@]);
                assert(Seq::<char>::empty() + line@ == line@);
            }
        }
        push_chars(&mut current, line.as_slice());
        i = i + 1;
    }
    if current.len() > 0 {
        let block = block_from(&current);
        proof {
            assert(kept.take(n - start) == kept);
            lemma_block_texts_push(blocks@, block, groups(kept));
        }
        blocks.push(block);
    } else {
        proof {
            assert(kept.len() == 0);
            assert(block_texts(blocks@) == blocks_of_lines(all));
        }
    }
    blocks
}

/// Splits raw output into blocks separated by shell prompts (`$ `).
///
/// The output is read line by line, and each line loses its control
/// sequences. A line on which a prompt stands begins a new block; the
/// lines up to the next such line belong to it. Empty lines before the
/// first block are left out, and a block's text ends without white space.
pub fn parse_blocks(output: &str) -> (blocks: Vec<Block>)
    ensures
        block_texts(blocks@) == blocks_of(output@),
{
    let chars = chars_of(output);
    let raw = split_lines(chars.as_slice());
    let mut clean: Vec<Vec<char>> = Vec::new();
    let mut k: usize = 0;
    while k < raw.len()
        invariant
            k <= raw.len(),
            texts(raw@) == lines(output@),
            texts(clean@) == stripped_lines(output@).take(k as int),
        decreases raw.len() - k,
    {
        let line = strip_ansi_chars(raw[k].as_slice());
        proof {
            lemma_texts_push(clean@, line);
            assert(texts(raw@)[k as int] == raw@[k as int]@);
            assert(stripped_lines(output@).take(k as int).push(line@) == stripped_lines(
                output@,
            ).take(k + 1));
        }
        clean.push(line);
        k = k + 1;
    }
    proof {
        assert(texts(raw@).len() == raw@.len());
        assert(stripped_lines(output@).take(k as int) == stripped_lines(output@));
    }
    group_lines(&clean)
}

/// The blocks of what a process wrote: its bytes are decoded as UTF-8,
/// lossily where they are malformed, and the text is split into blocks.
pub fn blocks_from_output(bytes: &[u8]) -> (blocks: Vec<Block>)
    ensures
        block_texts(blocks@) == blocks_of(decoded_text(bytes@)),
{
    let text = decode_lossy(bytes);
    parse_blocks(text.as_str())
}

/// The text of each group, untrimmed: its lines joined by line feeds.
pub open spec fn group_texts(g: Seq<Seq<Seq<char>>>) -> Seq<Seq<char>> {
    Seq::new(g.len(), |k: int| join(g[k], '\n'))
}

/// Lines have a group if and only if there are lines, and no group is
/// empty.
pub proof fn lemma_groups_shape(ls: Seq<Seq<char>>)
    ensures
        (groups(ls).len() == 0) == (ls.len() == 0),
        forall|k: int| 0 <= k < groups(ls).len() ==> (#[trigger] groups(ls)[k]).len() > 0,
    decreases ls.len(),
{
    if ls.len() > 0 {
        lemma_groups_shape(ls.drop_last());
    }
}

/// Grouping keeps every line in its place: the texts of the groups, joined
/// by line feeds, are the lines joined by line feeds.
pub proof fn lemma_groups_keep_lines(ls: Seq<Seq<char>>)
    ensures
        join(group_texts(groups(ls)), '\n') == join(ls, '\n'),
    decreases ls.len(),
{
    if ls.len() > 0 {
        let prev = ls.drop_last();
        let line = ls.last();
        let before = groups(prev);
        let after = groups(ls);
        lemma_groups_keep_lines(prev);
        lemma_groups_shape(prev);
        if before.len() == 0 {
            assert(group_texts(after) == seq![line]);
        } else if is_marker_line(line) {
            assert(group_texts(after).drop_last() == group_texts(before));
        } else {
            let grown = before.last().push(line);
            assert(grown.drop_last() == before.last());
            assert(group_texts(after).drop_last() == group_texts(before).drop_last());
            let done = join(group_texts(before).drop_last(), '\n');
            let open = join(before.last(), '\n');
            if before.len() == 1 {
                assert(group_texts(before) == seq![open]);
            } else {
                assert(done.push('\n') + (open.push('\n') + line) == (done.push('\n')
                    + open).push('\n') + line);
            }
        }
    }
}

/// What is left of lines after the empty ones at their beginning is what
/// stands behind some index.
pub proof fn lemma_skip_blank_suffix(ls: Seq<Seq<char>>) -> (n: int)
    ensures
        0 <= n <= ls.len(),
        skip_blank(ls) == ls.skip(n),
    decreases ls.len(),
{
    if ls.len() > 0 && ls[0].len() == 0 {
        let m = lemma_skip_blank_suffix(ls.skip(1));
        assert(ls.skip(1).skip(m) == ls.skip(m + 1));
        m + 1
    } else {
        assert(ls.skip(0) == ls);
        0
    }
}

/// Lines that are free of control sequences make groups whose texts are.
pub proof fn lemma_groups_free_of_csi(ls: Seq<Seq<char>>)
    requires
        forall|i: int| 0 <= i < ls.len() ==> csi_free(#[trigger] ls[i]),
    ensures
        forall|k: int|
            0 <= k < groups(ls).len() ==> csi_free(#[trigger] join(groups(ls)[k], '\n')),
    decreases ls.len(),
{
    if ls.len() > 0 {
        let prev = ls.drop_last();
        let line = ls.last();
        let before = groups(prev);
        let after = groups(ls);
        assert forall|i: int| 0 <= i < prev.len() implies csi_free(#[trigger] prev[i]) by {
            assert(prev[i] == ls[i]);
        }
        lemma_groups_free_of_csi(prev);
        lemma_groups_shape(prev);
        assert(csi_free(line));
        assert forall|k: int| 0 <= k < after.len() implies csi_free(
            #[trigger] join(after[k], '\n'),
        ) by {
            if before.len() == 0 || is_marker_line(line) {
                if k < before.len() {
                    assert(after[k] == before[k]);
                } else {
                    assert(after[k] == seq![line]);
                }
            } else if k < before.len() - 1 {
                assert(after[k] == before[k]);
            } else {
                let grown = before.last().push(line);
                assert(after[k] == grown);
                assert(grown.drop_last() == before.last());
                assert(csi_free(join(before[before.len() - 1], '\n')));
                lemma_csi_free_joined(join(before.last(), '\n'), line);
            }
        }
    }
}

/// The blocks of an output are its lines, stripped of control sequences
/// and joined again, but for white space at the end of a block and empty
/// lines before the first: there are groups of those lines whose texts,
/// joined by line feeds, are the lines joined by line feeds, and each block
/// is the text of its group without the white space at its end.
pub proof fn lemma_blocks_reproduce_output(output: Seq<char>)
    ensures
        ({
            let kept = skip_blank(stripped_lines(output));
            let g = groups(kept);
            &&& join(group_texts(g), '\n') == join(kept, '\n')
            &&& blocks_of(output).len() == g.len()
            &&& forall|k: int|
                0 <= k < g.len() ==> #[trigger] blocks_of(output)[k] == trim_end(
                    group_texts(g)[k],
                )
        }),
{
    lemma_groups_keep_lines(skip_blank(stripped_lines(output)));
}

/// Where stripping leaves every line free of control sequences, every
/// block's text is free of them.
pub proof fn lemma_blocks_free_of_csi(output: Seq<char>)
    requires
        forall|i: int|
            0 <= i < stripped_lines(output).len() ==> csi_free(#[trigger] stripped_lines(output)[i]),
    ensures
        forall|k: int| 0 <= k < blocks_of(output).len() ==> csi_free(#[trigger] blocks_of(output)[k]),
{
    let all = stripped_lines(output);
    let kept = skip_blank(all);
    let n = lemma_skip_blank_suffix(all);
    assert forall|i: int| 0 <= i < kept.len() implies csi_free(#[trigger] kept[i]) by {
        assert(kept[i] == all[i + n]);
    }
    lemma_groups_free_of_csi(kept);
    let g = groups(kept);
    assert forall|k: int| 0 <= k < blocks_of(output).len() implies csi_free(
        #[trigger] blocks_of(output)[k],
    ) by {
        let whole = join(g[k], '\n');
        assert(csi_free(whole));
        lemma_trim_end_prefix(whole);
        lemma_csi_free_prefix(whole, trim_end(whole).len() as int);
    }
}

/// Where every escape character of the output begins a control sequence,
/// every block's text is free of control sequences.
pub proof fn lemma_blocks_of_sequences_are_free(output: Seq<char>)
    requires
        forall|i: int|
            0 <= i < lines(output).len() ==> escapes_are_sequences(#[trigger] lines(output)[i]),
    ensures
        forall|k: int| 0 <= k < blocks_of(output).len() ==> csi_free(#[trigger] blocks_of(output)[k]),
{
    assert forall|i: int| 0 <= i < stripped_lines(output).len() implies csi_free(
        #[trigger] stripped_lines(output)[i],
    ) by {
        lemma_strip_of_sequences_is_free(lines(output)[i]);
    }
    lemma_blocks_free_of_csi(output);
}

/// Whether every one of `texts` is free of control sequences.
pub open spec fn all_free(texts: Seq<Seq<char>>) -> bool {
    forall|i: int| 0 <= i < texts.len() ==> csi_free(#[trigger] texts[i])
}

/// A control sequence in one of two texts is still there when a line feed
/// joins them.
pub proof fn lemma_joined_holds_csi(a: Seq<char>, b: Seq<char>)
    requires
        !csi_free(a) || !csi_free(b),
    ensures
        !csi_free(a.push('\n') + b),
{
    let joined = a.push('\n') + b;
    if !csi_free(a) {
        let at = choose|at: int| 0 <= at < a.len() && csi_len(a, at) != 0;
        lemma_csi_len_bounds(a, at);
        assert(a + (seq!['\n'] + b) == joined);
        lemma_csi_len_extend(a, seq!['\n'] + b, at);
        assert(csi_len(joined, at) != 0);
    } else {
        let at = choose|at: int| 0 <= at < b.len() && csi_len(b, at) != 0;
        lemma_csi_len_bounds(b, at);
        lemma_csi_len_shift(a.push('\n'), b, at);
        assert(csi_len(joined, a.len() + 1 + at) != 0);
    }
}

/// A control sequence is still there when the white space at the end of
/// the text is gone: it ends with a character that is none.
pub proof fn lemma_trimmed_holds_csi(s: Seq<char>)
    requires
        !csi_free(s),
    ensures
        !csi_free(trim_end(s)),
{
    let at = choose|at: int| 0 <= at < s.len() && csi_len(s, at) != 0;
    lemma_csi_len_bounds(s, at);
    lemma_params_end_bounds(s, at + 2);
    let last = params_end(s, at + 2);
    assert(is_final(s[last]));
    lemma_trim_end_keeps(s, last);
    lemma_trim_end_prefix(s);
    lemma_csi_len_take(s, trim_end(s).len() as int, at);
    assert(csi_len(trim_end(s), at) != 0);
}

/// A control sequence in one of the lines is in the text of one of their
/// groups.
pub proof fn lemma_groups_hold_csi(ls: Seq<Seq<char>>)
    requires
        !all_free(ls),
    ensures
        !all_free(group_texts(groups(ls))),
    decreases ls.len(),
{
    let i = choose|i: int| 0 <= i < ls.len() && !csi_free(#[trigger] ls[i]);
    let prev = ls.drop_last();
    let line = ls.last();
    let before = groups(prev);
    let after = groups(ls);
    let texts = group_texts(after);
    lemma_groups_shape(prev);
    lemma_groups_shape(ls);
    let opens = before.len() == 0 || is_marker_line(line);
    if !opens {
        assert(after.last().drop_last() == before.last());
    }
    if i < prev.len() {
        assert(prev[i] == ls[i]);
        lemma_groups_hold_csi(prev);
        let k = choose|k: int|
            0 <= k < group_texts(before).len() && !csi_free(#[trigger] group_texts(before)[k]);
        if opens || k < before.len() - 1 {
            assert(after[k] == before[k]);
            assert(!csi_free(texts[k]));
        } else {
            lemma_joined_holds_csi(join(before.last(), '\n'), line);
            assert(!csi_free(texts[after.len() - 1]));
        }
    } else {
        if opens {
            assert(after.last() == seq![line]);
        } else {
            lemma_joined_holds_csi(join(before.last(), '\n'), line);
        }
        assert(!csi_free(texts[after.len() - 1]));
    }
}

/// A control sequence in one of the lines is in one that is left when the
/// empty lines at the beginning are gone.
pub proof fn lemma_skip_blank_holds_csi(ls: Seq<Seq<char>>)
    requires
        !all_free(ls),
    ensures
        !all_free(skip_blank(ls)),
    decreases ls.len(),
{
    if ls.len() > 0 && ls[0].len() == 0 {
        let i = choose|i: int| 0 <= i < ls.len() && !csi_free(#[trigger] ls[i]);
        assert(ls.skip(1)[i - 1] == ls[i]);
        lemma_skip_blank_holds_csi(ls.skip(1));
    }
}

/// The blocks of an output are free of control sequences exactly when
/// stripping has left every line free of them.
pub proof fn lemma_blocks_free_iff_lines_free(output: Seq<char>)
    ensures
        all_free(blocks_of(output)) == all_free(stripped_lines(output)),
{
    let all = stripped_lines(output);
    let blocks = blocks_of(output);
    if all_free(all) {
        lemma_blocks_free_of_csi(output);
    } else {
        let kept = skip_blank(all);
        lemma_skip_blank_holds_csi(all);
        lemma_groups_hold_csi(kept);
        let texts = group_texts(groups(kept));
        let k = choose|k: int| 0 <= k < texts.len() && !csi_free(#[trigger] texts[k]);
        lemma_trimmed_holds_csi(texts[k]);
        assert(!csi_free(blocks[k]));
    }
}

} // verus!
