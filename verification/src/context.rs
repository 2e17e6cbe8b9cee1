//! The context of a session: the most recent blocks of terminal output,
//! and the form in which translations go to and come from the cache.

use std::collections::VecDeque;
use vstd::prelude::*;
use vstd::string::StringExecFns;
use vstd::string::StrSliceExecFns;
use crate::terminal::{block_texts, Block};
use crate::text::{decode_lossy, decoded_text, join};

verus! {

/// The number of blocks that the history holds at most.
pub const CAPACITY: usize = 50;

/// The history after `block` is pushed: `block` stands at the end, and the
/// oldest block has left if the history was full.
pub open spec fn pushed(history: Seq<Block>, block: Block) -> Seq<Block> {
    if history.len() >= CAPACITY {
        history.skip(1).push(block)
    } else {
        history.push(block)
    }
}

/// The history after each of `blocks` is pushed in turn.
pub open spec fn pushed_all(history: Seq<Block>, blocks: Seq<Block>) -> Seq<Block>
    decreases blocks.len(),
{
    if blocks.len() == 0 {
        history
    } else {
        pushed(pushed_all(history, blocks.drop_last()), blocks.last())
    }
}

/// What is written to the cache for one translation.
#[derive(Debug, Clone, PartialEq, Eq)]
pub struct CacheWrite {
    /// The bytes of the input line.
    pub key: Vec<u8>,
    /// The bytes of the command.
    pub value: Vec<u8>,
}

/// The command that a read of the cache yields: the text of the bytes
/// found, and none where nothing was found or the read failed.
pub open spec fn cached_text<E>(read: Result<Option<Vec<u8>>, E>) -> Option<Seq<char>> {
    match read {
        Ok(Some(bytes)) => Some(decoded_text(bytes@)),
        _ => None,
    }
}

/// The bounded history of a session.
pub struct ContextEngine {
    history: VecDeque<Block>,
}

impl View for ContextEngine {
    type V = Seq<Block>;

    /// The blocks of the history, oldest first.
    closed spec fn view(&self) -> Seq<Block> {
        self.history@
    }
}

impl ContextEngine {
    #[verifier::type_invariant]
    spec fn bounded(self) -> bool {
        self.history@.len() <= CAPACITY
    }

    /// An empty history.
    pub fn new() -> (ctx: ContextEngine)
        ensures
            ctx@ == Seq::<Block>::empty(),
    {
        ContextEngine { history: VecDeque::new() }
    }

    /// The number of blocks in the history.
    pub fn len(&self) -> (n: usize)
        ensures
            n == self@.len(),
            n <= CAPACITY,
    {
        proof {
            use_type_invariant(self);
        }
        self.history.len()
    }

    /// Appends `block`, after evicting the oldest block if the history is
    /// full.
    pub fn push(&mut self, block: Block)
        ensures
            final(self)@ == pushed(old(self)@, block),
            final(self)@.len() <= CAPACITY,
    {
        proof {
            use_type_invariant(&*self);
        }
        // The history is taken out while it changes, so that the bound holds
        // of `self` at every step.
        let mut taken = ContextEngine::new();
        core::mem::swap(self, &mut taken);
        let mut history = taken.history;
        if history.len() == CAPACITY {
            history.pop_front();
        }
        history.push_back(block);
        self.history = history;
    }

    /// The texts of the blocks, oldest first, joined by line feeds.
    pub fn context(&self) -> (out: String)
        ensures
            out@ == join(block_texts(self@), '\n'),
    {
        let mut out = String::new();
        let n = self.history.len();
        let ghost all = block_texts(self@);
        let mut i: usize = 0;
        while i < n
            invariant
                i <= n,
                n == self.history@.len(),
                all == block_texts(self@),
                out@ == join(all.take(i as int), '\n'),
            decreases n - i,
        {
            proof {
                assert(all.take(i + 1).drop_last() == all.take(i as int));
                assert(all.take(i + 1).last() == self.history@[i as int].text@);
                assert(Seq::<char>::empty() + self.history@[i as int].text@
                    == self.history@[i as int].text@);
            }
            if i > 0 {
                out.push('\n');
            }
            out.append(self.history[i].text.as_str());
            i = i + 1;
        }
        proof {
            assert(all.take(n as int) == all);
        }
        out
    }

    /// The cached command that a read of the cache under an input line
    /// yields. Nothing found and a failed read both count as a miss.
    pub fn cached_cmd<E>(&self, read: Result<Option<Vec<u8>>, E>) -> (cmd: Option<String>)
        ensures
            crate::llm::opt_text(cmd) == cached_text(read),
    {
        match read {
            Ok(Some(bytes)) => Some(decode_lossy(bytes.as_slice())),
            _ => None,
        }
    }

    /// What to write to the cache so that `input` translates to `cmd`: the
    /// bytes of the line as the key, the bytes of the command as the value.
    pub fn cache_translation(&self, input: &str, cmd: &str) -> (write: CacheWrite)
        ensures
            write.key@ == vstd::utf8::encode_utf8(input@),
            write.value@ == vstd::utf8::encode_utf8(cmd@),
    {
        CacheWrite { key: input.as_bytes_vec(), value: cmd.as_bytes_vec() }
    }
}

/// After any sequence of pushes the history holds at most `CAPACITY`
/// blocks.
pub proof fn lemma_history_bounded(history: Seq<Block>, blocks: Seq<Block>)
    requires
        history.len() <= CAPACITY,
    ensures
        pushed_all(history, blocks).len() <= CAPACITY,
    decreases blocks.len(),
{
    if blocks.len() > 0 {
        lemma_history_bounded(history, blocks.drop_last());
    }
}

/// A history that began empty holds the blocks that were pushed last, in
/// the order in which they were pushed: all of them while they are no more
/// than `CAPACITY`, and the last `CAPACITY` of them after that.
pub proof fn lemma_history_is_latest(blocks: Seq<Block>)
    ensures
        pushed_all(Seq::empty(), blocks) == if blocks.len() <= CAPACITY {
            blocks
        } else {
            blocks.skip(blocks.len() - CAPACITY)
        },
    decreases blocks.len(),
{
    if blocks.len() > 0 {
        let prev = blocks.drop_last();
        lemma_history_is_latest(prev);
        if prev.len() < CAPACITY {
            assert(prev.push(blocks.last()) == blocks);
        } else if prev.len() == CAPACITY {
            assert(prev.skip(1).push(blocks.last()) == blocks.skip(blocks.len() - CAPACITY));
        } else {
            assert(prev.skip(prev.len() - CAPACITY).skip(1).push(blocks.last()) == blocks.skip(
                blocks.len() - CAPACITY,
            ));
        }
    }
}

/// What is written to the cache for a command reads back as that command,
/// as long as the store hands back the bytes that it was given.
pub proof fn lemma_cache_round_trip(cmd: Seq<char>, stored: Vec<u8>)
    requires
        stored@ == vstd::utf8::encode_utf8(cmd),
    ensures
        cached_text::<()>(Ok(Some(stored))) == Some(cmd),
{
    vstd::utf8::encode_utf8_valid_utf8(cmd);
    vstd::utf8::encode_utf8_decode_utf8(cmd);
}

} // verus!
