//! The synthetic call chain written at the top of a fresh fiber stack.
//!
//! From the top of the buffer (a 16-byte boundary) downward, one machine
//! word each, little-endian:
//!
//! | below top | word                |
//! |-----------|---------------------|
//! | 8         | (alignment pad)     |
//! | 16        | finish step         |
//! | 24        | return thunk        |
//! | 32        | trigger entry       |
//! | 40        | return thunk        |
//! | 48        | finish step         |
//! | 56        | return thunk        |
//! | 64        | body                |
//!
//! A switch that returns onto `top - 64` starts the body; one that returns
//! onto `top - 32` starts the trigger entry. Either way, when the entry
//! returns, execution falls into the finish step.
use vstd::prelude::*;
use crate::{BODY_OFFSET, STACK_BUFFER_SIZE};

verus! {

/// Number of words in the chain.
pub const FRAME_WORDS: usize = 7;

/// Lowest byte offset of the chain in a stack buffer.
pub const FRAME_LOW: usize = STACK_BUFFER_SIZE - BODY_OFFSET;

/// The chain's words from the lowest address up.
pub open spec fn frame_words(body: u64, trigger: u64, finish: u64, ret_thunk: u64) -> Seq<u64> {
    seq![body, ret_thunk, finish, ret_thunk, trigger, ret_thunk, finish]
}

/// Byte `j` (0 = least significant) of the word `w`.
pub open spec fn byte_of(w: u64, j: int) -> u8 {
    ((w >> ((8 * j) as u64)) & 0xff) as u8
}

/// `b` with `words` stored little-endian from `FRAME_LOW` upward; every other
/// byte kept.
pub open spec fn primed_buffer(b: Seq<u8>, words: Seq<u64>) -> Seq<u8> {
    Seq::new(
        b.len(),
        |i: int|
            if FRAME_LOW <= i < FRAME_LOW + 8 * FRAME_WORDS {
                byte_of(words[(i - FRAME_LOW) / 8], (i - FRAME_LOW) % 8)
            } else {
                b[i]
            },
    )
}

/// The word stored little-endian at byte offset `off` of `b`.
pub open spec fn word_at(b: Seq<u8>, off: int) -> Seq<u8> {
    b.subrange(off, off + 8)
}

/// The eight little-endian bytes of `w`.
pub open spec fn le_bytes(w: u64) -> Seq<u8> {
    Seq::new(8, |j: int| byte_of(w, j))
}

fn byte_at(w: u64, j: usize) -> (r: u8)
    requires
        j < 8,
    ensures
        r == byte_of(w, j as int),
{
    ((w >> ((8 * j) as u64)) & 0xff) as u8
}

/// Writes the chain `words` into `buf`, from `FRAME_LOW` upward.
pub fn write_frame(buf: &mut Vec<u8>, words: &Vec<u64>)
    requires
        old(buf)@.len() == STACK_BUFFER_SIZE,
        words@.len() == FRAME_WORDS,
    ensures
        final(buf)@ == primed_buffer(old(buf)@, words@),
{
    let ghost b0 = buf@;
    let mut k: usize = 0;
    while k < 8 * FRAME_WORDS
        invariant
            k <= 8 * FRAME_WORDS,
            words@.len() == FRAME_WORDS,
            buf@.len() == b0.len(),
            b0.len() == STACK_BUFFER_SIZE,
            forall|i: int|
                0 <= i < b0.len() ==> #[trigger] buf@[i] == if FRAME_LOW <= i < FRAME_LOW + k {
                    byte_of(words@[(i - FRAME_LOW) / 8], (i - FRAME_LOW) % 8)
                } else {
                    b0[i]
                },
        decreases 8 * FRAME_WORDS - k,
    {
        let v = byte_at(words[k / 8], k % 8);
        buf.set(FRAME_LOW + k, v);
        k = k + 1;
    }
    assert(buf@ =~= primed_buffer(b0, words@));
}

/// Each word of the chain lies, little-endian, at `FRAME_LOW + 8 * k`.
pub proof fn lemma_frame_word(b: Seq<u8>, words: Seq<u64>, k: int)
    requires
        b.len() == STACK_BUFFER_SIZE,
        words.len() == FRAME_WORDS,
        0 <= k < FRAME_WORDS,
    ensures
        word_at(primed_buffer(b, words), FRAME_LOW + 8 * k) == le_bytes(words[k]),
{
    let p = primed_buffer(b, words);
    assert forall|j: int| 0 <= j < 8 implies #[trigger] word_at(p, FRAME_LOW + 8 * k)[j] == le_bytes(words[k])[j] by {
        let i = FRAME_LOW + 8 * k + j;
        assert((i - FRAME_LOW) / 8 == k) by (nonlinear_arith)
            requires i == FRAME_LOW + 8 * k + j, 0 <= j < 8;
        assert((i - FRAME_LOW) % 8 == j) by (nonlinear_arith)
            requires i == FRAME_LOW + 8 * k + j, 0 <= j < 8;
    }
    assert(word_at(p, FRAME_LOW + 8 * k) =~= le_bytes(words[k]));
}

} // verus!
