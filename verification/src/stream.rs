//! Where a stream of terminal output stands: between control sequences, or inside
//! one.
use crate::escape::ESC;
use vstd::prelude::*;

verus! {

/// The byte that ends an operating system command.
pub const BEL: u8 = 0x07;

/// Tracks whether the child's output is in the middle of a control sequence. The
/// status bar must not be drawn then: the terminal would garble both.
#[derive(Clone, Copy, Debug, PartialEq, Eq, Structural)]
pub enum SeqState {
    /// Between control sequences.
    Normal,
    /// After `ESC`.
    Esc,
    /// After `ESC [`, before the final byte.
    Csi,
    /// After `ESC ]`, before `BEL` or `ESC \`.
    Osc,
}

impl SeqState {
    /// The state after one more byte.
    pub open spec fn step(self, b: u8) -> SeqState {
        match self {
            SeqState::Normal => if b == ESC {
                SeqState::Esc
            } else {
                SeqState::Normal
            },
            SeqState::Esc => if b == '[' as u8 {
                SeqState::Csi
            } else if b == ']' as u8 {
                SeqState::Osc
            } else if 0x20 <= b <= 0x2f || b == ESC {
                SeqState::Esc
            } else {
                SeqState::Normal
            },
            SeqState::Csi => if 0x20 <= b <= 0x3f {
                SeqState::Csi
            } else if b == ESC {
                SeqState::Esc
            } else {
                SeqState::Normal
            },
            SeqState::Osc => if b == BEL {
                SeqState::Normal
            } else if b == ESC {
                SeqState::Esc
            } else {
                SeqState::Osc
            },
        }
    }

    /// The state after the bytes of `data`.
    pub open spec fn after(self, data: Seq<u8>) -> SeqState
        decreases data.len(),
    {
        if data.len() == 0 {
            self
        } else {
            self.after(data.drop_last()).step(data.last())
        }
    }

    /// Takes in more of the child's output.
    pub fn update(&mut self, data: &[u8])
        ensures
            *final(self) == old(self).after(data@),
    {
        let ghost before = *self;
        let mut i: usize = 0;
        while i < data.len()
            invariant
                i <= data@.len(),
                *self == before.after(data@.take(i as int)),
            decreases data@.len() - i,
        {
            let b: u8 = data[i];
            *self = match *self {
                SeqState::Normal => {
                    if b == ESC {
                        SeqState::Esc
                    } else {
                        SeqState::Normal
                    }
                },
                SeqState::Esc => {
                    if b == '[' as u8 {
                        SeqState::Csi
                    } else if b == ']' as u8 {
                        SeqState::Osc
                    } else if (0x20 <= b && b <= 0x2f) || b == ESC {
                        SeqState::Esc
                    } else {
                        SeqState::Normal
                    }
                },
                SeqState::Csi => {
                    if 0x20 <= b && b <= 0x3f {
                        SeqState::Csi
                    } else if b == ESC {
                        SeqState::Esc
                    } else {
                        SeqState::Normal
                    }
                },
                SeqState::Osc => {
                    if b == BEL {
                        SeqState::Normal
                    } else if b == ESC {
                        SeqState::Esc
                    } else {
                        SeqState::Osc
                    }
                },
            };
            i = i + 1;
            assert(data@.take(i as int).drop_last() =~= data@.take(i - 1));
        }
        assert(data@.take(i as int) =~= data@);
    }
}

/// How the output is cut into chunks makes no difference.
pub proof fn law_chunks_compose(state: SeqState, first: Seq<u8>, second: Seq<u8>)
    ensures
        state.after(first + second) == state.after(first).after(second),
    decreases second.len(),
{
    if second.len() == 0 {
        assert(first + second == first);
    } else {
        law_chunks_compose(state, first, second.drop_last());
        assert((first + second).drop_last() == first + second.drop_last());
    }
}

/// A run of bytes that each leave the state as it is leaves it as it is.
proof fn lemma_stays(state: SeqState, data: Seq<u8>)
    requires
        forall|i: int| 0 <= i < data.len() ==> state.step(#[trigger] data[i]) == state,
    ensures
        state.after(data) == state,
    decreases data.len(),
{
    if data.len() > 0 {
        assert(state.step(data[data.len() - 1]) == state);
        assert forall|i: int| 0 <= i < data.drop_last().len() implies state.step(
            #[trigger] data.drop_last()[i],
        ) == state by {
            assert(data.drop_last()[i] == data[i]);
        }
        lemma_stays(state, data.drop_last());
    }
}

/// Text without an escape byte is never inside of a control sequence.
pub proof fn law_plain_text_stays_normal(text: Seq<u8>)
    requires
        forall|i: int| 0 <= i < text.len() ==> text[i] != ESC,
    ensures
        SeqState::Normal.after(text) == SeqState::Normal,
{
    lemma_stays(SeqState::Normal, text);
}

/// Wherever the stream stands, an `ESC` begins a sequence.
pub proof fn law_escape_always_begins_a_sequence(state: SeqState)
    ensures
        state.after(seq![ESC]) == SeqState::Esc,
        state.after(seq![ESC, '[' as u8]) == SeqState::Csi,
        state.after(seq![ESC, ']' as u8]) == SeqState::Osc,
{
    lemma_two(state, ESC, '[' as u8);
    lemma_two(state, ESC, ']' as u8);
}

/// A control sequence `ESC [` is open until its final byte, and closed by it, wherever
/// the stream stood before. `body` are its parameter and intermediate bytes.
pub proof fn law_csi_is_open_until_its_final_byte(state: SeqState, body: Seq<u8>, last: u8)
    requires
        forall|i: int| 0 <= i < body.len() ==> 0x20 <= #[trigger] body[i] <= 0x3f,
        !(0x20 <= last <= 0x3f),
        last != ESC,
    ensures
        state.after(seq![ESC, '[' as u8] + body) == SeqState::Csi,
        state.after(seq![ESC, '[' as u8] + body + seq![last]) == SeqState::Normal,
{
    law_escape_always_begins_a_sequence(state);
    lemma_stays(SeqState::Csi, body);
    law_chunks_compose(state, seq![ESC, '[' as u8], body);
    law_chunks_compose(state, seq![ESC, '[' as u8] + body, seq![last]);
    lemma_two(SeqState::Csi, last, last);
}

/// An operating system command `ESC ]` is open until `BEL` or `ESC \`, and closed
/// by either, wherever the stream stood before.
pub proof fn law_osc_is_open_until_its_terminator(state: SeqState, body: Seq<u8>)
    requires
        forall|i: int| 0 <= i < body.len() ==> #[trigger] body[i] != BEL && body[i] != ESC,
    ensures
        state.after(seq![ESC, ']' as u8] + body) == SeqState::Osc,
        state.after(seq![ESC, ']' as u8] + body + seq![BEL]) == SeqState::Normal,
        state.after(seq![ESC, ']' as u8] + body + seq![ESC, '\\' as u8]) == SeqState::Normal,
{
    law_escape_always_begins_a_sequence(state);
    lemma_stays(SeqState::Osc, body);
    law_chunks_compose(state, seq![ESC, ']' as u8], body);
    law_chunks_compose(state, seq![ESC, ']' as u8] + body, seq![BEL]);
    law_chunks_compose(state, seq![ESC, ']' as u8] + body, seq![ESC, '\\' as u8]);
    lemma_two(SeqState::Osc, BEL, BEL);
    lemma_two(SeqState::Osc, ESC, '\\' as u8);
}

/// `after` on one and on two bytes.
proof fn lemma_two(state: SeqState, a: u8, b: u8)
    ensures
        state.after(seq![a]) == state.step(a),
        state.after(seq![a, b]) == state.step(a).step(b),
{
    assert(seq![a].drop_last() =~= seq![]);
    assert(seq![a, b].drop_last() =~= seq![a]);
    reveal_with_fuel(SeqState::after, 3);
}

/// An escape sequence is open through its intermediate bytes, and its final byte closes it,
/// wherever the stream stood before. A `[` or `]` makes it a longer one.
pub proof fn law_escape_is_open_until_its_final_byte(state: SeqState, body: Seq<u8>, last: u8)
    requires
        forall|i: int| 0 <= i < body.len() ==> 0x20 <= #[trigger] body[i] <= 0x2f,
        last != 0x1b,
        !(0x20 <= last <= 0x2f),
    ensures
        state.after(seq![0x1bu8] + body) == SeqState::Esc,
        state.after(seq![0x1bu8] + body + seq![last]) == if last == 0x5b {
            SeqState::Csi
        } else if last == 0x5d {
            SeqState::Osc
        } else {
            SeqState::Normal
        },
{
    law_escape_always_begins_a_sequence(state);
    lemma_stays(SeqState::Esc, body);
    law_chunks_compose(state, seq![0x1bu8], body);
    law_chunks_compose(state, seq![0x1bu8] + body, seq![last]);
    lemma_two(SeqState::Esc, last, last);
}

/// An escape sequence of two bytes is over with its second byte: with `ESC c`, `ESC =`,
/// `ESC 7` and the like the stream is between sequences again, and stays so through the text
/// that follows.
pub proof fn law_text_behind_an_escape_sequence(state: SeqState, last: u8, text: Seq<u8>)
    requires
        0x30 <= last,
        last != 0x5b,
        last != 0x5d,
        forall|i: int| 0 <= i < text.len() ==> #[trigger] text[i] != 0x1b,
    ensures
        state.after(seq![0x1bu8, last]) == SeqState::Normal,
        state.after(seq![0x1bu8, last] + text) == SeqState::Normal,
{
    lemma_two(state, 0x1b, last);
    law_escape_is_open_until_its_final_byte(state, seq![], last);
    assert(seq![0x1bu8] + Seq::<u8>::empty() + seq![last] == seq![0x1bu8, last]);
    law_plain_text_stays_normal(text);
    law_chunks_compose(state, seq![0x1bu8, last], text);
}

/// Only an `ESC` takes the stream from between sequences, and only `ESC [` and `ESC ]` take it
/// into the long ones.
pub proof fn law_sequences_are_entered_by_escape(state: SeqState, b: u8)
    ensures
        state.after(seq![b]) == SeqState::Esc <==> b == 0x1b || state == SeqState::Esc && 0x20 <= b
            <= 0x2f,
        state.after(seq![b]) == SeqState::Csi <==> state == SeqState::Esc && b == 0x5b || state
            == SeqState::Csi && 0x20 <= b <= 0x3f,
        state.after(seq![b]) == SeqState::Osc <==> state == SeqState::Esc && b == 0x5d || state
            == SeqState::Osc && b != 0x07 && b != 0x1b,
{
    lemma_two(state, b, b);
}

} // verus!
