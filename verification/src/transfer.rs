//! Writing a whole buffer to a descriptor that may take it in pieces.
use vstd::prelude::*;

verus! {

/// How far a buffer has been written.
pub struct TransferView {
    /// The length of the buffer.
    pub len: nat,
    /// How much of it was written.
    pub written: nat,
    /// Whether a write failed.
    pub failed: bool,
}

impl TransferView {
    /// Whether there is more to write.
    pub open spec fn pending(self) -> bool {
        !self.failed && self.written < self.len
    }

    /// After a write of the bytes that were left returned `n`: that many bytes
    /// were written, and if none, the write failed.
    pub open spec fn wrote(self, n: int) -> TransferView {
        if n <= 0 {
            TransferView { failed: true, ..self }
        } else if n >= self.len - self.written {
            TransferView { written: self.len, ..self }
        } else {
            TransferView { written: (self.written + n) as nat, ..self }
        }
    }

    /// After a series of writes that returned `results`.
    pub open spec fn after(self, results: Seq<int>) -> TransferView
        decreases results.len(),
    {
        if results.len() == 0 {
            self
        } else {
            self.wrote(results[0]).after(results.skip(1))
        }
    }
}

/// A buffer on its way to a descriptor. Nothing here allocates.
pub struct Transfer {
    len: usize,
    written: usize,
    failed: bool,
}

impl View for Transfer {
    type V = TransferView;

    closed spec fn view(&self) -> TransferView {
        TransferView { len: self.len as nat, written: self.written as nat, failed: self.failed }
    }
}

impl Transfer {
    #[verifier::type_invariant]
    spec fn within_buffer(self) -> bool {
        self.written <= self.len
    }

    /// The transfer of a buffer of `len` bytes, of which nothing was written yet.
    pub fn new(len: usize) -> (r: Self)
        ensures
            r@ == (TransferView { len: len as nat, written: 0, failed: false }),
    {
        Transfer { len, written: 0, failed: false }
    }

    /// Where the next write begins, if there is more to write.
    pub fn pending(&self) -> (r: Option<usize>)
        ensures
            r == (if self@.pending() {
                Some(self@.written as usize)
            } else {
                None
            }),
            r matches Some(off) ==> off == self@.written && off < self@.len,
    {
        if !self.failed && self.written < self.len {
            Some(self.written)
        } else {
            None
        }
    }

    /// Takes in what a write of the bytes that were left returned. A write that
    /// writes nothing, or fails, ends the transfer.
    pub fn write_all_raw(&mut self, n: isize)
        ensures
            final(self)@ == old(self)@.wrote(n as int),
    {
        proof {
            use_type_invariant(&*self);
        }
        if n <= 0 {
            self.failed = true;
        } else if n as usize >= self.len - self.written {
            self.written = self.len;
        } else {
            self.written = self.written + n as usize;
        }
    }
}

/// The bytes of `data` that a series of writes put on the descriptor, each write
/// being of all that was left.
pub open spec fn put_out(data: Seq<u8>, t: TransferView, results: Seq<int>) -> Seq<u8>
    decreases results.len(),
{
    if results.len() == 0 {
        seq![]
    } else {
        let next = t.wrote(results[0]);
        data.subrange(t.written as int, next.written as int) + put_out(data, next, results.skip(1))
    }
}

/// What is written is the buffer from its start, with nothing left out, repeated or
/// out of order, however the writes divide it.
pub proof fn law_buffer_is_written_in_order(data: Seq<u8>, t: TransferView, results: Seq<int>)
    requires
        t.len == data.len(),
        t.written <= t.len,
    ensures
        t.written <= t.after(results).written <= t.len,
        put_out(data, t, results) == data.subrange(
            t.written as int,
            t.after(results).written as int,
        ),
    decreases results.len(),
{
    if results.len() > 0 {
        law_buffer_is_written_in_order(data, t.wrote(results[0]), results.skip(1));
    }
}

/// A transfer that ends without a failed write has written the whole buffer.
pub proof fn law_nothing_is_lost_without_failure(data: Seq<u8>, results: Seq<int>)
    ensures
        ({
            let t = TransferView { len: data.len(), written: 0, failed: false };
            !t.after(results).pending() && !t.after(results).failed ==> put_out(data, t, results)
                == data
        }),
{
    let t = TransferView { len: data.len(), written: 0, failed: false };
    law_buffer_is_written_in_order(data, t, results);
    lemma_length_is_kept(t, results);
}

proof fn lemma_length_is_kept(t: TransferView, results: Seq<int>)
    ensures
        t.after(results).len == t.len,
    decreases results.len(),
{
    if results.len() > 0 {
        lemma_length_is_kept(t.wrote(results[0]), results.skip(1));
    }
}

/// Each write moves the transfer on by exactly what it returned. One that wrote nothing ends
/// it, with what was written before.
pub proof fn law_each_write_counts(t: TransferView, n: int)
    requires
        t.written <= t.len,
        n <= t.len - t.written,
    ensures
        t.wrote(n).len == t.len,
        t.wrote(n).written == t.written + (if n > 0 {
            n
        } else {
            0
        }),
        t.wrote(n).failed <==> t.failed || n <= 0,
{
}

/// The sum of what a series of writes returned.
pub open spec fn total(results: Seq<int>) -> int
    decreases results.len(),
{
    if results.len() == 0 {
        0
    } else {
        results[0] + total(results.skip(1))
    }
}

/// While every write writes something, what was written is the sum of what the writes
/// returned, and there is more to write exactly until that is the whole buffer.
pub proof fn law_written_is_the_sum(len: nat, written: nat, results: Seq<int>)
    requires
        forall|i: int| 0 <= i < results.len() ==> #[trigger] results[i] > 0,
        written + total(results) <= len,
    ensures
        ({
            let t = (TransferView { len, written, failed: false }).after(results);
            &&& t.written == written + total(results)
            &&& t.pending() <==> written + total(results) < len
        }),
        total(results) >= 0,
    decreases results.len(),
{
    if results.len() > 0 {
        let rest = results.skip(1);
        assert forall|i: int| 0 <= i < rest.len() implies #[trigger] rest[i] > 0 by {
            assert(rest[i] == results[i + 1]);
        }
        lemma_total_is_not_negative(rest);
        let t = TransferView { len, written, failed: false };
        assert(results[0] > 0);
        law_each_write_counts(t, results[0]);
        law_written_is_the_sum(len, (written + results[0]) as nat, rest);
    }
}

proof fn lemma_total_is_not_negative(results: Seq<int>)
    requires
        forall|i: int| 0 <= i < results.len() ==> #[trigger] results[i] > 0,
    ensures
        total(results) >= 0,
    decreases results.len(),
{
    if results.len() > 0 {
        let rest = results.skip(1);
        assert forall|i: int| 0 <= i < rest.len() implies #[trigger] rest[i] > 0 by {
            assert(rest[i] == results[i + 1]);
        }
        assert(results[0] > 0);
        lemma_total_is_not_negative(rest);
    }
}

/// A transfer that failed is over: nothing more is written, whatever a later write would
/// return.
pub proof fn law_failure_is_final(t: TransferView, n: int, results: Seq<int>)
    requires
        n <= 0,
    ensures
        !t.wrote(n).pending(),
        t.wrote(n).written == t.written,
        !t.wrote(n).after(results).pending(),
    decreases results.len(),
{
    lemma_failed_stays(t.wrote(n), results);
}

proof fn lemma_failed_stays(t: TransferView, results: Seq<int>)
    requires
        t.failed,
    ensures
        t.after(results).failed,
    decreases results.len(),
{
    if results.len() > 0 {
        lemma_failed_stays(t.wrote(results[0]), results.skip(1));
    }
}

} // verus!
