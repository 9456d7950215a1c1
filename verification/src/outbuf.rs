//! A fixed-size buffer for terminal output. It never allocates, so a signal
//! handler can fill one.
use crate::decimal::{decimal, digit_count, lemma_decimal_len, write_u16};
use vstd::prelude::*;

verus! {

/// The first `n` bytes of `s`, or all of it if it is shorter.
pub open spec fn clip(s: Seq<u8>, n: nat) -> Seq<u8> {
    if s.len() <= n {
        s
    } else {
        s.take(n as int)
    }
}

/// At most `N` bytes of output. What does not fit is dropped.
pub struct OutBuf<const N: usize> {
    buf: [u8; N],
    len: usize,
}

impl<const N: usize> View for OutBuf<N> {
    type V = Seq<u8>;

    closed spec fn view(&self) -> Seq<u8> {
        self.buf@.take(self.len as int)
    }
}

impl<const N: usize> OutBuf<N> {
    #[verifier::type_invariant]
    spec fn within_capacity(self) -> bool {
        self.len <= N
    }

    /// An empty buffer.
    pub fn new() -> (r: Self)
        ensures
            r@ == Seq::<u8>::empty(),
    {
        let r = OutBuf { buf: [0u8; N], len: 0 };
        assert(r@ =~= Seq::<u8>::empty());
        r
    }

    /// The number of bytes held.
    pub fn len(&self) -> (r: usize)
        ensures
            r == self@.len(),
            r <= N,
    {
        proof {
            use_type_invariant(self);
        }
        self.len
    }

    /// The bytes held.
    pub fn bytes(&self) -> (r: &[u8])
        ensures
            r@ == self@,
    {
        proof {
            use_type_invariant(self);
        }
        let all: &[u8] = &self.buf;
        &all[0..self.len]
    }

    /// Appends as many bytes of `b` as fit.
    pub fn put(&mut self, b: &[u8])
        ensures
            final(self)@ == clip(old(self)@ + b@, N as nat),
    {
        proof {
            use_type_invariant(&*self);
        }
        let ghost before = self@;
        let mut i: usize = 0;
        assert(before =~= before + b@.take(0));
        while i < b.len() && self.len < N
            invariant
                i <= b@.len(),
                self.len <= N,
                before.len() + i == self.len,
                self@ == before + b@.take(i as int),
            decreases b@.len() - i,
        {
            let ghost prev = self@;
            self.buf[self.len] = b[i];
            self.len = self.len + 1;
            i = i + 1;
            assert(self@ =~= prev.push(b@[i - 1]));
            assert(b@.take(i as int) =~= b@.take(i - 1).push(b@[i - 1]));
        }
        assert(self@ =~= clip(before + b@, N as nat));
    }

    /// Appends `n` in decimal. There must be room for it.
    pub fn put_u16(&mut self, n: u16)
        requires
            old(self)@.len() + digit_count(n) <= N,
        ensures
            final(self)@ == old(self)@ + decimal(n as nat),
    {
        let mut digits: [u8; 5] = [0u8; 5];
        proof {
            lemma_decimal_len(n);
        }
        let len: usize = write_u16(n, &mut digits);
        let all: &[u8] = &digits;
        let text = &all[0..len];
        assert(text@ =~= decimal(n as nat));
        self.put(text);
    }
}

/// What is clipped is the start of the whole, as long as it can be: all that fits is kept, and
/// nothing that fits is changed or left out.
pub proof fn law_clip_keeps_the_start(s: Seq<u8>, n: nat)
    ensures
        clip(s, n).is_prefix_of(s),
        clip(s, n).len() <= n,
        clip(s, n).len() == n || clip(s, n) == s,
{
}

/// To append in pieces is to append at once, also where the buffer is full.
pub proof fn law_clip_in_pieces(s: Seq<u8>, a: Seq<u8>, b: Seq<u8>, n: nat)
    ensures
        clip(clip(s + a, n) + b, n) == clip(s + (a + b), n),
{
    assert(clip(clip(s + a, n) + b, n) =~= clip(s + (a + b), n));
}

} // verus!
