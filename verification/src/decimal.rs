//! Decimal notation of terminal coordinates.
use vstd::prelude::*;

verus! {

/// The ASCII digit of `d`, for `d` below ten.
pub open spec fn digit(d: nat) -> u8 {
    ('0' as u8 + d) as u8
}

/// `n` in decimal, in ASCII and without leading zeros.
pub open spec fn decimal(n: nat) -> Seq<u8>
    decreases n,
{
    if n < 10 {
        seq![digit(n)]
    } else {
        decimal(n / 10).push(digit(n % 10))
    }
}

/// The number that a sequence of ASCII digits stands for.
pub open spec fn value(digits: Seq<u8>) -> int
    decreases digits.len(),
{
    if digits.len() == 0 {
        0
    } else {
        value(digits.drop_last()) * 10 + (digits.last() - '0' as u8)
    }
}

/// How many digits a `u16` takes.
pub open spec fn digit_count(n: u16) -> nat {
    if n < 10 {
        1
    } else if n < 100 {
        2
    } else if n < 1000 {
        3
    } else if n < 10000 {
        4
    } else {
        5
    }
}

/// Decimal notation takes that many digits.
pub proof fn lemma_decimal_len(n: u16)
    ensures
        decimal(n as nat).len() == digit_count(n),
{
    reveal_with_fuel(decimal, 6);
}

/// Decimal notation can be read back, holds digits only, and begins with `0` for
/// zero alone.
pub proof fn law_decimal_reads_back(n: nat)
    ensures
        value(decimal(n)) == n,
        decimal(n).len() > 0,
        forall|i: int| 0 <= i < decimal(n).len() ==> '0' as u8 <= #[trigger] decimal(n)[i] <= '9' as u8,
        decimal(n)[0] == '0' as u8 ==> n == 0,
    decreases n,
{
    if n < 10 {
        reveal_with_fuel(value, 2);
    } else {
        law_decimal_reads_back(n / 10);
        assert(decimal(n).drop_last() == decimal(n / 10));
    }
}

/// Writes `n` in decimal at the start of `buf`. Returns the number of bytes.
pub fn write_u16(n: u16, buf: &mut [u8]) -> (len: usize)
    requires
        digit_count(n) <= old(buf)@.len(),
    ensures
        len == digit_count(n),
        len == decimal(n as nat).len(),
        final(buf)@ == decimal(n as nat) + old(buf)@.skip(len as int),
{
    proof {
        lemma_decimal_len(n);
    }
    if n == 0 {
        buf[0] = '0' as u8;
        assert(buf@ =~= decimal(0) + old(buf)@.skip(1));
        return 1;
    }
    let mut digits: [u8; 5] = [0u8; 5];
    let mut len: usize = 0;
    let mut v: u16 = n;
    let ghost mut low: Seq<u8> = seq![];
    assert(decimal(n as nat) == decimal(v as nat) + low);
    while v > 0
        invariant
            len <= 5,
            len == 1 ==> v < 6554,
            len == 2 ==> v < 656,
            len == 3 ==> v < 66,
            len == 4 ==> v < 7,
            len == 5 ==> v == 0,
            v > 0 ==> decimal(n as nat) == decimal(v as nat) + low,
            v == 0 ==> decimal(n as nat) == low,
            low == Seq::new(len as nat, |k: int| digits@[len - 1 - k]),
        decreases v,
    {
        digits[len] = '0' as u8 + (v % 10) as u8;
        len = len + 1;
        proof {
            let next = seq![digit((v % 10) as nat)] + low;
            if v >= 10 {
                assert(decimal(v as nat) + low =~= decimal((v / 10) as nat) + next);
            }
            low = next;
            assert(low =~= Seq::new(len as nat, |k: int| digits@[len - 1 - k]));
        }
        v = v / 10;
    }
    let ghost before = buf@;
    let mut i: usize = 0;
    while i < len
        invariant
            i <= len <= 5,
            len == low.len(),
            len <= before.len(),
            buf@.len() == before.len(),
            low == Seq::new(len as nat, |k: int| digits@[len - 1 - k]),
            forall|k: int| 0 <= k < i ==> buf@[k] == low[k],
            forall|k: int| i <= k < before.len() ==> buf@[k] == before[k],
        decreases len - i,
    {
        buf[i] = digits[len - 1 - i];
        i = i + 1;
    }
    assert(buf@ =~= low + before.skip(len as int));
    len
}

} // verus!
