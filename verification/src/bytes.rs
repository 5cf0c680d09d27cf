//! Byte-buffer helpers shared by the encoders.

use vstd::prelude::*;

use crate::args::{all_digits, digits_value};

verus! {

/// Appends `data[lo..hi]` to `out`.
pub fn extend_range(out: &mut Vec<u8>, data: &[u8], lo: usize, hi: usize)
    requires
        lo <= hi <= data@.len(),
    ensures
        final(out)@ == old(out)@ + data@.subrange(lo as int, hi as int),
{
    let mut i = lo;
    while i < hi
        invariant
            lo <= i <= hi,
            hi <= data@.len(),
            out@ == old(out)@ + data@.subrange(lo as int, i as int),
        decreases hi - i,
    {
        out.push(data[i]);
        proof {
            assert(data@.subrange(lo as int, i + 1) =~= data@.subrange(lo as int, i as int).push(
                data@[i as int],
            ));
        }
        i = i + 1;
    }
}

/// Appends all of `data` to `out`.
pub fn extend_all(out: &mut Vec<u8>, data: &[u8])
    ensures
        final(out)@ == old(out)@ + data@,
{
    extend_range(out, data, 0, data.len());
    proof {
        assert(data@.subrange(0, data@.len() as int) =~= data@);
    }
}

/// The ASCII decimal digits of `n`, without leading zeros.
pub open spec fn decimal(n: nat) -> Seq<u8>
    decreases n,
{
    if n < 10 {
        seq![(48 + n) as u8]
    } else {
        decimal(n / 10) + seq![(48 + n % 10) as u8]
    }
}

/// Appends the decimal representation of `n` to `out`.
pub fn push_decimal(out: &mut Vec<u8>, n: u32)
    ensures
        final(out)@ == old(out)@ + decimal(n as nat),
    decreases n,
{
    if n >= 10 {
        push_decimal(out, n / 10);
    }
    out.push(48u8 + (n % 10) as u8);
    proof {
        if n < 10 {
            assert(n % 10 == n);
        }
        assert(final(out)@ =~= old(out)@ + decimal(n as nat));
    }
}

/// `decimal(n)` is how `n` is written in base 10: ASCII digits only, no
/// leading zero (but for 0 itself), and reading them back gives `n`.
pub proof fn law_decimal_reads_back(n: nat)
    ensures
        decimal(n).len() >= 1,
        all_digits(decimal(n)),
        digits_value(decimal(n)) == n,
        decimal(n).len() > 1 ==> decimal(n)[0] != 48u8,
        n == 0 <==> decimal(n) == seq![48u8],
    decreases n,
{
    let d = decimal(n);
    if n < 10 {
        assert(d.drop_last() =~= Seq::<u8>::empty());
        assert(digits_value(d.drop_last()) == 0);
    } else {
        law_decimal_reads_back(n / 10);
        let p = decimal(n / 10);
        assert(d.drop_last() =~= p);
        assert(d.last() == (48 + n % 10) as u8);
        assert(p.len() >= 1);
        assert(d[0] == p[0]);
        if p.len() == 1 && p[0] == 48u8 {
            assert(p =~= seq![48u8]);
        }
        assert(n / 10 * 10 + n % 10 == n);
        assert(d.len() >= 2);
        if d == seq![48u8] {
            assert(d.len() == 1);
        }
    }
}

} // verus!
