//! Verified rendering of integers as decimal byte strings, used by the
//! runtime library's output function and the human-readable dump.

use vstd::prelude::*;

verus! {

/// The decimal digits of `n`, most significant first.
pub open spec fn dec_spec(n: nat) -> Seq<u8>
    decreases n,
{
    if n < 10 {
        seq![(48 + n) as u8]
    } else {
        dec_spec(n / 10).push((48 + n % 10) as u8)
    }
}

/// The decimal rendering of a signed value: a minus sign, then the digits
/// of the magnitude.
pub open spec fn sdec_spec(v: int) -> Seq<u8> {
    if v < 0 {
        seq![45u8] + dec_spec((-v) as nat)
    } else {
        dec_spec(v as nat)
    }
}

/// Appends the decimal digits of `n`.
pub fn push_dec(out: &mut Vec<u8>, n: u64)
    ensures
        final(out)@ == old(out)@ + dec_spec(n as nat),
    decreases n,
{
    if n >= 10 {
        push_dec(out, n / 10);
    }
    out.push(48 + (n % 10) as u8);
    proof {
        if n < 10 {
            assert(final(out)@ =~= old(out)@ + dec_spec(n as nat));
        } else {
            assert(final(out)@ =~= old(out)@ + dec_spec(n as nat));
        }
    }
}

/// Appends the decimal rendering of a signed value.
pub fn push_sdec(out: &mut Vec<u8>, v: i64)
    ensures
        final(out)@ == old(out)@ + sdec_spec(v as int),
{
    if v < 0 {
        out.push(45u8);
        let mag: u64 = ((-(v as i128)) as u64);
        push_dec(out, mag);
        proof {
            assert(final(out)@ =~= old(out)@ + sdec_spec(v as int));
        }
    } else {
        push_dec(out, v as u64);
    }
}

/// Appends a copy of `s`.
pub fn push_bytes(out: &mut Vec<u8>, s: &Vec<u8>)
    ensures
        final(out)@ == old(out)@ + s@,
{
    let mut i: usize = 0;
    while i < s.len()
        invariant
            i <= s@.len(),
            out@ == old(out)@ + s@.subrange(0, i as int),
        decreases s@.len() - i,
    {
        out.push(s[i]);
        proof {
            assert(out@ =~= old(out)@ + s@.subrange(0, i + 1 as int));
        }
        i = i + 1;
    }
    proof {
        assert(out@ =~= old(out)@ + s@);
    }
}

/// Appends a borrowed byte slice.
pub fn push_slice(out: &mut Vec<u8>, s: &[u8])
    ensures
        final(out)@ == old(out)@ + s@,
{
    let mut i: usize = 0;
    while i < s.len()
        invariant
            i <= s@.len(),
            out@ == old(out)@ + s@.subrange(0, i as int),
        decreases s@.len() - i,
    {
        out.push(s[i]);
        proof {
            assert(out@ =~= old(out)@ + s@.subrange(0, i + 1 as int));
        }
        i = i + 1;
    }
    proof {
        assert(out@ =~= old(out)@ + s@);
    }
}

} // verus!
