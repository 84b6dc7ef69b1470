//! Verified plain-text rendering: decimal numbers and value lists as
//! ASCII bytes, for issue messages.

use vstd::prelude::*;
use vstd::slice::slice_to_vec;

verus! {

/// The decimal digits of the non-negative integer `n`, most significant
/// first.
pub open spec fn dec_u64(n: int) -> Seq<u8>
    decreases n,
{
    if n < 10 {
        seq![(0x30 + (if n < 0 { 0int } else { n }) % 10) as u8]
    } else {
        dec_u64(n / 10) + seq![(0x30 + n % 10) as u8]
    }
}

/// The decimal rendering of a signed integer: a minus sign for negative
/// values, then the digits of the magnitude.
pub open spec fn dec_i64(v: int) -> Seq<u8> {
    if v < 0 {
        seq![0x2Du8] + dec_u64(-v)
    } else {
        dec_u64(v)
    }
}

/// Render an unsigned integer in decimal.
pub fn format_u64(n: u64) -> (r: Vec<u8>)
    ensures
        r@ == dec_u64(n as int),
    decreases n,
{
    if n < 10 {
        let mut r: Vec<u8> = Vec::new();
        r.push(0x30 + (n % 10) as u8);
        proof {
            assert(r@ =~= dec_u64(n as int));
        }
        r
    } else {
        let mut r = format_u64(n / 10);
        r.push(0x30 + (n % 10) as u8);
        proof {
            assert(r@ =~= dec_u64(n as int));
        }
        r
    }
}

/// Render a signed integer in decimal.
pub fn format_i64(v: i64) -> (r: Vec<u8>)
    ensures
        r@ == dec_i64(v as int),
{
    if v >= 0 {
        format_u64(v as u64)
    } else {
        // The magnitude, computed without overflowing at the minimum.
        let mag: u64 = ((-(v + 1)) as u64) + 1;
        proof {
            assert(mag as int == -(v as int));
        }
        let mut r: Vec<u8> = Vec::new();
        r.push(0x2D);
        let mut digits = format_u64(mag);
        r.append(&mut digits);
        proof {
            assert(r@ =~= dec_i64(v as int));
        }
        r
    }
}

/// Append a byte slice to a buffer.
pub fn push_bytes(out: &mut Vec<u8>, s: &[u8])
    ensures
        final(out)@ == old(out)@ + s@,
{
    let mut tmp = slice_to_vec(s);
    out.append(&mut tmp);
}

/// The list items from position `i` on, separated by a comma and a space.
pub open spec fn list_items(vs: Seq<i64>, i: int) -> Seq<u8>
    decreases vs.len() - i,
{
    if i < 0 || i >= vs.len() {
        Seq::empty()
    } else {
        (if i > 0 {
            seq![0x2Cu8, 0x20u8]
        } else {
            Seq::empty()
        }) + dec_i64(vs[i] as int) + list_items(vs, i + 1)
    }
}

/// A bracketed, comma-separated decimal rendering of the values.
pub open spec fn list_bytes(vs: Seq<i64>) -> Seq<u8> {
    seq![0x5Bu8] + list_items(vs, 0) + seq![0x5Du8]
}

/// Render a list of signed integers as bracketed, comma-separated
/// decimals.
pub fn format_i64_list(values: &Vec<i64>) -> (r: Vec<u8>)
    ensures
        r@ == list_bytes(values@),
{
    let mut out: Vec<u8> = Vec::new();
    out.push(0x5B);
    proof {
        assert(out@ =~= seq![0x5Bu8]);
        assert(seq![0x5Bu8] + list_items(values@, 0) =~= out@ + list_items(values@, 0));
    }
    let mut i: usize = 0;
    while i < values.len()
        invariant
            i <= values@.len(),
            seq![0x5Bu8] + list_items(values@, 0) == out@ + list_items(values@, i as int),
        decreases values@.len() - i,
    {
        let ghost out0 = out@;
        if i > 0 {
            let sep: Vec<u8> = vec![0x2Cu8, 0x20u8];
            push_bytes(&mut out, sep.as_slice());
        }
        let mut item = format_i64(values[i]);
        out.append(&mut item);
        proof {
            let piece = (if i > 0 {
                seq![0x2Cu8, 0x20u8]
            } else {
                Seq::<u8>::empty()
            }) + dec_i64(values@[i as int] as int);
            assert(out@ =~= out0 + piece);
            assert((out0 + piece) + list_items(values@, i + 1) =~= out0 + (piece
                + list_items(values@, i + 1)));
        }
        i = i + 1;
    }
    proof {
        assert(list_items(values@, values@.len() as int) =~= Seq::<u8>::empty());
        assert(out@ + Seq::<u8>::empty() =~= out@);
    }
    out.push(0x5D);
    proof {
        assert(out@ =~= list_bytes(values@));
    }
    out
}

/// At most ten sample values, with -1 appended as a truncation marker
/// when more were collected.
pub open spec fn spec_sample(values: Seq<i64>) -> Seq<i64> {
    if values.len() <= 10 {
        values
    } else {
        values.take(10).push(-1i64)
    }
}

/// Take at most ten samples, marking truncation with -1.
pub fn sample_values(values: &Vec<i64>) -> (r: Vec<i64>)
    ensures
        r@ == spec_sample(values@),
{
    if values.len() <= 10 {
        slice_to_vec(values.as_slice())
    } else {
        let mut r: Vec<i64> = Vec::new();
        let mut i: usize = 0;
        while i < 10
            invariant
                values@.len() > 10,
                i <= 10,
                r@ == values@.take(i as int),
            decreases 10 - i,
        {
            r.push(values[i]);
            proof {
                assert(r@ =~= values@.take(i + 1));
            }
            i = i + 1;
        }
        r.push(-1i64);
        proof {
            assert(r@ =~= spec_sample(values@));
        }
        r
    }
}

} // verus!
