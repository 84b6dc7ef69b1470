//! Varint and record codecs for B-tree cells.
//!
//! A varint is a self-delimited big-endian base-128 encoding of an unsigned
//! 64-bit integer, one to nine bytes wide: bytes one to eight contribute their
//! low seven bits, and a ninth byte contributes all eight bits and terminates
//! unconditionally.

use vstd::prelude::*;
use vstd::arithmetic::div_mod::lemma_div_denominator;
use vstd::slice::slice_subrange;
use vstd::slice::slice_to_vec;

use crate::error::WalValidatorError;

verus! {

/// `128^i` for `0 <= i <= 8`, written out so the solver needs no power lemmas.
pub open spec fn pow128(i: int) -> int {
    if i <= 0 {
        1
    } else if i == 1 {
        0x80
    } else if i == 2 {
        0x4000
    } else if i == 3 {
        0x200000
    } else if i == 4 {
        0x10000000
    } else if i == 5 {
        0x800000000
    } else if i == 6 {
        0x40000000000
    } else if i == 7 {
        0x2000000000000
    } else {
        0x100000000000000
    }
}

/// Varint decoding from byte offset `i` with accumulator `acc`, mirroring the
/// reference algorithm: seven bits per byte for the first eight bytes, all
/// eight bits of a ninth byte, stopping early at a byte with a clear high bit
/// or at the end of the data. Returns the value and the offset one past the
/// last byte consumed.
pub open spec fn varint_from(data: Seq<u8>, i: int, acc: int) -> (int, int)
    decreases 9 - i,
{
    if i < 0 || i >= data.len() || i >= 9 {
        (acc, i)
    } else if i == 8 {
        (acc * 0x100 + data[8], 9)
    } else if data[i] < 0x80 {
        (acc * 0x80 + data[i], i + 1)
    } else {
        varint_from(data, i + 1, acc * 0x80 + data[i] - 0x80)
    }
}

/// The value of the varint at the front of `data`.
pub open spec fn varint_value(data: Seq<u8>) -> int {
    varint_from(data, 0, 0).0
}

/// The number of bytes the varint at the front of `data` occupies.
pub open spec fn varint_len(data: Seq<u8>) -> int {
    varint_from(data, 0, 0).1
}

/// Parse a varint from the front of `data`, returning its value and the
/// number of bytes consumed. The only rejected input is an empty slice; a
/// buffer that ends mid-varint yields the bits read so far, as the reference
/// decoder does.
pub fn parse_varint(data: &[u8]) -> (r: Result<(u64, usize), WalValidatorError>)
    ensures
        match r {
            Ok((v, n)) => {
                &&& data@.len() > 0
                &&& v as int == varint_value(data@)
                &&& n as int == varint_len(data@)
                &&& 1 <= n <= 9
                &&& n <= data@.len()
            },
            Err(e) => data@.len() == 0 && e == WalValidatorError::UnexpectedEof,
        },
{
    if data.len() == 0 {
        return Err(WalValidatorError::UnexpectedEof);
    }
    Ok(parse_varint_nonempty(data))
}

/// Varint parsing for callers that already know `data` is non-empty.
pub fn parse_varint_nonempty(data: &[u8]) -> (r: (u64, usize))
    requires
        data@.len() > 0,
    ensures
        r.0 as int == varint_value(data@),
        r.1 as int == varint_len(data@),
        1 <= r.1 <= 9,
        r.1 <= data@.len(),
{
    let mut value: u64 = 0;
    let mut i: usize = 0;
    while i < data.len() && i < 8
        invariant
            0 <= i <= 8,
            i <= data@.len(),
            data@.len() > 0,
            value < pow128(i as int),
            varint_from(data@, i as int, value as int) == varint_from(data@, 0, 0),
        decreases 8 - i,
    {
        let b = data[i];
        assert(value * 0x80 + (b % 0x80) < pow128(i + 1));
        value = value * 0x80 + (b % 0x80) as u64;
        i = i + 1;
        if b < 0x80 {
            return (value, i);
        }
    }
    if i == 8 && data.len() > 8 {
        let b = data[8];
        value = value * 0x100 + b as u64;
        return (value, 9);
    }
    (value, i)
}


/// The number of bytes the varint encoding of `n` occupies: seven bits per
/// byte up to eight bytes, and nine bytes for values of 57 bits or more.
pub open spec fn varint_size(n: int) -> int {
    if n < 0x80 {
        1
    } else if n < 0x4000 {
        2
    } else if n < 0x200000 {
        3
    } else if n < 0x10000000 {
        4
    } else if n < 0x800000000 {
        5
    } else if n < 0x40000000000 {
        6
    } else if n < 0x2000000000000 {
        7
    } else if n < 0x100000000000000 {
        8
    } else {
        9
    }
}

/// The varint encoding of `n` in `[0, 2^64)`: big-endian seven-bit groups
/// with the high bit set on every byte but the last, or, for nine-byte
/// values, eight seven-bit groups of the top 56 bits followed by the low
/// byte whole.
pub open spec fn varint_encode(n: int) -> Seq<u8> {
    let k = varint_size(n);
    if k <= 8 {
        Seq::new(
            k as nat,
            |j: int| if j < k - 1 {
                (0x80 + (n / pow128(k - 1 - j)) % 0x80) as u8
            } else {
                (n % 0x80) as u8
            },
        )
    } else {
        Seq::new(
            9,
            |j: int| if j < 8 {
                (0x80 + ((n / 0x100) / pow128(7 - j)) % 0x80) as u8
            } else {
                (n % 0x100) as u8
            },
        )
    }
}

/// Decoding an encoding of up to eight bytes from position `i`, with the
/// accumulator holding the groups already consumed, lands on `n`.
proof fn lemma_decode_from(n: int, k: int, i: int)
    requires
        1 <= k <= 8,
        0 <= i < k,
        0 <= n < pow128(k),
        varint_size(n) == k,
    ensures
        varint_from(varint_encode(n), i, n / pow128(k - i)) == (n, k),
    decreases k - i,
{
    let enc = varint_encode(n);
    assert(enc.len() == k);
    if i == k - 1 {
        assert(enc[i] == (n % 0x80) as u8);
        assert(enc[i] < 0x80);
        assert((n / pow128(1)) * 0x80 + (n % 0x80) == n);
    } else {
        assert(enc[i] == (0x80 + (n / pow128(k - 1 - i)) % 0x80) as u8);
        assert(enc[i] >= 0x80);
        let q = n / pow128(k - 1 - i);
        assert(pow128(k - i) == pow128(k - 1 - i) * 0x80);
        lemma_div_denominator(n, pow128(k - 1 - i), 0x80);
        assert(n / pow128(k - i) == q / 0x80);
        assert((q / 0x80) * 0x80 + q % 0x80 == q);
        lemma_decode_from(n, k, i + 1);
    }
}

/// Decoding a nine-byte encoding from position `i` lands on `n`.
proof fn lemma_decode9_from(n: int, i: int)
    requires
        0 <= i <= 8,
        0x100000000000000 <= n < 0x10000000000000000,
    ensures
        varint_from(varint_encode(n), i, (n / 0x100) / pow128(8 - i)) == (n, 9int),
    decreases 8 - i,
{
    let enc = varint_encode(n);
    assert(enc.len() == 9);
    let m = n / 0x100;
    if i == 8 {
        assert(enc[8] == (n % 0x100) as u8);
        assert(m / pow128(0) == m);
        assert(m * 0x100 + n % 0x100 == n);
    } else {
        assert(enc[i] == (0x80 + (m / pow128(7 - i)) % 0x80) as u8);
        assert(enc[i] >= 0x80);
        let q = m / pow128(7 - i);
        assert(pow128(8 - i) == pow128(7 - i) * 0x80);
        lemma_div_denominator(m, pow128(7 - i), 0x80);
        assert(m / pow128(8 - i) == q / 0x80);
        assert((q / 0x80) * 0x80 + q % 0x80 == q);
        lemma_decode9_from(n, i + 1);
    }
}

/// Encoding any 64-bit value and decoding the result reproduces the value,
/// and the encoding is one to nine bytes long.
pub proof fn lemma_varint_round_trip(n: u64)
    ensures
        1 <= varint_encode(n as int).len() <= 9,
        varint_value(varint_encode(n as int)) == n,
        varint_len(varint_encode(n as int)) == varint_encode(n as int).len(),
{
    let k = varint_size(n as int);
    if k <= 8 {
        assert(n as int / pow128(k) == 0) by {
            assert((n as int) < pow128(k));
        };
        lemma_decode_from(n as int, k, 0);
    } else {
        assert((n as int / 0x100) / pow128(8) == 0) by {
            assert(n as int / 0x100 < pow128(8));
        };
        lemma_decode9_from(n as int, 0);
    }
}

/// `128^i` as a run-time value.
fn pow128_exec(i: usize) -> (r: u64)
    requires
        i <= 8,
    ensures
        r as int == pow128(i as int),
{
    if i == 0 {
        1
    } else if i == 1 {
        0x80
    } else if i == 2 {
        0x4000
    } else if i == 3 {
        0x200000
    } else if i == 4 {
        0x10000000
    } else if i == 5 {
        0x800000000
    } else if i == 6 {
        0x40000000000
    } else if i == 7 {
        0x2000000000000
    } else {
        0x100000000000000
    }
}

/// Encode a value as a varint.
pub fn encode_varint(n: u64) -> (r: Vec<u8>)
    ensures
        r@ == varint_encode(n as int),
{
    let k: usize = if n < 0x80 {
        1
    } else if n < 0x4000 {
        2
    } else if n < 0x200000 {
        3
    } else if n < 0x10000000 {
        4
    } else if n < 0x800000000 {
        5
    } else if n < 0x40000000000 {
        6
    } else if n < 0x2000000000000 {
        7
    } else if n < 0x100000000000000 {
        8
    } else {
        9
    };
    proof {
        assert(k as int == varint_size(n as int));
    }

    let mut out: Vec<u8> = Vec::new();
    if k <= 8 {
        let mut div: u64 = pow128_exec(k - 1);
        let mut j: usize = 0;
        while j < k
            invariant
                1 <= k <= 8,
                k as int == varint_size(n as int),
                j <= k,
                j < k ==> div as int == pow128(k - 1 - j),
                out@.len() == j,
                forall|idx: int|
                    0 <= idx < j ==> out@[idx] == varint_encode(n as int)[idx],
            decreases k - j,
        {
            if j < k - 1 {
                let group = (n / div) % 0x80;
                out.push(0x80 + group as u8);
            } else {
                out.push((n % 0x80) as u8);
            }
            j = j + 1;
            if j < k {
                div = div / 0x80;
                proof {
                    assert(pow128(k - j) == pow128(k - 1 - j) * 0x80);
                    assert(pow128(k - 1 - j) * 0x80 / 0x80 == pow128(k - 1 - j));
                }
            }
        }
    } else {
        let m = n / 0x100;
        let mut div: u64 = pow128_exec(7);
        let mut j: usize = 0;
        while j < 8
            invariant
                m == n as int / 0x100,
                j <= 8,
                j < 8 ==> div as int == pow128(7 - j),
                out@.len() == j,
                varint_size(n as int) == 9,
                forall|idx: int|
                    0 <= idx < j ==> out@[idx] == varint_encode(n as int)[idx],
            decreases 8 - j,
        {
            let group = (m / div) % 0x80;
            out.push(0x80 + group as u8);
            j = j + 1;
            if j < 8 {
                div = div / 0x80;
                proof {
                    assert(pow128(8 - j) == pow128(7 - j) * 0x80);
                    assert(pow128(7 - j) * 0x80 / 0x80 == pow128(7 - j));
                }
            }
        }
        out.push((n % 0x100) as u8);
    }
    proof {
        assert(out@ =~= varint_encode(n as int));
    }
    out
}

/// The unsigned 64-bit value `v` reinterpreted as a two's-complement signed
/// integer.
pub open spec fn as_signed64(v: int) -> int {
    if v >= 0x8000000000000000 {
        v - 0x10000000000000000
    } else {
        v
    }
}

/// Parse a varint and reinterpret its 64-bit value as a signed integer.
pub fn parse_signed_varint(data: &[u8]) -> (r: Result<(i64, usize), WalValidatorError>)
    ensures
        match r {
            Ok((v, n)) => {
                &&& data@.len() > 0
                &&& v as int == as_signed64(varint_value(data@))
                &&& n as int == varint_len(data@)
            },
            Err(e) => data@.len() == 0 && e == WalValidatorError::UnexpectedEof,
        },
{
    let (value, len) = match parse_varint(data) {
        Ok(p) => p,
        Err(e) => {
            return Err(e);
        },
    };
    let signed: i64 = if value >= 0x8000000000000000 {
        -((0xFFFFFFFFFFFFFFFFu64 - value) as i64) - 1
    } else {
        value as i64
    };
    Ok((signed, len))
}

/// The on-disk byte width of a column with the given serial type: a fixed
/// table for types 0 to 9, `(n - 12) / 2` for even blob types, and
/// `(n - 13) / 2` for odd text types.
pub open spec fn serial_type_size_spec(st: int) -> int {
    if st == 0 {
        0
    } else if st == 1 {
        1
    } else if st == 2 {
        2
    } else if st == 3 {
        3
    } else if st == 4 {
        4
    } else if st == 5 {
        6
    } else if st == 6 {
        8
    } else if st == 7 {
        8
    } else if st == 8 || st == 9 {
        0
    } else if st == 10 || st == 11 {
        0
    } else if st >= 12 && st % 2 == 0 {
        (st - 12) / 2
    } else if st >= 13 {
        (st - 13) / 2
    } else {
        0
    }
}

/// Get the size in bytes of a value with the given serial type.
pub fn serial_type_size(serial_type: u64) -> (r: u64)
    ensures
        r as int == serial_type_size_spec(serial_type as int),
{
    if serial_type == 0 {
        0
    } else if serial_type == 1 {
        1
    } else if serial_type == 2 {
        2
    } else if serial_type == 3 {
        3
    } else if serial_type == 4 {
        4
    } else if serial_type == 5 {
        6
    } else if serial_type == 6 {
        8
    } else if serial_type == 7 {
        8
    } else if serial_type <= 11 {
        0
    } else if serial_type % 2 == 0 {
        (serial_type - 12) / 2
    } else {
        (serial_type - 13) / 2
    }
}

/// The sum of the on-disk sizes of the given serial types.
pub open spec fn sum_sizes(sts: Seq<int>) -> int
    decreases sts.len(),
{
    if sts.len() == 0 {
        0
    } else {
        serial_type_size_spec(sts[0]) + sum_sizes(sts.drop_first())
    }
}

/// Every serial type has a non-negative size, so a sum of sizes is
/// non-negative.
pub proof fn lemma_sum_sizes_nonneg(sts: Seq<int>)
    ensures
        sum_sizes(sts) >= 0,
    decreases sts.len(),
{
    if sts.len() > 0 {
        lemma_sum_sizes_nonneg(sts.drop_first());
    }
}

/// The varint at byte offset `i` of `data`: its value.
pub open spec fn varint_value_at(data: Seq<u8>, i: int) -> int {
    varint_value(data.subrange(i, data.len() as int))
}

/// The varint at byte offset `i` of `data`: its length in bytes.
pub open spec fn varint_len_at(data: Seq<u8>, i: int) -> int {
    varint_len(data.subrange(i, data.len() as int))
}

/// The serial types stored as consecutive varints in `data` from offset `i`
/// up to offset `end`. The guard on the decoded length only serves
/// termination; a varint read from a non-empty suffix always consumes at
/// least one byte.
pub open spec fn record_serial_types(data: Seq<u8>, i: int, end: int) -> Seq<int>
    decreases end - i,
{
    if i < 0 || i >= end {
        Seq::empty()
    } else {
        let n = varint_len_at(data, i);
        if n < 1 || i + n >= end {
            seq![varint_value_at(data, i)]
        } else {
            seq![varint_value_at(data, i)] + record_serial_types(data, i + n, end)
        }
    }
}

/// The serial types of the record whose payload starts at the front of
/// `data`, read from the record header.
pub open spec fn record_header_types(data: Seq<u8>) -> Seq<int> {
    record_serial_types(data, varint_len(data), varint_value(data))
}

/// Parse a record header: a leading varint `H` giving the total header
/// length including itself, followed by serial-type varints up to offset
/// `H`. Returns the ordered serial types and `H`.
pub fn parse_record_header(data: &[u8]) -> (r: Result<(Vec<u64>, usize), WalValidatorError>)
    ensures
        match r {
            Ok((sts, hsize)) => {
                &&& data@.len() > 0
                &&& varint_value(data@) <= data@.len()
                &&& hsize as int == varint_value(data@)
                &&& sts@.map_values(|v: u64| v as int) == record_header_types(data@)
            },
            Err(e) => {
                &&& e == WalValidatorError::UnexpectedEof
                &&& (data@.len() == 0 || varint_value(data@) > data@.len())
            },
        },
{
    if data.len() == 0 {
        return Err(WalValidatorError::UnexpectedEof);
    }
    let (h, first_len) = parse_varint_nonempty(data);
    if h > data.len() as u64 {
        return Err(WalValidatorError::UnexpectedEof);
    }
    let header_size = h as usize;

    let mut serial_types: Vec<u64> = Vec::new();
    let mut offset: usize = first_len;
    while offset < header_size
        invariant
            data@.len() > 0,
            header_size as int == varint_value(data@),
            header_size <= data@.len(),
            offset <= data@.len(),
            record_header_types(data@) == serial_types@.map_values(|v: u64| v as int)
                + record_serial_types(data@, offset as int, header_size as int),
        decreases data@.len() - offset,
    {
        let sub = slice_subrange(data, offset, data.len());
        let (st, n) = parse_varint_nonempty(sub);
        proof {
            let ghost prev = serial_types@.map_values(|v: u64| v as int);
            assert(record_serial_types(data@, offset as int, header_size as int)
                =~= seq![st as int] + record_serial_types(
                data@,
                offset + n,
                header_size as int,
            ));
            assert(prev + (seq![st as int] + record_serial_types(
                data@,
                offset + n,
                header_size as int,
            )) =~= (prev + seq![st as int]) + record_serial_types(
                data@,
                offset + n,
                header_size as int,
            ));
            assert(serial_types@.push(st).map_values(|v: u64| v as int) =~= prev + seq![
                st as int,
            ]);
        }
        serial_types.push(st);
        offset = offset + n;
    }
    proof {
        assert(record_serial_types(data@, offset as int, header_size as int)
            =~= Seq::<int>::empty());
        assert(serial_types@.map_values(|v: u64| v as int) + Seq::<int>::empty()
            =~= serial_types@.map_values(|v: u64| v as int));
    }
    Ok((serial_types, header_size))
}

/// An index key: the record header together with the data bytes of every
/// column but the last (the referenced rowid). Two index entries carry equal
/// keys exactly when those leading bytes are bit-identical.
#[derive(Debug, Clone)]
pub struct IndexKey {
    /// Raw bytes of the key, compared bitwise.
    pub raw: Vec<u8>,
}

impl PartialEq for IndexKey {
    fn eq(&self, other: &IndexKey) -> (r: bool) {
        let r = self.raw == other.raw;
        proof {
            if self.raw@ == other.raw@ {
                assert(self.raw@.len() == other.raw@.len());
                assert(forall|i: int|
                    0 <= i < self.raw@.len() ==> self.raw@[i] == other.raw@[i]);
            }
            if r {
                assert(self.raw@ =~= other.raw@);
            }
        }
        r
    }
}

impl vstd::std_specs::cmp::PartialEqSpecImpl for IndexKey {
    open spec fn obeys_eq_spec() -> bool {
        true
    }

    open spec fn eq_spec(&self, other: &IndexKey) -> bool {
        self.raw@ == other.raw@
    }
}

/// The lowercase hexadecimal digit for `n` in `[0, 16)`.
pub open spec fn hex_digit(n: int) -> u8 {
    if n < 10 {
        (0x30 + n) as u8
    } else {
        (0x57 + n) as u8
    }
}

/// The lowercase hexadecimal rendering of `data`, two digits per byte.
pub open spec fn hex_bytes(data: Seq<u8>) -> Seq<u8> {
    Seq::new(
        (2 * data.len()) as nat,
        |i: int| if i % 2 == 0 {
            hex_digit(data[i / 2] as int / 16)
        } else {
            hex_digit(data[i / 2] as int % 16)
        },
    )
}

/// Render `data` as lowercase ASCII hexadecimal, two digits per byte.
pub fn hex_encode(data: &[u8]) -> (r: Vec<u8>)
    ensures
        r@ == hex_bytes(data@),
{
    let mut out: Vec<u8> = Vec::new();
    let mut i: usize = 0;
    while i < data.len()
        invariant
            i <= data@.len(),
            out@.len() == 2 * i,
            forall|j: int| 0 <= j < out@.len() ==> out@[j] == hex_bytes(data@)[j],
        decreases data@.len() - i,
    {
        let b = data[i];
        let hi = b / 16;
        let lo = b % 16;
        let hid: u8 = if hi < 10 {
            0x30 + hi
        } else {
            0x57 + hi
        };
        let lod: u8 = if lo < 10 {
            0x30 + lo
        } else {
            0x57 + lo
        };
        out.push(hid);
        out.push(lod);
        i = i + 1;
    }
    proof {
        assert(out@ =~= hex_bytes(data@));
    }
    out
}

/// The byte length of the index key at the front of an index record
/// payload: the header length plus the sizes of every column but the last,
/// or zero when the header holds no serial types.
///
/// A degenerate single-column record deliberately keeps its only column
/// rather than yielding a header-only key: a well-formed index record
/// always carries at least a key column and the referenced rowid, so this
/// guard only shapes what corrupt records report.
pub open spec fn index_key_len(payload: Seq<u8>) -> int {
    let h = varint_value(payload);
    let sts = record_header_types(payload);
    if sts.len() == 0 {
        0
    } else if sts.len() > 1 {
        h + sum_sizes(sts.drop_last())
    } else {
        h + sum_sizes(sts)
    }
}

/// Extract the key portion of an index cell payload: the record header and
/// all column data except the last column, which is the referenced rowid
/// (a degenerate single-column record keeps its only column; see
/// [`index_key_len`]).
pub fn extract_index_key(payload: &[u8]) -> (r: Result<IndexKey, WalValidatorError>)
    ensures
        match r {
            Ok(k) => {
                &&& payload@.len() > 0
                &&& varint_value(payload@) <= payload@.len()
                &&& index_key_len(payload@) <= payload@.len()
                &&& k.raw@ == payload@.subrange(0, index_key_len(payload@))
            },
            Err(e) => {
                &&& e == WalValidatorError::UnexpectedEof
                &&& (payload@.len() == 0 || varint_value(payload@) > payload@.len()
                    || index_key_len(payload@) > payload@.len())
            },
        },
{
    let (serial_types, header_size) = match parse_record_header(payload) {
        Ok(p) => p,
        Err(e) => {
            return Err(e);
        },
    };
    if serial_types.len() == 0 {
        return Ok(IndexKey { raw: Vec::new() });
    }
    let ghost sts = record_header_types(payload@);
    let ghost keycols = if sts.len() > 1 {
        sts.drop_last()
    } else {
        sts
    };
    let ncols: usize = if serial_types.len() > 1 {
        serial_types.len() - 1
    } else {
        serial_types.len()
    };
    let payload_len = payload.len() as u64;
    let mut key_end: u64 = header_size as u64;
    let mut j: usize = 0;
    proof {
        assert(keycols.skip(0) =~= keycols);
    }
    while j < ncols
        invariant
            payload@.len() > 0,
            payload_len == payload@.len(),
            sts == record_header_types(payload@),
            serial_types@.map_values(|v: u64| v as int) == sts,
            (keycols == if sts.len() > 1 {
                sts.drop_last()
            } else {
                sts
            }),
            sts.len() > 0,
            ncols == keycols.len(),
            ncols <= serial_types@.len(),
            j <= ncols,
            key_end <= payload_len,
            varint_value(payload@) + sum_sizes(keycols) == key_end + sum_sizes(
                keycols.skip(j as int),
            ),
        decreases ncols - j,
    {
        let sz = serial_type_size(serial_types[j]);
        proof {
            assert(keycols.skip(j as int)[0] == keycols[j as int]);
            assert(keycols.skip(j as int).drop_first() =~= keycols.skip(j as int + 1));
            assert(sum_sizes(keycols.skip(j as int)) == serial_type_size_spec(
                keycols[j as int],
            ) + sum_sizes(keycols.skip(j as int + 1)));
            lemma_sum_sizes_nonneg(keycols.skip(j as int + 1));
        }
        if sz > payload_len - key_end {
            return Err(WalValidatorError::UnexpectedEof);
        }
        key_end = key_end + sz;
        j = j + 1;
    }
    proof {
        assert(keycols.skip(ncols as int) =~= Seq::<int>::empty());
        assert(key_end as int == index_key_len(payload@));
    }
    let raw = slice_to_vec(slice_subrange(payload, 0, key_end as usize));
    Ok(IndexKey { raw })
}

/// The unsigned big-endian integer held in `width` bytes at `offset`.
pub open spec fn ube(data: Seq<u8>, offset: int, width: int) -> int
    decreases width,
{
    if width <= 0 {
        0
    } else {
        ube(data, offset, width - 1) * 0x100 + data[offset + width - 1]
    }
}

/// Two's-complement sign extension of the unsigned value `v` held in
/// `width` bytes, for the widths the record format uses.
pub open spec fn sign_extend(v: int, width: int) -> int {
    if width == 1 {
        if v >= 0x80 {
            v - 0x100
        } else {
            v
        }
    } else if width == 2 {
        if v >= 0x8000 {
            v - 0x10000
        } else {
            v
        }
    } else if width == 3 {
        if v >= 0x800000 {
            v - 0x1000000
        } else {
            v
        }
    } else if width == 4 {
        if v >= 0x80000000 {
            v - 0x100000000
        } else {
            v
        }
    } else if width == 6 {
        if v >= 0x800000000000 {
            v - 0x1000000000000
        } else {
            v
        }
    } else if width == 8 {
        if v >= 0x8000000000000000 {
            v - 0x10000000000000000
        } else {
            v
        }
    } else {
        v
    }
}

/// The signed integer stored at `offset` with serial type `st`, or `None`
/// when `st` is not an integral type or its data runs past the end.
/// The constants 8 and 9 denote the values 0 and 1 with no data bytes.
pub open spec fn int_column_value(data: Seq<u8>, offset: int, st: int) -> Option<int> {
    if st == 8 {
        Some(0)
    } else if st == 9 {
        Some(1)
    } else if st == 1 || st == 2 || st == 3 || st == 4 || st == 5 || st == 6 {
        let w = serial_type_size_spec(st);
        if 0 <= offset && offset + w <= data.len() {
            Some(sign_extend(ube(data, offset, w), w))
        } else {
            None
        }
    } else {
        None
    }
}

/// The rowid referenced by an index record: the value of its last column,
/// decoded as a signed integer, or `None` when the record is empty or its
/// last column is not integral.
pub open spec fn index_rowid_value(payload: Seq<u8>) -> Option<int> {
    let sts = record_header_types(payload);
    if sts.len() == 0 {
        None
    } else {
        int_column_value(
            payload,
            varint_value(payload) + sum_sizes(sts.drop_last()),
            sts.last(),
        )
    }
}

/// `256^i` for `0 <= i <= 8`, written out so the solver needs no power lemmas.
pub open spec fn pow256(i: int) -> int {
    if i <= 0 {
        1
    } else if i == 1 {
        0x100
    } else if i == 2 {
        0x10000
    } else if i == 3 {
        0x1000000
    } else if i == 4 {
        0x100000000
    } else if i == 5 {
        0x10000000000
    } else if i == 6 {
        0x1000000000000
    } else if i == 7 {
        0x100000000000000
    } else {
        0x10000000000000000
    }
}

/// `ube` of `width` bytes is below `256^width`.
pub proof fn lemma_ube_bound(data: Seq<u8>, offset: int, width: int)
    requires
        0 <= width <= 8,
        0 <= offset,
        offset + width <= data.len(),
    ensures
        0 <= ube(data, offset, width) < pow256(width),
    decreases width,
{
    if width > 0 {
        lemma_ube_bound(data, offset, width - 1);
    }
}

/// Read `width` big-endian bytes at `offset` as an unsigned integer.
pub(crate) fn read_unsigned_be(data: &[u8], offset: usize, width: usize) -> (r: u64)
    requires
        offset + width <= data@.len(),
        width <= 8,
    ensures
        r as int == ube(data@, offset as int, width as int),
{
    let dlen = data.len();
    let mut r: u64 = 0;
    let mut k: usize = 0;
    while k < width
        invariant
            k <= width,
            width <= 8,
            dlen == data@.len(),
            offset + width <= dlen,
            r as int == ube(data@, offset as int, k as int),
            r < pow256(k as int),
        decreases width - k,
    {
        proof {
            lemma_ube_bound(data@, offset as int, k as int);
        }
        r = r * 0x100 + data[offset + k] as u64;
        k = k + 1;
    }
    r
}

/// Extract the rowid referenced by an index cell payload: the signed value
/// of the record's last column.
#[verifier::loop_isolation(false)]
pub fn extract_index_rowid(payload: &[u8]) -> (r: Result<i64, WalValidatorError>)
    ensures
        match r {
            Ok(v) => {
                &&& payload@.len() > 0
                &&& varint_value(payload@) <= payload@.len()
                &&& index_rowid_value(payload@) == Some(v as int)
            },
            Err(e) => {
                &&& e == WalValidatorError::UnexpectedEof
                &&& (payload@.len() == 0 || varint_value(payload@) > payload@.len()
                    || index_rowid_value(payload@) is None)
            },
        },
{
    let (serial_types, header_size) = match parse_record_header(payload) {
        Ok(p) => p,
        Err(e) => {
            return Err(e);
        },
    };
    if serial_types.len() == 0 {
        return Err(WalValidatorError::UnexpectedEof);
    }
    let ghost sts = record_header_types(payload@);
    let last_st = serial_types[serial_types.len() - 1];
    proof {
        assert(sts.last() == last_st as int);
    }
    if last_st == 8 {
        return Ok(0);
    }
    if last_st == 9 {
        return Ok(1);
    }
    if !(last_st == 1 || last_st == 2 || last_st == 3 || last_st == 4 || last_st == 5
        || last_st == 6) {
        return Err(WalValidatorError::UnexpectedEof);
    }
    let width = serial_type_size(last_st);
    let ncols: usize = serial_types.len() - 1;
    let ghost keycols = sts.drop_last();
    let payload_len = payload.len() as u64;
    let mut offset: u64 = header_size as u64;
    let mut j: usize = 0;
    proof {
        assert(keycols.skip(0) =~= keycols);
    }
    while j < ncols
        invariant
            payload@.len() > 0,
            payload_len == payload@.len(),
            sts == record_header_types(payload@),
            serial_types@.map_values(|v: u64| v as int) == sts,
            keycols == sts.drop_last(),
            sts.len() > 0,
            ncols == keycols.len(),
            j <= ncols,
            offset <= payload_len,
            varint_value(payload@) + sum_sizes(keycols) == offset + sum_sizes(
                keycols.skip(j as int),
            ),
        decreases ncols - j,
    {
        let sz = serial_type_size(serial_types[j]);
        proof {
            assert(keycols.skip(j as int)[0] == keycols[j as int]);
            assert(keycols.skip(j as int).drop_first() =~= keycols.skip(j as int + 1));
            assert(sum_sizes(keycols.skip(j as int)) == serial_type_size_spec(
                keycols[j as int],
            ) + sum_sizes(keycols.skip(j as int + 1)));
            lemma_sum_sizes_nonneg(keycols.skip(j as int + 1));
        }
        if sz > payload_len - offset {
            return Err(WalValidatorError::UnexpectedEof);
        }
        offset = offset + sz;
        j = j + 1;
    }
    proof {
        assert(keycols.skip(ncols as int) =~= Seq::<int>::empty());
        assert(offset as int == varint_value(payload@) + sum_sizes(sts.drop_last()));
    }
    if width > payload_len - offset {
        return Err(WalValidatorError::UnexpectedEof);
    }
    let v = read_unsigned_be(payload, offset as usize, width as usize);
    proof {
        lemma_ube_bound(payload@, offset as int, width as int);
    }
    let signed: i64 = if width == 1 {
        if v >= 0x80 {
            v as i64 - 0x100
        } else {
            v as i64
        }
    } else if width == 2 {
        if v >= 0x8000 {
            v as i64 - 0x10000
        } else {
            v as i64
        }
    } else if width == 3 {
        if v >= 0x800000 {
            v as i64 - 0x1000000
        } else {
            v as i64
        }
    } else if width == 4 {
        if v >= 0x80000000 {
            v as i64 - 0x100000000
        } else {
            v as i64
        }
    } else if width == 6 {
        if v >= 0x800000000000 {
            v as i64 - 0x1000000000000
        } else {
            v as i64
        }
    } else {
        if v >= 0x8000000000000000 {
            -((0xFFFFFFFFFFFFFFFFu64 - v) as i64) - 1
        } else {
            v as i64
        }
    };
    Ok(signed)
}

} // verus!
