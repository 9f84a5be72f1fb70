//! Variable-length integers: seven bits to a byte, the low bits first, and
//! the high bit of every byte but the last one set.

use crate::error::DecodeError;
use vstd::prelude::*;

verus! {

/// No 64-bit value takes more bytes than this.
pub const MAX_VARINT_LEN: usize = 10;

/// The encoding of `v`.
pub open spec fn varint_bytes(v: nat) -> Seq<u8>
    decreases v,
{
    if v < 128 {
        seq![v as u8]
    } else {
        seq![(v % 128 + 128) as u8] + varint_bytes(v / 128)
    }
}

/// The integer that stands at the front of `s`, read over at most `limit`
/// bytes: its value and the number of bytes it takes. A byte below 128
/// ends the integer. An integer that has not ended after `limit` bytes is
/// invalid; one that has not ended where the bytes end is truncated. A
/// form with more bytes than the value needs is read as the value that it
/// stands for.
pub open spec fn varint_prefix(s: Seq<u8>, limit: nat) -> Result<(nat, nat), DecodeError>
    decreases limit,
{
    if limit == 0 {
        Err(DecodeError::InvalidVarint)
    } else if s.len() == 0 {
        Err(DecodeError::Truncated)
    } else if s[0] < 128 {
        Ok((s[0] as nat, 1nat))
    } else {
        match varint_prefix(s.skip(1), (limit - 1) as nat) {
            Ok((v, n)) => Ok(((s[0] - 128 + 128 * v) as nat, n + 1)),
            Err(e) => Err(e),
        }
    }
}

/// The 64-bit integer that stands at the front of `s`, and the number of
/// bytes it takes. Ten bytes can hold more than 64 bits: such a value is
/// invalid.
pub open spec fn decode_u64(s: Seq<u8>) -> Result<(u64, nat), DecodeError> {
    match varint_prefix(s, MAX_VARINT_LEN as nat) {
        Ok((v, n)) => if v <= u64::MAX {
            Ok((v as u64, n))
        } else {
            Err(DecodeError::InvalidVarint)
        },
        Err(e) => Err(e),
    }
}

/// 128 to the power of `n`.
pub open spec fn pow128(n: nat) -> nat
    decreases n,
{
    if n == 0 {
        1
    } else {
        128 * pow128((n - 1) as nat)
    }
}

/// Powers of 128 are positive and grow with the exponent.
pub proof fn lemma_pow128_monotonic(a: nat, b: nat)
    requires
        a <= b,
    ensures
        0 < pow128(a) <= pow128(b),
    decreases b,
{
    reveal_with_fuel(pow128, 2);
    if a < b {
        lemma_pow128_monotonic(a, (b - 1) as nat);
    } else if a > 0 {
        lemma_pow128_monotonic((a - 1) as nat, (a - 1) as nat);
    }
}

/// Nine bytes hold under 2^63 and ten bytes under 2^70.
pub proof fn lemma_pow128_bounds(n: nat)
    requires
        n <= 10,
    ensures
        0 < pow128(n) <= 0x40_0000_0000_0000_0000,
        n <= 9 ==> pow128(n) <= 0x8000_0000_0000_0000,
{
    assert(pow128(9) == 0x8000_0000_0000_0000 && pow128(10) == 0x40_0000_0000_0000_0000) by {
        reveal_with_fuel(pow128, 11);
    }
    lemma_pow128_monotonic(n, 10);
    if n <= 9 {
        lemma_pow128_monotonic(n, 9);
    }
}

/// An encoding is never empty, and a value below 128^k takes at most `k`
/// bytes.
pub proof fn lemma_varint_len(v: nat, k: nat)
    requires
        k >= 1,
        v < pow128(k),
    ensures
        1 <= varint_bytes(v).len() <= k,
    decreases k,
{
    reveal_with_fuel(pow128, 2);
    if v >= 128 {
        if k == 1 {
            assert(pow128(1) == 128);
        } else {
            lemma_varint_len(v / 128, (k - 1) as nat);
        }
    }
}

/// Every 64-bit value takes between one and ten bytes.
pub proof fn lemma_varint_len_u64(v: u64)
    ensures
        1 <= varint_bytes(v as nat).len() <= MAX_VARINT_LEN,
{
    assert(pow128(10) == 0x40_0000_0000_0000_0000) by {
        reveal_with_fuel(pow128, 11);
    }
    lemma_varint_len(v as nat, 10);
}

/// What was read is never more than what stands there, and its value is
/// below 128 to the number of bytes read.
pub proof fn lemma_varint_prefix_bounds(s: Seq<u8>, limit: nat)
    ensures
        match varint_prefix(s, limit) {
            Ok((v, n)) => 1 <= n <= limit && n <= s.len() && v < pow128(n),
            Err(_) => true,
        },
    decreases limit,
{
    reveal_with_fuel(pow128, 2);
    if limit > 0 && s.len() > 0 && s[0] >= 128 {
        lemma_varint_prefix_bounds(s.skip(1), (limit - 1) as nat);
    }
}

/// Reading gives back what was written, whatever follows it.
pub proof fn lemma_varint_roundtrip(v: nat, rest: Seq<u8>, limit: nat)
    requires
        varint_bytes(v).len() <= limit,
    ensures
        varint_prefix(varint_bytes(v) + rest, limit) == Ok::<(nat, nat), DecodeError>(
            (v, varint_bytes(v).len()),
        ),
    decreases v,
{
    let s = varint_bytes(v) + rest;
    if v < 128 {
        assert(s[0] == v as u8);
    } else {
        assert(s[0] == (v % 128 + 128) as u8);
        assert(s.skip(1) =~= varint_bytes(v / 128) + rest);
        lemma_varint_roundtrip(v / 128, rest, (limit - 1) as nat);
    }
}

/// A 64-bit value that was written is read back, whatever follows it.
pub proof fn lemma_u64_roundtrip(v: u64, rest: Seq<u8>)
    ensures
        decode_u64(varint_bytes(v as nat) + rest) == Ok::<(u64, nat), DecodeError>(
            (v, varint_bytes(v as nat).len()),
        ),
{
    lemma_varint_len_u64(v);
    lemma_varint_roundtrip(v as nat, rest, MAX_VARINT_LEN as nat);
}

/// Appends the encoding of `v` to `out`.
pub fn write_varint(out: &mut Vec<u8>, v: u64)
    ensures
        final(out)@ == old(out)@ + varint_bytes(v as nat),
{
    let mut left: u64 = v;
    while left >= 128
        invariant
            out@ + varint_bytes(left as nat) == old(out)@ + varint_bytes(v as nat),
        decreases left,
    {
        let ghost before = out@;
        out.push((left % 128 + 128) as u8);
        assert(out@ + varint_bytes((left / 128) as nat) =~= before + varint_bytes(left as nat));
        left = left / 128;
    }
    let ghost before = out@;
    out.push(left as u8);
    assert(out@ =~= before + varint_bytes(left as nat));
}

/// The encoding of `v`.
pub fn encode_varint(v: u64) -> (bytes: Vec<u8>)
    ensures
        bytes@ == varint_bytes(v as nat),
{
    let mut bytes: Vec<u8> = Vec::new();
    write_varint(&mut bytes, v);
    assert(bytes@ =~= varint_bytes(v as nat));
    bytes
}

/// The number of bytes that the encoding of `v` takes.
pub fn varint_len(v: u64) -> (n: usize)
    ensures
        n == varint_bytes(v as nat).len(),
        1 <= n <= MAX_VARINT_LEN,
{
    proof {
        lemma_varint_len_u64(v);
    }
    let mut left: u64 = v;
    let mut n: usize = 1;
    while left >= 128
        invariant
            n + varint_bytes(left as nat).len() == 1 + varint_bytes(v as nat).len(),
            varint_bytes(v as nat).len() <= MAX_VARINT_LEN,
            1 <= varint_bytes(left as nat).len(),
        decreases left,
    {
        proof {
            lemma_varint_len_u64(left / 128);
        }
        left = left / 128;
        n = n + 1;
    }
    n
}

/// Reads at most `limit` bytes of `buf` from `pos` on as one integer.
fn read_prefix(buf: &[u8], pos: usize, limit: usize) -> (r: Result<(u128, usize), DecodeError>)
    requires
        pos <= buf.len(),
        limit <= 10,
    ensures
        match r {
            Ok((v, n)) => varint_prefix(buf@.skip(pos as int), limit as nat) == Ok::<
                (nat, nat),
                DecodeError,
            >((v as nat, n as nat)) && pos + n <= buf.len() && v < pow128(n as nat) && n <= limit,
            Err(e) => varint_prefix(buf@.skip(pos as int), limit as nat) == Err::<
                (nat, nat),
                DecodeError,
            >(e),
        },
    decreases limit,
{
    if limit == 0 {
        return Err(DecodeError::InvalidVarint);
    }
    if pos >= buf.len() {
        return Err(DecodeError::Truncated);
    }
    let b: u8 = buf[pos];
    assert(buf@.skip(pos as int)[0] == b);
    proof {
        reveal_with_fuel(pow128, 2);
    }
    if b < 128 {
        return Ok((b as u128, 1));
    }
    assert(buf@.skip(pos as int).skip(1) =~= buf@.skip(pos + 1));
    match read_prefix(buf, pos + 1, limit - 1) {
        Ok((v, n)) => {
            proof {
                lemma_pow128_bounds(n as nat);
            }
            Ok(((b - 128) as u128 + 128 * v, n + 1))
        },
        Err(e) => Err(e),
    }
}

/// Reads the 64-bit integer that stands in `buf` at `pos`: its value and
/// the number of bytes it takes.
pub(crate) fn read_varint(buf: &[u8], pos: usize) -> (r: Result<(u64, usize), DecodeError>)
    requires
        pos <= buf.len(),
    ensures
        match r {
            Ok((v, n)) => decode_u64(buf@.skip(pos as int)) == Ok::<(u64, nat), DecodeError>(
                (v, n as nat),
            ) && 1 <= n <= MAX_VARINT_LEN && pos + n <= buf.len(),
            Err(e) => decode_u64(buf@.skip(pos as int)) == Err::<(u64, nat), DecodeError>(e),
        },
{
    match read_prefix(buf, pos, MAX_VARINT_LEN) {
        Ok((v, n)) => {
            proof {
                lemma_varint_prefix_bounds(buf@.skip(pos as int), MAX_VARINT_LEN as nat);
            }
            if v <= u64::MAX as u128 {
                Ok((v as u64, n))
            } else {
                Err(DecodeError::InvalidVarint)
            }
        },
        Err(e) => Err(e),
    }
}

/// Reads the 64-bit integer at the front of `bytes`: its value and the
/// number of bytes it takes.
pub fn decode_varint(bytes: &[u8]) -> (r: Result<(u64, usize), DecodeError>)
    ensures
        match r {
            Ok((v, n)) => decode_u64(bytes@) == Ok::<(u64, nat), DecodeError>((v, n as nat)),
            Err(e) => decode_u64(bytes@) == Err::<(u64, nat), DecodeError>(e),
        },
{
    assert(bytes@.skip(0) =~= bytes@);
    read_varint(bytes, 0)
}

} // verus!
