//! The wire encoding of primitive values: fixed-width little-endian
//! integers, booleans, and variable-length unsigned integers.

use vstd::prelude::*;
use crate::error::ReadError;

verus! {

/// `256` to the power `n`.
pub open spec fn pow256(n: nat) -> nat
    decreases n,
{
    if n == 0 {
        1
    } else {
        256 * pow256((n - 1) as nat)
    }
}

/// `128` to the power `n`.
pub open spec fn pow128(n: nat) -> nat
    decreases n,
{
    if n == 0 {
        1
    } else {
        128 * pow128((n - 1) as nat)
    }
}

/// The `n` low-order base-256 digits of `x`, least significant first.
pub open spec fn le_bytes(x: nat, n: nat) -> Seq<u8>
    decreases n,
{
    if n == 0 {
        Seq::empty()
    } else {
        seq![(x % 256) as u8] + le_bytes(x / 256, (n - 1) as nat)
    }
}

/// The number whose base-256 digits, least significant first, are `bytes`.
pub open spec fn le_value(bytes: Seq<u8>) -> nat
    decreases bytes.len(),
{
    if bytes.len() == 0 {
        0
    } else {
        bytes[0] as nat + 256 * le_value(bytes.skip(1))
    }
}

/// The variable-length form of `x`: groups of seven bits, least significant
/// first, the high bit set on every byte but the last.
pub open spec fn varint(x: nat) -> Seq<u8>
    decreases x,
{
    if x < 128 {
        seq![x as u8]
    } else {
        seq![(x % 128 + 128) as u8] + varint(x / 128)
    }
}

/// The number of bytes in the variable-length form of `x`.
pub open spec fn varint_len(x: nat) -> nat
    decreases x,
{
    if x < 128 {
        1
    } else {
        1 + varint_len(x / 128)
    }
}

/// Reads seven-bit groups from the front of `s`, at most `budget` of them.
/// Gives the number they spell and how many bytes were read.
pub open spec fn varint_groups(s: Seq<u8>, budget: nat) -> Result<(nat, nat), ReadError>
    decreases budget,
{
    if budget == 0 {
        Err(ReadError::MalformedVarint)
    } else if s.len() == 0 {
        Err(ReadError::Underrun)
    } else if s[0] < 128 {
        Ok((s[0] as nat, 1))
    } else {
        match varint_groups(s.skip(1), (budget - 1) as nat) {
            Ok((high, used)) => Ok(((s[0] - 128) as nat + 128 * high, used + 1)),
            Err(e) => Err(e),
        }
    }
}

/// The widest variable-length integer: ten bytes carry 64 bits.
pub open spec fn max_varint_bytes() -> nat {
    10
}

/// Decodes a variable-length unsigned integer from the front of `s`.
pub open spec fn parse_varint(s: Seq<u8>) -> Result<(u64, nat), ReadError> {
    match varint_groups(s, max_varint_bytes()) {
        Ok((x, used)) => if x <= u64::MAX {
            Ok((x as u64, used))
        } else {
            Err(ReadError::MalformedVarint)
        },
        Err(e) => Err(e),
    }
}

/// What is left of `bytes` from offset `pos` on; nothing when `pos` lies
/// beyond the end.
pub open spec fn remaining(bytes: Seq<u8>, pos: int) -> Seq<u8> {
    if 0 <= pos <= bytes.len() {
        bytes.skip(pos)
    } else {
        Seq::empty()
    }
}

pub proof fn lemma_pow256_table()
    ensures
        pow256(0) == 1,
        pow256(1) == 0x100,
        pow256(2) == 0x1_0000,
        pow256(3) == 0x100_0000,
        pow256(4) == 0x1_0000_0000,
        pow256(5) == 0x100_0000_0000,
        pow256(6) == 0x1_0000_0000_0000,
        pow256(7) == 0x100_0000_0000_0000,
        pow256(8) == 0x1_0000_0000_0000_0000,
{
    reveal_with_fuel(pow256, 10);
}

pub proof fn lemma_pow128_table()
    ensures
        pow128(0) == 1,
        pow128(1) == 0x80,
        pow128(2) == 0x4000,
        pow128(3) == 0x20_0000,
        pow128(4) == 0x1000_0000,
        pow128(5) == 0x8_0000_0000,
        pow128(6) == 0x400_0000_0000,
        pow128(7) == 0x2_0000_0000_0000,
        pow128(8) == 0x100_0000_0000_0000,
        pow128(9) == 0x8000_0000_0000_0000,
        pow128(10) == 0x40_0000_0000_0000_0000,
{
    reveal_with_fuel(pow128, 12);
}

/// `le_bytes(x, n)` has exactly `n` bytes.
pub proof fn lemma_le_bytes_len(x: nat, n: nat)
    ensures
        le_bytes(x, n).len() == n,
    decreases n,
{
    if n > 0 {
        lemma_le_bytes_len(x / 256, (n - 1) as nat);
    }
}

/// The value of a byte string is below `256` to the power of its length.
pub proof fn lemma_le_value_bound(s: Seq<u8>)
    ensures
        le_value(s) < pow256(s.len()),
    decreases s.len(),
{
    if s.len() > 0 {
        lemma_le_value_bound(s.skip(1));
    }
}

/// Reading back the `n` little-endian bytes of a number that fits in them
/// gives the number.
pub proof fn lemma_le_value_of_bytes(x: nat, n: nat)
    requires
        x < pow256(n),
    ensures
        le_value(le_bytes(x, n)) == x,
    decreases n,
{
    if n > 0 {
        let s = le_bytes(x, n);
        assert(s.skip(1) =~= le_bytes(x / 256, (n - 1) as nat));
        lemma_le_value_of_bytes(x / 256, (n - 1) as nat);
    }
}

/// The variable-length form of `x` has `varint_len(x)` bytes.
pub proof fn lemma_varint_len(x: nat)
    ensures
        varint(x).len() == varint_len(x),
    decreases x,
{
    if x >= 128 {
        lemma_varint_len(x / 128);
    }
}

/// A number below `128` to the power `k` takes at most `k` groups.
pub proof fn lemma_varint_len_bound(x: nat, k: nat)
    requires
        k >= 1,
        x < pow128(k),
    ensures
        1 <= varint_len(x) <= k,
    decreases x,
{
    if x >= 128 {
        if k == 1 {
            reveal_with_fuel(pow128, 2);
        } else {
            lemma_varint_len_bound(x / 128, (k - 1) as nat);
        }
    }
}

/// Reading the groups of an encoded number gives the number back, whatever
/// follows it in the buffer.
pub proof fn lemma_varint_groups_of_encoding(x: nat, rest: Seq<u8>, budget: nat)
    requires
        budget >= 1,
        x < pow128(budget),
    ensures
        varint_groups(varint(x) + rest, budget) == Ok::<(nat, nat), ReadError>(
            (x, varint_len(x)),
        ),
    decreases x,
{
    let s = varint(x) + rest;
    if x >= 128 {
        if budget == 1 {
            reveal_with_fuel(pow128, 2);
        } else {
            assert(s.skip(1) =~= varint(x / 128) + rest);
            lemma_varint_groups_of_encoding(x / 128, rest, (budget - 1) as nat);
        }
    }
}

/// Reading the groups of a cut-off encoding runs out of bytes.
pub proof fn lemma_varint_groups_truncated(x: nat, n: nat, budget: nat)
    requires
        budget >= 1,
        x < pow128(budget),
        n < varint_len(x),
    ensures
        varint_groups(varint(x).take(n as int), budget) == Err::<(nat, nat), ReadError>(
            ReadError::Underrun,
        ),
    decreases x,
{
    let s = varint(x).take(n as int);
    lemma_varint_len(x);
    if n > 0 {
        if budget == 1 {
            reveal_with_fuel(pow128, 2);
        } else {
            lemma_varint_len(x / 128);
            assert(s.skip(1) =~= varint(x / 128).take(n - 1));
            lemma_varint_groups_truncated(x / 128, (n - 1) as nat, (budget - 1) as nat);
        }
    }
}

/// A variable-length integer that decodes took at least one byte and none
/// beyond the end of the buffer.
pub proof fn lemma_varint_groups_used(s: Seq<u8>, budget: nat)
    ensures
        match varint_groups(s, budget) {
            Ok((_, used)) => 1 <= used <= s.len(),
            Err(_) => true,
        },
    decreases budget,
{
    if budget > 0 && s.len() > 0 && s[0] >= 128 {
        lemma_varint_groups_used(s.skip(1), (budget - 1) as nat);
    }
}

/// Decoding the variable-length form of a 64-bit number gives it back.
pub proof fn lemma_parse_varint_of_encoding(x: u64, rest: Seq<u8>)
    ensures
        parse_varint(varint(x as nat) + rest) == Ok::<(u64, nat), ReadError>(
            (x, varint_len(x as nat)),
        ),
        1 <= varint_len(x as nat) <= 10,
{
    lemma_pow128_table();
    lemma_varint_groups_of_encoding(x as nat, rest, 10);
    lemma_varint_len_bound(x as nat, 10);
}

/// Decoding a cut-off variable-length integer reports an underrun.
pub proof fn lemma_parse_varint_truncated(x: u64, n: nat)
    requires
        n < varint_len(x as nat),
    ensures
        parse_varint(varint(x as nat).take(n as int)) == Err::<(u64, nat), ReadError>(
            ReadError::Underrun,
        ),
{
    lemma_pow128_table();
    lemma_varint_groups_truncated(x as nat, n, 10);
}

/// Appends the `n` low-order bytes of `x`, least significant first.
pub fn put_le(out: &mut Vec<u8>, x: u64, n: usize)
    requires
        n <= 8,
        old(out)@.len() + n <= usize::MAX,
    ensures
        final(out)@ == old(out)@ + le_bytes(x as nat, n as nat),
{
    let ghost start = out@;
    let mut rest: u64 = x;
    let mut i: usize = 0;
    while i < n
        invariant
            i <= n,
            start + le_bytes(x as nat, n as nat) == out@ + le_bytes(rest as nat, (n - i) as nat),
        decreases n - i,
    {
        let ghost before = out@;
        let low: u8 = (rest % 256) as u8;
        out.push(low);
        proof {
            let tail = le_bytes((rest / 256) as nat, (n - i - 1) as nat);
            assert(before + (seq![low] + tail) =~= before.push(low) + tail);
        }
        rest = rest / 256;
        i = i + 1;
    }
    assert(out@ + le_bytes(rest as nat, 0) =~= out@);
}

/// Reads the `n` bytes at offset `at` as a little-endian number.
pub fn get_le(bytes: &[u8], at: usize, n: usize) -> (r: u64)
    requires
        n <= 8,
        at + n <= bytes@.len(),
    ensures
        r as nat == le_value(bytes@.subrange(at as int, at + n)),
{
    let mut acc: u64 = 0;
    let mut k: usize = n;
    let len: usize = bytes.len();
    while k > 0
        invariant
            k <= n,
            n <= 8,
            at + n <= len,
            len == bytes@.len(),
            acc as nat == le_value(bytes@.subrange(at + k, at + n)),
        decreases k,
    {
        k = k - 1;
        proof {
            let s = bytes@.subrange(at + k, at + n);
            assert(s.skip(1) =~= bytes@.subrange(at + k + 1, at + n));
            lemma_le_value_bound(s);
            lemma_pow256_table();
        }
        acc = acc * 256 + bytes[at + k] as u64;
    }
    acc
}

/// `buffer`, grown with zero bytes where it ends before offset `at`.
pub open spec fn padded_to(buffer: Seq<u8>, at: nat) -> Seq<u8> {
    if at > buffer.len() {
        buffer + Seq::new((at - buffer.len()) as nat, |i: int| 0u8)
    } else {
        buffer
    }
}

/// `buffer` with `data` written over the region that starts at offset `at`.
/// The buffer grows as far as the region reaches; every byte outside the
/// region stays as it was.
pub open spec fn overwritten(buffer: Seq<u8>, at: nat, data: Seq<u8>) -> Seq<u8> {
    let base = padded_to(buffer, at);
    let end = at + data.len();
    Seq::new(
        if end > base.len() {
            end
        } else {
            base.len()
        },
        |k: int|
            if at <= k < end {
                data[k - at]
            } else {
                base[k]
            },
    )
}

/// Writing at the end of a buffer appends.
pub proof fn lemma_overwritten_at_end(buffer: Seq<u8>, data: Seq<u8>)
    ensures
        overwritten(buffer, buffer.len(), data) == buffer + data,
{
    assert(overwritten(buffer, buffer.len(), data) =~= buffer + data);
}

/// Writes `data` over the region of `buffer` that starts at offset `at`,
/// and gives the offset just past the region.
pub fn put_at(buffer: &mut Vec<u8>, at: usize, data: &Vec<u8>) -> (end: usize)
    requires
        at + data@.len() <= usize::MAX,
    ensures
        final(buffer)@ == overwritten(old(buffer)@, at as nat, data@),
        end == at + data@.len(),
{
    let ghost before = buffer@;
    while buffer.len() < at
        invariant
            before.len() <= buffer@.len(),
            buffer@.len() > before.len() ==> buffer@.len() <= at,
            forall|k: int| 0 <= k < before.len() ==> buffer@[k] == before[k],
            forall|k: int| before.len() <= k < buffer@.len() ==> buffer@[k] == 0u8,
        decreases at - buffer.len(),
    {
        buffer.push(0);
    }
    let ghost base = buffer@;
    assert(base =~= padded_to(before, at as nat));
    let mut i: usize = 0;
    while i < data.len()
        invariant
            i <= data.len(),
            at <= base.len(),
            buffer@.len() == if at + i > base.len() {
                at + i
            } else {
                base.len() as int
            },
            forall|k: int|
                0 <= k < buffer@.len() ==> buffer@[k] == if at <= k < at + i {
                    data@[k - at]
                } else {
                    base[k]
                },
        decreases data.len() - i,
    {
        let len: usize = buffer.len();
        assert(at + i <= len);
        let k: usize = at + i;
        if k < len {
            buffer.set(k, data[i]);
        } else {
            buffer.push(data[i]);
        }
        i = i + 1;
    }
    assert(buffer@ =~= overwritten(before, at as nat, data@));
    let len: usize = buffer.len();
    assert(at + data@.len() <= len);
    at + data.len()
}

/// Appends the bytes of `src`.
pub fn put_bytes(out: &mut Vec<u8>, src: &Vec<u8>)
    requires
        old(out)@.len() + src@.len() <= usize::MAX,
    ensures
        final(out)@ == old(out)@ + src@,
{
    let ghost start = out@;
    let mut i: usize = 0;
    while i < src.len()
        invariant
            i <= src.len(),
            out@ == start + src@.take(i as int),
        decreases src.len() - i,
    {
        out.push(src[i]);
        assert(start + src@.take(i + 1) =~= (start + src@.take(i as int)).push(src@[i as int]));
        i = i + 1;
    }
    assert(src@.take(src.len() as int) =~= src@);
}

/// Appends the variable-length form of `x`.
pub fn put_varint(out: &mut Vec<u8>, x: u64)
    requires
        old(out)@.len() + varint_len(x as nat) <= usize::MAX,
    ensures
        final(out)@ == old(out)@ + varint(x as nat),
{
    let ghost start = out@;
    let mut rest: u64 = x;
    while rest >= 128
        invariant
            start + varint(x as nat) == out@ + varint(rest as nat),
        decreases rest,
    {
        let ghost before = out@;
        let low: u8 = (rest % 128 + 128) as u8;
        out.push(low);
        proof {
            let tail = varint((rest / 128) as nat);
            assert(before + (seq![low] + tail) =~= before.push(low) + tail);
        }
        rest = rest / 128;
    }
    let ghost before = out@;
    out.push(rest as u8);
    assert(before + seq![rest as u8] =~= before.push(rest as u8));
}

/// The number of bytes that the variable-length form of `x` takes.
pub fn varint_size(x: u64) -> (r: usize)
    ensures
        r == varint_len(x as nat),
        1 <= r <= 10,
{
    let mut rest: u64 = x;
    let mut count: usize = 1;
    proof {
        lemma_pow128_table();
        lemma_varint_len_bound(x as nat, 10);
    }
    while rest >= 128
        invariant
            varint_len(x as nat) == (count - 1) + varint_len(rest as nat),
            varint_len(x as nat) <= 10,
            count >= 1,
        decreases rest,
    {
        rest = rest / 128;
        count = count + 1;
    }
    count
}

/// Combines the groups read so far with what the rest of the buffer gives.
pub open spec fn with_low_groups(
    low: nat,
    scale: nat,
    read: nat,
    rest: Result<(nat, nat), ReadError>,
) -> Result<(nat, nat), ReadError> {
    match rest {
        Ok((high, used)) => Ok((low + scale * high, used + read)),
        Err(e) => Err(e),
    }
}

/// Decodes a variable-length unsigned integer at the cursor and moves the
/// cursor past it.  On an error the cursor stays where it was.
pub fn get_varint(bytes: &[u8], pos: &mut usize) -> (r: Result<u64, ReadError>)
    ensures
        match parse_varint(remaining(bytes@, *old(pos) as int)) {
            Ok((x, used)) => r == Ok::<u64, ReadError>(x) && *final(pos) == *old(pos) + used
                && *final(pos) <= bytes@.len(),
            Err(e) => r == Err::<u64, ReadError>(e) && *final(pos) == *old(pos),
        },
{
    let ghost input = remaining(bytes@, *pos as int);
    let start: usize = *pos;
    let mut acc: u128 = 0;
    let mut scale: u128 = 1;
    let mut i: usize = 0;
    let mut at: usize = start;
    proof {
        lemma_pow128_table();
        assert(input.skip(0) =~= input);
    }
    loop
        invariant
            i <= 10,
            scale == pow128(i as nat),
            acc < scale,
            start == *pos,
            start == *old(pos),
            input == remaining(bytes@, start as int),
            start <= bytes@.len() ==> at == start + i,
            start > bytes@.len() ==> at == start && i == 0,
            i <= input.len(),
            varint_groups(input, 10) == with_low_groups(
                acc as nat,
                scale as nat,
                i as nat,
                varint_groups(input.skip(i as int), (10 - i) as nat),
            ),
        decreases 10 - i,
    {
        if i == 10 {
            return Err(ReadError::MalformedVarint);
        }
        if at >= bytes.len() {
            return Err(ReadError::Underrun);
        }
        let b: u8 = bytes[at];
        proof {
            lemma_pow128_table();
            assert(input.skip(i as int)[0] == b);
            assert(input.skip(i as int).skip(1) =~= input.skip(i + 1));
        }
        if b < 128 {
            assert(scale * (b as u128) <= 0x8000_0000_0000_0000 * 127) by (nonlinear_arith)
                requires
                    scale <= 0x8000_0000_0000_0000,
                    b < 128,
            ;
            let value: u128 = acc + scale * (b as u128);
            if value > u64::MAX as u128 {
                return Err(ReadError::MalformedVarint);
            }
            *pos = at + 1;
            return Ok(value as u64);
        }
        let group: u128 = (b - 128) as u128;
        assert(scale * group <= scale * 127 && scale * 128 == scale * 127 + scale && scale * 127
            <= 0x8000_0000_0000_0000 * 127) by (nonlinear_arith)
            requires
                scale <= 0x8000_0000_0000_0000,
                group <= 127,
        ;
        proof {
            let next = varint_groups(input.skip(i + 1), (10 - i - 1) as nat);
            match next {
                Ok((high, used)) => {
                    assert(acc + scale * (group + 128 * high) == (acc + scale * group) + (scale
                        * 128) * high) by (nonlinear_arith);
                },
                Err(_) => {},
            }
        }
        acc = acc + scale * group;
        scale = scale * 128;
        i = i + 1;
        at = at + 1;
    }
}

} // verus!
