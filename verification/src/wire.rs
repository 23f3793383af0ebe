use vstd::prelude::*;

use crate::error::Error;
use crate::source::ByteSource;

verus! {

/// The value of a byte sequence read as a little-endian unsigned integer:
/// the first byte is the least significant.
pub open spec fn le_value(b: Seq<u8>) -> nat
    decreases b.len(),
{
    if b.len() == 0 {
        0
    } else {
        b[0] as nat + 256 * le_value(b.skip(1))
    }
}

/// 256 to the power `n`: the count of values a field of `n` bytes can hold.
pub open spec fn pow256(n: nat) -> nat
    decreases n,
{
    if n == 0 {
        1
    } else {
        256 * pow256((n - 1) as nat)
    }
}

/// The signed reading of an unsigned `w`-byte value: two's complement.
pub open spec fn signed_of(v: nat, w: nat) -> int {
    if 2 * v < pow256(w) {
        v as int
    } else {
        v as int - pow256(w) as int
    }
}

/// A `w`-byte field holds values below `pow256(w)`.
pub proof fn lemma_le_value_bound(b: Seq<u8>)
    ensures
        le_value(b) < pow256(b.len()),
    decreases b.len(),
{
    if b.len() > 0 {
        lemma_le_value_bound(b.skip(1));
    }
}

/// `pow256` grows with its argument.
pub proof fn lemma_pow256_increases(a: nat, b: nat)
    requires
        a <= b,
    ensures
        pow256(a) <= pow256(b),
    decreases b,
{
    if a < b && b > 0 {
        lemma_pow256_increases(a, (b - 1) as nat);
        assert(pow256(b) == 256 * pow256((b - 1) as nat));
    }
}

/// The unsigned reading an encoder gives a signed value in a `w`-byte
/// field: two's complement.
pub open spec fn unsigned_of(m: int, w: nat) -> nat {
    if m >= 0 {
        m as nat
    } else {
        (m + pow256(w)) as nat
    }
}

/// The little-endian bytes an encoder emits for value `v` in a field of
/// `w` bytes: the least significant byte first.
pub open spec fn le_bytes_of(v: nat, w: nat) -> Seq<u8>
    decreases w,
{
    if w == 0 {
        Seq::empty()
    } else {
        seq![(v % 256) as u8] + le_bytes_of(v / 256, (w - 1) as nat)
    }
}

/// An encoded field is exactly `w` bytes long.
pub proof fn lemma_le_bytes_of_len(v: nat, w: nat)
    ensures
        le_bytes_of(v, w).len() == w,
    decreases w,
{
    if w > 0 {
        lemma_le_bytes_of_len(v / 256, (w - 1) as nat);
    }
}

/// Reading back an encoded field yields the value encoded: the two spec
/// functions are inverse on values that fit the field.
pub proof fn lemma_le_round_trip(v: nat, w: nat)
    requires
        v < pow256(w),
    ensures
        le_value(le_bytes_of(v, w)) == v,
    decreases w,
{
    if w > 0 {
        vstd::arithmetic::div_mod::lemma_fundamental_div_mod(v as int, 256);
        assert(v / 256 < pow256((w - 1) as nat)) by {
            assert(pow256(w) == 256 * pow256((w - 1) as nat));
            assert(256 * (v / 256) <= v);
        }
        lemma_le_round_trip(v / 256, (w - 1) as nat);
        assert(le_bytes_of(v, w).skip(1) =~= le_bytes_of(v / 256, (w - 1) as nat));
    }
}

/// Read `n` bytes and combine them as a little-endian unsigned integer.
///
/// Consumes exactly `n` bytes on success; consumes nothing and fails with
/// `UnexpectedEof` when fewer than `n` bytes remain.
pub fn read_le(input: &mut ByteSource, n: usize) -> (r: Result<u128, Error>)
    requires
        n <= 16,
    ensures
        n > old(input)@.len() ==> r == Err::<u128, Error>(Error::UnexpectedEof)
            && final(input)@ == old(input)@,
        n <= old(input)@.len() ==> {
            &&& r is Ok
            &&& r->Ok_0 as nat == le_value(old(input)@.take(n as int))
            &&& final(input)@ == old(input)@.skip(n as int)
        },
{
    let bytes = match input.read_exact(n) {
        Ok(b) => b,
        Err(e) => {
            return Err(e);
        },
    };
    let mut acc: u128 = 0;
    let mut i: usize = n;
    while i > 0
        invariant
            i <= n <= 16,
            bytes@.len() == n,
            acc as nat == le_value(bytes@.skip(i as int)),
        decreases i,
    {
        proof {
            let tail = bytes@.skip(i - 1);
            assert(tail.len() == n - i + 1);
            assert(tail[0] == bytes@[i - 1]);
            assert(tail.skip(1) =~= bytes@.skip(i as int));
            lemma_le_value_bound(tail);
            lemma_pow256_increases(tail.len(), 16);
            assert(pow256(16) == 0x100000000000000000000000000000000) by {
                reveal_with_fuel(pow256, 17);
            }
            assert(tail[0] as nat + 256 * (acc as nat) < pow256(16));
        }
        acc = acc * 256 + (bytes[i - 1] as u128);
        i = i - 1;
    }
    proof {
        assert(bytes@.skip(0) =~= bytes@);
    }
    Ok(acc)
}

/// Read `n` bytes as a little-endian two's-complement signed integer.
pub fn read_le_signed(input: &mut ByteSource, n: usize) -> (r: Result<i128, Error>)
    requires
        n == 1 || n == 2 || n == 4 || n == 8 || n == 16,
    ensures
        n > old(input)@.len() ==> r == Err::<i128, Error>(Error::UnexpectedEof)
            && final(input)@ == old(input)@,
        n <= old(input)@.len() ==> {
            &&& r is Ok
            &&& r->Ok_0 as int == signed_of(le_value(old(input)@.take(n as int)), n as nat)
            &&& final(input)@ == old(input)@.skip(n as int)
        },
{
    let v = match read_le(input, n) {
        Ok(v) => v,
        Err(e) => {
            return Err(e);
        },
    };
    let half: u128 = match n {
        1 => 0x80,
        2 => 0x8000,
        4 => 0x80000000,
        8 => 0x8000000000000000,
        _ => 0x80000000000000000000000000000000,
    };
    proof {
        assert(2 * (half as nat) == pow256(n as nat) && le_value(old(input)@.take(n as int))
            < pow256(n as nat)) by {
            lemma_le_value_bound(old(input)@.take(n as int));
            reveal_with_fuel(pow256, 17);
            assert(pow256(16) == 0x100000000000000000000000000000000);
        }
    }
    if v < half {
        Ok(v as i128)
    } else if n < 16 {
        Ok((v as i128) - ((half + half) as i128))
    } else {
        Ok(((v - half) as i128) + i128::MIN)
    }
}

} // verus!
