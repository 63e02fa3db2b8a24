//! Variable-length unsigned integers.
//!
//! A number is written seven bits to a byte, the least significant group
//! first. The high bit of a byte says that another byte follows. The writer
//! always uses the fewest bytes; the reader also accepts padded forms and
//! keeps the low bits that fit the target width.

use vstd::prelude::*;

verus! {

/// Most bytes a 32-bit number may take.
pub const MAX_LEN_U32: usize = 5;

/// Most bytes a 64-bit number may take.
pub const MAX_LEN_U64: usize = 10;

/// The seven payload bits of a byte.
pub open spec fn low7(b: u8) -> nat {
    (b % 128) as nat
}

/// `128` to the power `n`.
pub open spec fn radix_pow(n: nat) -> nat
    decreases n,
{
    if n == 0 {
        1
    } else {
        128 * radix_pow((n - 1) as nat)
    }
}

/// Value of a string of base-128 digits, least significant first. Only the
/// payload bits of each byte count.
pub open spec fn base128(digits: Seq<u8>) -> nat
    decreases digits.len(),
{
    if digits.len() == 0 {
        0
    } else {
        low7(digits[0]) + 128 * base128(digits.drop_first())
    }
}

/// Number of bytes that the number at the front of `bytes` takes: the place
/// of the first byte without the high bit, counted from one. `None` when
/// none of the first `max` bytes is such a byte.
pub open spec fn varint_len(bytes: Seq<u8>, max: nat) -> Option<nat>
    decreases max,
{
    if max == 0 || bytes.len() == 0 {
        None
    } else if bytes[0] < 0x80 {
        Some(1nat)
    } else {
        match varint_len(bytes.drop_first(), (max - 1) as nat) {
            Some(n) => Some(n + 1),
            None => None,
        }
    }
}

/// The 64-bit number at the front of `bytes` and the number of bytes it takes.
#[verifier::opaque]
pub open spec fn decode_u64(bytes: Seq<u8>) -> Option<(u64, nat)> {
    match varint_len(bytes, MAX_LEN_U64 as nat) {
        Some(n) => Some(((base128(bytes.take(n as int)) % 0x1_0000_0000_0000_0000) as u64, n)),
        None => None,
    }
}

/// The 32-bit number at the front of `bytes` and the number of bytes it takes.
#[verifier::opaque]
pub open spec fn decode_u32(bytes: Seq<u8>) -> Option<(u32, nat)> {
    match varint_len(bytes, MAX_LEN_U32 as nat) {
        Some(n) => Some(((base128(bytes.take(n as int)) % 0x1_0000_0000) as u32, n)),
        None => None,
    }
}

/// The bytes that stand for `value`, as few as possible.
pub open spec fn encode(value: nat) -> Seq<u8>
    decreases value,
{
    if value < 128 {
        seq![value as u8]
    } else {
        seq![(value % 128 + 128) as u8] + encode(value / 128)
    }
}

/// Appending a digit adds it at the next power of the radix.
pub proof fn lemma_base128_push(digits: Seq<u8>, b: u8)
    ensures
        base128(digits.push(b)) == base128(digits) + low7(b) * radix_pow(digits.len()),
    decreases digits.len(),
{
    let whole = digits.push(b);
    if digits.len() == 0 {
        assert(whole.drop_first() =~= Seq::<u8>::empty());
        assert(base128(whole) == low7(b) + 128 * base128(whole.drop_first()));
        assert(radix_pow(0) == 1);
        assert(low7(b) * radix_pow(0) == low7(b));
    } else {
        let rest = digits.drop_first();
        assert(whole.drop_first() =~= rest.push(b));
        assert(whole[0] == digits[0]);
        lemma_base128_push(rest, b);
        let p = radix_pow(rest.len());
        assert(radix_pow(digits.len()) == 128 * p);
        assert(128 * (low7(b) * p) == low7(b) * (128 * p)) by (nonlinear_arith);
        assert(base128(whole) == low7(digits[0]) + 128 * base128(rest.push(b)));
    }
}

/// A number ends at the first byte without the high bit: skipping `i` bytes
/// that all have it leaves a number that is `i` bytes shorter.
pub proof fn lemma_varint_len_skip(bytes: Seq<u8>, max: nat, i: nat)
    requires
        i <= bytes.len(),
        i <= max,
        forall|j: int| 0 <= j < i ==> bytes[j] >= 0x80,
    ensures
        varint_len(bytes, max) == match varint_len(bytes.skip(i as int), (max - i) as nat) {
            Some(n) => Some(n + i),
            None => None,
        },
    decreases i,
{
    if i == 0 {
        assert(bytes.skip(0) =~= bytes);
    } else {
        let rest = bytes.drop_first();
        assert forall|j: int| 0 <= j < i - 1 implies rest[j] >= 0x80 by {
            assert(rest[j] == bytes[j + 1]);
        }
        lemma_varint_len_skip(rest, (max - 1) as nat, (i - 1) as nat);
        assert(rest.skip(i - 1) =~= bytes.skip(i as int));
    }
}

/// What the length of a number says of the bytes it covers.
pub proof fn lemma_varint_len_shape(bytes: Seq<u8>, max: nat)
    ensures
        match varint_len(bytes, max) {
            Some(n) => {
                &&& 1 <= n <= max
                &&& n <= bytes.len()
                &&& bytes[n - 1] < 0x80
                &&& forall|j: int| 0 <= j < n - 1 ==> bytes[j] >= 0x80
            },
            None => forall|j: int| 0 <= j < bytes.len() && j < max ==> bytes[j] >= 0x80,
        },
    decreases max,
{
    if max == 0 || bytes.len() == 0 {
    } else if bytes[0] < 0x80 {
    } else {
        let rest = bytes.drop_first();
        lemma_varint_len_shape(rest, (max - 1) as nat);
        match varint_len(rest, (max - 1) as nat) {
            Some(n) => {
                assert forall|j: int| 0 <= j < n implies bytes[j] >= 0x80 by {
                    if j > 0 {
                        assert(bytes[j] == rest[j - 1]);
                    }
                }
            },
            None => {
                assert forall|j: int| 0 <= j < bytes.len() && j < max implies bytes[j] >= 0x80 by {
                    if j > 0 {
                        assert(bytes[j] == rest[j - 1]);
                    }
                }
            },
        }
    }
}

/// The bytes `[0, n)` have the shape of a number of `n` bytes, so that is
/// the number at the front.
pub proof fn lemma_varint_len_from_shape(bytes: Seq<u8>, max: nat, n: nat)
    requires
        1 <= n <= max,
        n <= bytes.len(),
        bytes[n - 1] < 0x80,
        forall|j: int| 0 <= j < n - 1 ==> bytes[j] >= 0x80,
    ensures
        varint_len(bytes, max) == Some(n),
{
    lemma_varint_len_skip(bytes, max, (n - 1) as nat);
    assert(bytes.skip(n - 1)[0] == bytes[n - 1]);
}

/// Bytes that are all marked as continued hold no complete number.
pub proof fn lemma_varint_len_unfinished(bytes: Seq<u8>, max: nat)
    requires
        forall|j: int| 0 <= j < bytes.len() && j < max ==> bytes[j] >= 0x80,
    ensures
        varint_len(bytes, max) is None,
{
    lemma_varint_len_shape(bytes, max);
}

/// Shape and value of the shortest form of a number.
pub proof fn lemma_encode_shape(value: nat)
    ensures
        encode(value).len() >= 1,
        encode(value).last() < 0x80,
        forall|j: int| 0 <= j < encode(value).len() - 1 ==> encode(value)[j] >= 0x80,
        base128(encode(value)) == value,
    decreases value,
{
    if value < 128 {
        assert(encode(value).drop_first() =~= Seq::<u8>::empty());
        assert(base128(encode(value).drop_first()) == 0);
        assert(base128(encode(value)) == low7(encode(value)[0]) + 128 * base128(
            encode(value).drop_first(),
        ));
    } else {
        let head = (value % 128 + 128) as u8;
        let tail = encode(value / 128);
        lemma_encode_shape(value / 128);
        let whole = encode(value);
        assert(whole == seq![head] + tail);
        assert(whole.drop_first() =~= tail);
        assert(whole[0] == head);
        assert(whole.last() == tail.last());
        assert forall|j: int| 0 <= j < whole.len() - 1 implies whole[j] >= 0x80 by {
            if j > 0 {
                assert(whole[j] == tail[j - 1]);
            }
        }
        assert(low7(head) == value % 128);
    }
}

/// A number below `128^k` takes at most `k` bytes.
pub proof fn lemma_encode_len(value: nat, k: nat)
    requires
        k >= 1,
        value < radix_pow(k),
    ensures
        encode(value).len() <= k,
    decreases k,
{
    if value >= 128 {
        assert(radix_pow(1) == 128) by {
            reveal_with_fuel(radix_pow, 2);
        }
        assert(k >= 2);
        assert(radix_pow(k) == 128 * radix_pow((k - 1) as nat));
        lemma_encode_len(value / 128, (k - 1) as nat);
    }
}

/// `128^5` and `128^10`, which bound the 32-bit and the 64-bit numbers.
pub proof fn lemma_radix_pow_values()
    ensures
        radix_pow(5) == 0x8_0000_0000,
        radix_pow(10) == 0x40_0000_0000_0000_0000,
{
    reveal_with_fuel(radix_pow, 11);
}

/// Reading what was written gives the number back, whatever follows it.
pub proof fn lemma_decode_u64_encode(value: u64, rest: Seq<u8>)
    ensures
        decode_u64(encode(value as nat) + rest) == Some((value, encode(value as nat).len())),
        1 <= encode(value as nat).len() <= MAX_LEN_U64,
{
    reveal(decode_u64);
    let v = value as nat;
    let e = encode(v);
    let all = e + rest;
    lemma_encode_shape(v);
    lemma_radix_pow_values();
    lemma_encode_len(v, 10);
    assert forall|j: int| 0 <= j < e.len() - 1 implies all[j] >= 0x80 by {
        assert(all[j] == e[j]);
    }
    assert(all[e.len() - 1] == e.last());
    lemma_varint_len_from_shape(all, MAX_LEN_U64 as nat, e.len());
    assert(all.take(e.len() as int) =~= e);
}

/// Reading what was written gives the number back, whatever follows it.
pub proof fn lemma_decode_u32_encode(value: u32, rest: Seq<u8>)
    ensures
        decode_u32(encode(value as nat) + rest) == Some((value, encode(value as nat).len())),
        1 <= encode(value as nat).len() <= MAX_LEN_U32,
{
    reveal(decode_u32);
    let v = value as nat;
    let e = encode(v);
    let all = e + rest;
    lemma_encode_shape(v);
    lemma_radix_pow_values();
    lemma_encode_len(v, 5);
    assert forall|j: int| 0 <= j < e.len() - 1 implies all[j] >= 0x80 by {
        assert(all[j] == e[j]);
    }
    assert(all[e.len() - 1] == e.last());
    lemma_varint_len_from_shape(all, MAX_LEN_U32 as nat, e.len());
    assert(all.take(e.len() as int) =~= e);
}

/// A number is made of its own bytes alone: cutting the input after them
/// changes nothing, cutting into them leaves no number.
pub proof fn lemma_varint_len_prefix(bytes: Seq<u8>, max: nat, k: int)
    requires
        varint_len(bytes, max) is Some,
        0 <= k <= bytes.len(),
    ensures
        varint_len(bytes, max)->0 <= bytes.len(),
        k >= varint_len(bytes, max)->0 ==> varint_len(bytes.take(k), max) == varint_len(
            bytes,
            max,
        ) && bytes.take(k).take(varint_len(bytes, max)->0 as int) == bytes.take(
            varint_len(bytes, max)->0 as int,
        ),
        k < varint_len(bytes, max)->0 ==> varint_len(bytes.take(k), max) is None,
{
    let n = varint_len(bytes, max)->0;
    lemma_varint_len_shape(bytes, max);
    let cut = bytes.take(k);
    if k >= n {
        assert forall|j: int| 0 <= j < n - 1 implies cut[j] >= 0x80 by {
            assert(cut[j] == bytes[j]);
        }
        assert(cut[n - 1] == bytes[n - 1]);
        lemma_varint_len_from_shape(cut, max, n);
        assert(cut.take(n as int) =~= bytes.take(n as int));
    } else {
        assert forall|j: int| 0 <= j < cut.len() && j < max implies cut[j] >= 0x80 by {
            assert(cut[j] == bytes[j]);
        }
        lemma_varint_len_unfinished(cut, max);
    }
}

/// A 64-bit number is made of its own bytes alone.
pub proof fn lemma_decode_u64_prefix(bytes: Seq<u8>, k: int)
    requires
        decode_u64(bytes) is Some,
        0 <= k <= bytes.len(),
    ensures
        decode_u64(bytes) matches Some((value, n)) && 1 <= n <= bytes.len() && if k >= n {
            decode_u64(bytes.take(k)) == Some((value, n))
        } else {
            decode_u64(bytes.take(k)) is None
        },
{
    reveal(decode_u64);
    lemma_varint_len_prefix(bytes, MAX_LEN_U64 as nat, k);
    lemma_varint_len_shape(bytes, MAX_LEN_U64 as nat);
}

/// A 32-bit number is made of its own bytes alone.
pub proof fn lemma_decode_u32_prefix(bytes: Seq<u8>, k: int)
    requires
        decode_u32(bytes) is Some,
        0 <= k <= bytes.len(),
    ensures
        decode_u32(bytes) matches Some((value, n)) && 1 <= n <= bytes.len() && if k >= n {
            decode_u32(bytes.take(k)) == Some((value, n))
        } else {
            decode_u32(bytes.take(k)) is None
        },
{
    reveal(decode_u32);
    lemma_varint_len_prefix(bytes, MAX_LEN_U32 as nat, k);
    lemma_varint_len_shape(bytes, MAX_LEN_U32 as nat);
}

/// Appends the shortest form of `value` to `out`.
pub fn write_leb128(out: &mut Vec<u8>, value: u64)
    ensures
        final(out)@ == old(out)@ + encode(value as nat),
{
    let ghost start = out@;
    let mut v: u64 = value;
    while v >= 0x80
        invariant
            out@ + encode(v as nat) == start + encode(value as nat),
        decreases v,
    {
        let b: u8 = #[verifier::truncate] (((v & 0x7f) | 0x80) as u8);
        let rest: u64 = v >> 7;
        proof {
            assert(b == v % 128 + 128 && rest == v / 128) by (bit_vector)
                requires
                    b == ((v & 0x7f) | 0x80) as u8,
                    rest == v >> 7,
            ;
            assert(encode(v as nat) == seq![b] + encode(rest as nat));
            assert(out@.push(b) + encode(rest as nat) =~= out@ + encode(v as nat));
        }
        out.push(b);
        v = rest;
    }
    proof {
        assert(encode(v as nat) == seq![v as u8]);
        assert(out@.push(v as u8) =~= out@ + encode(v as nat));
    }
    out.push(v as u8);
}

/// Reads the number of at most `max` bytes that starts at `pos`.
fn read_digits(bytes: &[u8], pos: usize, max: usize) -> (r: Option<(u64, usize)>)
    requires
        pos <= bytes.len(),
        1 <= max <= 10,
    ensures
        match varint_len(bytes@.skip(pos as int), max as nat) {
            Some(n) => r == Some(
                (
                    (base128(bytes@.skip(pos as int).take(n as int)) % 0x1_0000_0000_0000_0000) as u64,
                    (pos + n) as usize,
                ),
            ) && pos + n <= bytes.len(),
            None => r is None,
        },
{
    let ghost s = bytes@.skip(pos as int);
    let avail: usize = bytes.len() - pos;
    let mut acc: u64 = 0;
    let mut shift: u64 = 0;
    let mut i: usize = 0;
    proof {
        assert(1u64 << 0u64 == 1) by (bit_vector);
        assert(s.take(0) =~= Seq::<u8>::empty());
    }
    while i < max
        invariant
            s == bytes@.skip(pos as int),
            pos <= bytes.len(),
            avail == bytes.len() - pos,
            1 <= max <= 10,
            i <= max,
            i <= avail,
            shift == 7 * i,
            forall|j: int| 0 <= j < i ==> s[j] >= 0x80,
            i < 10 ==> acc == base128(s.take(i as int)) && (1u64 << shift) == radix_pow(i as nat)
                && acc < (1u64 << shift),
        decreases max - i,
    {
        if i >= avail {
            proof {
                lemma_varint_len_unfinished(s, max as nat);
            }
            return None;
        }
        let b: u8 = bytes[pos + i];
        let digit: u64 = (b & 0x7f) as u64;
        let next: u64 = acc | (digit << shift);
        let ghost scale: u64 = 1u64 << shift;
        proof {
            assert(s[i as int] == b);
            assert(digit == b % 128 && digit < 128) by (bit_vector)
                requires
                    digit == (b & 0x7f) as u64,
            ;
            lemma_base128_push(s.take(i as int), b);
            assert(s.take(i as int).push(b) =~= s.take(i + 1));
            assert(low7(b) * radix_pow(i as nat) == digit * scale) by (nonlinear_arith)
                requires
                    low7(b) == digit,
                    radix_pow(i as nat) == scale,
            ;
            if i < 9 {
                assert(next == acc + digit * scale && next < (1u64 << ((shift + 7) as u64)) && (1u64
                    << ((shift + 7) as u64)) == 128 * scale) by (bit_vector)
                    requires
                        next == acc | (digit << shift),
                        scale == 1u64 << shift,
                        digit < 128,
                        acc < scale,
                        shift <= 56,
                ;
                assert(radix_pow((i + 1) as nat) == 128 * radix_pow(i as nat));
            } else {
                assert(next == (acc + digit * scale) % 0x1_0000_0000_0000_0000) by (bit_vector)
                    requires
                        next == acc | (digit << shift),
                        scale == 1u64 << shift,
                        digit < 128,
                        acc < scale,
                        shift == 63,
                ;
            }
            assert(next == base128(s.take(i + 1)) % 0x1_0000_0000_0000_0000);
        }
        if b & 0x80 == 0 {
            proof {
                assert(b < 0x80) by (bit_vector)
                    requires
                        b & 0x80 == 0,
                ;
                lemma_varint_len_from_shape(s, max as nat, (i + 1) as nat);
            }
            return Some((next, pos + i + 1));
        }
        proof {
            assert(b >= 0x80) by (bit_vector)
                requires
                    b & 0x80 != 0,
            ;
        }
        acc = next;
        shift = shift + 7;
        i = i + 1;
    }
    proof {
        lemma_varint_len_unfinished(s, max as nat);
    }
    None
}

/// Reads the 64-bit number that starts at `pos` and gives it with the place
/// of the byte after it. `None` when the bytes end first, when `pos` lies
/// beyond them, or when the tenth byte still asks for another.
pub fn read_leb128_u64(bytes: &[u8], pos: usize) -> (r: Option<(u64, usize)>)
    ensures
        pos > bytes.len() ==> r is None,
        pos <= bytes.len() ==> match decode_u64(bytes@.skip(pos as int)) {
            Some((value, n)) => r == Some((value, (pos + n) as usize)) && pos + n <= bytes.len(),
            None => r is None,
        },
{
    if pos > bytes.len() {
        return None;
    }
    proof {
        reveal(decode_u64);
    }
    read_digits(bytes, pos, MAX_LEN_U64)
}

/// Reads the 32-bit number that starts at `pos` and gives it with the place
/// of the byte after it. `None` when the bytes end first, when `pos` lies
/// beyond them, or when the fifth byte still asks for another. Bits above
/// the thirty-second are dropped.
pub fn read_leb128_u32(bytes: &[u8], pos: usize) -> (r: Option<(u32, usize)>)
    ensures
        pos > bytes.len() ==> r is None,
        pos <= bytes.len() ==> match decode_u32(bytes@.skip(pos as int)) {
            Some((value, n)) => r == Some((value, (pos + n) as usize)) && pos + n <= bytes.len(),
            None => r is None,
        },
{
    if pos > bytes.len() {
        return None;
    }
    proof {
        reveal(decode_u32);
    }
    match read_digits(bytes, pos, MAX_LEN_U32) {
        Some((wide, end)) => {
            let value: u32 = #[verifier::truncate] (wide as u32);
            proof {
                let ghost s = bytes@.skip(pos as int);
                let ghost n = varint_len(s, MAX_LEN_U32 as nat)->0;
                let ghost full = base128(s.take(n as int));
                assert(value == wide % 0x1_0000_0000) by (bit_vector)
                    requires
                        value == wide as u32,
                ;
                assert((full % 0x1_0000_0000_0000_0000) % 0x1_0000_0000 == full % 0x1_0000_0000);
            }
            Some((value, end))
        },
        None => None,
    }
}

} // verus!
