//! The primitive types of HPACK: N-prefix integers and string literals.
use crate::huffman::{encode as huffman_encode, huffman_encoded};
use vstd::arithmetic::power2::{lemma2_to64, lemma_pow2_adds, lemma_pow2_strictly_increases, pow2};
use vstd::prelude::*;

verus! {

/// Largest value that fits in an `n`-bit prefix.
pub open spec fn prefix_max(n: nat) -> nat {
    (pow2(n) - 1) as nat
}

/// The continuation octets of an N-prefix integer whose prefix is full:
/// seven bits each, least significant first, the high bit set on all but the
/// last.
pub open spec fn int_tail(v: nat) -> Seq<u8>
    decreases v,
{
    if v < 128 {
        seq![v as u8]
    } else {
        seq![(v % 128 + 128) as u8] + int_tail(v / 128)
    }
}

/// The N-prefix encoding of `v` (RFC 7541, section 5.1), its first octet
/// carrying `tag` in the bits above the prefix.
pub open spec fn int_encoded(v: nat, tag: u8, n: nat) -> Seq<u8> {
    if v < prefix_max(n) {
        seq![tag | (v as u8)]
    } else {
        seq![tag | (prefix_max(n) as u8)] + int_tail((v - prefix_max(n)) as nat)
    }
}

/// The string literal representation of `data` (RFC 7541, section 5.2):
/// a 7-prefix length whose high tag bit tells whether the octets that follow
/// are Huffman encoded.
pub open spec fn string_encoded(data: Seq<u8>, huffman: bool) -> Seq<u8> {
    if huffman {
        int_encoded(huffman_encoded(data).len(), 0x80, 7) + huffman_encoded(data)
    } else {
        int_encoded(data.len(), 0, 7) + data
    }
}

/// Appends the N-prefix encoding of `value` to `dst`; `tag` fills the bits of
/// the first octet above the `n`-bit prefix.
pub fn encode_integer(value: u64, tag: u8, n: u8, dst: &mut Vec<u8>)
    requires
        1 <= n <= 8,
    ensures
        final(dst)@ == old(dst)@ + int_encoded(value as nat, tag, n as nat),
{
    proof {
        lemma2_to64();
    }
    let max: u64 = if n == 8 {
        255
    } else if n == 7 {
        127
    } else if n == 6 {
        63
    } else if n == 5 {
        31
    } else if n == 4 {
        15
    } else if n == 3 {
        7
    } else if n == 2 {
        3
    } else {
        1
    };
    assert(max == prefix_max(n as nat));
    if value < max {
        dst.push(tag | (value as u8));
        assert(int_encoded(value as nat, tag, n as nat) =~= seq![tag | (value as u8)]);
    } else {
        let ghost target = old(dst)@ + int_encoded(value as nat, tag, n as nat);
        dst.push(tag | (max as u8));
        let mut rest: u64 = value - max;
        assert(target =~= dst@ + int_tail(rest as nat));
        while rest >= 128
            invariant
                target == dst@ + int_tail(rest as nat),
            decreases rest,
        {
            let byte = (rest % 128 + 128) as u8;
            assert(int_tail(rest as nat) =~= seq![byte] + int_tail((rest / 128) as nat));
            dst.push(byte);
            rest = rest / 128;
            assert(target =~= dst@ + int_tail(rest as nat));
        }
        dst.push(rest as u8);
        assert(target =~= dst@);
    }
}

/// Appends the string literal representation of `data` to `dst`, its octets
/// Huffman encoded when `huffman` is set.
pub fn encode_string(data: &[u8], huffman: bool, dst: &mut Vec<u8>)
    ensures
        final(dst)@ == old(dst)@ + string_encoded(data@, huffman),
{
    if huffman {
        let mut coded: Vec<u8> = Vec::new();
        huffman_encode(data, &mut coded);
        assert(coded@ =~= huffman_encoded(data@));
        encode_integer(coded.len() as u64, 0x80, 7, dst);
        append_all(dst, &coded);
        assert(dst@ =~= old(dst)@ + string_encoded(data@, huffman));
    } else {
        encode_integer(data.len() as u64, 0, 7, dst);
        append_all(dst, data);
        assert(dst@ =~= old(dst)@ + string_encoded(data@, huffman));
    }
}

/// Appends every octet of `src` to `dst`.
pub fn append_all(dst: &mut Vec<u8>, src: &[u8])
    ensures
        final(dst)@ == old(dst)@ + src@,
{
    let ghost start = dst@;
    let mut i: usize = 0;
    while i < src.len()
        invariant
            i <= src@.len(),
            dst@ == start + src@.take(i as int),
        decreases src@.len() - i,
    {
        dst.push(src[i]);
        i = i + 1;
        assert(dst@ =~= start + src@.take(i as int));
    }
    assert(src@.take(i as int) =~= src@);
}

} // verus!

verus! {

/// The ways reading a primitive can fail.
#[derive(Debug, PartialEq, Eq, Structural, Clone, Copy)]
pub enum PrimitiveError {
    /// The input ends inside the primitive.
    Truncated,
    /// The integer does not fit in 32 bits.
    IntegerOverflow,
}

/// What reading an N-prefix integer gives: its value and the number of
/// octets it took, or an error.
pub enum IntRead {
    Value(nat, nat),
    Failed(PrimitiveError),
}

/// Reads the continuation octets of an N-prefix integer, `k` of them
/// already read; a sixth continuation octet overflows 32 bits.
pub open spec fn int_tail_read(b: Seq<u8>, k: nat) -> IntRead
    decreases b.len(),
{
    if b.len() == 0 {
        IntRead::Failed(PrimitiveError::Truncated)
    } else if k >= 5 {
        IntRead::Failed(PrimitiveError::IntegerOverflow)
    } else if b[0] < 128 {
        IntRead::Value(b[0] as nat, 1)
    } else {
        match int_tail_read(b.skip(1), k + 1) {
            IntRead::Value(v, len) => IntRead::Value(((b[0] - 128) + 128 * v) as nat, len + 1),
            other => other,
        }
    }
}

/// Reads an N-prefix integer from the start of `b` (RFC 7541, section 5.1);
/// a value above `u32::MAX` is an overflow.
pub open spec fn int_read(b: Seq<u8>, n: nat) -> IntRead {
    if b.len() == 0 {
        IntRead::Failed(PrimitiveError::Truncated)
    } else if (b[0] & (prefix_max(n) as u8)) < prefix_max(n) {
        IntRead::Value((b[0] & (prefix_max(n) as u8)) as nat, 1)
    } else {
        match int_tail_read(b.skip(1), 0) {
            IntRead::Value(v, len) => if prefix_max(n) + v > u32::MAX {
                IntRead::Failed(PrimitiveError::IntegerOverflow)
            } else {
                IntRead::Value(prefix_max(n) + v, len + 1)
            },
            other => other,
        }
    }
}

proof fn lemma_int_tail_read_len(b: Seq<u8>, k: nat)
    ensures
        int_tail_read(b, k) matches IntRead::Value(v, len) ==> 1 <= len <= b.len(),
    decreases b.len(),
{
    if b.len() > 0 && k < 5 && b[0] >= 128 {
        lemma_int_tail_read_len(b.skip(1), k + 1);
    }
}

/// An integer read takes at least one octet and no more than there are.
pub proof fn lemma_int_read_len(b: Seq<u8>, n: nat)
    ensures
        int_read(b, n) matches IntRead::Value(v, len) ==> 1 <= len <= b.len(),
{
    if b.len() > 0 {
        lemma_int_tail_read_len(b.skip(1), 0);
    }
}

/// Returns `2^n - 1` for a prefix of `n` bits.
fn prefix_mask(n: u8) -> (r: u8)
    requires
        1 <= n <= 8,
    ensures
        r == prefix_max(n as nat),
{
    proof {
        lemma2_to64();
    }
    if n == 8 {
        255
    } else if n == 7 {
        127
    } else if n == 6 {
        63
    } else if n == 5 {
        31
    } else if n == 4 {
        15
    } else if n == 3 {
        7
    } else if n == 2 {
        3
    } else {
        1
    }
}

/// Reads an N-prefix integer from the start of `src`: its value and the
/// number of octets it took.
pub fn decode_integer(src: &[u8], n: u8) -> (r: Result<(u32, usize), PrimitiveError>)
    requires
        1 <= n <= 8,
    ensures
        match int_read(src@, n as nat) {
            IntRead::Value(v, len) => r == Ok::<(u32, usize), PrimitiveError>((v as u32, len as usize)),
            IntRead::Failed(e) => r == Err::<(u32, usize), PrimitiveError>(e),
        },
        r matches Ok((v, k)) ==> 1 <= k <= src@.len() && int_read(src@, n as nat) == IntRead::Value(
            v as nat,
            k as nat,
        ),
{
    proof {
        lemma_int_read_len(src@, n as nat);
    }
    if src.len() == 0 {
        return Err(PrimitiveError::Truncated);
    }
    let max = prefix_mask(n);
    let b0 = src[0];
    let first = b0 & max;
    assert(b0 & max <= max) by (bit_vector);
    if first < max {
        return Ok((first as u32, 1));
    }
    let ghost tail = src@.skip(1);
    proof {
        lemma2_to64();
        assert(tail.skip(0) =~= tail);
        match int_tail_read(tail, 0) {
            IntRead::Value(v, len) => {
                assert(0 + 1 * v == v);
            },
            _ => {},
        }
    }
    let mut value: u64 = 0;
    let mut mul: u64 = 1;
    let mut k: usize = 0;
    loop
        invariant
            1 <= n <= 8,
            src@.len() >= 1,
            tail == src@.skip(1),
            max == prefix_max(n as nat),
            src@[0] & max == max,
            k <= 5,
            mul == pow2(7 * k as nat),
            value < mul,
            k + 1 <= src@.len(),
            int_tail_read(tail, 0) == match int_tail_read(tail.skip(k as int), k as nat) {
                IntRead::Value(v, len) => IntRead::Value((value + mul * v) as nat, (k + len) as nat),
                other => other,
            },
        decreases src@.len() - k,
    {
        proof {
            lemma2_to64();
        }
        if k + 1 >= src.len() {
            assert(tail.skip(k as int).len() == 0);
            return Err(PrimitiveError::Truncated);
        }
        assert(tail.skip(k as int).len() > 0);
        if k >= 5 {
            return Err(PrimitiveError::IntegerOverflow);
        }
        proof {
            if 7 * k < 28 {
                lemma_pow2_strictly_increases(7 * k as nat, 28);
            }
            assert(mul <= 0x1000_0000);
        }
        let b = src[k + 1];
        let ghost rest = tail.skip(k as int);
        assert(rest[0] == b);
        if b < 128 {
            assert(mul * (b as u64) <= 0x1000_0000 * 127) by (nonlinear_arith)
                requires
                    mul <= 0x1000_0000,
                    b < 128,
            ;
            let total = value + mul * (b as u64);
            assert(int_tail_read(tail, 0) == IntRead::Value(total as nat, (k + 1) as nat));
            if total + max as u64 > 0xffff_ffff {
                return Err(PrimitiveError::IntegerOverflow);
            }
            return Ok(((total + max as u64) as u32, k + 2));
        }
        proof {
            assert(rest.skip(1) =~= tail.skip(k + 1));
            lemma_pow2_adds(7 * k as nat, 7);
            let p = pow2(7 * k as nat);
            assert(value + p * (b - 128) < p * 128) by (nonlinear_arith)
                requires
                    value < p,
                    b - 128 < 128,
            ;
            match int_tail_read(tail.skip(k + 1), (k + 1) as nat) {
                IntRead::Value(v, len) => {
                    assert(value + p * ((b - 128) + 128 * v) == (value + p * (b - 128)) + (p * 128)
                        * v) by (nonlinear_arith);
                },
                _ => {},
            }
        }
        value = value + mul * ((b - 128) as u64);
        mul = mul * 128;
        k = k + 1;
    }
}

/// Reading back the N-prefix encoding of any 32-bit value gives that value
/// and the length of the encoding, whatever follows it, when the tag leaves
/// the prefix bits clear.
pub proof fn lemma_int_round_trip(v: u32, tag: u8, n: nat, rest: Seq<u8>)
    requires
        1 <= n <= 8,
        tag & (prefix_max(n) as u8) == 0,
    ensures
        int_read(int_encoded(v as nat, tag, n) + rest, n) == IntRead::Value(
            v as nat,
            int_encoded(v as nat, tag, n).len(),
        ),
{
    lemma2_to64();
    let m = prefix_max(n) as u8;
    assert(m == 1 || m == 3 || m == 7 || m == 15 || m == 31 || m == 63 || m == 127 || m == 255);
    let b = int_encoded(v as nat, tag, n) + rest;
    if v < prefix_max(n) {
        let x = v as u8;
        assert((tag | x) & m == x) by (bit_vector)
            requires
                tag & m == 0,
                x <= m,
                m == 1 || m == 3 || m == 7 || m == 15 || m == 31 || m == 63 || m == 127 || m == 255,
        ;
    } else {
        assert((tag | m) & m == m) by (bit_vector);
        let t = (v - prefix_max(n)) as nat;
        assert(pow2(35) == 0x8_0000_0000) by {
            lemma_pow2_adds(32, 3);
        }
        lemma_int_tail_round_trip(t, 0, rest);
        assert(b.skip(1) =~= int_tail(t) + rest);
    }
}

/// Continuation octets of a value below `2^(7 * (5 - k))` read back as
/// that value.
proof fn lemma_int_tail_round_trip(t: nat, k: nat, rest: Seq<u8>)
    requires
        k <= 4,
        t < pow2((7 * (5 - k)) as nat),
    ensures
        int_tail_read(int_tail(t) + rest, k) == IntRead::Value(t, int_tail(t).len()),
    decreases t,
{
    lemma2_to64();
    let b = int_tail(t) + rest;
    if t >= 128 {
        lemma_pow2_adds(7, (7 * (4 - k)) as nat);
        assert(k < 4) by {
            if k == 4 {
                assert(pow2(7) == 128);
            }
        }
        assert(t / 128 < pow2((7 * (5 - (k + 1))) as nat)) by {
            let p = pow2((7 * (4 - k)) as nat);
            assert(t / 128 < p) by (nonlinear_arith)
                requires
                    t < 128 * p,
            ;
        }
        lemma_int_tail_round_trip(t / 128, k + 1, rest);
        assert(b.skip(1) =~= int_tail(t / 128) + rest);
        assert(t == (t % 128 + 128 - 128) + 128 * (t / 128));
    }
}

} // verus!
