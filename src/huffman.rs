//! The canonical Huffman codec of HPACK.
//!
//! A sequence of octets is modelled as the concatenation of the codes of its
//! octets, read as one big-endian number (`bits_val`) of a known bit length
//! (`bits_len`). The encoded form pads that number with one-bits up to a whole
//! octet and splits it into octets (`huffman_encoded`).
use crate::huffman_table::{code_len, code_of, code_val, lemma_code_bounds, lemma_prefix_free};
use vstd::arithmetic::div_mod::{
    lemma_div_denominator, lemma_fundamental_div_mod, lemma_fundamental_div_mod_converse,
    lemma_mod_bound,
};
use vstd::arithmetic::mul::lemma_mul_inequality;
use vstd::arithmetic::power2::{lemma2_to64, lemma_pow2_adds, lemma_pow2_pos, pow2};
use vstd::bits::{lemma_u64_shl_is_mul, lemma_u64_pow2_no_overflow};
use vstd::prelude::*;

verus! {

/// Number of code bits of `x`.
pub open spec fn bits_len(x: Seq<u8>) -> nat
    decreases x.len(),
{
    if x.len() == 0 {
        0
    } else {
        bits_len(x.drop_last()) + code_len(x.last() as int)
    }
}

/// The codes of `x`, concatenated and read as a big-endian number.
pub open spec fn bits_val(x: Seq<u8>) -> nat
    decreases x.len(),
{
    if x.len() == 0 {
        0
    } else {
        bits_val(x.drop_last()) * pow2(code_len(x.last() as int)) + code_val(x.last() as int)
    }
}

/// Number of one-bits that complete `n` bits to a whole octet.
pub open spec fn pad_len(n: nat) -> nat {
    ((8 - n % 8) % 8) as nat
}

/// The `n` low octets of `v`, most significant first.
pub open spec fn be_bytes(v: nat, n: nat) -> Seq<u8>
    decreases n,
{
    if n == 0 {
        seq![]
    } else {
        be_bytes(v / 256, (n - 1) as nat).push((v % 256) as u8)
    }
}

/// The octets `b` read as a big-endian number.
pub open spec fn be_value(b: Seq<u8>) -> nat
    decreases b.len(),
{
    if b.len() == 0 {
        0
    } else {
        be_value(b.drop_last()) * 256 + b.last() as nat
    }
}

/// The Huffman encoding of `x`: the codes of its octets, padded on the right
/// with one-bits to an octet boundary.
pub open spec fn huffman_encoded(x: Seq<u8>) -> Seq<u8> {
    let p = pad_len(bits_len(x));
    be_bytes(bits_val(x) * pow2(p) + (pow2(p) - 1) as nat, (bits_len(x) + p) / 8)
}

pub proof fn lemma_bits_val_bound(x: Seq<u8>)
    ensures
        bits_val(x) < pow2(bits_len(x)),
    decreases x.len(),
{
    lemma_pow2_pos(bits_len(x));
    if x.len() > 0 {
        let y = x.drop_last();
        let l = code_len(x.last() as int);
        lemma_bits_val_bound(y);
        lemma_code_bounds(x.last() as int);
        lemma_pow2_adds(bits_len(y), l);
        lemma_pow2_pos(l);
        let a = bits_val(y);
        let c = code_val(x.last() as int);
        let pa = pow2(bits_len(y));
        let pl = pow2(l);
        assert(a * pl + c < pa * pl) by (nonlinear_arith)
            requires
                a < pa,
                c < pl,
        ;
    }
}

pub proof fn lemma_be_round_trip(b: Seq<u8>)
    ensures
        be_bytes(be_value(b), b.len()) == b,
    decreases b.len(),
{
    if b.len() > 0 {
        let y = b.drop_last();
        lemma_be_round_trip(y);
        let v = be_value(b);
        assert(v / 256 == be_value(y) && v % 256 == b.last() as nat) by {
            lemma_fundamental_div_mod(v as int, 256);
            let q = be_value(y);
            let r = b.last() as nat;
            assert((q * 256 + r) / 256 == q && (q * 256 + r) % 256 == r) by (nonlinear_arith)
                requires
                    r < 256,
            ;
        }
        assert(be_bytes(v, b.len()) =~= b);
    }
}

/// The octets `seq![b] + s` read as a number.
pub proof fn lemma_be_value_front(b: u8, s: Seq<u8>)
    ensures
        be_value(seq![b] + s) == b * pow2(8 * s.len()) + be_value(s),
        be_value(s) < pow2(8 * s.len()),
    decreases s.len(),
{
    let t = seq![b] + s;
    assert(t.len() > 0);
    assert(be_value(t) == be_value(t.drop_last()) * 256 + t.last() as nat);
    if s.len() == 0 {
        lemma2_to64();
        assert(t.drop_last() =~= Seq::<u8>::empty());
        assert(t.last() == b);
    } else {
        let y = s.drop_last();
        assert(t.drop_last() =~= seq![b] + y);
        assert(t.last() == s.last());
        lemma_be_value_front(b, y);
        lemma_pow2_adds(8 * y.len(), 8);
        lemma2_to64();
        let p = pow2(8 * y.len());
        assert(8 * s.len() == 8 * y.len() + 8);
        let l = s.last();
        let v = be_value(y);
        assert((b * p + v) * 256 + l == b * (p * 256) + (v * 256 + l)) by (nonlinear_arith);
        assert(v * 256 + l < p * 256) by (nonlinear_arith)
            requires
                v < p,
                l < 256,
        ;
    }
}

proof fn lemma_be_bytes_len(v: nat, n: nat)
    ensures
        be_bytes(v, n).len() == n,
    decreases n,
{
    if n > 0 {
        lemma_be_bytes_len(v / 256, (n - 1) as nat);
    }
}

/// Octets written from a number read back as that number.
pub proof fn lemma_be_value_of_bytes(v: nat, n: nat)
    requires
        v < pow2(8 * n),
    ensures
        be_value(be_bytes(v, n)) == v,
    decreases n,
{
    if n > 0 {
        lemma_pow2_adds(8 * (n - 1) as nat, 8);
        lemma2_to64();
        let p = pow2(8 * (n - 1) as nat);
        assert(8 * n == 8 * (n - 1) as nat + 8);
        assert(v / 256 < p) by (nonlinear_arith)
            requires
                v < p * 256,
        ;
        lemma_be_value_of_bytes(v / 256, (n - 1) as nat);
        let b = be_bytes(v, n);
        assert(b.drop_last() == be_bytes(v / 256, (n - 1) as nat));
        lemma_fundamental_div_mod(v as int, 256);
    } else {
        lemma2_to64();
    }
}

/// The codes of `seq![s] + y` read as a number.
pub proof fn lemma_bits_front(s: u8, y: Seq<u8>)
    ensures
        bits_len(seq![s] + y) == code_len(s as int) + bits_len(y),
        bits_val(seq![s] + y) == code_val(s as int) * pow2(bits_len(y)) + bits_val(y),
    decreases y.len(),
{
    let t = seq![s] + y;
    assert(t.len() > 0);
    assert(bits_len(t) == bits_len(t.drop_last()) + code_len(t.last() as int));
    assert(bits_val(t) == bits_val(t.drop_last()) * pow2(code_len(t.last() as int)) + code_val(
        t.last() as int,
    ));
    if y.len() == 0 {
        lemma2_to64();
        assert(t.drop_last() =~= Seq::<u8>::empty());
        assert(t.last() == s);
        assert(bits_val(t.drop_last()) == 0);
        assert(0 * pow2(code_len(s as int)) == 0) by (nonlinear_arith);
        assert(code_val(s as int) * pow2(0) == code_val(s as int));
    } else {
        let z = y.drop_last();
        assert(t.drop_last() =~= seq![s] + z);
        assert(t.last() == y.last());
        lemma_bits_front(s, z);
        let l = code_len(y.last() as int);
        lemma_pow2_adds(bits_len(z), l);
        let c = code_val(s as int);
        let pz = pow2(bits_len(z));
        let pl = pow2(l);
        let v = bits_val(z);
        assert((c * pz + v) * pl == c * (pz * pl) + v * pl) by (nonlinear_arith);
    }
}

/// Dropping the `w` low bits of `a * 2^w + v`, and `k` more.
proof fn lemma_top_bits(a: nat, w: nat, v: nat, k: nat)
    requires
        v < pow2(w),
    ensures
        (a * pow2(w) + v) / pow2(w + k) == a / pow2(k),
{
    lemma_pow2_pos(w);
    lemma_pow2_pos(k);
    lemma_pow2_adds(w, k);
    let t = a * pow2(w) + v;
    lemma_fundamental_div_mod_converse(t as int, pow2(w) as int, a as int, v as int);
    lemma_div_denominator(t as int, pow2(w) as int, pow2(k) as int);
}

/// The top `a - b` of `a` one-bits.
proof fn lemma_ones(a: nat, b: nat)
    requires
        b <= a,
    ensures
        (pow2(a) - 1) as nat / pow2(b) == (pow2((a - b) as nat) - 1) as nat,
{
    lemma_pow2_pos(b);
    lemma_pow2_pos((a - b) as nat);
    lemma_pow2_adds((a - b) as nat, b);
    let h = pow2((a - b) as nat);
    let p = pow2(b);
    assert((h - 1) * p + (p - 1) == h * p - 1) by (nonlinear_arith);
    lemma_top_bits((h - 1) as nat, b, (p - 1) as nat, 0);
    lemma2_to64();
}

/// Where the decoder stands against an input `src` that encodes `x`: it has
/// written a prefix `out` of `x`, and its `alen` pending bits `acc`,
/// followed by the octets not read yet, are the codes of the rest of `x`
/// and the padding.
pub open spec fn decoding_state(
    x: Seq<u8>,
    src: Seq<u8>,
    i: nat,
    out: Seq<u8>,
    acc: nat,
    alen: nat,
) -> bool {
    let p = pad_len(bits_len(x));
    let rest = x.skip(out.len() as int);
    let w = (8 * (src.len() - i)) as nat;
    &&& i <= src.len()
    &&& out.len() <= x.len()
    &&& x.take(out.len() as int) == out
    &&& acc * pow2(w) + be_value(src.skip(i as int)) == bits_val(rest) * pow2(p) + (pow2(p) - 1)
    &&& alen + w == bits_len(rest) + p
}

proof fn lemma_pad_len(l: nat)
    ensures
        pad_len(l) < 8,
        (l + pad_len(l)) % 8 == 0,
{
    let m = l % 8;
    if m == 0 {
        assert(pad_len(l) == 0);
    } else {
        assert(pad_len(l) == 8 - m);
        assert((l + (8 - m)) % 8 == 0) by (nonlinear_arith)
            requires
                m == l % 8,
                0 < m < 8,
        ;
    }
}

#[verifier::rlimit(50)]
proof fn lemma_state_init(x: Seq<u8>, src: Seq<u8>)
    requires
        huffman_encoded(x) == src,
    ensures
        decoding_state(x, src, 0, seq![], 0, 0),
{
    let l = bits_len(x);
    let p = pad_len(l);
    lemma_pad_len(l);
    let n = (l + p) / 8;
    assert(8 * n == l + p);
    lemma_bits_val_bound(x);
    lemma_pow2_adds(l, p);
    lemma_pow2_pos(p);
    let bv = bits_val(x);
    let pl = pow2(l);
    let pp = pow2(p);
    let v = bv * pp + (pp - 1);
    assert(v < pl * pp) by (nonlinear_arith)
        requires
            bv < pl,
            v == bv * pp + (pp - 1),
            pp > 0,
    ;
    lemma_be_value_of_bytes(v as nat, n);
    lemma_be_bytes_len(v as nat, n);
    assert(src.len() == n);
    assert(src.skip(0) =~= src);
    assert(x.skip(0) =~= x);
    assert(x.take(0) =~= Seq::<u8>::empty());
    lemma2_to64();
}

proof fn lemma_state_byte(x: Seq<u8>, src: Seq<u8>, i: nat, out: Seq<u8>, acc: nat, alen: nat)
    requires
        decoding_state(x, src, i, out, acc, alen),
        i < src.len(),
    ensures
        decoding_state(x, src, i + 1, out, (acc * 256 + src[i as int]) as nat, alen + 8),
{
    let s = src.skip(i as int);
    assert(s =~= seq![src[i as int]] + src.skip(i + 1 as int));
    lemma_be_value_front(src[i as int], src.skip(i + 1 as int));
    let w1 = (8 * (src.len() - i - 1)) as nat;
    lemma_pow2_adds(8, w1);
    lemma2_to64();
    assert(8 * (src.len() - i) == 8 + w1);
    let p1 = pow2(w1);
    let b = src[i as int];
    assert((acc * 256 + b) * p1 == acc * (256 * p1) + b * p1) by (nonlinear_arith);
}

#[verifier::rlimit(50)]
proof fn lemma_state_match(
    x: Seq<u8>,
    src: Seq<u8>,
    i: nat,
    out: Seq<u8>,
    acc: nat,
    alen: nat,
    t: int,
)
    requires
        decoding_state(x, src, i, out, acc, alen),
        0 <= t < 256,
        code_on_top(acc, alen, t),
    ensures
        out.len() < x.len(),
        x[out.len() as int] == t,
        decoding_state(
            x,
            src,
            i,
            out.push(t as u8),
            acc % pow2((alen - code_len(t)) as nat),
            (alen - code_len(t)) as nat,
        ),
{
    let p = pad_len(bits_len(x));
    lemma_pad_len(bits_len(x));
    let j = out.len();
    let rest = x.skip(j as int);
    let w = (8 * (src.len() - i)) as nat;
    let vr = be_value(src.skip(i as int));
    lemma_be_value_front(0, src.skip(i as int));
    let big_m = alen + w;
    let l = code_len(t);
    lemma_code_bounds(t);
    // The top `l` bits of the stream at this point are the code of `t`.
    lemma_top_bits(acc, w, vr, (alen - l) as nat);
    assert(w + (alen - l) == big_m - l);
    if rest.len() == 0 {
        assert(bits_len(rest) == 0 && bits_val(rest) == 0);
        lemma_pow2_pos(p);
        let total = acc * pow2(w) + vr;
        let bz = bits_val(rest);
        let pz = pow2(p);
        assert(bz * pz == 0) by (nonlinear_arith)
            requires
                bz == 0,
        ;
        assert(total == pow2(p) - 1);
        assert(big_m == p);
        lemma_ones(p, (p - l) as nat);
        assert(code_val(t) == pow2(l) - 1);
        lemma2_to64();
        assert(code_val(256) == 0x3fffffff && code_len(256) == 30);
        lemma_ones(30, (30 - l) as nat);
        assert(code_val(256) / pow2((30 - l) as nat) == pow2(l) - 1);
        lemma_prefix_free(t, 256);
        assert(false);
    } else {
        let r0 = rest[0];
        let tail = rest.skip(1);
        assert(rest =~= seq![r0] + tail);
        lemma_bits_front(r0, tail);
        let l0 = code_len(r0 as int);
        lemma_code_bounds(r0 as int);
        lemma_bits_val_bound(tail);
        lemma_pow2_adds(bits_len(tail), p);
        lemma_pow2_pos(p);
        let low = bits_val(tail) * pow2(p) + (pow2(p) - 1);
        let bt = bits_val(tail);
        let pt = pow2(bits_len(tail));
        let pp = pow2(p);
        assert(low < pt * pp) by (nonlinear_arith)
            requires
                bt < pt,
                low == bt * pp + (pp - 1),
                pp > 0,
        ;
        let c0 = code_val(r0 as int);
        assert(bits_val(rest) * pp + (pp - 1) == c0 * (pt * pp) + low) by (nonlinear_arith)
            requires
                bits_val(rest) == c0 * pt + bt,
                low == bt * pp + (pp - 1),
        ;
        lemma_top_bits(c0, bits_len(tail) + p, low as nat, 0);
        lemma2_to64();
        let total = acc * pow2(w) + vr;
        assert(total / pow2((big_m - l0) as nat) == c0);
        assert(total / pow2((big_m - l) as nat) == code_val(t));
        lemma_pow2_pos((big_m - l0) as nat);
        lemma_pow2_pos((big_m - l) as nat);
        if l <= l0 {
            lemma_pow2_pos((l0 - l) as nat);
            lemma_pow2_adds((big_m - l0) as nat, (l0 - l) as nat);
            lemma_div_denominator(total as int, pow2((big_m - l0) as nat) as int, pow2((l0 - l) as nat) as int);
            if t != r0 as int {
                lemma_prefix_free(t, r0 as int);
            }
        } else {
            lemma_pow2_pos((l - l0) as nat);
            lemma_pow2_adds((big_m - l) as nat, (l - l0) as nat);
            lemma_div_denominator(total as int, pow2((big_m - l) as nat) as int, pow2((l - l0) as nat) as int);
            lemma_prefix_free(r0 as int, t);
        }
        assert(t == r0 as int);
        // What is left after taking the code off the top.
        let d = pow2((alen - l) as nat);
        lemma_pow2_pos((alen - l) as nat);
        lemma_fundamental_div_mod(acc as int, d as int);
        let q = acc / d;
        let a2 = acc % d;
        lemma_pow2_adds((alen - l) as nat, w);
        let pw = pow2(w);
        assert(acc * pw + vr == q * (d * pw) + (a2 * pw + vr)) by (nonlinear_arith)
            requires
                acc == d * q + a2,
        ;
        assert(d * pw == pt * pp);
        assert(a2 * pw + vr == low);
        let out2 = out.push(t as u8);
        assert(x.take(j + 1 as int) =~= out2);
        assert(x.skip(j + 1 as int) =~= tail);
    }
}

#[verifier::rlimit(50)]
proof fn lemma_state_stuck(x: Seq<u8>, src: Seq<u8>, i: nat, out: Seq<u8>, acc: nat, alen: nat)
    requires
        decoding_state(x, src, i, out, acc, alen),
        forall|s: int| 0 <= s < 256 && 0 < #[trigger] code_len(s) <= alen ==> !code_on_top(acc, alen, s),
    ensures
        alen < 30,
        i == src.len() ==> out == x && alen < 8 && acc == pow2(alen) - 1,
{
    let p = pad_len(bits_len(x));
    lemma_pad_len(bits_len(x));
    let j = out.len();
    let rest = x.skip(j as int);
    let w = (8 * (src.len() - i)) as nat;
    let vr = be_value(src.skip(i as int));
    lemma_be_value_front(0, src.skip(i as int));
    let big_m = alen + w;
    if rest.len() == 0 {
        assert(bits_len(rest) == 0 && bits_val(rest) == 0);
        if i == src.len() {
            lemma2_to64();
            assert(w == 0);
            assert(src.skip(i as int) =~= Seq::<u8>::empty());
            assert(be_value(src.skip(i as int)) == 0);
            let bz = bits_val(rest);
            let pz = pow2(p);
            assert(bz * pz == 0) by (nonlinear_arith)
                requires
                    bz == 0,
            ;
            let p0 = pow2(0);
            assert(p0 == 1);
            assert(acc * p0 == acc) by (nonlinear_arith)
                requires
                    p0 == 1,
            ;
            assert(acc == pow2(p) - 1);
            assert(j == x.len());
            assert(x.take(j as int) =~= x);
        }
    } else {
        let r0 = rest[0];
        let tail = rest.skip(1);
        assert(rest =~= seq![r0] + tail);
        lemma_bits_front(r0, tail);
        let l0 = code_len(r0 as int);
        lemma_code_bounds(r0 as int);
        lemma_bits_val_bound(tail);
        lemma_pow2_adds(bits_len(tail), p);
        lemma_pow2_pos(p);
        let low = bits_val(tail) * pow2(p) + (pow2(p) - 1);
        let bt = bits_val(tail);
        let pt = pow2(bits_len(tail));
        let pp = pow2(p);
        assert(low < pt * pp) by (nonlinear_arith)
            requires
                bt < pt,
                low == bt * pp + (pp - 1),
                pp > 0,
        ;
        let c0 = code_val(r0 as int);
        assert(bits_val(rest) * pp + (pp - 1) == c0 * (pt * pp) + low) by (nonlinear_arith)
            requires
                bits_val(rest) == c0 * pt + bt,
                low == bt * pp + (pp - 1),
        ;
        lemma_top_bits(c0, bits_len(tail) + p, low as nat, 0);
        lemma2_to64();
        if l0 <= alen {
            lemma_top_bits(acc, w, vr, (alen - l0) as nat);
            assert(w + (alen - l0) == big_m - l0);
            assert(code_on_top(acc, alen, r0 as int));
        }
        if i == src.len() {
            assert(w == 0);
        }
    }
}

/// The padded codes of `x`, `p` one-bits of padding, read as a number.
pub open spec fn padded_val(x: Seq<u8>, p: nat) -> nat {
    bits_val(x) * pow2(p) + (pow2(p) - 1) as nat
}

/// The top code of a padded code stream is the code of its first octet, and
/// what is below it is the padded stream of the rest.
#[verifier::rlimit(50)]
proof fn lemma_padded_front(x: Seq<u8>, p: nat)
    requires
        x.len() > 0,
    ensures
        ({
            let l0 = code_len(x[0] as int);
            let below = (bits_len(x) - l0 + p) as nat;
            &&& bits_len(x) >= l0
            &&& padded_val(x, p) / pow2(below) == code_val(x[0] as int)
            &&& padded_val(x, p) == code_val(x[0] as int) * pow2(below) + padded_val(x.skip(1), p)
            &&& padded_val(x.skip(1), p) < pow2(below)
            &&& below == bits_len(x.skip(1)) + p
        }),
{
    let r0 = x[0];
    let tail = x.skip(1);
    assert(x =~= seq![r0] + tail);
    lemma_bits_front(r0, tail);
    lemma_code_bounds(r0 as int);
    lemma_bits_val_bound(tail);
    lemma_pow2_adds(bits_len(tail), p);
    lemma_pow2_pos(p);
    let bt = bits_val(tail);
    let pt = pow2(bits_len(tail));
    let pp = pow2(p);
    let low = padded_val(tail, p);
    assert(low < pt * pp) by (nonlinear_arith)
        requires
            bt < pt,
            low == bt * pp + (pp - 1),
            pp > 0,
    ;
    let c0 = code_val(r0 as int);
    assert(bits_val(x) * pp + (pp - 1) == c0 * (pt * pp) + low) by (nonlinear_arith)
        requires
            bits_val(x) == c0 * pt + bt,
            low == bt * pp + (pp - 1),
    ;
    lemma_top_bits(c0, bits_len(tail) + p, low as nat, 0);
    lemma2_to64();
}

/// Two octet sequences whose padded code streams agree, with padding
/// shorter than an octet, are equal.
#[verifier::rlimit(50)]
proof fn lemma_padded_injective(x: Seq<u8>, px: nat, y: Seq<u8>, py: nat)
    requires
        px < 8,
        py < 8,
        bits_len(x) + px == bits_len(y) + py,
        padded_val(x, px) == padded_val(y, py),
    ensures
        x == y,
    decreases x.len() + y.len(),
{
    if x.len() == 0 && y.len() == 0 {
        assert(x =~= y);
    } else if x.len() == 0 || y.len() == 0 {
        if x.len() == 0 {
            lemma_padded_ones(y, py, px);
        } else {
            lemma_padded_ones(x, px, py);
        }
    } else {
        let m = bits_len(x) + px;
        lemma_padded_front(x, px);
        lemma_padded_front(y, py);
        let lx = code_len(x[0] as int);
        let ly = code_len(y[0] as int);
        let t = padded_val(x, px);
        lemma_pow2_pos((m - lx) as nat);
        lemma_pow2_pos((m - ly) as nat);
        if x[0] != y[0] {
            if lx <= ly {
                lemma_pow2_pos((ly - lx) as nat);
                lemma_pow2_adds((m - ly) as nat, (ly - lx) as nat);
                lemma_div_denominator(t as int, pow2((m - ly) as nat) as int, pow2((ly - lx) as nat) as int);
                lemma_prefix_free(x[0] as int, y[0] as int);
            } else {
                lemma_pow2_pos((lx - ly) as nat);
                lemma_pow2_adds((m - lx) as nat, (lx - ly) as nat);
                lemma_div_denominator(t as int, pow2((m - lx) as nat) as int, pow2((lx - ly) as nat) as int);
                lemma_prefix_free(y[0] as int, x[0] as int);
            }
        }
        assert(x[0] == y[0]);
        lemma_padded_injective(x.skip(1), px, y.skip(1), py);
        assert(x =~= seq![x[0]] + x.skip(1));
        assert(y =~= seq![y[0]] + y.skip(1));
    }
}

/// A padded code stream of at least one octet is never all one-bits.
proof fn lemma_padded_ones(y: Seq<u8>, py: nat, p: nat)
    requires
        y.len() > 0,
        p < 8,
        py < 8,
        bits_len(y) + py == p,
    ensures
        padded_val(y, py) != padded_val(Seq::<u8>::empty(), p),
{
    lemma_padded_front(y, py);
    let l = code_len(y[0] as int);
    lemma_code_bounds(y[0] as int);
    lemma_pow2_pos(p);
    let e = Seq::<u8>::empty();
    assert(bits_val(e) == 0);
    let pp = pow2(p);
    assert(0 * pp == 0) by (nonlinear_arith);
    assert(padded_val(e, p) == pp - 1);
    lemma_ones(p, (p - l) as nat);
    lemma2_to64();
    assert(code_val(256) == 0x3fffffff && code_len(256) == 30);
    lemma_ones(30, (30 - l) as nat);
    lemma_prefix_free(y[0] as int, 256);
}

/// The Huffman encoding is injective.
#[verifier::rlimit(50)]
pub proof fn lemma_encoded_injective(x: Seq<u8>, y: Seq<u8>)
    requires
        huffman_encoded(x) == huffman_encoded(y),
    ensures
        x == y,
{
    let lx = bits_len(x);
    let ly = bits_len(y);
    let px = pad_len(lx);
    let py = pad_len(ly);
    lemma_pad_len(lx);
    lemma_pad_len(ly);
    lemma_bits_val_bound(x);
    lemma_bits_val_bound(y);
    lemma_pow2_adds(lx, px);
    lemma_pow2_adds(ly, py);
    lemma_pow2_pos(px);
    lemma_pow2_pos(py);
    let nx = (lx + px) / 8;
    let ny = (ly + py) / 8;
    lemma_be_bytes_len(padded_val(x, px), nx);
    lemma_be_bytes_len(padded_val(y, py), ny);
    assert(nx == ny);
    assert(8 * nx == lx + px);
    assert(8 * ny == ly + py);
    let bx = bits_val(x);
    let ppx = pow2(px);
    let vx = padded_val(x, px);
    assert(vx < pow2(lx) * ppx) by (nonlinear_arith)
        requires
            bx < pow2(lx),
            vx == bx * ppx + (ppx - 1),
            ppx > 0,
    ;
    let by_ = bits_val(y);
    let ppy = pow2(py);
    let vy = padded_val(y, py);
    assert(vy < pow2(ly) * ppy) by (nonlinear_arith)
        requires
            by_ < pow2(ly),
            vy == by_ * ppy + (ppy - 1),
            ppy > 0,
    ;
    lemma_be_value_of_bytes(vx, nx);
    lemma_be_value_of_bytes(vy, ny);
    lemma_padded_injective(x, px, y, py);
}

/// What decoding `src` gives: the octets whose Huffman encoding it is, if
/// there are any.
pub open spec fn huffman_decoded(src: Seq<u8>) -> Option<Seq<u8>> {
    if exists|x: Seq<u8>| huffman_encoded(x) == src {
        Some(choose|x: Seq<u8>| huffman_encoded(x) == src)
    } else {
        None
    }
}

/// Decoding the Huffman encoding of any octets gives those octets back.
pub proof fn lemma_huffman_round_trip(x: Seq<u8>)
    ensures
        huffman_decoded(huffman_encoded(x)) == Some(x),
{
    let y = choose|y: Seq<u8>| huffman_encoded(y) == huffman_encoded(x);
    lemma_encoded_injective(x, y);
}

/// Moving the top octet of `n + 8` pending bits out to the octets written.
proof fn lemma_flush(a: nat, buf: nat, n: nat)
    requires
        buf < pow2(n + 8),
    ensures
        buf / pow2(n) < 256,
        (a * 256 + buf / pow2(n)) * pow2(n) + buf % pow2(n) == a * pow2(n + 8) + buf,
{
    lemma_pow2_pos(n);
    lemma_pow2_adds(n, 8);
    lemma2_to64();
    let p = pow2(n);
    lemma_fundamental_div_mod(buf as int, p as int);
    let q = buf / p;
    let r = buf % p;
    lemma_mod_bound(buf as int, p as int);
    assert(q < 256) by (nonlinear_arith)
        requires
            buf == p * q + r,
            buf < p * 256,
            0 <= r,
            p > 0,
    ;
    assert((a * 256 + q) * p + r == a * (p * 256) + buf) by (nonlinear_arith)
        requires
            buf == p * q + r,
    ;
}

/// Encodes `src` with the HPACK Huffman code and appends the octets to `dst`.
pub fn encode(src: &[u8], dst: &mut Vec<u8>)
    ensures
        final(dst)@ == old(dst)@ + huffman_encoded(src@),
{
    let ghost start = dst@;
    let ghost mut out: Seq<u8> = seq![];
    let mut buf: u64 = 0;
    let mut nbits: u64 = 0;
    let mut i: usize = 0;
    proof {
        lemma2_to64();
        assert(src@.take(0) =~= seq![]);
    }
    while i < src.len()
        invariant
            0 <= i <= src@.len(),
            nbits < 8,
            buf < pow2(nbits as nat),
            dst@ == start + out,
            be_value(out) * pow2(nbits as nat) + buf == bits_val(src@.take(i as int)),
            out.len() * 8 + nbits == bits_len(src@.take(i as int)),
        decreases src@.len() - i,
    {
        let b = src[i];
        let (len, code) = code_of(b as u16);
        proof {
            lemma_code_bounds(b as int);
            assert(src@.take(i + 1).drop_last() =~= src@.take(i as int));
            lemma_pow2_adds(nbits as nat, len as nat);
            lemma_pow2_pos(len as nat);
            lemma_u64_pow2_no_overflow(len as nat);
            lemma_u64_pow2_no_overflow((nbits + len) as nat);
            lemma_u64_shl_is_mul(1, len as u64);
            lemma_mul_inequality(buf as int, (pow2(nbits as nat) - 1) as int, pow2(len as nat) as int);
        }
        let p: u64 = 1u64 << (len as u64);
        proof {
            let a = be_value(out);
            let pn = pow2(nbits as nat);
            let pl = pow2(len as nat);
            assert(buf * p + code < pn * pl) by (nonlinear_arith)
                requires
                    buf < pn,
                    code < pl,
                    p == pl,
            ;
            assert(a * (pn * pl) + (buf * pl + code) == (a * pn + buf) * pl + code)
                by (nonlinear_arith);
        }
        buf = buf * p + code as u64;
        nbits = nbits + len as u64;
        while nbits >= 8
            invariant
                nbits < 38,
                buf < pow2(nbits as nat),
                dst@ == start + out,
                be_value(out) * pow2(nbits as nat) + buf == bits_val(src@.take(i + 1)),
                out.len() * 8 + nbits == bits_len(src@.take(i + 1)),
            decreases nbits,
        {
            nbits = nbits - 8;
            proof {
                lemma_flush(be_value(out), buf as nat, nbits as nat);
                lemma_u64_pow2_no_overflow(nbits as nat);
                lemma_u64_shl_is_mul(1, nbits);
                lemma_mod_bound(buf as int, pow2(nbits as nat) as int);
            }
            let q: u64 = 1u64 << nbits;
            let byte = (buf / q) as u8;
            dst.push(byte);
            proof {
                let prev = out;
                out = out.push(byte);
                assert(out.drop_last() =~= prev);
            }
            buf = buf % q;
        }
        i = i + 1;
    }
    proof {
        assert(src@.take(i as int) =~= src@);
        lemma2_to64();
    }
    let ghost total = bits_len(src@);
    let ghost value = bits_val(src@);
    if nbits > 0 {
        let pad: u64 = 8 - nbits;
        proof {
            let k = out.len();
            assert(total % 8 == nbits && (total + pad) / 8 == k + 1) by (nonlinear_arith)
                requires
                    total == k * 8 + nbits,
                    0 < nbits < 8,
                    pad == 8 - nbits,
            ;
            lemma_pow2_adds(nbits as nat, pad as nat);
            lemma_u64_shl_is_mul(1, pad);
            let a = be_value(out);
            let pn = pow2(nbits as nat);
            let pp = pow2(pad as nat);
            assert(buf * pp + (pp - 1) < 256) by (nonlinear_arith)
                requires
                    buf < pn,
                    pn * pp == 256,
                    pp >= 1,
            ;
            assert((a * pn + buf) * pp + (pp - 1) == a * 256 + (buf * pp + (pp - 1)))
                by (nonlinear_arith)
                requires
                    pn * pp == 256,
            ;
        }
        let p: u64 = 1u64 << pad;
        let last = (buf * p + (p - 1)) as u8;
        dst.push(last);
        proof {
            let prev = out;
            out = out.push(last);
            assert(out.drop_last() =~= prev);
            let pp = pow2(pad as nat);
            assert(pad_len(total) == pad);
            assert(be_value(out) == be_value(prev) * 256 + last);
            assert(be_value(out) == value * pp + (pp - 1));
        }
    } else {
        proof {
            let k = out.len();
            assert(total % 8 == 0 && total / 8 == k) by (nonlinear_arith)
                requires
                    total == k * 8,
            ;
            assert(pad_len(total) == 0);
            assert(pow2(nbits as nat) == 1);
            assert(buf == 0);
            assert(be_value(out) == value);
        }
    }
    proof {
        lemma_be_round_trip(out);
        assert(be_value(out) == bits_val(src@) * pow2(pad_len(bits_len(src@))) + (pow2(
            pad_len(bits_len(src@)),
        ) - 1) as nat);
    }
}

} // verus!

verus! {

/// Number of bits the decoder reads per step.
#[derive(Debug, PartialEq, Eq, Structural, Clone, Copy)]
pub enum DecoderSpeed {
    OneBit,
    TwoBits,
    ThreeBits,
    FourBits,
    FiveBits,
}

impl DecoderSpeed {
    /// The number of bits of a step.
    pub open spec fn spec_bits(self) -> nat {
        match self {
            DecoderSpeed::OneBit => 1,
            DecoderSpeed::TwoBits => 2,
            DecoderSpeed::ThreeBits => 3,
            DecoderSpeed::FourBits => 4,
            DecoderSpeed::FiveBits => 5,
        }
    }

    /// Returns the number of bits of a step.
    pub fn bits(&self) -> (r: u8)
        ensures
            r == self.spec_bits(),
    {
        match self {
            DecoderSpeed::OneBit => 1,
            DecoderSpeed::TwoBits => 2,
            DecoderSpeed::ThreeBits => 3,
            DecoderSpeed::FourBits => 4,
            DecoderSpeed::FiveBits => 5,
        }
    }

    /// Returns the speed that reads `bits` bits per step; only `1..=5` are
    /// supported.
    pub fn from_bits(bits: u8) -> (r: Option<DecoderSpeed>)
        ensures
            r is Some <==> 1 <= bits <= 5,
            r matches Some(s) ==> s.spec_bits() == bits,
    {
        match bits {
            1 => Some(DecoderSpeed::OneBit),
            2 => Some(DecoderSpeed::TwoBits),
            3 => Some(DecoderSpeed::ThreeBits),
            4 => Some(DecoderSpeed::FourBits),
            5 => Some(DecoderSpeed::FiveBits),
            _ => None,
        }
    }

    /// Returns every supported speed, slowest first.
    pub fn known() -> (r: Vec<DecoderSpeed>)
        ensures
            r@ == seq![
                DecoderSpeed::OneBit,
                DecoderSpeed::TwoBits,
                DecoderSpeed::ThreeBits,
                DecoderSpeed::FourBits,
                DecoderSpeed::FiveBits,
            ],
    {
        let r = vec![
            DecoderSpeed::OneBit,
            DecoderSpeed::TwoBits,
            DecoderSpeed::ThreeBits,
            DecoderSpeed::FourBits,
            DecoderSpeed::FiveBits,
        ];
        assert(r@ =~= seq![
            DecoderSpeed::OneBit,
            DecoderSpeed::TwoBits,
            DecoderSpeed::ThreeBits,
            DecoderSpeed::FourBits,
            DecoderSpeed::FiveBits,
        ]);
        r
    }
}

/// The ways a Huffman decoding can fail.
#[derive(Debug, PartialEq, Eq, Structural, Clone, Copy)]
pub enum DecoderError {
    /// The input is no Huffman encoding: it holds the end-of-string code, or
    /// its padding is longer than seven bits or not all one-bits.
    InvalidInput,
}

impl DecoderError {
    /// Returns a description of the error.
    pub fn description(&self) -> (r: &'static str)
        ensures
            r@ == "Invalid Huffman sequence."@,
    {
        proof {
            reveal_strlit("Invalid Huffman sequence.");
        }
        match self {
            DecoderError::InvalidInput => "Invalid Huffman sequence.",
        }
    }
}

/// Whether the top `code_len(s)` of the `alen` bits `acc` are the code of `s`.
pub open spec fn code_on_top(acc: nat, alen: nat, s: int) -> bool {
    &&& code_len(s) <= alen
    &&& code_val(s) == acc / pow2((alen - code_len(s)) as nat)
}

/// Returns `2^k`.
fn pow2_u64(k: u64) -> (r: u64)
    requires
        k < 64,
    ensures
        r == pow2(k as nat),
        r > 0,
{
    proof {
        lemma_pow2_pos(k as nat);
        lemma_u64_pow2_no_overflow(k as nat);
        lemma_u64_shl_is_mul(1, k);
    }
    1u64 << k
}

/// Finds an octet whose code is the top bits of the `alen` bits `acc`, with
/// a length in `lo + 1 ..= hi`.
fn match_code(acc: u64, alen: u64, lo: u64, hi: u64) -> (r: Option<(u8, u64)>)
    requires
        hi <= alen < 64,
    ensures
        match r {
            Some((s, l)) => l == code_len(s as int) && lo < l <= hi && code_on_top(
                acc as nat,
                alen as nat,
                s as int,
            ),
            None => forall|s: int|
                0 <= s < 256 && lo < #[trigger] code_len(s) <= hi ==> !code_on_top(
                    acc as nat,
                    alen as nat,
                    s,
                ),
        },
{
    let mut s: u16 = 0;
    while s < 256
        invariant
            s <= 256,
            hi <= alen < 64,
            forall|t: int|
                0 <= t < s && lo < #[trigger] code_len(t) <= hi ==> !code_on_top(
                    acc as nat,
                    alen as nat,
                    t,
                ),
        decreases 256 - s,
    {
        let (l, c) = code_of(s);
        if lo < l as u64 && l as u64 <= hi {
            let p = pow2_u64(alen - l as u64);
            if c as u64 == acc / p {
                return Some((s as u8, l as u64));
            }
        }
        s = s + 1;
    }
    None
}

/// Taking the code of one symbol off the top of `alen` pending bits.
proof fn lemma_take_code(head: nat, acc: nat, alen: nat, l: nat)
    requires
        l <= alen,
        acc < pow2(alen),
    ensures
        acc % pow2((alen - l) as nat) < pow2((alen - l) as nat),
        (head * pow2(l) + acc / pow2((alen - l) as nat)) * pow2((alen - l) as nat) + acc % pow2(
            (alen - l) as nat,
        ) == head * pow2(alen) + acc,
{
    let r = (alen - l) as nat;
    lemma_pow2_pos(r);
    lemma_pow2_adds(l, r);
    lemma_fundamental_div_mod(acc as int, pow2(r) as int);
    lemma_mod_bound(acc as int, pow2(r) as int);
    let q = acc / pow2(r);
    let m = acc % pow2(r);
    let pr = pow2(r);
    let pl = pow2(l);
    assert((head * pl + q) * pr + m == head * (pl * pr) + (pr * q + m)) by (nonlinear_arith);
}

/// No octet's code of at most `alen` bits is on top of the `alen` bits `acc`.
pub open spec fn no_code_on_top(acc: nat, alen: nat, upto: nat) -> bool {
    forall|s: int| 0 <= s < 256 && 0 < #[trigger] code_len(s) <= upto ==> !code_on_top(acc, alen, s)
}

/// Decodes the Huffman encoded `src`, reading `speed` bits per step, and
/// appends the octets to `dst`. Fails, leaving `dst` as it was, exactly when
/// `src` is no Huffman encoding: when it holds the end-of-string code, or
/// its padding is longer than seven bits or not all one-bits. The speed
/// changes how the bits are walked, never the result.
#[verifier::rlimit(50)]
pub fn decode(src: &[u8], dst: &mut Vec<u8>, speed: DecoderSpeed) -> (r: Result<(), DecoderError>)
    ensures
        match r {
            Ok(_) => final(dst)@.len() >= old(dst)@.len() && final(dst)@.take(old(dst)@.len() as int)
                == old(dst)@ && huffman_encoded(final(dst)@.skip(old(dst)@.len() as int)) == src@,
            Err(_) => final(dst)@ == old(dst)@ && forall|x: Seq<u8>| huffman_encoded(x) != src@,
        },
        forall|x: Seq<u8>| #[trigger]
            huffman_encoded(x) == src@ ==> r is Ok && final(dst)@ == old(dst)@ + x,
        match huffman_decoded(src@) {
            Some(x) => r is Ok && final(dst)@ == old(dst)@ + x,
            None => r is Err && final(dst)@ == old(dst)@,
        },
{
    let n = speed.bits() as u64;
    let mut out: Vec<u8> = Vec::new();
    let mut acc: u64 = 0;
    let mut alen: u64 = 0;
    let mut i: usize = 0;
    proof {
        lemma2_to64();
        assert(src@.take(0) =~= seq![]);
        assert forall|x: Seq<u8>| #[trigger] huffman_encoded(x) == src@ implies decoding_state(
            x,
            src@,
            0,
            out@,
            0,
            0,
        ) by {
            lemma_state_init(x, src@);
            assert(out@ =~= seq![]);
        }
    }
    while i < src.len()
        invariant
            1 <= n <= 5,
            i <= src@.len(),
            alen < 30,
            acc < pow2(alen as nat),
            be_value(src@.take(i as int)) == bits_val(out@) * pow2(alen as nat) + acc,
            i * 8 == bits_len(out@) + alen,
            no_code_on_top(acc as nat, alen as nat, alen as nat),
            forall|x: Seq<u8>| #[trigger]
                huffman_encoded(x) == src@ ==> decoding_state(
                    x,
                    src@,
                    i as nat,
                    out@,
                    acc as nat,
                    alen as nat,
                ),
        decreases src@.len() - i,
    {
        proof {
            lemma_pow2_adds(alen as nat, 8);
            lemma2_to64();
            assert(src@.take(i + 1).drop_last() =~= src@.take(i as int));
            let a = bits_val(out@);
            let pa = pow2(alen as nat);
            assert((a * pa + acc) * 256 + src[i as int] == a * (pa * 256) + (acc * 256 + src[i as int]))
                by (nonlinear_arith);
            assert(acc * 256 + src[i as int] < pa * 256) by (nonlinear_arith)
                requires
                    acc < pa,
                    src[i as int] < 256,
            ;
            assert forall|x: Seq<u8>| #[trigger] huffman_encoded(x) == src@ implies decoding_state(
                x,
                src@,
                (i + 1) as nat,
                out@,
                (acc * 256 + src[i as int]) as nat,
                (alen + 8) as nat,
            ) by {
                lemma_state_byte(x, src@, i as nat, out@, acc as nat, alen as nat);
            }
        }
        acc = acc * 256 + src[i] as u64;
        alen = alen + 8;
        i = i + 1;
        loop
            invariant
                1 <= n <= 5,
                i <= src@.len(),
                alen < 38,
                acc < pow2(alen as nat),
                be_value(src@.take(i as int)) == bits_val(out@) * pow2(alen as nat) + acc,
                i * 8 == bits_len(out@) + alen,
                forall|x: Seq<u8>| #[trigger]
                    huffman_encoded(x) == src@ ==> decoding_state(
                        x,
                        src@,
                        i as nat,
                        out@,
                        acc as nat,
                        alen as nat,
                    ),
            ensures
                1 <= n <= 5,
                i <= src@.len(),
                alen < 38,
                acc < pow2(alen as nat),
                be_value(src@.take(i as int)) == bits_val(out@) * pow2(alen as nat) + acc,
                i * 8 == bits_len(out@) + alen,
                no_code_on_top(acc as nat, alen as nat, alen as nat),
                forall|x: Seq<u8>| #[trigger]
                    huffman_encoded(x) == src@ ==> decoding_state(
                        x,
                        src@,
                        i as nat,
                        out@,
                        acc as nat,
                        alen as nat,
                    ),
            decreases alen,
        {
            let mut pl: u64 = 0;
            let mut found: Option<(u8, u64)> = None;
            while pl < alen && found.is_none()
                invariant
                    pl <= alen < 38,
                    1 <= n <= 5,
                    found matches Some((s, l)) ==> l == code_len(s as int) && l <= alen
                        && code_on_top(acc as nat, alen as nat, s as int),
                    found is None ==> no_code_on_top(acc as nat, alen as nat, pl as nat),
                decreases alen - pl,
            {
                let hi = if pl + n < alen {
                    pl + n
                } else {
                    alen
                };
                found = match_code(acc, alen, pl, hi);
                pl = hi;
            }
            match found {
                Some((s, l)) => {
                    let rest = alen - l;
                    let p = pow2_u64(rest);
                    proof {
                        lemma_code_bounds(s as int);
                        lemma_take_code(bits_val(out@), acc as nat, alen as nat, l as nat);
                        let prev = out@.push(s);
                        assert(prev.drop_last() =~= out@);
                        assert forall|x: Seq<u8>| #[trigger] huffman_encoded(x) == src@ implies decoding_state(
                            x,
                            src@,
                            i as nat,
                            prev,
                            (acc % p) as nat,
                            rest as nat,
                        ) by {
                            lemma_state_match(x, src@, i as nat, out@, acc as nat, alen as nat, s as int);
                        }
                    }
                    out.push(s);
                    acc = acc % p;
                    alen = rest;
                },
                None => {
                    break ;
                },
            }
        }
        if alen >= 30 {
            proof {
                assert forall|x: Seq<u8>| huffman_encoded(x) != src@ by {
                    if huffman_encoded(x) == src@ {
                        lemma_state_stuck(x, src@, i as nat, out@, acc as nat, alen as nat);
                    }
                }
            }
            return Err(DecoderError::InvalidInput);
        }
    }
    if alen >= 8 || acc != pow2_u64(alen) - 1 {
        proof {
            assert forall|x: Seq<u8>| huffman_encoded(x) != src@ by {
                if huffman_encoded(x) == src@ {
                    lemma_state_stuck(x, src@, i as nat, out@, acc as nat, alen as nat);
                }
            }
        }
        return Err(DecoderError::InvalidInput);
    }
    proof {
        assert(src@.take(i as int) =~= src@);
        let total = bits_len(out@);
        let k = src@.len();
        if alen == 0 {
            assert(total % 8 == 0 && total / 8 == k) by (nonlinear_arith)
                requires
                    k * 8 == total,
            ;
        } else {
            assert(total % 8 == 8 - alen && (total + alen) / 8 == k) by (nonlinear_arith)
                requires
                    k * 8 == total + alen,
                    0 < alen < 8,
            ;
        }
        assert(pad_len(total) == alen);
        lemma_be_round_trip(src@);
        assert forall|x: Seq<u8>| #[trigger] huffman_encoded(x) == src@ implies x == out@ by {
            lemma_state_stuck(x, src@, i as nat, out@, acc as nat, alen as nat);
        }
        assert(huffman_encoded(out@) == src@);
        assert(huffman_decoded(src@) == Some(out@));
    }
    let ghost start = dst@;
    let mut j: usize = 0;
    while j < out.len()
        invariant
            j <= out@.len(),
            dst@ == start + out@.take(j as int),
        decreases out@.len() - j,
    {
        dst.push(out[j]);
        j = j + 1;
        assert(dst@ =~= start + out@.take(j as int));
    }
    proof {
        assert(out@.take(j as int) =~= out@);
        assert(dst@.take(start.len() as int) =~= start);
        assert(dst@.skip(start.len() as int) =~= out@);
    }
    Ok(())
}

} // verus!
