//! Big-endian byte strings read as natural numbers.
//!
//! Identifiers in this crate are arbitrary-precision naturals that travel as
//! big-endian byte strings. This module fixes what such a string means
//! (`be_value`), which string stands for a number (`minimal_bytes`), and the
//! arithmetic facts the identifier encoding rests on.

use vstd::prelude::*;

verus! {

/// 256 to the power `n`.
pub open spec fn pow256(n: nat) -> nat
    decreases n,
{
    if n == 0 {
        1
    } else {
        256 * pow256((n - 1) as nat)
    }
}

/// 2 to the power `n`.
pub open spec fn pow2(n: nat) -> nat
    decreases n,
{
    if n == 0 {
        1
    } else {
        2 * pow2((n - 1) as nat)
    }
}

/// The number that the bytes of `s` spell, most significant byte first.
/// The empty string spells zero; leading zero bytes do not change the value.
pub open spec fn be_value(s: Seq<u8>) -> nat
    decreases s.len(),
{
    if s.len() == 0 {
        0
    } else {
        256 * be_value(s.drop_last()) + s.last() as nat
    }
}

/// The shortest big-endian byte string for `n`: no leading zero byte, and the
/// single byte `0` for zero.
pub open spec fn minimal_bytes(n: nat) -> Seq<u8>
    decreases n,
{
    if n < 256 {
        seq![n as u8]
    } else {
        minimal_bytes(n / 256).push((n % 256) as u8)
    }
}

/// Whether `s` is the shortest byte string for its value.
pub open spec fn is_minimal(s: Seq<u8>) -> bool {
    s.len() >= 1 && (s.len() == 1 || s[0] != 0)
}

/// `n` written in exactly `width` bytes, most significant first; the value is
/// taken modulo `pow256(width)`.
pub open spec fn fixed_bytes(n: nat, width: nat) -> Seq<u8>
    decreases width,
{
    if width == 0 {
        Seq::<u8>::empty()
    } else {
        fixed_bytes(n / 256, (width - 1) as nat).push((n % 256) as u8)
    }
}

/// Bitwise conjunction of two naturals.
pub open spec fn bit_and(a: nat, b: nat) -> nat
    decreases a,
{
    if a == 0 || b == 0 {
        0
    } else {
        2 * bit_and(a / 2, b / 2) + (if a % 2 == 1 && b % 2 == 1 { 1nat } else { 0nat })
    }
}

pub proof fn lemma_pow256_positive(n: nat)
    ensures
        pow256(n) >= 1,
    decreases n,
{
    if n > 0 {
        lemma_pow256_positive((n - 1) as nat);
    }
}

pub proof fn lemma_pow256_adds(a: nat, b: nat)
    ensures
        pow256(a + b) == pow256(a) * pow256(b),
    decreases b,
{
    if b == 0 {
        assert(pow256(a) * 1 == pow256(a));
    } else {
        lemma_pow256_adds(a, (b - 1) as nat);
        let p = pow256(a);
        let q = pow256((b - 1) as nat);
        assert(pow256(a + b) == 256 * pow256((a + b - 1) as nat));
        assert(256 * (p * q) == p * (256 * q)) by (nonlinear_arith);
    }
}

pub proof fn lemma_pow256_monotonic(a: nat, b: nat)
    requires
        a <= b,
    ensures
        pow256(a) <= pow256(b),
    decreases b,
{
    if a < b {
        lemma_pow256_monotonic(a, (b - 1) as nat);
        lemma_pow256_positive((b - 1) as nat);
    }
}

pub proof fn lemma_pow2_positive(n: nat)
    ensures
        pow2(n) >= 1,
    decreases n,
{
    if n > 0 {
        lemma_pow2_positive((n - 1) as nat);
    }
}

/// Eight bits make a byte: `pow2(8 * n) == pow256(n)`.
pub proof fn lemma_pow2_of_bytes(n: nat)
    ensures
        pow2(8 * n) == pow256(n),
    decreases n,
{
    if n > 0 {
        lemma_pow2_of_bytes((n - 1) as nat);
        reveal_with_fuel(pow2, 9);
        assert(pow2(8 * n) == 256 * pow2((8 * n - 8) as nat));
    }
}

pub proof fn lemma_be_value_push(s: Seq<u8>, b: u8)
    ensures
        be_value(s.push(b)) == 256 * be_value(s) + b as nat,
{
    assert(s.push(b).drop_last() =~= s);
}

/// Every byte string of length `n` spells a number below `pow256(n)`.
pub proof fn lemma_be_value_bound(s: Seq<u8>)
    ensures
        be_value(s) < pow256(s.len()),
    decreases s.len(),
{
    if s.len() > 0 {
        lemma_be_value_bound(s.drop_last());
    }
}

/// Concatenation shifts the left part by the length of the right part.
pub proof fn lemma_be_value_concat(a: Seq<u8>, b: Seq<u8>)
    ensures
        be_value(a + b) == be_value(a) * pow256(b.len()) + be_value(b),
    decreases b.len(),
{
    if b.len() == 0 {
        assert(a + b =~= a);
        assert(be_value(a) * 1 == be_value(a));
    } else {
        let b0 = b.drop_last();
        assert((a + b).drop_last() =~= a + b0);
        assert((a + b).last() == b.last());
        lemma_be_value_concat(a, b0);
        let x = be_value(a);
        let p = pow256(b0.len());
        assert(256 * (x * p) == x * (256 * p)) by (nonlinear_arith);
    }
}

/// A string whose first byte is not zero spells at least `pow256(len - 1)`.
pub proof fn lemma_leading_byte_bound(s: Seq<u8>)
    requires
        s.len() >= 1,
        s[0] != 0,
    ensures
        be_value(s) >= pow256((s.len() - 1) as nat),
    decreases s.len(),
{
    if s.len() == 1 {
        assert(s.drop_last().len() == 0);
        assert(be_value(s.drop_last()) == 0);
    } else {
        let t = s.drop_last();
        assert(t[0] == s[0]);
        lemma_leading_byte_bound(t);
    }
}

/// `minimal_bytes(n)` spells `n` and is minimal.
pub proof fn lemma_minimal_bytes_value(n: nat)
    ensures
        be_value(minimal_bytes(n)) == n,
        is_minimal(minimal_bytes(n)),
    decreases n,
{
    if n < 256 {
        let s = seq![n as u8];
        assert(s.drop_last().len() == 0);
        assert(be_value(s.drop_last()) == 0);
        assert(s.last() == n as u8);
    } else {
        let q = n / 256;
        lemma_minimal_bytes_value(q);
        lemma_be_value_push(minimal_bytes(q), (n % 256) as u8);
        let t = minimal_bytes(q);
        assert(t.push((n % 256) as u8)[0] == t[0]);
        if t.len() == 1 {
            assert(t.drop_last().len() == 0);
            assert(be_value(t.drop_last()) == 0);
            assert(be_value(t) == t[0] as nat);
        }
    }
}

/// A minimal string is the one `minimal_bytes` gives for its value.
pub proof fn lemma_minimal_bytes_unique(s: Seq<u8>)
    requires
        is_minimal(s),
    ensures
        minimal_bytes(be_value(s)) == s,
    decreases s.len(),
{
    let t = s.drop_last();
    if s.len() == 1 {
        assert(t.len() == 0);
        assert(be_value(t) == 0);
        assert(be_value(s) == s[0] as nat);
        assert(seq![s[0]] =~= s);
    } else {
        assert(t[0] == s[0]);
        lemma_leading_byte_bound(t);
        lemma_pow256_positive((t.len() - 1) as nat);
        lemma_minimal_bytes_unique(t);
        let n = be_value(s);
        assert(n == 256 * be_value(t) + s.last() as nat);
        assert(n / 256 == be_value(t));
        assert(n % 256 == s.last() as nat);
        assert(t.push(s.last()) =~= s);
    }
}

/// Two numbers with the same minimal string are the same number.
pub proof fn lemma_minimal_bytes_injective(a: nat, b: nat)
    requires
        minimal_bytes(a) == minimal_bytes(b),
    ensures
        a == b,
{
    lemma_minimal_bytes_value(a);
    lemma_minimal_bytes_value(b);
}

/// The minimal string of `n` has at most `k` bytes exactly when `n` is below
/// `pow256(k)`, for `k >= 1`.
pub proof fn lemma_minimal_bytes_len(n: nat, k: nat)
    requires
        k >= 1,
    ensures
        minimal_bytes(n).len() <= k <==> n < pow256(k),
{
    let s = minimal_bytes(n);
    lemma_minimal_bytes_value(n);
    lemma_be_value_bound(s);
    if s.len() <= k {
        lemma_pow256_monotonic(s.len(), k);
    } else {
        assert(s[0] != 0);
        lemma_leading_byte_bound(s);
        lemma_pow256_monotonic(k, (s.len() - 1) as nat);
    }
}

/// `fixed_bytes(n, width)` has `width` bytes and spells `n` modulo
/// `pow256(width)`.
pub proof fn lemma_fixed_bytes_value(n: nat, width: nat)
    ensures
        fixed_bytes(n, width).len() == width,
        be_value(fixed_bytes(n, width)) == n % pow256(width),
    decreases width,
{
    if width > 0 {
        let w = (width - 1) as nat;
        lemma_fixed_bytes_value(n / 256, w);
        lemma_be_value_push(fixed_bytes(n / 256, w), (n % 256) as u8);
        lemma_pow256_positive(w);
        lemma_mod_step(n, pow256(w));
    }
}

/// A byte string is the fixed-width form of the number it spells.
pub proof fn lemma_fixed_width_unique(s: Seq<u8>)
    ensures
        fixed_bytes(be_value(s), s.len()) == s,
    decreases s.len(),
{
    if s.len() > 0 {
        let t = s.drop_last();
        lemma_fixed_width_unique(t);
        let n = be_value(s);
        assert(n / 256 == be_value(t));
        assert(n % 256 == s.last() as nat);
        assert(t.push(s.last()) =~= s);
    } else {
        assert(s =~= Seq::<u8>::empty());
    }
}

/// Taking a number modulo `256 * p` one byte at a time.
pub proof fn lemma_mod_step(n: nat, p: nat)
    requires
        p >= 1,
    ensures
        n % (256 * p) == 256 * ((n / 256) % p) + n % 256,
{
    let q = n / 256;
    let r = n % 256;
    let q1 = q / p;
    let r1 = q % p;
    assert(q == p * q1 + r1) by (nonlinear_arith)
        requires
            p >= 1,
            q1 == q / p,
            r1 == q % p,
    ;
    assert(n == (256 * p) * q1 + (256 * r1 + r)) by (nonlinear_arith)
        requires
            n == 256 * q + r,
            q == p * q1 + r1,
    ;
    assert(0 <= 256 * r1 + r < 256 * p) by (nonlinear_arith)
        requires
            0 <= r1 < p,
            0 <= r < 256,
    ;
    lemma_div_mod_unique(n as int, (256 * p) as int, q1 as int, (256 * r1 + r) as int);
}

/// Quotient and remainder are determined by `n == d * q + r` with
/// `0 <= r < d`.
pub proof fn lemma_div_mod_unique(n: int, d: int, q: int, r: int)
    requires
        d > 0,
        0 <= r < d,
        n == d * q + r,
    ensures
        n / d == q,
        n % d == r,
{
    assert(d * q == q * d) by (nonlinear_arith);
    vstd::arithmetic::div_mod::lemma_fundamental_div_mod_converse(n, d, q, r);
}

/// Dividing by `d` gives less than `q` exactly when the number is below
/// `d * q`.
pub proof fn lemma_div_bound(n: nat, d: nat, q: nat)
    requires
        d >= 1,
    ensures
        n / d < q <==> n < q * d,
{
    let k = n / d;
    let r = n % d;
    assert(n == d * k + r && 0 <= r < d) by (nonlinear_arith)
        requires
            d >= 1,
            k == n / d,
            r == n % d,
    ;
    if k < q {
        assert(d * k + r < q * d) by (nonlinear_arith)
            requires
                k + 1 <= q,
                0 <= r < d,
        ;
    } else {
        assert(d * k + r >= q * d) by (nonlinear_arith)
            requires
                k >= q,
                0 <= r,
                d >= 1,
        ;
    }
}

/// Conjunction with `pow2(k) - 1` keeps the low `k` bits.
pub proof fn lemma_bit_and_low_mask(a: nat, k: nat)
    ensures
        pow2(k) >= 1,
        bit_and(a, (pow2(k) - 1) as nat) == a % pow2(k),
    decreases k,
{
    lemma_pow2_positive(k);
    if k == 0 {
    } else {
        let p = pow2((k - 1) as nat);
        lemma_pow2_positive((k - 1) as nat);
        let m = (pow2(k) - 1) as nat;
        assert(m == 2 * (p - 1) + 1);
        assert(m / 2 == p - 1);
        assert(m % 2 == 1);
        if a == 0 {
            assert(0nat % pow2(k) == 0) by (nonlinear_arith)
                requires
                    pow2(k) >= 1,
            ;
        } else {
            lemma_bit_and_low_mask(a / 2, (k - 1) as nat);
            lemma_mod_step2(a, p);
        }
    }
}

/// Taking a number modulo `2 * p` one bit at a time.
pub proof fn lemma_mod_step2(n: nat, p: nat)
    requires
        p >= 1,
    ensures
        n % (2 * p) == 2 * ((n / 2) % p) + n % 2,
{
    let q = n / 2;
    let r = n % 2;
    let q1 = q / p;
    let r1 = q % p;
    assert(q == p * q1 + r1) by (nonlinear_arith)
        requires
            p >= 1,
            q1 == q / p,
            r1 == q % p,
    ;
    assert(n == (2 * p) * q1 + (2 * r1 + r)) by (nonlinear_arith)
        requires
            n == 2 * q + r,
            q == p * q1 + r1,
    ;
    assert(0 <= 2 * r1 + r < 2 * p) by (nonlinear_arith)
        requires
            0 <= r1 < p,
            0 <= r < 2,
    ;
    lemma_div_mod_unique(n as int, (2 * p) as int, q1 as int, (2 * r1 + r) as int);
}

} // verus!
