//! Fixed-width unsigned integers as little- and big-endian byte strings.

use vstd::prelude::*;

verus! {

/// `256` raised to the power `w`.
pub open spec fn pow256(w: nat) -> nat
    decreases w,
{
    if w == 0 {
        1
    } else {
        256 * pow256((w - 1) as nat)
    }
}

/// The value of a byte string read least significant byte first.
pub open spec fn le_value(s: Seq<u8>) -> nat
    decreases s.len(),
{
    if s.len() == 0 {
        0
    } else {
        s[0] as nat + 256 * le_value(s.drop_first())
    }
}

/// The value of a byte string read most significant byte first.
pub open spec fn be_value(s: Seq<u8>) -> nat
    decreases s.len(),
{
    if s.len() == 0 {
        0
    } else {
        s.last() as nat + 256 * be_value(s.drop_last())
    }
}

/// The `w` low bytes of `x`, least significant first.
pub open spec fn le_bytes(x: nat, w: nat) -> Seq<u8>
    decreases w,
{
    if w == 0 {
        Seq::empty()
    } else {
        seq![(x % 256) as u8] + le_bytes(x / 256, (w - 1) as nat)
    }
}

/// `n` zero bytes.
pub open spec fn zeros(n: nat) -> Seq<u8> {
    Seq::new(n, |i: int| 0u8)
}

pub proof fn lemma_pow256_values()
    ensures
        pow256(0) == 1,
        pow256(1) == 256,
        pow256(2) == 0x1_0000,
        pow256(4) == 0x1_0000_0000,
        pow256(8) == 0x1_0000_0000_0000_0000,
{
    reveal_with_fuel(pow256, 9);
}

pub proof fn lemma_le_bytes_len(x: nat, w: nat)
    ensures
        le_bytes(x, w).len() == w,
    decreases w,
{
    if w > 0 {
        lemma_le_bytes_len(x / 256, (w - 1) as nat);
    }
}

/// Encoding `x` in `w` bytes and reading them back gives `x` modulo `256^w`.
pub proof fn lemma_le_roundtrip(x: nat, w: nat)
    ensures
        le_value(le_bytes(x, w)) == x % pow256(w),
        le_bytes(x, w).len() == w,
    decreases w,
{
    lemma_le_bytes_len(x, w);
    if w > 0 {
        let rest = le_bytes(x / 256, (w - 1) as nat);
        lemma_le_roundtrip(x / 256, (w - 1) as nat);
        let s = le_bytes(x, w);
        assert(s.drop_first() =~= rest);
        let p = pow256((w - 1) as nat);
        assert(p >= 1) by {
            lemma_pow256_pos((w - 1) as nat);
        }
        // x = 256 * (x / 256) + x % 256, and (x / 256) % p * 256 + x % 256 == x % (256 * p)
        assert(le_value(s) == (x % 256) + 256 * ((x / 256) % p));
        lemma_mod_split(x, p);
    } else {
        assert(x % 1 == 0);
    }
}

pub proof fn lemma_pow256_pos(w: nat)
    ensures
        pow256(w) >= 1,
    decreases w,
{
    if w > 0 {
        lemma_pow256_pos((w - 1) as nat);
    }
}

proof fn lemma_mod_split(x: nat, p: nat)
    requires
        p >= 1,
    ensures
        (x % 256) + 256 * ((x / 256) % p) == x % (256 * p),
{
    let q = x / 256;
    let r = x % 256;
    assert(x == 256 * q + r) by (nonlinear_arith)
        requires
            q == x / 256,
            r == x % 256,
    ;
    assert(q == p * (q / p) + q % p) by (nonlinear_arith)
        requires
            p >= 1,
    ;
    let t = q / p;
    let u = q % p;
    assert(0 <= u < p) by (nonlinear_arith)
        requires
            p >= 1,
            u == q % p,
    ;
    assert(x == (256 * p) * t + (256 * u + r)) by (nonlinear_arith)
        requires
            x == 256 * q + r,
            q == p * t + u,
    ;
    assert(0 <= 256 * u + r < 256 * p) by (nonlinear_arith)
        requires
            0 <= u < p,
            0 <= r < 256,
    ;
    vstd::arithmetic::div_mod::lemma_fundamental_div_mod_converse_mod(
        x as int,
        (256 * p) as int,
        t as int,
        (256 * u + r) as int,
    );
}

/// A value below `256^w` survives the round trip unchanged.
pub proof fn lemma_le_roundtrip_small(x: nat, w: nat)
    requires
        x < pow256(w),
    ensures
        le_value(le_bytes(x, w)) == x,
        le_bytes(x, w).len() == w,
{
    lemma_le_roundtrip(x, w);
    vstd::arithmetic::div_mod::lemma_small_mod(x, pow256(w));
}

/// The value of `w` bytes is below `256^w`.
pub proof fn lemma_le_value_bound(s: Seq<u8>)
    ensures
        le_value(s) < pow256(s.len()),
    decreases s.len(),
{
    if s.len() > 0 {
        lemma_le_value_bound(s.drop_first());
        let v = le_value(s.drop_first());
        let p = pow256((s.len() - 1) as nat);
        assert(s[0] as nat + 256 * v < 256 * p) by (nonlinear_arith)
            requires
                v < p,
                s[0] < 256,
        ;
    }
}


/// The big-endian value of `w` bytes is below `256^w`.
pub proof fn lemma_be_value_bound(s: Seq<u8>)
    ensures
        be_value(s) < pow256(s.len()),
    decreases s.len(),
{
    if s.len() > 0 {
        lemma_be_value_bound(s.drop_last());
        let v = be_value(s.drop_last());
        let p = pow256((s.len() - 1) as nat);
        assert(s.last() as nat + 256 * v < 256 * p) by (nonlinear_arith)
            requires
                v < p,
                s.last() < 256,
        ;
    }
}

/// A single byte has its own value in either order.
pub proof fn lemma_value_1(s: Seq<u8>)
    requires
        s.len() == 1,
    ensures
        le_value(s) == s[0] as nat,
        be_value(s) == s[0] as nat,
{
    reveal_with_fuel(le_value, 2);
    reveal_with_fuel(be_value, 2);
    assert(s.drop_first().len() == 0);
    assert(s.drop_last().len() == 0);
}

/// Little-endian value of two bytes.
pub proof fn lemma_le_value_2(s: Seq<u8>)
    requires
        s.len() == 2,
    ensures
        le_value(s) == s[0] as nat + 256 * s[1] as nat,
{
    reveal_with_fuel(le_value, 3);
    assert(s.drop_first().drop_first().len() == 0);
}

pub proof fn lemma_le_value_4(s: Seq<u8>)
    requires
        s.len() == 4,
    ensures
        le_value(s) == s[0] as nat + 256 * s[1] as nat + 0x1_0000 * s[2] as nat + 0x100_0000
            * s[3] as nat,
{
    reveal_with_fuel(le_value, 5);
    let s1 = s.drop_first();
    let s2 = s1.drop_first();
    let s3 = s2.drop_first();
    assert(s3.drop_first().len() == 0);
}

pub proof fn lemma_le_value_8(s: Seq<u8>)
    requires
        s.len() == 8,
    ensures
        le_value(s) == s[0] as nat + 256 * s[1] as nat + 0x1_0000 * s[2] as nat + 0x100_0000
            * s[3] as nat + 0x1_0000_0000 * s[4] as nat + 0x100_0000_0000 * s[5] as nat
            + 0x1_0000_0000_0000 * s[6] as nat + 0x100_0000_0000_0000 * s[7] as nat,
{
    reveal_with_fuel(le_value, 9);
    let s1 = s.drop_first();
    let s2 = s1.drop_first();
    let s3 = s2.drop_first();
    let s4 = s3.drop_first();
    let s5 = s4.drop_first();
    let s6 = s5.drop_first();
    let s7 = s6.drop_first();
    assert(s7.drop_first().len() == 0);
}

pub proof fn lemma_be_value_2(s: Seq<u8>)
    requires
        s.len() == 2,
    ensures
        be_value(s) == 256 * s[0] as nat + s[1] as nat,
{
    reveal_with_fuel(be_value, 3);
    assert(s.drop_last().drop_last().len() == 0);
}

pub proof fn lemma_be_value_4(s: Seq<u8>)
    requires
        s.len() == 4,
    ensures
        be_value(s) == 0x100_0000 * s[0] as nat + 0x1_0000 * s[1] as nat + 256 * s[2] as nat
            + s[3] as nat,
{
    reveal_with_fuel(be_value, 5);
    let s1 = s.drop_last();
    let s2 = s1.drop_last();
    let s3 = s2.drop_last();
    assert(s3.drop_last().len() == 0);
}

pub proof fn lemma_be_value_8(s: Seq<u8>)
    requires
        s.len() == 8,
    ensures
        be_value(s) == 0x100_0000_0000_0000 * s[0] as nat + 0x1_0000_0000_0000 * s[1] as nat
            + 0x100_0000_0000 * s[2] as nat + 0x1_0000_0000 * s[3] as nat + 0x100_0000
            * s[4] as nat + 0x1_0000 * s[5] as nat + 256 * s[6] as nat + s[7] as nat,
{
    reveal_with_fuel(be_value, 9);
    let s1 = s.drop_last();
    let s2 = s1.drop_last();
    let s3 = s2.drop_last();
    let s4 = s3.drop_last();
    let s5 = s4.drop_last();
    let s6 = s5.drop_last();
    let s7 = s6.drop_last();
    assert(s7.drop_last().len() == 0);
}

/// Appends the `w` low bytes of `x`, least significant first.
pub fn push_le(out: &mut Vec<u8>, x: u64, w: usize)
    requires
        w <= 8,
    ensures
        final(out)@ == old(out)@ + le_bytes(x as nat, w as nat),
{
    let ghost start = old(out)@;
    let mut v: u64 = x;
    let mut i: usize = 0;
    while i < w
        invariant
            i <= w,
            start + le_bytes(x as nat, w as nat) == out@ + le_bytes(v as nat, (w - i) as nat),
        decreases w - i,
    {
        let ghost before = out@;
        let b = (v % 256) as u8;
        proof {
            let rest = le_bytes((v / 256) as nat, (w - i - 1) as nat);
            assert(le_bytes(v as nat, (w - i) as nat) == seq![b] + rest);
            assert(before + (seq![b] + rest) =~= before.push(b) + rest);
        }
        out.push(b);
        v = v / 256;
        i = i + 1;
    }
    proof {
        assert(le_bytes(v as nat, 0) =~= Seq::<u8>::empty());
        assert(out@ + Seq::<u8>::empty() =~= out@);
    }
}

/// Appends `n` zero bytes.
pub fn push_zeros(out: &mut Vec<u8>, n: usize)
    ensures
        final(out)@ == old(out)@ + zeros(n as nat),
{
    let ghost start = old(out)@;
    let mut i: usize = 0;
    while i < n
        invariant
            i <= n,
            out@ == start + zeros(i as nat),
        decreases n - i,
    {
        out.push(0u8);
        i = i + 1;
        proof {
            assert(out@ =~= start + zeros(i as nat));
        }
    }
}

/// Appends a byte slice.
pub fn push_all(out: &mut Vec<u8>, data: &[u8])
    ensures
        final(out)@ == old(out)@ + data@,
{
    let ghost start = old(out)@;
    let mut i: usize = 0;
    while i < data.len()
        invariant
            i <= data@.len(),
            out@ == start + data@.subrange(0, i as int),
        decreases data@.len() - i,
    {
        out.push(data[i]);
        i = i + 1;
        proof {
            assert(out@ =~= start + data@.subrange(0, i as int));
        }
    }
    proof {
        assert(data@.subrange(0, data@.len() as int) =~= data@);
    }
}

} // verus!
