use vstd::prelude::*;

verus! {

/// 256 to the power `n`.
pub open spec fn pow256(n: nat) -> nat
    decreases n,
{
    if n == 0 {
        1
    } else {
        256 * pow256((n - 1) as nat)
    }
}

/// The number that a little-endian byte string spells.
pub open spec fn le_nat(s: Seq<u8>) -> nat
    decreases s.len(),
{
    if s.len() == 0 {
        0
    } else {
        (s[0] + 256 * le_nat(s.drop_first())) as nat
    }
}

/// The `n` little-endian bytes of `v` (its low `n` bytes).
pub open spec fn le_bytes(v: nat, n: nat) -> Seq<u8>
    decreases n,
{
    if n == 0 {
        Seq::empty()
    } else {
        seq![(v % 256) as u8].add(le_bytes(v / 256, (n - 1) as nat))
    }
}

pub proof fn lemma_pow256_8()
    ensures
        pow256(4) == 0x1_0000_0000,
        pow256(8) == 0x1_0000_0000_0000_0000,
{
    reveal_with_fuel(pow256, 9);
}

pub proof fn lemma_le_nat_bound(s: Seq<u8>)
    ensures
        le_nat(s) < pow256(s.len()),
    decreases s.len(),
{
    if s.len() > 0 {
        lemma_le_nat_bound(s.drop_first());
        assert(le_nat(s) < pow256(s.len())) by (nonlinear_arith)
            requires
                le_nat(s) == s[0] + 256 * le_nat(s.drop_first()),
                le_nat(s.drop_first()) < pow256(s.drop_first().len()),
                pow256(s.len()) == 256 * pow256(s.drop_first().len()),
                s[0] < 256,
        ;
    }
}

/// Reading back the low bytes of a number gives the number, when it fits.
pub proof fn lemma_le_round_trip(v: nat, n: nat)
    requires
        v < pow256(n),
    ensures
        le_bytes(v, n).len() == n,
        le_nat(le_bytes(v, n)) == v,
    decreases n,
{
    if n > 0 {
        let rest = le_bytes(v / 256, (n - 1) as nat);
        assert(v / 256 < pow256((n - 1) as nat)) by (nonlinear_arith)
            requires
                v < pow256(n),
                pow256(n) == 256 * pow256((n - 1) as nat),
        ;
        lemma_le_round_trip(v / 256, (n - 1) as nat);
        let s = le_bytes(v, n);
        assert(s.drop_first() =~= rest);
        assert(v == v % 256 + 256 * (v / 256)) by (nonlinear_arith);
    }
}

/// The little-endian number stored at `data[at..at + width]`.
pub fn read_le(data: &[u8], at: usize, width: usize) -> (r: u64)
    requires
        width <= 8,
        at + width <= data@.len(),
    ensures
        r == le_nat(data@.subrange(at as int, at + width)),
{
    let len: usize = data.len();
    let mut k: usize = width;
    let mut acc: u64 = 0;
    proof {
        assert(data@.subrange(at + width, at + width) =~= Seq::<u8>::empty());
    }
    while k > 0
        invariant
            0 <= k <= width <= 8,
            at + width <= data@.len() == len,
            acc == le_nat(data@.subrange(at + k, at + width)),
        decreases k,
    {
        let ghost next = data@.subrange(at + k - 1, at + width);
        proof {
            assert(next.drop_first() =~= data@.subrange(at + k, at + width));
            lemma_le_nat_bound(next);
            lemma_pow256_8();
            lemma_pow256_mono(next.len(), 8);
        }
        acc = acc * 256 + data[at + k - 1] as u64;
        k = k - 1;
    }
    acc
}

/// The little-endian `u64` stored at `data[at..at + 8]`.
pub fn read_u64_le(data: &[u8], at: usize) -> (r: u64)
    requires
        at + 8 <= data@.len(),
    ensures
        r == le_nat(data@.subrange(at as int, at + 8)),
{
    read_le(data, at, 8)
}

pub proof fn lemma_pow256_mono(a: nat, b: nat)
    requires
        a <= b,
    ensures
        pow256(a) <= pow256(b),
    decreases b,
{
    if a < b {
        lemma_pow256_mono(a, (b - 1) as nat);
    }
}

/// Appends the eight little-endian bytes of `v`.
pub fn push_u64_le(out: &mut Vec<u8>, v: u64)
    ensures
        final(out)@ == old(out)@ + le_bytes(v as nat, 8),
{
    push_le(out, v, 8)
}

/// Appends the low `width` little-endian bytes of `v`.
pub fn push_le(out: &mut Vec<u8>, v: u64, width: usize)
    ensures
        final(out)@ == old(out)@ + le_bytes(v as nat, width as nat),
{
    let ghost start = out@;
    let mut rest: u64 = v;
    let mut k: usize = 0;
    while k < width
        invariant
            0 <= k <= width,
            start + le_bytes(v as nat, width as nat) == out@ + le_bytes(rest as nat, (width - k) as nat),
        decreases width - k,
    {
        let ghost tail = le_bytes(rest as nat, (width - k) as nat);
        proof {
            assert(tail =~= seq![(rest % 256) as u8] + le_bytes(rest as nat / 256, (width - k - 1) as nat));
        }
        out.push((rest % 256) as u8);
        rest = rest / 256;
        k = k + 1;
        proof {
            assert(out@ + le_bytes(rest as nat, (width - k) as nat) =~= start + le_bytes(v as nat, width as nat));
        }
    }
    proof {
        assert(le_bytes(rest as nat, 0) =~= Seq::<u8>::empty());
        assert(out@ =~= out@ + le_bytes(rest as nat, 0));
    }
}

} // verus!
