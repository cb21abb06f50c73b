//! Small executable helpers over byte slices, with exact contracts.
use vstd::prelude::*;

verus! {

/// True exactly when the two slices hold the same bytes.
pub fn bytes_eq(a: &[u8], b: &[u8]) -> (r: bool)
    ensures
        r == (a@ == b@),
{
    if a.len() != b.len() {
        proof {
            assert(a@.len() != b@.len());
        }
        return false;
    }
    let n = a.len();
    let mut i: usize = 0;
    while i < n
        invariant
            n == a@.len() && n == b@.len(),
            i <= n,
            forall|j: int| 0 <= j < i ==> a@[j] == b@[j],
        decreases n - i,
    {
        if a[i] != b[i] {
            return false;
        }
        i += 1;
    }
    proof {
        assert(a@ =~= b@);
    }
    true
}

/// Copies the byte range `[from, to)` of `s` into a fresh vector.
pub fn copy_range(s: &[u8], from: usize, to: usize) -> (out: Vec<u8>)
    requires
        from <= to <= s@.len(),
    ensures
        out@ == s@.subrange(from as int, to as int),
{
    let mut out: Vec<u8> = Vec::new();
    let mut i: usize = from;
    while i < to
        invariant
            from <= i <= to <= s@.len(),
            out@ == s@.subrange(from as int, i as int),
        decreases to - i,
    {
        out.push(s[i]);
        proof {
            assert(out@ =~= s@.subrange(from as int, (i + 1) as int));
        }
        i += 1;
    }
    out
}

/// Copies a whole slice into a fresh vector.
pub fn to_vec(s: &[u8]) -> (out: Vec<u8>)
    ensures
        out@ == s@,
{
    let out = copy_range(s, 0, s.len());
    proof {
        assert(out@ =~= s@);
    }
    out
}

/// True exactly when `s` starts with `prefix`.
pub fn starts_with(s: &[u8], prefix: &[u8]) -> (r: bool)
    ensures
        r == (s@.len() >= prefix@.len() && s@.take(prefix@.len() as int) == prefix@),
{
    if s.len() < prefix.len() {
        return false;
    }
    let n = prefix.len();
    let mut i: usize = 0;
    while i < n
        invariant
            n == prefix@.len() <= s@.len(),
            i <= n,
            forall|j: int| 0 <= j < i ==> s@[j] == prefix@[j],
        decreases n - i,
    {
        if s[i] != prefix[i] {
            proof {
                assert(s@.take(n as int)[i as int] != prefix@[i as int]);
            }
            return false;
        }
        i += 1;
    }
    proof {
        assert(s@.take(n as int) =~= prefix@);
    }
    true
}

/// Appends every byte of `b` to `out`.
pub fn push_bytes(out: &mut Vec<u8>, b: &[u8])
    ensures
        final(out)@ == old(out)@ + b@,
{
    let n = b.len();
    let mut i: usize = 0;
    while i < n
        invariant
            n == b@.len(),
            i <= n,
            out@ == old(out)@ + b@.take(i as int),
        decreases n - i,
    {
        out.push(b[i]);
        proof {
            assert(old(out)@ + b@.take(i as int) + seq![b@[i as int]] =~= old(out)@ + b@.take(
                i + 1,
            ));
        }
        i += 1;
    }
    proof {
        assert(b@.take(n as int) =~= b@);
    }
}

/// Appends the `width`-byte little-endian representation of `n` to `out`.
/// `n` must fit in `width` bytes.
pub fn push_le_bytes(out: &mut Vec<u8>, n: u64, width: usize)
    requires
        width <= 8,
        (n as nat) < crate::bytes_le::pow256(width as nat),
    ensures
        final(out)@ == old(out)@ + crate::bytes_le::nat_to_le(n as nat, width as nat),
{
    let mut v: u64 = n;
    let mut i: usize = 0;
    while i < width
        invariant
            i <= width <= 8,
            out@ == old(out)@ + crate::bytes_le::nat_to_le(n as nat, i as nat).map_values(
                |b: u8| b,
            ),
            out@.len() == old(out)@.len() + i,
            v as nat == iter_div(n as nat, i as nat),
        decreases width - i,
    {
        out.push((v % 256) as u8);
        proof {
            lemma_iter_div_step(n as nat, i as nat);
            lemma_nat_to_le_snoc(n as nat, i as nat);
            assert(out@ =~= old(out)@ + crate::bytes_le::nat_to_le(n as nat, (i + 1) as nat));
        }
        v = v / 256;
        i += 1;
    }
    proof {
        lemma_nat_to_le_map_id(crate::bytes_le::nat_to_le(n as nat, width as nat));
    }
}

/// `n` divided by `256^i`.
pub open spec fn iter_div(n: nat, i: nat) -> nat
    decreases i,
{
    if i == 0 {
        n
    } else {
        iter_div(n, (i - 1) as nat) / 256
    }
}

proof fn lemma_iter_div_step(n: nat, i: nat)
    ensures
        iter_div(n, (i + 1) as nat) == iter_div(n, i) / 256,
{
}

/// `nat_to_le(n, i + 1)` is `nat_to_le(n, i)` with byte `i` of `n`
/// appended.
proof fn lemma_nat_to_le_snoc(n: nat, i: nat)
    ensures
        crate::bytes_le::nat_to_le(n, (i + 1) as nat) == crate::bytes_le::nat_to_le(n, i) + seq![
            (iter_div(n, i) % 256) as u8,
        ],
    decreases i,
{
    if i == 0 {
        assert(crate::bytes_le::nat_to_le(n / 256, 0nat) =~= Seq::<u8>::empty());
        assert(crate::bytes_le::nat_to_le(n, 0nat) =~= Seq::<u8>::empty());
        assert(crate::bytes_le::nat_to_le(n, 1) == seq![(n % 256) as u8]
            + crate::bytes_le::nat_to_le(n / 256, 0nat));
        assert(iter_div(n, 0) == n);
        assert(crate::bytes_le::nat_to_le(n, 1) =~= crate::bytes_le::nat_to_le(n, 0) + seq![
            (n % 256) as u8,
        ]);
    } else {
        lemma_nat_to_le_snoc(n / 256, (i - 1) as nat);
        assert(iter_div(n, i) == iter_div(n / 256, (i - 1) as nat)) by {
            lemma_iter_div_head(n, i);
        }
        assert(crate::bytes_le::nat_to_le(n, (i + 1) as nat) =~= crate::bytes_le::nat_to_le(
            n,
            i,
        ) + seq![(iter_div(n, i) % 256) as u8]);
    }
}

/// Dividing first or last gives the same iterated quotient.
proof fn lemma_iter_div_head(n: nat, i: nat)
    requires
        i >= 1,
    ensures
        iter_div(n, i) == iter_div(n / 256, (i - 1) as nat),
    decreases i,
{
    if i == 1 {
        assert(iter_div(n, 1) == iter_div(n, 0) / 256);
        assert(iter_div(n / 256, 0) == n / 256);
    } else {
        lemma_iter_div_head(n, (i - 1) as nat);
        assert(iter_div(n, i) == iter_div(n, (i - 1) as nat) / 256);
        assert(iter_div(n / 256, (i - 1) as nat) == iter_div(n / 256, (i - 2) as nat) / 256);
    }
}

proof fn lemma_nat_to_le_map_id(s: Seq<u8>)
    ensures
        s.map_values(|b: u8| b) =~= s,
{
}

/// Reads a little-endian unsigned value of up to eight bytes.
pub fn read_le_u64(s: &[u8]) -> (r: u64)
    requires
        s@.len() <= 8,
    ensures
        r as nat == crate::bytes_le::le_to_nat(s@),
{
    proof {
        crate::bytes_le::lemma_pow256_small();
    }
    let n = s.len();
    let mut v: u64 = 0;
    let mut i: usize = n;
    while i > 0
        invariant
            n == s@.len() <= 8,
            i <= n,
            v as nat == crate::bytes_le::le_to_nat(s@.skip(i as int)),
            (v as nat) < crate::bytes_le::pow256((n - i) as nat),
        decreases i,
    {
        proof {
            crate::bytes_le::lemma_pow256_small();
            assert(s@.skip(i - 1).skip(1) =~= s@.skip(i as int));
            crate::bytes_le::lemma_pow256_unfold((n - i + 1) as nat);
        }
        i -= 1;
        v = s[i] as u64 + 256 * v;
    }
    proof {
        assert(s@.skip(0) =~= s@);
    }
    v
}

} // verus!
