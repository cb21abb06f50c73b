//! Little-endian byte sequences as natural numbers.
//!
//! The wire format stores the three wide unsigned types as a minimal
//! little-endian byte string.  This module gives that representation its
//! mathematical meaning (`le_to_nat`), the inverse construction
//! (`nat_to_le`), the length of the minimal representation (`min_len`),
//! and the lemmas that tie the three together.
use vstd::arithmetic::div_mod::{
    lemma_fundamental_div_mod_converse_div,
    lemma_fundamental_div_mod_converse_mod,
};
use vstd::arithmetic::mul::lemma_mul_inequality;
use vstd::arithmetic::power::{lemma_pow0, lemma_pow_positive, pow};
use vstd::prelude::*;

verus! {

/// `256^k`.
pub open spec fn pow256(k: nat) -> nat {
    pow(256, k) as nat
}

pub proof fn lemma_pow256_positive(k: nat)
    ensures
        pow256(k) >= 1,
{
    lemma_pow_positive(256, k);
}

pub proof fn lemma_pow256_unfold(k: nat)
    requires
        k >= 1,
    ensures
        pow256(k) == 256 * pow256((k - 1) as nat),
{
    reveal(pow);
    lemma_pow_positive(256, (k - 1) as nat);
}

/// The number a little-endian byte sequence denotes; the first byte is the
/// least significant.
pub open spec fn le_to_nat(s: Seq<u8>) -> nat
    decreases s.len(),
{
    if s.len() == 0 {
        0
    } else {
        (s[0] as nat) + 256 * le_to_nat(s.skip(1))
    }
}

/// The `len`-byte little-endian representation of `n % 256^len`.
pub open spec fn nat_to_le(n: nat, len: nat) -> Seq<u8>
    decreases len,
{
    if len == 0 {
        Seq::empty()
    } else {
        seq![(n % 256) as u8] + nat_to_le(n / 256, (len - 1) as nat)
    }
}

/// How many bytes the minimal little-endian representation of `n` takes;
/// zero bytes for zero.
pub open spec fn min_len(n: nat) -> nat
    decreases n,
{
    if n == 0 {
        0
    } else {
        1 + min_len(n / 256)
    }
}

pub proof fn lemma_nat_to_le_len(n: nat, len: nat)
    ensures
        nat_to_le(n, len).len() == len,
    decreases len,
{
    if len > 0 {
        lemma_nat_to_le_len(n / 256, (len - 1) as nat);
    }
}

/// A byte sequence denotes less than `256^len`.
pub proof fn lemma_le_to_nat_bound(s: Seq<u8>)
    ensures
        le_to_nat(s) < pow256(s.len()),
    decreases s.len(),
{
    if s.len() == 0 {
        lemma_pow0(256);
    } else {
        lemma_le_to_nat_bound(s.skip(1));
        lemma_pow256_unfold(s.len());
        let rest = le_to_nat(s.skip(1));
        let cap = pow256((s.len() - 1) as nat);
        assert(rest + 1 <= cap);
        assert(256 * (rest + 1) <= 256 * cap) by {
            lemma_mul_inequality((rest + 1) as int, cap as int, 256);
        }
        assert((s[0] as nat) + 256 * rest < 256 * (rest + 1));
    }
}

/// Converting a number to bytes and back is the identity, below the cap.
pub proof fn lemma_nat_to_le_roundtrip(n: nat, len: nat)
    requires
        n < pow256(len),
    ensures
        le_to_nat(nat_to_le(n, len)) == n,
    decreases len,
{
    if len == 0 {
        lemma_pow0(256);
        assert(n == 0);
    } else {
        let s = nat_to_le(n, len);
        lemma_nat_to_le_len(n / 256, (len - 1) as nat);
        assert(s.skip(1) =~= nat_to_le(n / 256, (len - 1) as nat));
        lemma_pow256_unfold(len);
        assert(n / 256 < pow256((len - 1) as nat)) by {
            if n / 256 >= pow256((len - 1) as nat) {
                lemma_mul_inequality(
                    pow256((len - 1) as nat) as int,
                    (n / 256) as int,
                    256,
                );
                assert(256 * (n / 256) <= n);
            }
        }
        lemma_nat_to_le_roundtrip(n / 256, (len - 1) as nat);
        assert(le_to_nat(s) == (n % 256) + 256 * (n / 256));
        vstd::arithmetic::div_mod::lemma_fundamental_div_mod(n as int, 256);
    }
}

/// A byte sequence is the representation of its own value: `le_to_nat` is
/// injective at fixed length.
pub proof fn lemma_le_to_nat_canonical(s: Seq<u8>)
    ensures
        nat_to_le(le_to_nat(s), s.len()) =~= s,
    decreases s.len(),
{
    if s.len() > 0 {
        let n = le_to_nat(s);
        let rest = le_to_nat(s.skip(1));
        lemma_fundamental_div_mod_converse_mod(n as int, 256, rest as int, s[0] as int);
        lemma_fundamental_div_mod_converse_div(n as int, 256, rest as int, s[0] as int);
        assert(n % 256 == s[0] as int);
        assert(n / 256 == rest as int);
        lemma_le_to_nat_canonical(s.skip(1));
        assert(nat_to_le(n, s.len()).skip(1) =~= nat_to_le(rest, (s.len() - 1) as nat));
    }
}

/// The value fits in `k` bytes exactly when its minimal length is at most
/// `k`.
pub proof fn lemma_min_len_le(n: nat, k: nat)
    ensures
        (min_len(n) <= k) == (n < pow256(k)),
    decreases k,
{
    if k == 0 {
        lemma_pow0(256);
        if n > 0 {
            assert(min_len(n) >= 1);
        }
    } else {
        lemma_pow256_unfold(k);
        lemma_min_len_le(n / 256, (k - 1) as nat);
        if n == 0 {
            lemma_pow256_positive(k);
        } else {
            // n < 256^k  <==>  n/256 < 256^(k-1)
            if n / 256 < pow256((k - 1) as nat) {
                assert(n < 256 * pow256((k - 1) as nat)) by {
                    assert(n / 256 + 1 <= pow256((k - 1) as nat));
                    lemma_mul_inequality(
                        (n / 256 + 1) as int,
                        pow256((k - 1) as nat) as int,
                        256,
                    );
                    vstd::arithmetic::div_mod::lemma_fundamental_div_mod(n as int, 256);
                    assert(n < 256 * (n / 256) + 256);
                }
            }
            if n < 256 * pow256((k - 1) as nat) {
                assert(n / 256 < pow256((k - 1) as nat)) by {
                    if n / 256 >= pow256((k - 1) as nat) {
                        lemma_mul_inequality(
                            pow256((k - 1) as nat) as int,
                            (n / 256) as int,
                            256,
                        );
                        assert(256 * (n / 256) <= n);
                    }
                }
            }
        }
    }
}

/// The minimal representation of a positive number ends in a non-zero
/// byte.
pub proof fn lemma_min_repr_last_nonzero(n: nat)
    requires
        n > 0,
    ensures
        nat_to_le(n, min_len(n)).len() == min_len(n),
        nat_to_le(n, min_len(n)).last() != 0,
    decreases n,
{
    let len = min_len(n);
    lemma_nat_to_le_len(n, len);
    if n / 256 == 0 {
        assert(min_len(0nat) == 0);
        assert(len == 1);
        assert(nat_to_le(n, 1).last() == (n % 256) as u8);
        vstd::arithmetic::div_mod::lemma_fundamental_div_mod(n as int, 256);
        assert(n % 256 == n);
    } else {
        lemma_min_repr_last_nonzero(n / 256);
        lemma_nat_to_le_len(n / 256, min_len(n / 256));
        assert(nat_to_le(n, len).last() == nat_to_le(n / 256, (len - 1) as nat).last());
    }
}

/// The concrete values of the small powers of 256 that the fixed-width
/// integer encodings use.
pub proof fn lemma_pow256_small()
    ensures
        pow256(0) == 1,
        pow256(1) == 0x100,
        pow256(2) == 0x10000,
        pow256(3) == 0x1000000,
        pow256(4) == 0x100000000,
        pow256(5) == 0x10000000000,
        pow256(6) == 0x1000000000000,
        pow256(7) == 0x100000000000000,
        pow256(8) == 0x10000000000000000,
{
    lemma_pow0(256);
    lemma_pow256_unfold(1);
    lemma_pow256_unfold(2);
    lemma_pow256_unfold(3);
    lemma_pow256_unfold(4);
    lemma_pow256_unfold(5);
    lemma_pow256_unfold(6);
    lemma_pow256_unfold(7);
    lemma_pow256_unfold(8);
}

/// The minimal little-endian representation of `n`.
pub open spec fn min_repr(n: nat) -> Seq<u8> {
    nat_to_le(n, min_len(n))
}

/// Extending a prefix by one byte adds that byte at its place value.
pub proof fn lemma_le_take_succ(s: Seq<u8>, j: int)
    requires
        0 <= j < s.len(),
    ensures
        le_to_nat(s.take(j + 1)) == le_to_nat(s.take(j)) + (s[j] as nat) * pow256(j as nat),
    decreases j,
{
    if j == 0 {
        assert(s.take(1) =~= seq![s[0]]);
        assert(s.take(0) =~= Seq::<u8>::empty());
        assert(le_to_nat(seq![s[0]]) == (s[0] as nat) + 256 * le_to_nat(seq![s[0]].skip(1)));
        assert(seq![s[0]].skip(1) =~= Seq::<u8>::empty());
        lemma_pow0(256);
        assert(pow256(0) == 1);
        assert(le_to_nat(s.take(1)) == (s[0] as nat));
        assert(le_to_nat(s.take(0)) == 0);
        assert((s[0] as nat) * pow256(0) == s[0] as nat);
        assert(le_to_nat(s.take(j + 1)) == le_to_nat(s.take(j)) + (s[j] as nat) * pow256(
            j as nat,
        ));
    } else {
        let t = s.skip(1);
        lemma_le_take_succ(t, j - 1);
        assert(s.take(j + 1).skip(1) =~= t.take(j));
        assert(s.take(j).skip(1) =~= t.take(j - 1));
        assert(le_to_nat(s.take(j + 1)) == (s[0] as nat) + 256 * le_to_nat(t.take(j)));
        assert(le_to_nat(s.take(j)) == (s[0] as nat) + 256 * le_to_nat(t.take(j - 1)));
        assert(t[j - 1] == s[j]);
        let b = s[j] as nat;
        let p = pow256((j - 1) as nat);
        assert(le_to_nat(t.take(j)) == le_to_nat(t.take(j - 1)) + b * p);
        assert(256 * (le_to_nat(t.take(j - 1)) + b * p) == 256 * le_to_nat(t.take(j - 1))
            + 256 * (b * p)) by {
            vstd::arithmetic::mul::lemma_mul_is_distributive_add(
                256,
                le_to_nat(t.take(j - 1)) as int,
                (b * p) as int,
            );
        }
        assert(256 * (b * p) == b * (256 * p)) by {
            vstd::arithmetic::mul::lemma_mul_is_associative(256, b as int, p as int);
            vstd::arithmetic::mul::lemma_mul_is_commutative(256, b as int);
            vstd::arithmetic::mul::lemma_mul_is_associative(b as int, 256, p as int);
        }
        lemma_pow256_unfold(j as nat);
        assert(pow256(j as nat) == 256 * p);
        assert(b * (256 * p) == b * pow256(j as nat));
        assert(256 * le_to_nat(t.take(j)) == 256 * le_to_nat(t.take(j - 1)) + b * pow256(
            j as nat,
        ));
        assert(le_to_nat(s.take(j + 1)) == (s[0] as nat) + 256 * le_to_nat(t.take(j - 1)) + b
            * pow256(j as nat));
        assert(le_to_nat(s.take(j + 1)) == le_to_nat(s.take(j)) + (s[j] as nat) * pow256(
            j as nat,
        ));
    }
}

/// A sequence of zero bytes denotes zero.
pub proof fn lemma_le_all_zero(s: Seq<u8>)
    requires
        forall|i: int| 0 <= i < s.len() ==> s[i] == 0,
    ensures
        le_to_nat(s) == 0,
    decreases s.len(),
{
    if s.len() > 0 {
        lemma_le_all_zero(s.skip(1));
    }
}

/// Dropping a trailing zero byte does not change the value.
pub proof fn lemma_le_drop_last_zero(s: Seq<u8>)
    requires
        s.len() > 0,
        s.last() == 0,
    ensures
        le_to_nat(s.drop_last()) == le_to_nat(s),
    decreases s.len(),
{
    if s.len() == 1 {
        assert(s.drop_last() =~= Seq::<u8>::empty());
        assert(s.skip(1) =~= Seq::<u8>::empty());
        assert(le_to_nat(s) == (s[0] as nat) + 256 * le_to_nat(s.skip(1)));
    } else {
        assert(s.skip(1).last() == s.last());
        lemma_le_drop_last_zero(s.skip(1));
        assert(s.drop_last().skip(1) =~= s.skip(1).drop_last());
        assert(le_to_nat(s.drop_last()) == (s[0] as nat) + 256 * le_to_nat(
            s.skip(1).drop_last(),
        ));
    }
}

/// A sequence whose last byte is non-zero denotes at least `256^(len-1)`:
/// its length is the minimal one for its value.
pub proof fn lemma_last_nonzero_min(s: Seq<u8>)
    requires
        s.len() == 0 || s.last() != 0,
    ensures
        min_len(le_to_nat(s)) == s.len(),
    decreases s.len(),
{
    if s.len() > 0 {
        let n = le_to_nat(s);
        let rest = le_to_nat(s.skip(1));
        lemma_fundamental_div_mod_converse_div(n as int, 256, rest as int, s[0] as int);
        assert(n / 256 == rest as int);
        if s.len() == 1 {
            assert(s.skip(1) =~= Seq::<u8>::empty());
            assert(rest == 0);
            assert(s.last() == s[0]);
            assert(n > 0);
            assert(min_len(0nat) == 0);
            assert(min_len(n) == 1 + min_len(n / 256));
        } else {
            assert(s.skip(1).last() == s.last());
            lemma_last_nonzero_min(s.skip(1));
            assert(rest > 0);
            assert(n > 0);
        }
    }
}

} // verus!
