//! Base-10 parsing of numeric argument values.
//!
//! Fixed-width integers are parsed into machine words; the three wide
//! unsigned types are parsed digit by digit into a little-endian byte
//! buffer, then trimmed to their minimal representation.  Every parser
//! states exactly which inputs it accepts and which value it returns.
use vstd::arithmetic::div_mod::lemma_fundamental_div_mod;
use vstd::arithmetic::mul::{
    lemma_mul_inequality,
    lemma_mul_is_associative,
    lemma_mul_is_commutative,
    lemma_mul_is_distributive_add,
};
use vstd::prelude::*;

use crate::bytes_le::{
    le_to_nat,
    lemma_last_nonzero_min,
    lemma_le_all_zero,
    lemma_le_drop_last_zero,
    lemma_le_take_succ,
    lemma_le_to_nat_bound,
    lemma_le_to_nat_canonical,
    lemma_pow256_positive,
    min_len,
    min_repr,
    pow256,
};

verus! {

/// Is `b` the code of a decimal digit?
pub open spec fn is_digit(b: u8) -> bool {
    ('0' as u8) <= b <= ('9' as u8)
}

/// The numeric value of a digit byte (zero on non-digits).
pub open spec fn digit_val(b: u8) -> nat {
    if is_digit(b) {
        (b - ('0' as u8)) as nat
    } else {
        0
    }
}

/// Does `s` consist of decimal digits only?
pub open spec fn all_digits(s: Seq<u8>) -> bool {
    forall|i: int| 0 <= i < s.len() ==> is_digit(#[trigger] s[i])
}

/// The number a digit string denotes in base 10.
pub open spec fn dec_value(s: Seq<u8>) -> nat
    decreases s.len(),
{
    if s.len() == 0 {
        0
    } else {
        10 * dec_value(s.drop_last()) + digit_val(s.last())
    }
}

/// Processing one more digit multiplies the prefix value by ten and adds
/// the digit.
pub proof fn lemma_dec_take_succ(s: Seq<u8>, i: int)
    requires
        0 <= i < s.len(),
    ensures
        dec_value(s.take(i + 1)) == 10 * dec_value(s.take(i)) + digit_val(s[i]),
{
    assert(s.take(i + 1).drop_last() =~= s.take(i));
    assert(s.take(i + 1).last() == s[i]);
}

/// A prefix of a digit string denotes no more than the whole string.
pub proof fn lemma_dec_prefix_le(s: Seq<u8>, i: int)
    requires
        0 <= i <= s.len(),
    ensures
        dec_value(s.take(i)) <= dec_value(s),
    decreases s.len() - i,
{
    if i == s.len() {
        assert(s.take(i) =~= s);
    } else {
        lemma_dec_take_succ(s, i);
        lemma_dec_prefix_le(s, i + 1);
        assert(dec_value(s.take(i)) <= 10 * dec_value(s.take(i)) + digit_val(s[i]));
    }
}

/// Parses an unadorned digit string as a 64-bit unsigned integer.
/// Succeeds exactly on non-empty all-digit strings whose value fits.
pub fn parse_u64_digits(s: &[u8]) -> (r: Option<u64>)
    ensures
        r is Some <==> (s@.len() > 0 && all_digits(s@) && dec_value(s@) <= u64::MAX),
        r matches Some(n) ==> n == dec_value(s@),
{
    if s.len() == 0 {
        return None;
    }
    let mut v: u64 = 0;
    let mut i: usize = 0;
    while i < s.len()
        invariant
            0 < s@.len(),
            i <= s@.len(),
            all_digits(s@.take(i as int)),
            v == dec_value(s@.take(i as int)),
        decreases s@.len() - i,
    {
        let b = s[i];
        if b < '0' as u8 || b > '9' as u8 {
            assert(!is_digit(s@[i as int]));
            return None;
        }
        let d: u64 = (b - '0' as u8) as u64;
        proof {
            lemma_dec_take_succ(s@, i as int);
        }
        if v > (u64::MAX - d) / 10 {
            proof {
                let m = (u64::MAX - d) as int;
                lemma_fundamental_div_mod(m, 10);
                assert(v >= m / 10 + 1);
                assert(10 * (m / 10) == m - m % 10);
                assert(10 * v >= 10 * (m / 10 + 1)) by {
                    lemma_mul_inequality(m / 10 + 1, v as int, 10);
                    lemma_mul_is_commutative(m / 10 + 1, 10);
                    lemma_mul_is_commutative(v as int, 10);
                }
                assert(10 * (m / 10 + 1) == 10 * (m / 10) + 10) by {
                    lemma_mul_is_distributive_add(10, m / 10, 1);
                }
                assert(m % 10 <= 9);
                assert(10 * v + d > u64::MAX);
                assert(dec_value(s@.take(i + 1)) > u64::MAX);
                lemma_dec_prefix_le(s@, i + 1);
            }
            return None;
        }
        proof {
            let m = (u64::MAX - d) as int;
            lemma_fundamental_div_mod(m, 10);
            assert(10 * (m / 10) == m - m % 10);
            assert(10 * v <= 10 * (m / 10)) by {
                lemma_mul_inequality(v as int, m / 10, 10);
                lemma_mul_is_commutative(v as int, 10);
                lemma_mul_is_commutative(m / 10, 10);
            }
            assert(10 * v + d <= u64::MAX);
        }
        v = v * 10 + d;
        proof {
            assert(all_digits(s@.take(i + 1)));
        }
        i += 1;
    }
    proof {
        assert(s@.take(i as int) =~= s@);
    }
    Some(v)
}

/// The digits of an unsigned literal: an optional leading `+` is allowed
/// and skipped.
pub open spec fn unsigned_body(s: Seq<u8>) -> Seq<u8> {
    if s.len() > 0 && s[0] == '+' as u8 {
        s.skip(1)
    } else {
        s
    }
}

/// Is a signed literal negative?
pub open spec fn signed_negative(s: Seq<u8>) -> bool {
    s.len() > 0 && s[0] == '-' as u8
}

/// The digits of a signed literal: an optional leading `+` or `-` is
/// skipped.
pub open spec fn signed_body(s: Seq<u8>) -> Seq<u8> {
    if s.len() > 0 && (s[0] == '-' as u8 || s[0] == '+' as u8) {
        s.skip(1)
    } else {
        s
    }
}

/// Does `s` denote an unsigned number of at most `max`?
pub open spec fn unsigned_ok(s: Seq<u8>, max: nat) -> bool {
    let b = unsigned_body(s);
    b.len() > 0 && all_digits(b) && dec_value(b) <= max
}

/// The value of a signed literal, as an integer.
pub open spec fn signed_value(s: Seq<u8>) -> int {
    if signed_negative(s) {
        -(dec_value(signed_body(s)) as int)
    } else {
        dec_value(signed_body(s)) as int
    }
}

/// Does `s` denote a signed number within `[min, max]`?
pub open spec fn signed_ok(s: Seq<u8>, min: int, max: int) -> bool {
    let b = signed_body(s);
    b.len() > 0 && all_digits(b) && min <= signed_value(s) <= max
}

/// Parses an unsigned 64-bit literal (optional leading `+`).
pub fn parse_u64_value(s: &[u8]) -> (r: Option<u64>)
    ensures
        r is Some <==> unsigned_ok(s@, u64::MAX as nat),
        r matches Some(n) ==> n == dec_value(unsigned_body(s@)),
{
    if s.len() > 0 && s[0] == '+' as u8 {
        let rest = crate::bytesutil::copy_range(s, 1, s.len());
        proof {
            assert(rest@ =~= s@.skip(1));
        }
        parse_u64_digits(rest.as_slice())
    } else {
        parse_u64_digits(s)
    }
}

/// Parses an unsigned 8-bit literal (optional leading `+`).
pub fn parse_u8_value(s: &[u8]) -> (r: Option<u8>)
    ensures
        r is Some <==> unsigned_ok(s@, u8::MAX as nat),
        r matches Some(n) ==> n == dec_value(unsigned_body(s@)),
{
    match parse_u64_value(s) {
        Some(n) => if n <= u8::MAX as u64 {
            Some(n as u8)
        } else {
            None
        },
        None => None,
    }
}

/// Parses an unsigned 32-bit literal (optional leading `+`).
pub fn parse_u32_value(s: &[u8]) -> (r: Option<u32>)
    ensures
        r is Some <==> unsigned_ok(s@, u32::MAX as nat),
        r matches Some(n) ==> n == dec_value(unsigned_body(s@)),
{
    match parse_u64_value(s) {
        Some(n) => if n <= u32::MAX as u64 {
            Some(n as u32)
        } else {
            None
        },
        None => None,
    }
}

/// Parses a signed 64-bit literal (optional leading `+` or `-`).
pub fn parse_i64_value(s: &[u8]) -> (r: Option<i64>)
    ensures
        r is Some <==> signed_ok(s@, i64::MIN as int, i64::MAX as int),
        r matches Some(n) ==> n as int == signed_value(s@),
{
    let negative = s.len() > 0 && s[0] == '-' as u8;
    let has_sign = s.len() > 0 && (s[0] == '-' as u8 || s[0] == '+' as u8);
    let mag = if has_sign {
        let rest = crate::bytesutil::copy_range(s, 1, s.len());
        proof {
            assert(rest@ =~= s@.skip(1));
        }
        parse_u64_digits(rest.as_slice())
    } else {
        parse_u64_digits(s)
    };
    match mag {
        Some(m) => {
            if negative {
                if m <= 9223372036854775808u64 {
                    if m == 9223372036854775808u64 {
                        Some(i64::MIN)
                    } else {
                        Some(-(m as i64))
                    }
                } else {
                    None
                }
            } else {
                if m <= i64::MAX as u64 {
                    Some(m as i64)
                } else {
                    None
                }
            }
        },
        None => None,
    }
}

/// Parses a signed 32-bit literal (optional leading `+` or `-`).
pub fn parse_i32_value(s: &[u8]) -> (r: Option<i32>)
    ensures
        r is Some <==> signed_ok(s@, i32::MIN as int, i32::MAX as int),
        r matches Some(n) ==> n as int == signed_value(s@),
{
    match parse_i64_value(s) {
        Some(n) => if i32::MIN as i64 <= n && n <= i32::MAX as i64 {
            Some(n as i32)
        } else {
            None
        },
        None => None,
    }
}

/// Parses a digit string into the minimal little-endian representation of
/// its value, rejecting values of `width` bytes or more.  Succeeds exactly
/// on non-empty all-digit strings whose value is below `256^width`.
pub fn parse_big_digits(s: &[u8], width: usize) -> (r: Option<Vec<u8>>)
    requires
        1 <= width <= 64,
    ensures
        r is Some <==> (s@.len() > 0 && all_digits(s@) && dec_value(s@) < pow256(width as nat)),
        r matches Some(v) ==> v@ == min_repr(dec_value(s@)) && le_to_nat(v@) == dec_value(s@),
{
    if s.len() == 0 {
        return None;
    }
    let mut buf: Vec<u8> = Vec::new();
    let mut k: usize = 0;
    while k < width
        invariant
            k <= width,
            buf@.len() == k,
            forall|j: int| 0 <= j < k ==> buf@[j] == 0,
        decreases width - k,
    {
        buf.push(0);
        k += 1;
    }
    proof {
        lemma_le_all_zero(buf@);
        lemma_pow256_positive(width as nat);
    }
    let mut i: usize = 0;
    while i < s.len()
        invariant
            0 < s@.len(),
            i <= s@.len(),
            1 <= width <= 64,
            buf@.len() == width,
            all_digits(s@.take(i as int)),
            le_to_nat(buf@) == dec_value(s@.take(i as int)),
            dec_value(s@.take(i as int)) < pow256(width as nat),
        decreases s@.len() - i,
    {
        let b = s[i];
        if b < '0' as u8 || b > '9' as u8 {
            assert(!is_digit(s@[i as int]));
            return None;
        }
        let d: u16 = (b - '0' as u8) as u16;
        proof {
            lemma_dec_take_succ(s@, i as int);
        }
        let ghost prev = buf@;
        let mut carry: u16 = d;
        proof {
            vstd::arithmetic::power::lemma_pow0(256);
            assert(pow256(0) == 1);
            assert(buf@.take(0) =~= Seq::<u8>::empty());
        }
        let mut j: usize = 0;
        while j < width
            invariant
                j <= width,
                1 <= width <= 64,
                buf@.len() == width,
                prev.len() == width,
                carry <= 9,
                d <= 9,
                forall|q: int| j <= q < width ==> buf@[q] == prev[q],
                le_to_nat(buf@.take(j as int)) + (carry as nat) * pow256(j as nat) == 10
                    * le_to_nat(prev.take(j as int)) + d,
            decreases width - j,
        {
            let t: u16 = buf[j] as u16 * 10 + carry;
            let ghost old_buf = buf@;
            let ghost old_carry = carry as nat;
            let nb: u8 = (t % 256) as u8;
            buf.set(j, nb);
            carry = t / 256;
            proof {
                let jj = j as int;
                assert(old_buf[jj] == prev[jj]);
                lemma_le_take_succ(buf@, jj);
                lemma_le_take_succ(prev, jj);
                assert(buf@.take(jj) =~= old_buf.take(jj));
                // t == 256 * (t / 256) + t % 256
                lemma_fundamental_div_mod(t as int, 256);
                // new prefix value + new carry at its place:
                //   le(new.take(j+1)) + (t/256) * 256^(j+1)
                //   == le(new.take(j)) + (t%256) * 256^j + (t/256) * 256 * 256^j
                //   == le(old.take(j)) + t * 256^j
                crate::bytes_le::lemma_pow256_unfold((jj + 1) as nat);
                let p = pow256(jj as nat);
                let c2 = (carry as nat);
                assert(pow256((jj + 1) as nat) == 256 * p);
                assert(c2 * (256 * p) == (256 * c2) * p) by {
                    lemma_mul_is_associative(c2 as int, 256, p as int);
                    lemma_mul_is_commutative(c2 as int, 256);
                }
                assert((nb as nat) * p + (256 * c2) * p == ((nb as nat) + 256 * c2) * p) by {
                    vstd::arithmetic::mul::lemma_mul_is_distributive_add_other_way(
                        p as int,
                        nb as int,
                        (256 * c2) as int,
                    );
                }
                assert((nb as nat) + 256 * c2 == t as nat);
                assert(le_to_nat(buf@.take(jj + 1)) + c2 * pow256((jj + 1) as nat) == le_to_nat(
                    old_buf.take(jj),
                ) + (t as nat) * p);
                // t * 256^j == (10 * old_byte + old_carry) * 256^j
                assert(t as nat == 10 * (prev[jj] as nat) + old_carry);
                assert((t as nat) * p == (10 * (prev[jj] as nat)) * p + old_carry * p) by {
                    vstd::arithmetic::mul::lemma_mul_is_distributive_add_other_way(
                        p as int,
                        (10 * (prev[jj] as nat)) as int,
                        old_carry as int,
                    );
                }
                // 10 * le(prev.take(j)) + d + (10 * prev[j]) * 256^j
                //   == 10 * le(prev.take(j+1)) + d
                assert((10 * (prev[jj] as nat)) * p == 10 * ((prev[jj] as nat) * p)) by {
                    lemma_mul_is_associative(10, prev[jj] as int, p as int);
                }
                assert(10 * le_to_nat(prev.take(jj)) + 10 * ((prev[jj] as nat) * p) == 10 * (
                le_to_nat(prev.take(jj)) + (prev[jj] as nat) * p)) by {
                    lemma_mul_is_distributive_add(
                        10,
                        le_to_nat(prev.take(jj)) as int,
                        ((prev[jj] as nat) * p) as int,
                    );
                }
                assert(le_to_nat(prev.take(jj + 1)) == le_to_nat(prev.take(jj)) + (prev[jj] as nat)
                    * p);
            }
            j += 1;
        }
        proof {
            assert(buf@.take(width as int) =~= buf@);
            assert(prev.take(width as int) =~= prev);
        }
        if carry > 0 {
            proof {
                assert(le_to_nat(buf@) + (carry as nat) * pow256(width as nat) == 10 * le_to_nat(
                    prev,
                ) + d);
                assert((carry as nat) * pow256(width as nat) >= pow256(width as nat)) by {
                    lemma_pow256_positive(width as nat);
                    lemma_mul_inequality(1, carry as int, pow256(width as nat) as int);
                    lemma_mul_is_commutative(carry as int, pow256(width as nat) as int);
                }
                assert(dec_value(s@.take(i + 1)) >= pow256(width as nat));
                lemma_dec_prefix_le(s@, i + 1);
            }
            return None;
        }
        proof {
            assert(le_to_nat(buf@) == dec_value(s@.take(i + 1)));
            lemma_le_to_nat_bound(buf@);
            assert(all_digits(s@.take(i + 1)));
        }
        i += 1;
    }
    proof {
        assert(s@.take(i as int) =~= s@);
    }
    let ghost n = dec_value(s@);
    // Trim trailing zero bytes down to the minimal representation.
    while buf.len() > 0 && buf[buf.len() - 1] == 0
        invariant
            le_to_nat(buf@) == n,
        decreases buf@.len(),
    {
        proof {
            lemma_le_drop_last_zero(buf@);
        }
        buf.pop();
    }
    proof {
        lemma_last_nonzero_min(buf@);
        lemma_le_to_nat_canonical(buf@);
        assert(min_len(n) == buf@.len());
        assert(buf@ =~= min_repr(n));
    }
    Some(buf)
}

} // verus!
