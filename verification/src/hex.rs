//! Hexadecimal decoding for the formatted-string grammars.
//!
//! Keys, account hashes, urefs and public keys carry their byte bodies as
//! hex text; both letter cases are accepted.
use vstd::prelude::*;

use crate::decimal::is_digit;

verus! {

/// Is `b` a hexadecimal digit (either case)?
pub open spec fn is_hex_digit(b: u8) -> bool {
    is_digit(b) || ('a' as u8) <= b <= ('f' as u8) || ('A' as u8) <= b <= ('F' as u8)
}

/// The value of a hexadecimal digit (zero on other bytes).
pub open spec fn hex_val(b: u8) -> nat {
    if is_digit(b) {
        (b - ('0' as u8)) as nat
    } else if ('a' as u8) <= b <= ('f' as u8) {
        (b - ('a' as u8) + 10) as nat
    } else if ('A' as u8) <= b <= ('F' as u8) {
        (b - ('A' as u8) + 10) as nat
    } else {
        0
    }
}

/// Does `s` consist of hexadecimal digits only?
pub open spec fn all_hex(s: Seq<u8>) -> bool {
    forall|i: int| 0 <= i < s.len() ==> is_hex_digit(#[trigger] s[i])
}

/// The bytes a hex string denotes, two digits per byte.
pub open spec fn hex_decode(s: Seq<u8>) -> Seq<u8> {
    Seq::new((s.len() / 2) as nat, |i: int| (hex_val(s[2 * i]) * 16 + hex_val(s[2 * i + 1])) as u8)
}

/// The numeric value of one hex digit byte, or `None` if it is not one.
fn hex_digit_value(b: u8) -> (r: Option<u8>)
    ensures
        r is Some <==> is_hex_digit(b),
        r matches Some(v) ==> v == hex_val(b),
{
    if '0' as u8 <= b && b <= '9' as u8 {
        Some(b - '0' as u8)
    } else if 'a' as u8 <= b && b <= 'f' as u8 {
        Some(b - 'a' as u8 + 10)
    } else if 'A' as u8 <= b && b <= 'F' as u8 {
        Some(b - 'A' as u8 + 10)
    } else {
        None
    }
}

/// Decodes a hex string into bytes.  Succeeds exactly on even-length
/// strings of hex digits.
pub fn hex_decode_bytes(s: &[u8]) -> (r: Option<Vec<u8>>)
    ensures
        r is Some <==> (s@.len() % 2 == 0 && all_hex(s@)),
        r matches Some(v) ==> v@ == hex_decode(s@),
{
    if s.len() % 2 != 0 {
        return None;
    }
    let n = s.len();
    let pairs = n / 2;
    let mut out: Vec<u8> = Vec::new();
    let mut i: usize = 0;
    while i < pairs
        invariant
            n == s@.len(),
            s@.len() % 2 == 0,
            pairs == s@.len() / 2,
            i <= pairs,
            out@.len() == i,
            forall|j: int| 0 <= j < 2 * i ==> is_hex_digit(#[trigger] s@[j]),
            forall|j: int|
                0 <= j < i ==> out@[j] == (hex_val(s@[2 * j]) * 16 + hex_val(s@[2 * j + 1])) as u8,
        decreases pairs - i,
    {
        let hi = match hex_digit_value(s[2 * i]) {
            Some(v) => v,
            None => {
                return None;
            },
        };
        let lo = match hex_digit_value(s[2 * i + 1]) {
            Some(v) => v,
            None => {
                return None;
            },
        };
        out.push(hi * 16 + lo);
        i += 1;
    }
    proof {
        assert(out@ =~= hex_decode(s@));
    }
    Some(out)
}

} // verus!
