//! The closed registry of supported value types.
//!
//! A type tag names the decode/encode rule that applies to one typed
//! argument.  The set is closed: a tag is either one of the fifteen base
//! types below, or an optional wrapper around one of them, written with an
//! `opt_` prefix in the textual form (`"u64"`, `"opt_u64"`).
use vstd::prelude::*;

use crate::bytesutil::{bytes_eq, starts_with};

verus! {

/// One of the fifteen base value types an argument can carry.
#[derive(Clone, Copy, Debug, PartialEq, Eq, Structural)]
pub enum BaseTag {
    Bool,
    I32,
    I64,
    U8,
    U32,
    U64,
    U128,
    U256,
    U512,
    Unit,
    Str,
    Key,
    AccountHash,
    URef,
    PublicKey,
}

/// A full type tag: a base type, possibly wrapped in an optional.
#[derive(Clone, Copy, Debug, PartialEq, Eq, Structural)]
pub struct TypeTag {
    pub optional: bool,
    pub base: BaseTag,
}

/// The spelling of each base tag, as a byte sequence.
pub open spec fn base_tag_name(t: BaseTag) -> Seq<u8> {
    match t {
        BaseTag::Bool => seq!['b' as u8, 'o' as u8, 'o' as u8, 'l' as u8],
        BaseTag::I32 => seq!['i' as u8, '3' as u8, '2' as u8],
        BaseTag::I64 => seq!['i' as u8, '6' as u8, '4' as u8],
        BaseTag::U8 => seq!['u' as u8, '8' as u8],
        BaseTag::U32 => seq!['u' as u8, '3' as u8, '2' as u8],
        BaseTag::U64 => seq!['u' as u8, '6' as u8, '4' as u8],
        BaseTag::U128 => seq!['u' as u8, '1' as u8, '2' as u8, '8' as u8],
        BaseTag::U256 => seq!['u' as u8, '2' as u8, '5' as u8, '6' as u8],
        BaseTag::U512 => seq!['u' as u8, '5' as u8, '1' as u8, '2' as u8],
        BaseTag::Unit => seq!['u' as u8, 'n' as u8, 'i' as u8, 't' as u8],
        BaseTag::Str => seq![
            's' as u8,
            't' as u8,
            'r' as u8,
            'i' as u8,
            'n' as u8,
            'g' as u8,
        ],
        BaseTag::Key => seq!['k' as u8, 'e' as u8, 'y' as u8],
        BaseTag::AccountHash => seq![
            'a' as u8,
            'c' as u8,
            'c' as u8,
            'o' as u8,
            'u' as u8,
            'n' as u8,
            't' as u8,
            '_' as u8,
            'h' as u8,
            'a' as u8,
            's' as u8,
            'h' as u8,
        ],
        BaseTag::URef => seq!['u' as u8, 'r' as u8, 'e' as u8, 'f' as u8],
        BaseTag::PublicKey => seq![
            'p' as u8,
            'u' as u8,
            'b' as u8,
            'l' as u8,
            'i' as u8,
            'c' as u8,
            '_' as u8,
            'k' as u8,
            'e' as u8,
            'y' as u8,
        ],
    }
}

/// The `opt_` prefix that marks an optional wrapper in a textual tag.
pub open spec fn opt_prefix() -> Seq<u8> {
    seq!['o' as u8, 'p' as u8, 't' as u8, '_' as u8]
}

/// Which base tag, if any, the byte sequence `s` spells.
pub open spec fn base_tag_of_name(s: Seq<u8>) -> Option<BaseTag> {
    if s == base_tag_name(BaseTag::Bool) {
        Some(BaseTag::Bool)
    } else if s == base_tag_name(BaseTag::I32) {
        Some(BaseTag::I32)
    } else if s == base_tag_name(BaseTag::I64) {
        Some(BaseTag::I64)
    } else if s == base_tag_name(BaseTag::U8) {
        Some(BaseTag::U8)
    } else if s == base_tag_name(BaseTag::U32) {
        Some(BaseTag::U32)
    } else if s == base_tag_name(BaseTag::U64) {
        Some(BaseTag::U64)
    } else if s == base_tag_name(BaseTag::U128) {
        Some(BaseTag::U128)
    } else if s == base_tag_name(BaseTag::U256) {
        Some(BaseTag::U256)
    } else if s == base_tag_name(BaseTag::U512) {
        Some(BaseTag::U512)
    } else if s == base_tag_name(BaseTag::Unit) {
        Some(BaseTag::Unit)
    } else if s == base_tag_name(BaseTag::Str) {
        Some(BaseTag::Str)
    } else if s == base_tag_name(BaseTag::Key) {
        Some(BaseTag::Key)
    } else if s == base_tag_name(BaseTag::AccountHash) {
        Some(BaseTag::AccountHash)
    } else if s == base_tag_name(BaseTag::URef) {
        Some(BaseTag::URef)
    } else if s == base_tag_name(BaseTag::PublicKey) {
        Some(BaseTag::PublicKey)
    } else {
        None
    }
}

/// Which type tag, if any, the byte sequence `s` spells: a base name, or
/// `opt_` followed by a base name.
pub open spec fn tag_of_name(s: Seq<u8>) -> Option<TypeTag> {
    match base_tag_of_name(s) {
        Some(b) => Some(TypeTag { optional: false, base: b }),
        None => if s.len() >= 4 && s.take(4) == opt_prefix() {
            match base_tag_of_name(s.skip(4)) {
                Some(b) => Some(TypeTag { optional: true, base: b }),
                None => None,
            }
        } else {
            None
        },
    }
}

/// No tag spelling contains a delimiter of the argument grammar.
pub open spec fn has_no_delims(s: Seq<u8>) -> bool {
    forall|j: int| 0 <= j < s.len() ==> (#[trigger] s[j]) != (':' as u8) && s[j] != ('=' as u8)
}

/// Each base name spells exactly its own tag, is non-empty, and holds
/// no delimiter.
pub proof fn lemma_base_tag_name_exact(t: BaseTag)
    ensures
        base_tag_of_name(base_tag_name(t)) == Some(t),
        base_tag_name(t).len() > 0,
        has_no_delims(base_tag_name(t)),
{
}

/// An `opt_`-prefixed base name spells exactly the optional tag, and
/// holds no delimiter.
pub proof fn lemma_opt_tag_name_exact(t: BaseTag)
    ensures
        tag_of_name(opt_prefix() + base_tag_name(t)) == Some(TypeTag { optional: true, base: t }),
        (opt_prefix() + base_tag_name(t)).len() > 0,
        has_no_delims(opt_prefix() + base_tag_name(t)),
{
    let s = opt_prefix() + base_tag_name(t);
    assert(s.take(4) =~= opt_prefix());
    assert(s.skip(4) =~= base_tag_name(t));
    lemma_base_tag_name_exact(t);
    assert(base_tag_of_name(s) is None);
}

/// The base name of a full tag resolves to that tag.
pub proof fn lemma_plain_tag_name_exact(t: BaseTag)
    ensures
        tag_of_name(base_tag_name(t)) == Some(TypeTag { optional: false, base: t }),
{
    lemma_base_tag_name_exact(t);
}

/// The fixed registry order of the base tags: the order of the example
/// listing and of the supported-type listing.
pub open spec fn registry_base_tag(i: int) -> BaseTag {
    if i == 0 {
        BaseTag::Bool
    } else if i == 1 {
        BaseTag::I32
    } else if i == 2 {
        BaseTag::I64
    } else if i == 3 {
        BaseTag::U8
    } else if i == 4 {
        BaseTag::U32
    } else if i == 5 {
        BaseTag::U64
    } else if i == 6 {
        BaseTag::U128
    } else if i == 7 {
        BaseTag::U256
    } else if i == 8 {
        BaseTag::U512
    } else if i == 9 {
        BaseTag::Unit
    } else if i == 10 {
        BaseTag::Str
    } else if i == 11 {
        BaseTag::Key
    } else if i == 12 {
        BaseTag::AccountHash
    } else if i == 13 {
        BaseTag::URef
    } else {
        BaseTag::PublicKey
    }
}

/// The base tag names in their fixed registry order, used by the example
/// listing and by the textual match below.
pub(crate) fn base_tag_table() -> (out: Vec<(BaseTag, Vec<u8>)>)
    ensures
        out@.len() == 15,
        forall|i: int|
            0 <= i < 15 ==> (#[trigger] out@[i]).1@ == base_tag_name(out@[i].0),
        forall|i: int| 0 <= i < 15 ==> (#[trigger] out@[i]).0 == registry_base_tag(i),
        out@[0].0 == BaseTag::Bool,
        out@[1].0 == BaseTag::I32,
        out@[2].0 == BaseTag::I64,
        out@[3].0 == BaseTag::U8,
        out@[4].0 == BaseTag::U32,
        out@[5].0 == BaseTag::U64,
        out@[6].0 == BaseTag::U128,
        out@[7].0 == BaseTag::U256,
        out@[8].0 == BaseTag::U512,
        out@[9].0 == BaseTag::Unit,
        out@[10].0 == BaseTag::Str,
        out@[11].0 == BaseTag::Key,
        out@[12].0 == BaseTag::AccountHash,
        out@[13].0 == BaseTag::URef,
        out@[14].0 == BaseTag::PublicKey,
{
    let mut out: Vec<(BaseTag, Vec<u8>)> = Vec::new();
    let v: Vec<u8> = vec!['b' as u8, 'o' as u8, 'o' as u8, 'l' as u8];
    proof {
        assert(v@ =~= base_tag_name(BaseTag::Bool));
    }
    out.push((BaseTag::Bool, v));
    let v: Vec<u8> = vec!['i' as u8, '3' as u8, '2' as u8];
    proof {
        assert(v@ =~= base_tag_name(BaseTag::I32));
    }
    out.push((BaseTag::I32, v));
    let v: Vec<u8> = vec!['i' as u8, '6' as u8, '4' as u8];
    proof {
        assert(v@ =~= base_tag_name(BaseTag::I64));
    }
    out.push((BaseTag::I64, v));
    let v: Vec<u8> = vec!['u' as u8, '8' as u8];
    proof {
        assert(v@ =~= base_tag_name(BaseTag::U8));
    }
    out.push((BaseTag::U8, v));
    let v: Vec<u8> = vec!['u' as u8, '3' as u8, '2' as u8];
    proof {
        assert(v@ =~= base_tag_name(BaseTag::U32));
    }
    out.push((BaseTag::U32, v));
    let v: Vec<u8> = vec!['u' as u8, '6' as u8, '4' as u8];
    proof {
        assert(v@ =~= base_tag_name(BaseTag::U64));
    }
    out.push((BaseTag::U64, v));
    let v: Vec<u8> = vec!['u' as u8, '1' as u8, '2' as u8, '8' as u8];
    proof {
        assert(v@ =~= base_tag_name(BaseTag::U128));
    }
    out.push((BaseTag::U128, v));
    let v: Vec<u8> = vec!['u' as u8, '2' as u8, '5' as u8, '6' as u8];
    proof {
        assert(v@ =~= base_tag_name(BaseTag::U256));
    }
    out.push((BaseTag::U256, v));
    let v: Vec<u8> = vec!['u' as u8, '5' as u8, '1' as u8, '2' as u8];
    proof {
        assert(v@ =~= base_tag_name(BaseTag::U512));
    }
    out.push((BaseTag::U512, v));
    let v: Vec<u8> = vec!['u' as u8, 'n' as u8, 'i' as u8, 't' as u8];
    proof {
        assert(v@ =~= base_tag_name(BaseTag::Unit));
    }
    out.push((BaseTag::Unit, v));
    let v: Vec<u8> = vec![
        's' as u8,
        't' as u8,
        'r' as u8,
        'i' as u8,
        'n' as u8,
        'g' as u8,
    ];
    proof {
        assert(v@ =~= base_tag_name(BaseTag::Str));
    }
    out.push((BaseTag::Str, v));
    let v: Vec<u8> = vec!['k' as u8, 'e' as u8, 'y' as u8];
    proof {
        assert(v@ =~= base_tag_name(BaseTag::Key));
    }
    out.push((BaseTag::Key, v));
    let v: Vec<u8> = vec![
        'a' as u8,
        'c' as u8,
        'c' as u8,
        'o' as u8,
        'u' as u8,
        'n' as u8,
        't' as u8,
        '_' as u8,
        'h' as u8,
        'a' as u8,
        's' as u8,
        'h' as u8,
    ];
    proof {
        assert(v@ =~= base_tag_name(BaseTag::AccountHash));
    }
    out.push((BaseTag::AccountHash, v));
    let v: Vec<u8> = vec!['u' as u8, 'r' as u8, 'e' as u8, 'f' as u8];
    proof {
        assert(v@ =~= base_tag_name(BaseTag::URef));
    }
    out.push((BaseTag::URef, v));
    let v: Vec<u8> = vec![
        'p' as u8,
        'u' as u8,
        'b' as u8,
        'l' as u8,
        'i' as u8,
        'c' as u8,
        '_' as u8,
        'k' as u8,
        'e' as u8,
        'y' as u8,
    ];
    proof {
        assert(v@ =~= base_tag_name(BaseTag::PublicKey));
    }
    out.push((BaseTag::PublicKey, v));
    out
}

/// Looks a byte sequence up among the fifteen base tag names.
fn base_tag_from_bytes(s: &[u8]) -> (r: Option<BaseTag>)
    ensures
        r == base_tag_of_name(s@),
{
    let table = base_tag_table();
    let ghost names = table@;
    let mut i: usize = 0;
    while i < table.len()
        invariant
            table@ == names,
            names.len() == 15,
            forall|j: int|
                0 <= j < 15 ==> (#[trigger] names[j]).1@ == base_tag_name(names[j].0),
            names[0].0 == BaseTag::Bool,
            names[1].0 == BaseTag::I32,
            names[2].0 == BaseTag::I64,
            names[3].0 == BaseTag::U8,
            names[4].0 == BaseTag::U32,
            names[5].0 == BaseTag::U64,
            names[6].0 == BaseTag::U128,
            names[7].0 == BaseTag::U256,
            names[8].0 == BaseTag::U512,
            names[9].0 == BaseTag::Unit,
            names[10].0 == BaseTag::Str,
            names[11].0 == BaseTag::Key,
            names[12].0 == BaseTag::AccountHash,
            names[13].0 == BaseTag::URef,
            names[14].0 == BaseTag::PublicKey,
            i <= 15,
            forall|j: int| 0 <= j < i ==> s@ != base_tag_name((#[trigger] names[j]).0),
        decreases 15 - i,
    {
        if bytes_eq(s, table[i].1.as_slice()) {
            return Some(table[i].0);
        }
        i += 1;
    }
    None
}

/// Parses a textual type tag: a base name, or `opt_` followed by one.
/// Returns `None` exactly when `s` spells no supported tag.
pub fn tag_from_bytes(s: &[u8]) -> (r: Option<TypeTag>)
    ensures
        r == tag_of_name(s@),
{
    match base_tag_from_bytes(s) {
        Some(b) => Some(TypeTag { optional: false, base: b }),
        None => {
            let prefix: Vec<u8> = vec!['o' as u8, 'p' as u8, 't' as u8, '_' as u8];
            proof {
                assert(prefix@ =~= opt_prefix());
            }
            if starts_with(s, prefix.as_slice()) {
                let rest = crate::bytesutil::copy_range(s, 4, s.len());
                proof {
                    assert(rest@ =~= s@.skip(4));
                }
                match base_tag_from_bytes(rest.as_slice()) {
                    Some(b) => Some(TypeTag { optional: true, base: b }),
                    None => None,
                }
            } else {
                None
            }
        },
    }
}

} // verus!
