//! The argument tokenizer.
//!
//! A raw argument is written `NAME:TYPE='VALUE'` or `NAME:TYPE=null`.
//! The split is made at the first `:` and at the first `=` after it, so a
//! quoted value may itself contain either delimiter.  The name must be
//! non-empty; the value must be the literal `null` or delimited by single
//! quotes.  Anything else is a malformed argument.
use vstd::prelude::*;

use crate::bytesutil::{bytes_eq, copy_range, to_vec};
use crate::errors::{CliError, CliErrorModel};

verus! {

/// The value text of one argument: quoted text (without its quotes), or
/// the literal `null`.
#[derive(Clone, Debug, PartialEq, Eq)]
pub enum RawValue {
    Quoted(Vec<u8>),
    Null,
}

/// Mathematical model of a [`RawValue`].
pub enum RawValueModel {
    Quoted(Seq<u8>),
    Null,
}

impl View for RawValue {
    type V = RawValueModel;

    open spec fn view(&self) -> RawValueModel {
        match self {
            RawValue::Quoted(v) => RawValueModel::Quoted(v@),
            RawValue::Null => RawValueModel::Null,
        }
    }
}

/// One tokenized argument: name, textual type tag, and value text.
#[derive(Clone, Debug, PartialEq, Eq)]
pub struct Token {
    pub name: Vec<u8>,
    pub tag: Vec<u8>,
    pub value: RawValue,
}

/// Mathematical model of a [`Token`].
pub struct TokenModel {
    pub name: Seq<u8>,
    pub tag: Seq<u8>,
    pub value: RawValueModel,
}

impl View for Token {
    type V = TokenModel;

    open spec fn view(&self) -> TokenModel {
        TokenModel { name: self.name@, tag: self.tag@, value: self.value@ }
    }
}

/// The position of the first occurrence of `b` in `s`, if any.
pub open spec fn find_byte(s: Seq<u8>, b: u8) -> Option<int>
    decreases s.len(),
{
    if s.len() == 0 {
        None
    } else if s[0] == b {
        Some(0)
    } else {
        match find_byte(s.skip(1), b) {
            Some(i) => Some(i + 1),
            None => None,
        }
    }
}

/// What `find_byte` returns: the least position holding `b`, or `None`
/// when `b` does not occur.
pub proof fn lemma_find_byte(s: Seq<u8>, b: u8)
    ensures
        match find_byte(s, b) {
            Some(i) => 0 <= i < s.len() && s[i] == b && (forall|j: int| 0 <= j < i ==> s[j] != b),
            None => forall|j: int| 0 <= j < s.len() ==> s[j] != b,
        },
    decreases s.len(),
{
    if s.len() > 0 && s[0] != b {
        lemma_find_byte(s.skip(1), b);
        let t = s.skip(1);
        match find_byte(t, b) {
            Some(i) => {
                assert(s[i + 1] == t[i]);
                assert(forall|j: int| 1 <= j < i + 1 ==> s[j] == t[j - 1] && t[j - 1] != b);
            },
            None => {
                assert(forall|j: int| 1 <= j < s.len() ==> s[j] == t[j - 1] && t[j - 1] != b);
            },
        }
    }
}

/// If `b` stands at position `i` and nowhere earlier, `i` is where
/// `find_byte` finds it.
pub proof fn lemma_find_byte_at(s: Seq<u8>, b: u8, i: int)
    requires
        0 <= i < s.len(),
        s[i] == b,
        forall|j: int| 0 <= j < i ==> s[j] != b,
    ensures
        find_byte(s, b) == Some(i),
{
    lemma_find_byte(s, b);
    match find_byte(s, b) {
        Some(k) => {
            if k < i {
                assert(s[k] != b);
            } else if k > i {
                assert(s[i] != b);
            }
        },
        None => {
            assert(s[i] != b);
        },
    }
}

/// Finds the first occurrence of `b` in `s`.
pub fn find_byte_at(s: &[u8], b: u8) -> (r: Option<usize>)
    ensures
        match r {
            Some(i) => find_byte(s@, b) == Some(i as int),
            None => find_byte(s@, b) is None,
        },
{
    let n = s.len();
    let mut i: usize = 0;
    while i < n
        invariant
            n == s@.len(),
            i <= n,
            forall|j: int| 0 <= j < i ==> s@[j] != b,
        decreases n - i,
    {
        if s[i] == b {
            proof {
                lemma_find_byte(s@, b);
                match find_byte(s@, b) {
                    Some(k) => {
                        if k < i {
                            assert(s@[k] != b);
                        } else if k > i {
                            assert(s@[i as int] != b);
                        }
                    },
                    None => {
                        assert(s@[i as int] != b);
                    },
                }
            }
            return Some(i);
        }
        i += 1;
    }
    proof {
        lemma_find_byte(s@, b);
        match find_byte(s@, b) {
            Some(k) => {
                assert(s@[k] != b);
            },
            None => {},
        }
    }
    None
}

/// The literal that denotes an absent optional value.
pub open spec fn null_lit() -> Seq<u8> {
    seq!['n' as u8, 'u' as u8, 'l' as u8, 'l' as u8]
}

/// What tokenization yields on `s`, or `None` where `s` is malformed:
/// no `:`, an empty name, no `=` after the `:`, or a value that is
/// neither `null` nor single-quoted.
pub open spec fn tokenize_spec(s: Seq<u8>) -> Option<TokenModel> {
    match find_byte(s, ':' as u8) {
        None => None,
        Some(i) => if i == 0 {
            None
        } else {
            let rest = s.skip(i + 1);
            match find_byte(rest, '=' as u8) {
                None => None,
                Some(j) => {
                    let val = rest.skip(j + 1);
                    if val == null_lit() {
                        Some(
                            TokenModel {
                                name: s.take(i),
                                tag: rest.take(j),
                                value: RawValueModel::Null,
                            },
                        )
                    } else if val.len() >= 2 && val[0] == '\'' as u8 && val.last() == '\'' as u8 {
                        Some(
                            TokenModel {
                                name: s.take(i),
                                tag: rest.take(j),
                                value: RawValueModel::Quoted(val.subrange(1, val.len() - 1)),
                            },
                        )
                    } else {
                        None
                    }
                },
            }
        },
    }
}

/// Splits a raw argument into name, type text and value text.
/// Fails with `MalformedArgument` exactly when the grammar is not met.
pub fn tokenize(raw: &[u8]) -> (r: Result<Token, CliError>)
    ensures
        r matches Ok(t) ==> tokenize_spec(raw@) == Some(t@) && t.name@.len() > 0,
        r matches Err(e) ==> tokenize_spec(raw@) is None && e@ == (CliErrorModel::MalformedArgument {
            arg: raw@,
        }),
{
    let n = raw.len();
    let i = match find_byte_at(raw, ':' as u8) {
        Some(i) => i,
        None => {
            return Err(CliError::MalformedArgument { arg: to_vec(raw) });
        },
    };
    proof {
        lemma_find_byte(raw@, ':' as u8);
    }
    if i == 0 {
        return Err(CliError::MalformedArgument { arg: to_vec(raw) });
    }
    proof {
        assert(i < n);
    }
    let rest = copy_range(raw, i + 1, n);
    proof {
        assert(rest@ =~= raw@.skip(i + 1));
    }
    let j = match find_byte_at(rest.as_slice(), '=' as u8) {
        Some(j) => j,
        None => {
            return Err(CliError::MalformedArgument { arg: to_vec(raw) });
        },
    };
    proof {
        lemma_find_byte(rest@, '=' as u8);
    }
    let name = copy_range(raw, 0, i);
    let tag = copy_range(rest.as_slice(), 0, j);
    let val = copy_range(rest.as_slice(), j + 1, rest.len());
    proof {
        assert(name@ =~= raw@.take(i as int));
        assert(tag@ =~= rest@.take(j as int));
        assert(val@ =~= rest@.skip(j + 1));
    }
    let null_text: Vec<u8> = vec!['n' as u8, 'u' as u8, 'l' as u8, 'l' as u8];
    proof {
        assert(null_text@ =~= null_lit());
    }
    if bytes_eq(val.as_slice(), null_text.as_slice()) {
        return Ok(Token { name, tag, value: RawValue::Null });
    }
    if val.len() >= 2 && val[0] == '\'' as u8 && val[val.len() - 1] == '\'' as u8 {
        let inner = copy_range(val.as_slice(), 1, val.len() - 1);
        proof {
            assert(inner@ =~= val@.subrange(1, val@.len() - 1));
        }
        return Ok(Token { name, tag, value: RawValue::Quoted(inner) });
    }
    Err(CliError::MalformedArgument { arg: to_vec(raw) })
}

} // verus!