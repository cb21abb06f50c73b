//! The diagnostic listing of supported types.
//!
//! One canonical example per supported type tag, computed on demand
//! from the same registry the encoder dispatches on, so the listing and
//! the parsing rules cannot drift apart.  Callers print the lines
//! verbatim; the crate's tests feed every line back through the parser.
use vstd::prelude::*;

use crate::args::{account_hash_prefix, false_lit, parse_arg_spec, parse_plain_spec, uref_prefix};
use crate::bytes_le::min_len;
use crate::bytesutil::push_bytes;
use crate::decimal::{dec_value, digit_val};
use crate::tags::{
    base_tag_name,
    base_tag_table,
    has_no_delims,
    lemma_base_tag_name_exact,
    lemma_opt_tag_name_exact,
    lemma_plain_tag_name_exact,
    opt_prefix,
    registry_base_tag,
    tag_of_name,
    BaseTag,
};
use crate::tokenize::{
    lemma_find_byte_at,
    null_lit,
    tokenize_spec,
    RawValueModel,
    TokenModel,
};

verus! {

/// The 64 hex zeros of the canonical all-zero 32-byte body.
pub open spec fn hex_zeros() -> Seq<u8> {
    Seq::new(64, |i: int| '0' as u8)
}

/// The canonical example value text of each base type, as it stands
/// between the quotes of its listing line.
pub open spec fn example_value_spec(t: BaseTag) -> Seq<u8> {
    match t {
        BaseTag::Bool => false_lit(),
        BaseTag::I32 => seq!['-' as u8, '1' as u8],
        BaseTag::I64 => seq!['-' as u8, '2' as u8],
        BaseTag::U8 => seq!['3' as u8],
        BaseTag::U32 => seq!['4' as u8],
        BaseTag::U64 => seq!['5' as u8],
        BaseTag::U128 => seq!['6' as u8],
        BaseTag::U256 => seq!['7' as u8],
        BaseTag::U512 => seq!['8' as u8],
        BaseTag::Unit => Seq::empty(),
        BaseTag::Str => seq![
            'H' as u8,
            'e' as u8,
            'l' as u8,
            'l' as u8,
            'o' as u8,
            ',' as u8,
            ' ' as u8,
            'w' as u8,
            'o' as u8,
            'r' as u8,
            'l' as u8,
            'd' as u8,
            '!' as u8,
        ],
        BaseTag::Key => account_hash_prefix() + hex_zeros(),
        BaseTag::AccountHash => account_hash_prefix() + hex_zeros(),
        BaseTag::URef => uref_prefix() + hex_zeros() + seq![
            '-' as u8,
            '0' as u8,
            '0' as u8,
            '7' as u8,
        ],
        BaseTag::PublicKey => seq!['0' as u8, '1' as u8] + hex_zeros(),
    }
}

/// The base type behind the i-th listing position: the fifteen base
/// types first, then the same fifteen under their optional wrappers.
pub open spec fn listing_base(i: int) -> BaseTag {
    if i < 15 {
        registry_base_tag(i)
    } else {
        registry_base_tag(i - 15)
    }
}

/// The spelling of the i-th listed tag.
pub open spec fn listing_tag_name(i: int) -> Seq<u8> {
    if i < 15 {
        base_tag_name(registry_base_tag(i))
    } else {
        opt_prefix() + base_tag_name(registry_base_tag(i - 15))
    }
}

/// One listing line: the tag's own spelling as the argument name, the
/// tag, and the single-quoted value.
pub open spec fn example_line_spec(tag: Seq<u8>, value: Seq<u8>) -> Seq<u8> {
    tag + seq![':' as u8] + tag + seq!['=' as u8] + seq!['\'' as u8] + value + seq!['\'' as u8]
}

/// The full, fixed example listing: thirty lines, one per supported
/// tag, in registry order.
pub open spec fn example_listing() -> Seq<Seq<u8>> {
    Seq::new(30, |i: int| example_line_spec(listing_tag_name(i), example_value_spec(listing_base(i))))
}

/// The thirty tag spellings of the listing, in the same order.
pub open spec fn supported_tag_names() -> Seq<Seq<u8>> {
    Seq::new(30, |i: int| listing_tag_name(i))
}

/// A single digit denotes its own value.
proof fn lemma_single_digit(d: u8)
    requires
        ('0' as u8) <= d <= ('9' as u8),
    ensures
        dec_value(seq![d]) == digit_val(d),
        digit_val(d) < 10,
{
    assert(seq![d].drop_last() =~= Seq::<u8>::empty());
    assert(dec_value(Seq::<u8>::empty()) == 0);
    assert(seq![d].last() == d);
}

/// Small values fit every wide width.
proof fn lemma_small_fits(n: nat, w: nat)
    requires
        n < 256,
        w >= 1,
    ensures
        n < crate::bytes_le::pow256(w),
{
    assert(min_len(0nat) == 0);
    if n > 0 {
        assert(min_len(n) == 1 + min_len(n / 256));
        assert(n / 256 == 0) by {
            vstd::arithmetic::div_mod::lemma_basic_div(n as int, 256);
        }
    }
    crate::bytes_le::lemma_min_len_le(n, w);
}

/// A canonical example value for each base type, as it would stand
/// between the quotes of an argument.  Every example follows its own
/// type's decode rule: the listing cannot show a value the encoder
/// would reject.
pub fn example_value(t: BaseTag) -> (out: Vec<u8>)
    ensures
        out@ == example_value_spec(t),
        parse_plain_spec(t, out@) is Ok,
{
    match t {
        BaseTag::Bool => {
            let v: Vec<u8> = vec!['f' as u8, 'a' as u8, 'l' as u8, 's' as u8, 'e' as u8];
            proof {
                assert(v@ =~= false_lit());
            }
            v
        },
        BaseTag::I32 => {
            let v: Vec<u8> = vec!['-' as u8, '1' as u8];
            proof {
                assert(v@ =~= example_value_spec(t));
                assert(v@.skip(1) =~= seq!['1' as u8]);
                lemma_single_digit('1' as u8);
            }
            v
        },
        BaseTag::I64 => {
            let v: Vec<u8> = vec!['-' as u8, '2' as u8];
            proof {
                assert(v@ =~= example_value_spec(t));
                assert(v@.skip(1) =~= seq!['2' as u8]);
                lemma_single_digit('2' as u8);
            }
            v
        },
        BaseTag::U8 => {
            let v: Vec<u8> = vec!['3' as u8];
            proof {
                assert(v@ =~= seq!['3' as u8]);
                lemma_single_digit('3' as u8);
            }
            v
        },
        BaseTag::U32 => {
            let v: Vec<u8> = vec!['4' as u8];
            proof {
                assert(v@ =~= seq!['4' as u8]);
                lemma_single_digit('4' as u8);
            }
            v
        },
        BaseTag::U64 => {
            let v: Vec<u8> = vec!['5' as u8];
            proof {
                assert(v@ =~= seq!['5' as u8]);
                lemma_single_digit('5' as u8);
            }
            v
        },
        BaseTag::U128 => {
            let v: Vec<u8> = vec!['6' as u8];
            proof {
                assert(v@ =~= seq!['6' as u8]);
                lemma_single_digit('6' as u8);
                lemma_small_fits(dec_value(v@), 16);
            }
            v
        },
        BaseTag::U256 => {
            let v: Vec<u8> = vec!['7' as u8];
            proof {
                assert(v@ =~= seq!['7' as u8]);
                lemma_single_digit('7' as u8);
                lemma_small_fits(dec_value(v@), 32);
            }
            v
        },
        BaseTag::U512 => {
            let v: Vec<u8> = vec!['8' as u8];
            proof {
                assert(v@ =~= seq!['8' as u8]);
                lemma_single_digit('8' as u8);
                lemma_small_fits(dec_value(v@), 64);
            }
            v
        },
        BaseTag::Unit => {
            let v: Vec<u8> = Vec::new();
            proof {
                assert(v@ =~= example_value_spec(t));
            }
            v
        },
        BaseTag::Str => {
            let v: Vec<u8> = vec![
                'H' as u8,
                'e' as u8,
                'l' as u8,
                'l' as u8,
                'o' as u8,
                ',' as u8,
                ' ' as u8,
                'w' as u8,
                'o' as u8,
                'r' as u8,
                'l' as u8,
                'd' as u8,
                '!' as u8,
            ];
            proof {
                assert(v@ =~= example_value_spec(t));
            }
            v
        },
        BaseTag::Key => {
            let mut v: Vec<u8> = account_hash_example_prefix();
            push_hex_zeros(&mut v);
            proof {
                assert(v@ =~= example_value_spec(t));
                assert(v@.take(13) =~= account_hash_prefix());
                assert(v@.skip(13) =~= hex_zeros());
            }
            v
        },
        BaseTag::AccountHash => {
            let mut v: Vec<u8> = account_hash_example_prefix();
            push_hex_zeros(&mut v);
            proof {
                assert(v@ =~= example_value_spec(t));
                assert(v@.take(13) =~= account_hash_prefix());
                assert(v@.skip(13) =~= hex_zeros());
            }
            v
        },
        BaseTag::URef => {
            let mut v: Vec<u8> = vec!['u' as u8, 'r' as u8, 'e' as u8, 'f' as u8, '-' as u8];
            push_hex_zeros(&mut v);
            v.push('-' as u8);
            v.push('0' as u8);
            v.push('0' as u8);
            v.push('7' as u8);
            proof {
                assert(v@ =~= example_value_spec(t));
                assert(v@.take(5) =~= uref_prefix());
                assert(v@.subrange(5, 69) =~= hex_zeros());
            }
            v
        },
        BaseTag::PublicKey => {
            let mut v: Vec<u8> = vec!['0' as u8, '1' as u8];
            push_hex_zeros(&mut v);
            proof {
                assert(v@ =~= example_value_spec(t));
                assert(v@.skip(2) =~= hex_zeros());
            }
            v
        },
    }
}

/// The `account-hash-` prefix, as bytes.
fn account_hash_example_prefix() -> (out: Vec<u8>)
    ensures
        out@ == account_hash_prefix(),
{
    let out: Vec<u8> = vec![
        'a' as u8,
        'c' as u8,
        'c' as u8,
        'o' as u8,
        'u' as u8,
        'n' as u8,
        't' as u8,
        '-' as u8,
        'h' as u8,
        'a' as u8,
        's' as u8,
        'h' as u8,
        '-' as u8,
    ];
    proof {
        assert(out@ =~= account_hash_prefix());
    }
    out
}

/// Appends 64 hex zeros: the canonical all-zero 32-byte body.
fn push_hex_zeros(v: &mut Vec<u8>)
    ensures
        final(v)@ == old(v)@ + hex_zeros(),
{
    let mut i: usize = 0;
    while i < 64
        invariant
            i <= 64,
            v@ == old(v)@ + hex_zeros().take(i as int),
        decreases 64 - i,
    {
        v.push('0' as u8);
        proof {
            assert(v@ =~= old(v)@ + hex_zeros().take(i + 1));
        }
        i += 1;
    }
    proof {
        assert(hex_zeros().take(64) =~= hex_zeros());
    }
}

/// One example line `name:tag='value'`, using the tag's own spelling as
/// the argument name.  The line tokenizes back into exactly that name,
/// tag and quoted value.
fn example_line(tag_text: &Vec<u8>, value_text: &Vec<u8>) -> (line: Vec<u8>)
    requires
        tag_text@.len() > 0,
        has_no_delims(tag_text@),
    ensures
        line@ == example_line_spec(tag_text@, value_text@),
        tokenize_spec(line@) == Some(
            TokenModel {
                name: tag_text@,
                tag: tag_text@,
                value: RawValueModel::Quoted(value_text@),
            },
        ),
{
    let mut line: Vec<u8> = Vec::new();
    push_bytes(&mut line, tag_text.as_slice());
    line.push(':' as u8);
    push_bytes(&mut line, tag_text.as_slice());
    line.push('=' as u8);
    line.push('\'' as u8);
    push_bytes(&mut line, value_text.as_slice());
    line.push('\'' as u8);
    proof {
        let a = tag_text@;
        let v = value_text@;
        let l = line@;
        let n = a.len() as int;
        assert(l =~= a + seq![':' as u8] + a + seq!['=' as u8] + seq!['\'' as u8] + v + seq![
            '\'' as u8,
        ]);
        assert(l[n] == ':' as u8);
        assert(forall|j: int| 0 <= j < n ==> (#[trigger] l[j]) == a[j]);
        lemma_find_byte_at(l, ':' as u8, n);
        let rest = l.skip(n + 1);
        assert(rest =~= a + seq!['=' as u8] + seq!['\'' as u8] + v + seq!['\'' as u8]);
        assert(rest[n] == '=' as u8);
        assert(forall|j: int| 0 <= j < n ==> (#[trigger] rest[j]) == a[j]);
        lemma_find_byte_at(rest, '=' as u8, n);
        let val = rest.skip(n + 1);
        assert(val =~= seq!['\'' as u8] + v + seq!['\'' as u8]);
        assert(val != null_lit()) by {
            if val == null_lit() {
                assert(val[0] == null_lit()[0]);
            }
        }
        assert(val.len() >= 2 && val[0] == '\'' as u8 && val.last() == '\'' as u8);
        assert(val.subrange(1, val.len() - 1) =~= v);
        assert(l.take(n) =~= a);
        assert(rest.take(n) =~= a);
    }
    line
}

/// The thirty supported type tags, in registry order: the fifteen base
/// types, then their optional wrappers.  The i-th entry is exactly the
/// i-th registry spelling, and every spelling resolves: the listing
/// cannot drift from the parser.
pub fn supported_type_list() -> (out: Vec<Vec<u8>>)
    ensures
        out@.len() == 30,
        forall|i: int| 0 <= i < 30 ==> (#[trigger] out@[i])@ == listing_tag_name(i),
        forall|i: int| 0 <= i < 30 ==> tag_of_name((#[trigger] out@[i])@) is Some,
{
    let table = base_tag_table();
    let mut out: Vec<Vec<u8>> = Vec::new();
    let mut i: usize = 0;
    while i < table.len()
        invariant
            table@.len() == 15,
            forall|j: int|
                0 <= j < 15 ==> (#[trigger] table@[j]).1@ == base_tag_name(table@[j].0),
            forall|j: int| 0 <= j < 15 ==> (#[trigger] table@[j]).0 == registry_base_tag(j),
            i <= 15,
            out@.len() == i,
            forall|j: int| 0 <= j < i ==> (#[trigger] out@[j])@ == listing_tag_name(j),
            forall|j: int| 0 <= j < i ==> tag_of_name((#[trigger] out@[j])@) is Some,
        decreases table@.len() - i,
    {
        let mut name: Vec<u8> = Vec::new();
        push_bytes(&mut name, table[i].1.as_slice());
        proof {
            assert(name@ =~= table@[i as int].1@);
            assert(name@ == listing_tag_name(i as int));
            assert(tag_of_name(name@) is Some);
        }
        out.push(name);
        i += 1;
    }
    let mut i: usize = 0;
    while i < table.len()
        invariant
            table@.len() == 15,
            forall|j: int|
                0 <= j < 15 ==> (#[trigger] table@[j]).1@ == base_tag_name(table@[j].0),
            forall|j: int| 0 <= j < 15 ==> (#[trigger] table@[j]).0 == registry_base_tag(j),
            i <= 15,
            out@.len() == 15 + i,
            forall|j: int| 0 <= j < 15 + i ==> (#[trigger] out@[j])@ == listing_tag_name(j),
            forall|j: int| 0 <= j < 15 + i ==> tag_of_name((#[trigger] out@[j])@) is Some,
        decreases table@.len() - i,
    {
        let mut name: Vec<u8> = vec!['o' as u8, 'p' as u8, 't' as u8, '_' as u8];
        push_bytes(&mut name, table[i].1.as_slice());
        proof {
            assert(name@ =~= opt_prefix() + base_tag_name(table@[i as int].0));
            assert(name@ == listing_tag_name(15 + i as int));
            assert(name@.take(4) =~= opt_prefix());
            assert(name@.skip(4) =~= base_tag_name(table@[i as int].0));
            assert(tag_of_name(name@) is Some);
        }
        out.push(name);
        i += 1;
    }
    out
}

/// One example argument line per supported type, in registry order:
/// `tag:tag='value'` for the fifteen base types, then the same values
/// under the `opt_` wrappers.  Printed verbatim by the "show examples"
/// diagnostic.  The result is exactly [`example_listing`], line by
/// line, and every line parses: the listing shows nothing the encoder
/// would reject.
pub fn supported_type_examples() -> (out: Vec<Vec<u8>>)
    ensures
        out@.len() == 30,
        forall|i: int| 0 <= i < 30 ==> (#[trigger] out@[i])@ == example_listing()[i],
        forall|i: int| 0 <= i < 30 ==> parse_arg_spec((#[trigger] out@[i])@) is Ok,
{
    let table = base_tag_table();
    let mut out: Vec<Vec<u8>> = Vec::new();
    let mut i: usize = 0;
    while i < table.len()
        invariant
            table@.len() == 15,
            forall|j: int|
                0 <= j < 15 ==> (#[trigger] table@[j]).1@ == base_tag_name(table@[j].0),
            forall|j: int| 0 <= j < 15 ==> (#[trigger] table@[j]).0 == registry_base_tag(j),
            i <= 15,
            out@.len() == i,
            forall|j: int| 0 <= j < i ==> (#[trigger] out@[j])@ == example_listing()[j],
            forall|j: int| 0 <= j < i ==> parse_arg_spec((#[trigger] out@[j])@) is Ok,
        decreases table@.len() - i,
    {
        let value = example_value(table[i].0);
        proof {
            lemma_base_tag_name_exact(table@[i as int].0);
        }
        let line = example_line(&table[i].1, &value);
        proof {
            lemma_plain_tag_name_exact(table@[i as int].0);
            assert(table@[i as int].1@ == listing_tag_name(i as int));
            assert(value@ == example_value_spec(listing_base(i as int)));
            assert(line@ == example_listing()[i as int]);
            assert(parse_arg_spec(line@) is Ok);
        }
        out.push(line);
        i += 1;
    }
    let mut i: usize = 0;
    while i < table.len()
        invariant
            table@.len() == 15,
            forall|j: int|
                0 <= j < 15 ==> (#[trigger] table@[j]).1@ == base_tag_name(table@[j].0),
            forall|j: int| 0 <= j < 15 ==> (#[trigger] table@[j]).0 == registry_base_tag(j),
            i <= 15,
            out@.len() == 15 + i,
            forall|j: int| 0 <= j < 15 + i ==> (#[trigger] out@[j])@ == example_listing()[j],
            forall|j: int| 0 <= j < 15 + i ==> parse_arg_spec((#[trigger] out@[j])@) is Ok,
        decreases table@.len() - i,
    {
        let mut tag_text: Vec<u8> = vec!['o' as u8, 'p' as u8, 't' as u8, '_' as u8];
        push_bytes(&mut tag_text, table[i].1.as_slice());
        let value = example_value(table[i].0);
        proof {
            assert(tag_text@ =~= opt_prefix() + base_tag_name(table@[i as int].0));
            lemma_opt_tag_name_exact(table@[i as int].0);
        }
        let line = example_line(&tag_text, &value);
        proof {
            assert(tag_text@ == listing_tag_name(15 + i as int));
            assert(value@ == example_value_spec(listing_base(15 + i as int)));
            assert(line@ == example_listing()[15 + i as int]);
            assert(parse_arg_spec(line@) is Ok);
        }
        out.push(line);
        i += 1;
    }
    out
}

} // verus!
