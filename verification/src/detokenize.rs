//! The token detokenizer: renders a strongly typed decoded token back
//! into a host value.  Total on well-formed tokens: byte-like tokens
//! become lowercase "0x"-prefixed hex strings, integers become decimal
//! strings whatever their magnitude, and compound tokens become
//! positional sequences.

use vstd::prelude::*;
use crate::u256::{two_pow_255, two_pow_256};
use crate::text::{chars_to_string, dec_str_of, format_dec, hex_encode, spec_hex_encode};
use crate::types::{
    DynV, DynamicValue, Token, TokenV, dyn_view, dyns_view, lemma_dyns_view, tokens_view,
};

verus! {

/// The decimal rendering of a raw 256-bit value read as a
/// two's-complement signed number.
pub open spec fn spec_int_str(n: nat) -> Seq<char> {
    if n >= two_pow_255() {
        seq!['-'].add(dec_str_of((two_pow_256() - n) as nat))
    } else {
        dec_str_of(n)
    }
}

/// The host value a token detokenizes to.
pub open spec fn spec_detokenize(t: TokenV) -> DynV
    decreases t, 1int,
{
    match t {
        TokenV::Address(b) => DynV::Str(seq!['0', 'x'].add(spec_hex_encode(b))),
        TokenV::Bool(b) => DynV::Boolean(b),
        TokenV::Str(s) => DynV::Str(s),
        TokenV::Bytes(b) => DynV::Str(seq!['0', 'x'].add(spec_hex_encode(b))),
        TokenV::FixedBytes(b) => DynV::Str(seq!['0', 'x'].add(spec_hex_encode(b))),
        TokenV::Uint(n) => DynV::Str(dec_str_of(n)),
        TokenV::Int(n) => DynV::Str(spec_int_str(n)),
        TokenV::Array(ts) => {
            proof {
                assert(decreases_to!(t => ts));
            }
            DynV::Sequence(spec_detokenize_elems(ts, 0))
        },
        TokenV::FixedArray(ts) => {
            proof {
                assert(decreases_to!(t => ts));
            }
            DynV::Sequence(spec_detokenize_elems(ts, 0))
        },
        TokenV::Tuple(ts) => {
            proof {
                assert(decreases_to!(t => ts));
            }
            DynV::Sequence(spec_detokenize_elems(ts, 0))
        },
    }
}

/// The host values of the tokens of `ts` from position `i` on.
pub open spec fn spec_detokenize_elems(ts: Seq<TokenV>, i: int) -> Seq<DynV>
    decreases ts, 0int, ts.len() - i,
{
    if i < 0 || i >= ts.len() {
        Seq::empty()
    } else {
        proof {
            assert(decreases_to!(ts => ts[i]));
        }
        seq![spec_detokenize(ts[i])].add(spec_detokenize_elems(ts, i + 1))
    }
}

/// The detokenized elements, pointwise.
pub proof fn lemma_detokenize_elems(ts: Seq<TokenV>, i: int)
    requires
        0 <= i <= ts.len(),
    ensures
        spec_detokenize_elems(ts, i).len() == ts.len() - i,
        forall|k: int|
            i <= k < ts.len() ==> spec_detokenize_elems(ts, i)[k - i] == spec_detokenize(
                #[trigger] ts[k],
            ),
    decreases ts.len() - i,
{
    if i < ts.len() {
        lemma_detokenize_elems(ts, i + 1);
    }
}

/// Builds the "0x"-prefixed lowercase hex string of some bytes.
fn hex_string_of(bs: &Vec<u8>) -> (r: String)
    ensures
        r@ == seq!['0', 'x'].add(spec_hex_encode(bs@)),
{
    let mut chars: Vec<char> = Vec::new();
    chars.push('0');
    chars.push('x');
    let mut digits = hex_encode(bs);
    let ghost prefix = chars@;
    chars.append(&mut digits);
    proof {
        assert(prefix =~= seq!['0', 'x']);
    }
    chars_to_string(&chars)
}

/// Renders a decoded token as a host value.
pub fn detokenize(token: &Token) -> (r: DynamicValue)
    ensures
        r@ == spec_detokenize(token@),
    decreases token@, 1int,
{
    match token {
        Token::Address(b) => DynamicValue::Str(hex_string_of(b)),
        Token::Bool(b) => DynamicValue::Boolean(*b),
        Token::Str(s) => DynamicValue::Str(s.clone()),
        Token::Bytes(b) => DynamicValue::Str(hex_string_of(b)),
        Token::FixedBytes(b) => DynamicValue::Str(hex_string_of(b)),
        Token::Uint(x) => DynamicValue::Str(chars_to_string(&format_dec(*x))),
        Token::Int(x) => {
            if x.is_high_bit_set() {
                let mut digits = format_dec(x.negated());
                let ghost mag = digits@;
                digits.insert(0, '-');
                proof {
                    assert(digits@ =~= seq!['-'].add(mag));
                }
                DynamicValue::Str(chars_to_string(&digits))
            } else {
                DynamicValue::Str(chars_to_string(&format_dec(*x)))
            }
        },
        Token::Array(ts) => {
            proof {
                assert(decreases_to!(token@ => token@->Array_0));
            }
            DynamicValue::Sequence(detokenize_elems(ts, 0))
        },
        Token::FixedArray(ts) => {
            proof {
                assert(decreases_to!(token@ => token@->FixedArray_0));
            }
            DynamicValue::Sequence(detokenize_elems(ts, 0))
        },
        Token::Tuple(ts) => {
            proof {
                assert(decreases_to!(token@ => token@->Tuple_0));
            }
            DynamicValue::Sequence(detokenize_elems(ts, 0))
        },
    }
}

/// Renders the tokens of `ts` from position `i` on.
pub fn detokenize_elems(ts: &Vec<Token>, i: usize) -> (r: Vec<DynamicValue>)
    requires
        i <= ts@.len(),
    ensures
        dyns_view(r@) == spec_detokenize_elems(tokens_view(ts@), i as int),
    decreases tokens_view(ts@), 0int, ts@.len() - i,
{
    proof {
        crate::types::lemma_tokens_view(ts@);
    }
    if i == ts.len() {
        let r: Vec<DynamicValue> = Vec::new();
        proof {
            assert(dyns_view(r@) =~= Seq::<DynV>::empty());
        }
        return r;
    }
    proof {
        assert(decreases_to!(tokens_view(ts@) => tokens_view(ts@)[i as int]));
    }
    let d = detokenize(&ts[i]);
    let mut rest = detokenize_elems(ts, i + 1);
    let ghost old_rest = rest@;
    rest.insert(0, d);
    proof {
        lemma_dyns_view(rest@);
        lemma_dyns_view(old_rest);
        assert forall|k: int|
            0 <= k < rest@.len() implies dyns_view(rest@)[k] == seq![dyn_view(d)].add(
            dyns_view(old_rest),
        )[k] by {
            if k > 0 {
                assert(rest@[k] == old_rest[k - 1]);
            }
        }
        assert(dyns_view(rest@) =~= seq![dyn_view(d)].add(dyns_view(old_rest)));
    }
    rest
}

/// Renders a whole vector of decoded tokens, in order.
pub fn detokenize_all(tokens: &Vec<Token>) -> (r: Vec<DynamicValue>)
    ensures
        dyns_view(r@) == spec_detokenize_elems(tokens_view(tokens@), 0),
{
    detokenize_elems(tokens, 0)
}

} // verus!
