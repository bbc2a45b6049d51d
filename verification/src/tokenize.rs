//! The value tokenizer: recursively converts a loosely typed host value
//! into a strongly typed token, driven by a parameter-type schema node.
//!
//! Numeric strings are read leniently: decimal, or raw hex behind a
//! "0x"/"0X" prefix.  A signed type accepts a leading "-" on a decimal
//! numeral and stores the two's-complement 256-bit form.  A numeric
//! string that denotes no representable value, a negative value for an
//! unsigned type, and a value of the wrong kind all fail with
//! `TypeMismatch`; byte strings that are not well-formed hex fail with
//! `MalformedHex`; fixed-size types enforce their length.

use vstd::prelude::*;
use crate::u256::{U256, two_pow_255, two_pow_256};
use crate::text::{
    all_dec_digits, all_hex_digits, chars_of, dec_val, hex_decode_from, hexnum_val,
    parse_dec_digits, parse_hex_digits, remove_hex_prefix, spec_hex_decode, spec_strip_hex_prefix,
};
use crate::types::{
    CoderError, DynV, DynamicValue, ErrV, ParamType, ParamTypeV, Path, Token, TokenV, dyns_view,
    lemma_dyns_view, lemma_param_types_view, lemma_tokens_view, param_types_view, path_view,
    token_view, tokens_view,
};

verus! {

/// A result with both sides viewed.
pub open spec fn res_view<T: View>(r: Result<T, CoderError>) -> Result<T::V, ErrV> {
    match r {
        Ok(t) => Ok(t@),
        Err(e) => Err(e@),
    }
}

/// A token-vector result, viewed deeply.
pub open spec fn toks_res_view(r: Result<Vec<Token>, CoderError>) -> Result<Seq<TokenV>, ErrV> {
    match r {
        Ok(v) => Ok(tokens_view(v@)),
        Err(e) => Err(e@),
    }
}

/// The two's-complement 256-bit form of the negation of `m`.
pub open spec fn twos_comp(m: nat) -> nat {
    if m == 0 {
        0
    } else {
        (two_pow_256() - m) as nat
    }
}

/// An error as seen one sequence level further out: element errors gain
/// the element's index at the front of their path.
pub open spec fn err_with_index(e: ErrV, i: nat) -> ErrV {
    match e {
        ErrV::TypeMismatch { path } => ErrV::TypeMismatch { path: seq![i].add(path) },
        ErrV::MalformedHex { path } => ErrV::MalformedHex { path: seq![i].add(path) },
        ErrV::FixedLengthMismatch { path, expected, got } => ErrV::FixedLengthMismatch {
            path: seq![i].add(path),
            expected,
            got,
        },
        ErrV::TupleArityMismatch { path, expected, got } => ErrV::TupleArityMismatch {
            path: seq![i].add(path),
            expected,
            got,
        },
        _ => e,
    }
}

// ---------------------------------------------------------------------
// What tokenizing means, per schema node
// ---------------------------------------------------------------------

pub open spec fn spec_tokenize_address(v: DynV) -> Result<Seq<u8>, ErrV> {
    match v {
        DynV::Str(s) => match spec_hex_decode(spec_strip_hex_prefix(s)) {
            Some(bs) => if bs.len() == 20 {
                Ok(bs)
            } else {
                Err(ErrV::FixedLengthMismatch { path: Seq::empty(), expected: 20, got: bs.len() })
            },
            None => Err(ErrV::MalformedHex { path: Seq::empty() }),
        },
        _ => Err(ErrV::TypeMismatch { path: Seq::empty() }),
    }
}

pub open spec fn spec_tokenize_string(v: DynV) -> Result<Seq<char>, ErrV> {
    match v {
        DynV::Str(s) => Ok(s),
        _ => Err(ErrV::TypeMismatch { path: Seq::empty() }),
    }
}

pub open spec fn spec_tokenize_bool(v: DynV) -> Result<bool, ErrV> {
    match v {
        DynV::Boolean(b) => Ok(b),
        _ => Err(ErrV::TypeMismatch { path: Seq::empty() }),
    }
}

pub open spec fn spec_tokenize_bytes(v: DynV) -> Result<Seq<u8>, ErrV> {
    match v {
        DynV::Str(s) => match spec_hex_decode(spec_strip_hex_prefix(s)) {
            Some(bs) => Ok(bs),
            None => Err(ErrV::MalformedHex { path: Seq::empty() }),
        },
        _ => Err(ErrV::TypeMismatch { path: Seq::empty() }),
    }
}

pub open spec fn spec_tokenize_fixed_bytes(v: DynV, n: nat) -> Result<Seq<u8>, ErrV> {
    match v {
        DynV::Str(s) => match spec_hex_decode(spec_strip_hex_prefix(s)) {
            Some(bs) => if bs.len() == n {
                Ok(bs)
            } else {
                Err(ErrV::FixedLengthMismatch { path: Seq::empty(), expected: n, got: bs.len() })
            },
            None => Err(ErrV::MalformedHex { path: Seq::empty() }),
        },
        _ => Err(ErrV::TypeMismatch { path: Seq::empty() }),
    }
}

/// Whether a string opens with a hex-numeral prefix.
pub open spec fn has_hex_prefix(s: Seq<char>) -> bool {
    s.len() >= 2 && s[0] == '0' && (s[1] == 'x' || s[1] == 'X')
}

pub open spec fn spec_tokenize_uint(v: DynV) -> Result<nat, ErrV> {
    match v {
        DynV::Str(s) => if has_hex_prefix(s) {
            let d = s.skip(2);
            if d.len() > 0 && all_hex_digits(d) && hexnum_val(d) < two_pow_256() {
                Ok(hexnum_val(d))
            } else {
                Err(ErrV::TypeMismatch { path: Seq::empty() })
            }
        } else {
            if s.len() > 0 && all_dec_digits(s) && dec_val(s) < two_pow_256() {
                Ok(dec_val(s))
            } else {
                Err(ErrV::TypeMismatch { path: Seq::empty() })
            }
        },
        DynV::Number(n) => if 0 <= n < two_pow_256() {
            Ok(n as nat)
        } else {
            Err(ErrV::TypeMismatch { path: Seq::empty() })
        },
        _ => Err(ErrV::TypeMismatch { path: Seq::empty() }),
    }
}

pub open spec fn spec_tokenize_int(v: DynV) -> Result<nat, ErrV> {
    match v {
        DynV::Str(s) => if s.len() >= 1 && s[0] == '-' {
            let d = s.skip(1);
            if d.len() > 0 && all_dec_digits(d) && dec_val(d) <= two_pow_255() {
                Ok(twos_comp(dec_val(d)))
            } else {
                Err(ErrV::TypeMismatch { path: Seq::empty() })
            }
        } else if has_hex_prefix(s) {
            let d = s.skip(2);
            if d.len() > 0 && all_hex_digits(d) && hexnum_val(d) < two_pow_256() {
                Ok(hexnum_val(d))
            } else {
                Err(ErrV::TypeMismatch { path: Seq::empty() })
            }
        } else {
            if s.len() > 0 && all_dec_digits(s) && dec_val(s) < two_pow_255() {
                Ok(dec_val(s))
            } else {
                Err(ErrV::TypeMismatch { path: Seq::empty() })
            }
        },
        DynV::Number(n) => if -(two_pow_255() as int) <= n < two_pow_255() {
            Ok(
                if n >= 0 {
                    n as nat
                } else {
                    (two_pow_256() + n) as nat
                },
            )
        } else {
            Err(ErrV::TypeMismatch { path: Seq::empty() })
        },
        _ => Err(ErrV::TypeMismatch { path: Seq::empty() }),
    }
}

/// Tokenizes one host value against one schema node; errors carry the
/// path of the offending element relative to `v`.
pub open spec fn spec_tokenize(p: ParamTypeV, v: DynV) -> Result<TokenV, ErrV>
    decreases v, 1int,
{
    match p {
        ParamTypeV::Address => match spec_tokenize_address(v) {
            Ok(bs) => Ok(TokenV::Address(bs)),
            Err(e) => Err(e),
        },
        ParamTypeV::Bool => match spec_tokenize_bool(v) {
            Ok(b) => Ok(TokenV::Bool(b)),
            Err(e) => Err(e),
        },
        ParamTypeV::Str => match spec_tokenize_string(v) {
            Ok(s) => Ok(TokenV::Str(s)),
            Err(e) => Err(e),
        },
        ParamTypeV::Bytes => match spec_tokenize_bytes(v) {
            Ok(bs) => Ok(TokenV::Bytes(bs)),
            Err(e) => Err(e),
        },
        ParamTypeV::FixedBytes(n) => match spec_tokenize_fixed_bytes(v, n) {
            Ok(bs) => Ok(TokenV::FixedBytes(bs)),
            Err(e) => Err(e),
        },
        ParamTypeV::Uint(_) => match spec_tokenize_uint(v) {
            Ok(x) => Ok(TokenV::Uint(x)),
            Err(e) => Err(e),
        },
        ParamTypeV::Int(_) => match spec_tokenize_int(v) {
            Ok(x) => Ok(TokenV::Int(x)),
            Err(e) => Err(e),
        },
        ParamTypeV::Array(e) => match v {
            DynV::Sequence(vs) => {
                proof {
                    assert(decreases_to!(v => vs));
                }
                match spec_tokenize_elems(*e, vs, 0) {
                    Ok(ts) => Ok(TokenV::Array(ts)),
                    Err(er) => Err(er),
                }
            },
            _ => Err(ErrV::TypeMismatch { path: Seq::empty() }),
        },
        ParamTypeV::FixedArray(e, n) => match v {
            DynV::Sequence(vs) => if vs.len() == n {
                proof {
                    assert(decreases_to!(v => vs));
                }
                match spec_tokenize_elems(*e, vs, 0) {
                    Ok(ts) => Ok(TokenV::FixedArray(ts)),
                    Err(er) => Err(er),
                }
            } else {
                Err(ErrV::FixedLengthMismatch { path: Seq::empty(), expected: n, got: vs.len() })
            },
            _ => Err(ErrV::TypeMismatch { path: Seq::empty() }),
        },
        ParamTypeV::Tuple(ps) => match v {
            DynV::Sequence(vs) => if vs.len() == ps.len() {
                proof {
                    assert(decreases_to!(v => vs));
                }
                match spec_tokenize_tuple(ps, vs, 0) {
                    Ok(ts) => Ok(TokenV::Tuple(ts)),
                    Err(er) => Err(er),
                }
            } else {
                Err(
                    ErrV::TupleArityMismatch {
                        path: Seq::empty(),
                        expected: ps.len(),
                        got: vs.len(),
                    },
                )
            },
            _ => Err(ErrV::TypeMismatch { path: Seq::empty() }),
        },
    }
}

/// Tokenizes the elements of `vs` from position `i` on against one
/// element type, failing on the first element that does not fit.
pub open spec fn spec_tokenize_elems(e: ParamTypeV, vs: Seq<DynV>, i: int) -> Result<
    Seq<TokenV>,
    ErrV,
>
    decreases vs, 0int, vs.len() - i,
{
    if i < 0 || i >= vs.len() {
        Ok(Seq::empty())
    } else {
        proof {
            assert(decreases_to!(vs => vs[i]));
        }
        match spec_tokenize(e, vs[i]) {
            Err(er) => Err(err_with_index(er, i as nat)),
            Ok(t) => match spec_tokenize_elems(e, vs, i + 1) {
                Ok(rest) => Ok(seq![t].add(rest)),
                Err(er) => Err(er),
            },
        }
    }
}

/// Tokenizes the elements of `vs` from position `i` on, each against
/// its positional parameter type.
pub open spec fn spec_tokenize_tuple(ps: Seq<ParamTypeV>, vs: Seq<DynV>, i: int) -> Result<
    Seq<TokenV>,
    ErrV,
>
    decreases vs, 0int, vs.len() - i,
{
    if i < 0 || i >= vs.len() || i >= ps.len() {
        Ok(Seq::empty())
    } else {
        proof {
            assert(decreases_to!(vs => vs[i]));
        }
        match spec_tokenize(ps[i], vs[i]) {
            Err(er) => Err(err_with_index(er, i as nat)),
            Ok(t) => match spec_tokenize_tuple(ps, vs, i + 1) {
                Ok(rest) => Ok(seq![t].add(rest)),
                Err(er) => Err(er),
            },
        }
    }
}

// ---------------------------------------------------------------------
// Executable tokenizer
// ---------------------------------------------------------------------

fn empty_path() -> (r: Path)
    ensures
        path_view(r@) == Seq::<nat>::empty(),
{
    let r: Path = Vec::new();
    proof {
        assert(path_view(r@) =~= Seq::<nat>::empty());
    }
    r
}

/// Prefixes an element error's path with the element's index.
fn attach_index(e: CoderError, i: usize) -> (r: CoderError)
    ensures
        r@ == err_with_index(e@, i as nat),
{
    match e {
        CoderError::TypeMismatch { mut path } => {
            let ghost old_path = path@;
            path.insert(0, i);
            proof {
                assert forall|k: int|
                    0 <= k < path@.len() implies path_view(path@)[k] == seq![i as nat].add(
                    path_view(old_path),
                )[k] by {
                    if k > 0 {
                        assert(path@[k] == old_path[k - 1]);
                    }
                }
                assert(path_view(path@) =~= seq![i as nat].add(path_view(old_path)));
            }
            CoderError::TypeMismatch { path }
        },
        CoderError::MalformedHex { mut path } => {
            let ghost old_path = path@;
            path.insert(0, i);
            proof {
                assert forall|k: int|
                    0 <= k < path@.len() implies path_view(path@)[k] == seq![i as nat].add(
                    path_view(old_path),
                )[k] by {
                    if k > 0 {
                        assert(path@[k] == old_path[k - 1]);
                    }
                }
                assert(path_view(path@) =~= seq![i as nat].add(path_view(old_path)));
            }
            CoderError::MalformedHex { path }
        },
        CoderError::FixedLengthMismatch { mut path, expected, got } => {
            let ghost old_path = path@;
            path.insert(0, i);
            proof {
                assert forall|k: int|
                    0 <= k < path@.len() implies path_view(path@)[k] == seq![i as nat].add(
                    path_view(old_path),
                )[k] by {
                    if k > 0 {
                        assert(path@[k] == old_path[k - 1]);
                    }
                }
                assert(path_view(path@) =~= seq![i as nat].add(path_view(old_path)));
            }
            CoderError::FixedLengthMismatch { path, expected, got }
        },
        CoderError::TupleArityMismatch { mut path, expected, got } => {
            let ghost old_path = path@;
            path.insert(0, i);
            proof {
                assert forall|k: int|
                    0 <= k < path@.len() implies path_view(path@)[k] == seq![i as nat].add(
                    path_view(old_path),
                )[k] by {
                    if k > 0 {
                        assert(path@[k] == old_path[k - 1]);
                    }
                }
                assert(path_view(path@) =~= seq![i as nat].add(path_view(old_path)));
            }
            CoderError::TupleArityMismatch { path, expected, got }
        },
        other => other,
    }
}

/// Decodes a host string as hex bytes, ignoring a "0x"/"0X" prefix.
fn decode_hex_value(s: &String) -> (r: Option<Vec<u8>>)
    ensures
        r is Some <==> spec_hex_decode(spec_strip_hex_prefix(s@)) is Some,
        r matches Some(v) ==> Some(v@) == spec_hex_decode(spec_strip_hex_prefix(s@)),
{
    let stripped = remove_hex_prefix(s.as_str());
    let v = chars_of(stripped);
    proof {
        assert(v@.skip(0) =~= v@);
    }
    hex_decode_from(&v, 0)
}

pub fn tokenize_address(value: &DynamicValue) -> (r: Result<Vec<u8>, CoderError>)
    ensures
        res_view(r) == spec_tokenize_address(value@),
{
    match value {
        DynamicValue::Str(s) => match decode_hex_value(s) {
            Some(bs) => if bs.len() == 20 {
                Ok(bs)
            } else {
                let got = bs.len();
                Err(CoderError::FixedLengthMismatch { path: empty_path(), expected: 20, got })
            },
            None => Err(CoderError::MalformedHex { path: empty_path() }),
        },
        _ => Err(CoderError::TypeMismatch { path: empty_path() }),
    }
}

pub fn tokenize_string(value: &DynamicValue) -> (r: Result<String, CoderError>)
    ensures
        res_view(r) == spec_tokenize_string(value@),
{
    match value {
        DynamicValue::Str(s) => Ok(s.clone()),
        _ => Err(CoderError::TypeMismatch { path: empty_path() }),
    }
}

pub fn tokenize_bool(value: &DynamicValue) -> (r: Result<bool, CoderError>)
    ensures
        res_view(r) == spec_tokenize_bool(value@),
{
    match value {
        DynamicValue::Boolean(b) => Ok(*b),
        _ => Err(CoderError::TypeMismatch { path: empty_path() }),
    }
}

pub fn tokenize_bytes(value: &DynamicValue) -> (r: Result<Vec<u8>, CoderError>)
    ensures
        res_view(r) == spec_tokenize_bytes(value@),
{
    match value {
        DynamicValue::Str(s) => match decode_hex_value(s) {
            Some(bs) => Ok(bs),
            None => Err(CoderError::MalformedHex { path: empty_path() }),
        },
        _ => Err(CoderError::TypeMismatch { path: empty_path() }),
    }
}

pub fn tokenize_fixed_bytes(value: &DynamicValue, len: usize) -> (r: Result<Vec<u8>, CoderError>)
    ensures
        res_view(r) == spec_tokenize_fixed_bytes(value@, len as nat),
{
    match value {
        DynamicValue::Str(s) => match decode_hex_value(s) {
            Some(bs) => if bs.len() == len {
                Ok(bs)
            } else {
                let got = bs.len();
                Err(CoderError::FixedLengthMismatch { path: empty_path(), expected: len, got })
            },
            None => Err(CoderError::MalformedHex { path: empty_path() }),
        },
        _ => Err(CoderError::TypeMismatch { path: empty_path() }),
    }
}

pub fn tokenize_uint(value: &DynamicValue) -> (r: Result<U256, CoderError>)
    ensures
        r matches Ok(x) ==> spec_tokenize_uint(value@) == Ok::<nat, ErrV>(x.val()),
        r matches Err(e) ==> spec_tokenize_uint(value@) == Err::<nat, ErrV>(e@),
{
    match value {
        DynamicValue::Str(s) => {
            let v = chars_of(s.as_str());
            let hex = v.len() >= 2 && (v[0] == '0' && (v[1] == 'x' || v[1] == 'X'));
            if hex {
                match parse_hex_digits(&v, 2) {
                    Some(x) => Ok(x),
                    None => Err(CoderError::TypeMismatch { path: empty_path() }),
                }
            } else {
                match parse_dec_digits(&v, 0) {
                    Some(x) => {
                        proof {
                            assert(v@.skip(0) =~= v@);
                        }
                        Ok(x)
                    },
                    None => {
                        proof {
                            assert(v@.skip(0) =~= v@);
                        }
                        Err(CoderError::TypeMismatch { path: empty_path() })
                    },
                }
            }
        },
        DynamicValue::Number(n) => if *n >= 0 {
            Ok(U256::from_u64(*n as u64))
        } else {
            Err(CoderError::TypeMismatch { path: empty_path() })
        },
        _ => Err(CoderError::TypeMismatch { path: empty_path() }),
    }
}

pub fn tokenize_int(value: &DynamicValue) -> (r: Result<U256, CoderError>)
    ensures
        r matches Ok(x) ==> spec_tokenize_int(value@) == Ok::<nat, ErrV>(x.val()),
        r matches Err(e) ==> spec_tokenize_int(value@) == Err::<nat, ErrV>(e@),
{
    match value {
        DynamicValue::Str(s) => {
            let v = chars_of(s.as_str());
            if v.len() >= 1 && v[0] == '-' {
                match parse_dec_digits(&v, 1) {
                    Some(m) => if m.le_two_pow_255() {
                        Ok(m.negated())
                    } else {
                        Err(CoderError::TypeMismatch { path: empty_path() })
                    },
                    None => Err(CoderError::TypeMismatch { path: empty_path() }),
                }
            } else if v.len() >= 2 && (v[0] == '0' && (v[1] == 'x' || v[1] == 'X')) {
                match parse_hex_digits(&v, 2) {
                    Some(x) => Ok(x),
                    None => Err(CoderError::TypeMismatch { path: empty_path() }),
                }
            } else {
                match parse_dec_digits(&v, 0) {
                    Some(x) => {
                        proof {
                            assert(v@.skip(0) =~= v@);
                        }
                        if !x.is_high_bit_set() {
                            Ok(x)
                        } else {
                            Err(CoderError::TypeMismatch { path: empty_path() })
                        }
                    },
                    None => {
                        proof {
                            assert(v@.skip(0) =~= v@);
                        }
                        Err(CoderError::TypeMismatch { path: empty_path() })
                    },
                }
            }
        },
        DynamicValue::Number(n) => if *n >= 0 {
            Ok(U256::from_u64(*n as u64))
        } else {
            let m: u64 = (-(*n as i128)) as u64;
            Ok(U256::from_u64(m).negated())
        },
        _ => Err(CoderError::TypeMismatch { path: empty_path() }),
    }
}

/// Tokenizes one host value against one schema node.
pub fn tokenize(param: &ParamType, value: &DynamicValue) -> (r: Result<Token, CoderError>)
    ensures
        res_view(r) == spec_tokenize(param@, value@),
    decreases value@, 1int,
{
    match param {
        ParamType::Address => match tokenize_address(value) {
            Ok(bs) => Ok(Token::Address(bs)),
            Err(e) => Err(e),
        },
        ParamType::Bool => match tokenize_bool(value) {
            Ok(b) => Ok(Token::Bool(b)),
            Err(e) => Err(e),
        },
        ParamType::Str => match tokenize_string(value) {
            Ok(s) => Ok(Token::Str(s)),
            Err(e) => Err(e),
        },
        ParamType::Bytes => match tokenize_bytes(value) {
            Ok(bs) => Ok(Token::Bytes(bs)),
            Err(e) => Err(e),
        },
        ParamType::FixedBytes(n) => match tokenize_fixed_bytes(value, *n) {
            Ok(bs) => Ok(Token::FixedBytes(bs)),
            Err(e) => Err(e),
        },
        ParamType::Uint(_) => match tokenize_uint(value) {
            Ok(x) => Ok(Token::Uint(x)),
            Err(e) => Err(e),
        },
        ParamType::Int(_) => match tokenize_int(value) {
            Ok(x) => Ok(Token::Int(x)),
            Err(e) => Err(e),
        },
        ParamType::Array(e) => match value {
            DynamicValue::Sequence(vs) => {
                proof {
                    assert(decreases_to!(value@ => value@->Sequence_0));
                }
                match tokenize_elems(e, vs, 0) {
                    Ok(ts) => Ok(Token::Array(ts)),
                    Err(er) => Err(er),
                }
            },
            _ => Err(CoderError::TypeMismatch { path: empty_path() }),
        },
        ParamType::FixedArray(e, n) => match value {
            DynamicValue::Sequence(vs) => if vs.len() == *n {
                proof {
                    assert(decreases_to!(value@ => value@->Sequence_0));
                    lemma_dyns_view(vs@);
                }
                match tokenize_elems(e, vs, 0) {
                    Ok(ts) => Ok(Token::FixedArray(ts)),
                    Err(er) => Err(er),
                }
            } else {
                let got = vs.len();
                proof {
                    lemma_dyns_view(vs@);
                }
                Err(CoderError::FixedLengthMismatch { path: empty_path(), expected: *n, got })
            },
            _ => Err(CoderError::TypeMismatch { path: empty_path() }),
        },
        ParamType::Tuple(ps) => match value {
            DynamicValue::Sequence(vs) => if vs.len() == ps.len() {
                proof {
                    assert(decreases_to!(value@ => value@->Sequence_0));
                    lemma_param_types_view(ps@);
                    lemma_dyns_view(vs@);
                }
                match tokenize_tuple(ps, vs, 0) {
                    Ok(ts) => Ok(Token::Tuple(ts)),
                    Err(er) => Err(er),
                }
            } else {
                let expected = ps.len();
                let got = vs.len();
                proof {
                    lemma_param_types_view(ps@);
                    lemma_dyns_view(vs@);
                }
                Err(CoderError::TupleArityMismatch { path: empty_path(), expected, got })
            },
            _ => Err(CoderError::TypeMismatch { path: empty_path() }),
        },
    }
}

/// Tokenizes the elements of `vs` from position `i` on against the
/// element type `e`.
pub fn tokenize_elems(e: &ParamType, vs: &Vec<DynamicValue>, i: usize) -> (r: Result<
    Vec<Token>,
    CoderError,
>)
    requires
        i <= vs@.len(),
    ensures
        toks_res_view(r) == spec_tokenize_elems(e@, dyns_view(vs@), i as int),
    decreases dyns_view(vs@), 0int, vs@.len() - i,
{
    proof {
        lemma_dyns_view(vs@);
    }
    if i == vs.len() {
        let r: Vec<Token> = Vec::new();
        proof {
            assert(tokens_view(r@) =~= Seq::<TokenV>::empty());
        }
        return Ok(r);
    }
    proof {
        assert(decreases_to!(dyns_view(vs@) => dyns_view(vs@)[i as int]));
    }
    match tokenize(e, &vs[i]) {
        Err(er) => Err(attach_index(er, i)),
        Ok(t) => match tokenize_elems(e, vs, i + 1) {
            Ok(mut rest) => {
                let ghost old_rest = rest@;
                rest.insert(0, t);
                proof {
                    lemma_tokens_view(rest@);
                    lemma_tokens_view(old_rest);
                    assert forall|k: int|
                        0 <= k < rest@.len() implies tokens_view(rest@)[k] == seq![
                        token_view(t),
                    ].add(tokens_view(old_rest))[k] by {
                        if k > 0 {
                            assert(rest@[k] == old_rest[k - 1]);
                        }
                    }
                    assert(tokens_view(rest@) =~= seq![token_view(t)].add(tokens_view(old_rest)));
                }
                Ok(rest)
            },
            Err(er) => Err(er),
        },
    }
}

/// Tokenizes the elements of `vs` from position `i` on, each against
/// its positional parameter type.
pub fn tokenize_tuple(ps: &Vec<ParamType>, vs: &Vec<DynamicValue>, i: usize) -> (r: Result<
    Vec<Token>,
    CoderError,
>)
    requires
        i <= vs@.len(),
        vs@.len() == ps@.len(),
    ensures
        toks_res_view(r) == spec_tokenize_tuple(param_types_view(ps@), dyns_view(vs@), i as int),
    decreases dyns_view(vs@), 0int, vs@.len() - i,
{
    proof {
        lemma_dyns_view(vs@);
        lemma_param_types_view(ps@);
    }
    if i == vs.len() {
        let r: Vec<Token> = Vec::new();
        proof {
            assert(tokens_view(r@) =~= Seq::<TokenV>::empty());
        }
        return Ok(r);
    }
    proof {
        assert(decreases_to!(dyns_view(vs@) => dyns_view(vs@)[i as int]));
    }
    match tokenize(&ps[i], &vs[i]) {
        Err(er) => Err(attach_index(er, i)),
        Ok(t) => match tokenize_tuple(ps, vs, i + 1) {
            Ok(mut rest) => {
                let ghost old_rest = rest@;
                rest.insert(0, t);
                proof {
                    lemma_tokens_view(rest@);
                    lemma_tokens_view(old_rest);
                    assert forall|k: int|
                        0 <= k < rest@.len() implies tokens_view(rest@)[k] == seq![
                        token_view(t),
                    ].add(tokens_view(old_rest))[k] by {
                        if k > 0 {
                            assert(rest@[k] == old_rest[k - 1]);
                        }
                    }
                    assert(tokens_view(rest@) =~= seq![token_view(t)].add(tokens_view(old_rest)));
                }
                Ok(rest)
            },
            Err(er) => Err(er),
        },
    }
}

} // verus!
