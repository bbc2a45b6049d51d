//! The laws relating the tokenizer and the detokenizer.

use vstd::prelude::*;
use crate::u256::{two_pow_255, two_pow_256};
use crate::text::{
    dec_str_of, dec_val, is_dec_digit, lemma_dec_round_trip, lemma_hex_round_trip, spec_hex_encode,
};
use crate::types::{DynV, ErrV, ParamTypeV, TokenV, token_matches_type};
use crate::tokenize::{
    has_hex_prefix, spec_tokenize, spec_tokenize_elems, spec_tokenize_int, spec_tokenize_tuple,
    spec_tokenize_uint, twos_comp,
};
use crate::detokenize::{lemma_detokenize_elems, spec_detokenize, spec_detokenize_elems};

verus! {

/// A token the tokenizer yields always has exactly the shape of the
/// schema node it was produced against: addresses carry twenty bytes,
/// fixed-size types their declared length, tuples their declared arity,
/// and integer tokens fit in 256 bits.
pub proof fn lemma_tokenize_shape(p: ParamTypeV, v: DynV)
    ensures
        spec_tokenize(p, v) matches Ok(t) ==> token_matches_type(t, p),
    decreases v, 1int,
{
    match p {
        ParamTypeV::Array(e) => match v {
            DynV::Sequence(vs) => {
                assert(decreases_to!(v => vs));
                lemma_tokenize_shape_elems(*e, vs, 0);
            },
            _ => {},
        },
        ParamTypeV::FixedArray(e, n) => match v {
            DynV::Sequence(vs) => {
                assert(decreases_to!(v => vs));
                lemma_tokenize_shape_elems(*e, vs, 0);
            },
            _ => {},
        },
        ParamTypeV::Tuple(ps) => match v {
            DynV::Sequence(vs) => {
                if vs.len() == ps.len() {
                    assert(decreases_to!(v => vs));
                    lemma_tokenize_shape_tuple(ps, vs, 0);
                }
            },
            _ => {},
        },
        _ => {},
    }
}

pub proof fn lemma_tokenize_shape_elems(e: ParamTypeV, vs: Seq<DynV>, i: int)
    requires
        0 <= i <= vs.len(),
    ensures
        spec_tokenize_elems(e, vs, i) matches Ok(ts) ==> {
            &&& ts.len() == vs.len() - i
            &&& forall|k: int| 0 <= k < ts.len() ==> token_matches_type(#[trigger] ts[k], e)
        },
    decreases vs, 0int, vs.len() - i,
{
    if i < vs.len() {
        assert(decreases_to!(vs => vs[i]));
        lemma_tokenize_shape(e, vs[i]);
        lemma_tokenize_shape_elems(e, vs, i + 1);
        match spec_tokenize_elems(e, vs, i) {
            Ok(ts) => {
                let rest = spec_tokenize_elems(e, vs, i + 1)->Ok_0;
                assert(forall|k: int|
                    0 <= k < rest.len() ==> token_matches_type(#[trigger] rest[k], e));
                assert forall|k: int| 0 <= k < ts.len() implies token_matches_type(
                    #[trigger] ts[k],
                    e,
                ) by {
                    if k > 0 {
                        assert(ts[k] == rest[k - 1]);
                    }
                }
            },
            _ => {},
        }
    }
}

pub proof fn lemma_tokenize_shape_tuple(ps: Seq<ParamTypeV>, vs: Seq<DynV>, i: int)
    requires
        0 <= i <= vs.len(),
        vs.len() == ps.len(),
    ensures
        spec_tokenize_tuple(ps, vs, i) matches Ok(ts) ==> {
            &&& ts.len() == vs.len() - i
            &&& forall|k: int| 0 <= k < ts.len() ==> token_matches_type(#[trigger] ts[k], ps[i + k])
        },
    decreases vs, 0int, vs.len() - i,
{
    if i < vs.len() {
        assert(decreases_to!(vs => vs[i]));
        lemma_tokenize_shape(ps[i], vs[i]);
        lemma_tokenize_shape_tuple(ps, vs, i + 1);
        match spec_tokenize_tuple(ps, vs, i) {
            Ok(ts) => {
                let rest = spec_tokenize_tuple(ps, vs, i + 1)->Ok_0;
                assert(forall|k: int|
                    0 <= k < rest.len() ==> token_matches_type(#[trigger] rest[k], ps[i + 1 + k]));
                assert forall|k: int| 0 <= k < ts.len() implies token_matches_type(
                    #[trigger] ts[k],
                    ps[i + k],
                ) by {
                    if k > 0 {
                        assert(ts[k] == rest[k - 1]);
                        assert(token_matches_type(rest[k - 1], ps[i + 1 + (k - 1)]));
                    }
                }
            },
            _ => {},
        }
    }
}

/// Round trip: tokenizing the detokenized form of a well-shaped token
/// yields the token back.  Hence detokenizing after tokenizing is the
/// canonical form of an argument — hex lowercased behind a "0x" prefix,
/// integers as decimal strings — and canonicalizing is idempotent.
pub proof fn lemma_detokenize_tokenize(p: ParamTypeV, t: TokenV)
    requires
        token_matches_type(t, p),
    ensures
        spec_tokenize(p, spec_detokenize(t)) == Ok::<TokenV, ErrV>(t),
    decreases t, 1int,
{
    match p {
        ParamTypeV::Address => {
            let b = t->Address_0;
            lemma_hex_round_trip(b);
            let s = seq!['0', 'x'].add(spec_hex_encode(b));
            assert(s[0] == '0' && s[1] == 'x');
            assert(s.skip(2) =~= spec_hex_encode(b));
        },
        ParamTypeV::Bool => {},
        ParamTypeV::Str => {},
        ParamTypeV::Bytes => {
            let b = t->Bytes_0;
            lemma_hex_round_trip(b);
            let s = seq!['0', 'x'].add(spec_hex_encode(b));
            assert(s[0] == '0' && s[1] == 'x');
            assert(s.skip(2) =~= spec_hex_encode(b));
        },
        ParamTypeV::FixedBytes(n) => {
            let b = t->FixedBytes_0;
            lemma_hex_round_trip(b);
            let s = seq!['0', 'x'].add(spec_hex_encode(b));
            assert(s[0] == '0' && s[1] == 'x');
            assert(s.skip(2) =~= spec_hex_encode(b));
        },
        ParamTypeV::Uint(_) => {
            let n = t->Uint_0;
            lemma_dec_round_trip(n);
            let s = dec_str_of(n);
            assert(is_dec_digit(s[0]));
            if s.len() >= 2 {
                assert(is_dec_digit(s[1]));
            }
            assert(!has_hex_prefix(s));
        },
        ParamTypeV::Int(_) => {
            let n = t->Int_0;
            if n >= two_pow_255() {
                let m = (two_pow_256() - n) as nat;
                lemma_dec_round_trip(m);
                let s = seq!['-'].add(dec_str_of(m));
                assert(s[0] == '-');
                assert(s.skip(1) =~= dec_str_of(m));
                assert(twos_comp(dec_val(dec_str_of(m))) == n);
            } else {
                lemma_dec_round_trip(n);
                let s = dec_str_of(n);
                assert(is_dec_digit(s[0]));
                if s.len() >= 2 {
                    assert(is_dec_digit(s[1]));
                }
                assert(s[0] != '-');
                assert(!has_hex_prefix(s));
            }
        },
        ParamTypeV::Array(e) => {
            let ts = t->Array_0;
            assert(decreases_to!(t => ts));
            lemma_rt_elems(*e, ts, 0);
            assert(ts.skip(0) =~= ts);
        },
        ParamTypeV::FixedArray(e, n) => {
            let ts = t->FixedArray_0;
            assert(decreases_to!(t => ts));
            lemma_detokenize_elems(ts, 0);
            lemma_rt_elems(*e, ts, 0);
            assert(ts.skip(0) =~= ts);
        },
        ParamTypeV::Tuple(ps) => {
            let ts = t->Tuple_0;
            assert(decreases_to!(t => ts));
            lemma_detokenize_elems(ts, 0);
            lemma_rt_tuple(ps, ts, 0);
            assert(ts.skip(0) =~= ts);
        },
    }
}

proof fn lemma_rt_elems(e: ParamTypeV, ts: Seq<TokenV>, i: int)
    requires
        0 <= i <= ts.len(),
        forall|k: int| 0 <= k < ts.len() ==> token_matches_type(#[trigger] ts[k], e),
    ensures
        spec_tokenize_elems(e, spec_detokenize_elems(ts, 0), i) == Ok::<Seq<TokenV>, ErrV>(
            ts.skip(i),
        ),
    decreases ts, 0int, ts.len() - i,
{
    lemma_detokenize_elems(ts, 0);
    let ds = spec_detokenize_elems(ts, 0);
    if i == ts.len() {
        assert(ts.skip(i) =~= Seq::<TokenV>::empty());
    } else {
        assert(decreases_to!(ts => ts[i]));
        assert(ds[i] == spec_detokenize(ts[i]));
        lemma_detokenize_tokenize(e, ts[i]);
        lemma_rt_elems(e, ts, i + 1);
        assert(seq![ts[i]].add(ts.skip(i + 1)) =~= ts.skip(i));
    }
}

proof fn lemma_rt_tuple(ps: Seq<ParamTypeV>, ts: Seq<TokenV>, i: int)
    requires
        0 <= i <= ts.len(),
        ts.len() == ps.len(),
        forall|k: int| 0 <= k < ts.len() ==> token_matches_type(#[trigger] ts[k], ps[k]),
    ensures
        spec_tokenize_tuple(ps, spec_detokenize_elems(ts, 0), i) == Ok::<Seq<TokenV>, ErrV>(
            ts.skip(i),
        ),
    decreases ts, 0int, ts.len() - i,
{
    lemma_detokenize_elems(ts, 0);
    let ds = spec_detokenize_elems(ts, 0);
    if i == ts.len() {
        assert(ts.skip(i) =~= Seq::<TokenV>::empty());
    } else {
        assert(decreases_to!(ts => ts[i]));
        assert(ds[i] == spec_detokenize(ts[i]));
        lemma_detokenize_tokenize(ps[i], ts[i]);
        lemma_rt_tuple(ps, ts, i + 1);
        assert(seq![ts[i]].add(ts.skip(i + 1)) =~= ts.skip(i));
    }
}

/// A number handed to an unsigned integer type reads exactly as its
/// decimal numeral would: passing `n` and passing the string of `n`
/// yield the same token.
pub proof fn lemma_uint_number_as_decimal_string(n: int)
    requires
        0 <= n < two_pow_256(),
    ensures
        spec_tokenize_uint(DynV::Number(n)) == spec_tokenize_uint(DynV::Str(dec_str_of(n as nat))),
{
    lemma_dec_round_trip(n as nat);
    let s = dec_str_of(n as nat);
    assert(is_dec_digit(s[0]));
    if s.len() >= 2 {
        assert(is_dec_digit(s[1]));
    }
    assert(!has_hex_prefix(s));
}

/// A number handed to a signed integer type reads exactly as its
/// decimal numeral would, sign included.
pub proof fn lemma_int_number_as_decimal_string(n: int)
    requires
        -(two_pow_255() as int) <= n < two_pow_255() as int,
    ensures
        spec_tokenize_int(DynV::Number(n)) == spec_tokenize_int(
            DynV::Str(
                if n >= 0 {
                    dec_str_of(n as nat)
                } else {
                    seq!['-'].add(dec_str_of((-n) as nat))
                },
            ),
        ),
{
    if n >= 0 {
        lemma_dec_round_trip(n as nat);
        let s = dec_str_of(n as nat);
        assert(is_dec_digit(s[0]));
        if s.len() >= 2 {
            assert(is_dec_digit(s[1]));
        }
        assert(s[0] != '-');
        assert(!has_hex_prefix(s));
    } else {
        let m = (-n) as nat;
        lemma_dec_round_trip(m);
        let s = seq!['-'].add(dec_str_of(m));
        assert(s[0] == '-');
        assert(s.skip(1) =~= dec_str_of(m));
        assert(twos_comp(dec_val(dec_str_of(m))) == (two_pow_256() + n) as nat);
    }
}

/// Canonicalization: when an argument tokenizes at all, the token's
/// detokenized form tokenizes back to the very same token.  Rendering a
/// tokenized argument and tokenizing it again is therefore lossless,
/// and rendering is idempotent on canonical forms.
pub proof fn lemma_canonical_round_trip(p: ParamTypeV, v: DynV)
    ensures
        spec_tokenize(p, v) matches Ok(t) ==> spec_tokenize(p, spec_detokenize(t)) == Ok::<
            TokenV,
            ErrV,
        >(t),
{
    lemma_tokenize_shape(p, v);
    match spec_tokenize(p, v) {
        Ok(t) => lemma_detokenize_tokenize(p, t),
        _ => {},
    }
}

} // verus!
