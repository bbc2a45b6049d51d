//! The trusted interface to the `ethabi` crate, which supplies the
//! binary packing, the selector derivation and the JSON interface
//! parsing that this library does not reproduce.
//!
//! Everything in this module is taken on trust: Verus believes the
//! contracts of the `#[verifier::external_body]` functions without
//! reading their bodies.  Each body only makes its one `ethabi` call
//! and converts values between this crate's types and `ethabi`'s.

use vstd::prelude::*;
use ethabi::ParamType as EthParamType;
use ethabi::Token as EthToken;
use ethabi::ethereum_types::U256 as EthU256;
use crate::u256::U256;
use crate::types::{
    FunctionSig, ParamType, ParamTypeV, SigV, Token, TokenV, param_types_view, sigs_view,
    tokens_match, tokens_view,
};

verus! {

#[verifier::external_type_specification]
#[verifier::external_body]
pub struct ExEthabiError(ethabi::Error);

#[verifier::external_type_specification]
#[verifier::external_body]
pub struct ExEthabiParamType(EthParamType);

#[verifier::external_type_specification]
#[verifier::external_body]
pub struct ExEthabiToken(EthToken);

#[verifier::external_type_specification]
#[verifier::external_body]
pub struct ExEthU256(EthU256);

/// The function signatures that `ethabi::Contract::load` reads out of
/// an interface definition, in the order `Contract::functions` walks
/// them, or `None` where the loader rejects the text: a pure function
/// of the JSON text.
pub uninterp spec fn parsed_interface(json: Seq<char>) -> Option<Seq<SigV>>;

/// The four-byte selector `ethabi::short_signature` derives from a
/// function's name and input types: the head of its Keccak-256 digest,
/// a pure function of both.
pub uninterp spec fn abi_selector_of(name: Seq<char>, inputs: Seq<ParamTypeV>) -> Seq<u8>;

/// The bytes `ethabi::encode` packs some tokens into: a pure function
/// of the tokens.
pub uninterp spec fn abi_encoding_of(tokens: Seq<TokenV>) -> Seq<u8>;

/// What `ethabi::decode` reads out of some bytes against a parameter
/// list, `None` where it rejects them: a pure function of both.
pub uninterp spec fn abi_decoded(params: Seq<ParamTypeV>, data: Seq<u8>) -> Option<Seq<TokenV>>;

/// Converts a schema node to `ethabi`'s form, variant by variant.
#[verifier::external_body]
fn param_to_eth(p: &ParamType) -> EthParamType {
    match p {
        ParamType::Address => EthParamType::Address,
        ParamType::Bool => EthParamType::Bool,
        ParamType::Str => EthParamType::String,
        ParamType::Bytes => EthParamType::Bytes,
        ParamType::FixedBytes(n) => EthParamType::FixedBytes(*n),
        ParamType::Uint(n) => EthParamType::Uint(*n),
        ParamType::Int(n) => EthParamType::Int(*n),
        ParamType::Array(e) => EthParamType::Array(Box::new(param_to_eth(e))),
        ParamType::FixedArray(e, n) => EthParamType::FixedArray(Box::new(param_to_eth(e)), *n),
        ParamType::Tuple(ts) => EthParamType::Tuple(ts.iter().map(param_to_eth).collect()),
    }
}

/// Converts a schema node from `ethabi`'s form, variant by variant.
#[verifier::external_body]
fn param_from_eth(p: &EthParamType) -> ParamType {
    match p {
        EthParamType::Address => ParamType::Address,
        EthParamType::Bool => ParamType::Bool,
        EthParamType::String => ParamType::Str,
        EthParamType::Bytes => ParamType::Bytes,
        EthParamType::FixedBytes(n) => ParamType::FixedBytes(*n),
        EthParamType::Uint(n) => ParamType::Uint(*n),
        EthParamType::Int(n) => ParamType::Int(*n),
        EthParamType::Array(e) => ParamType::Array(Box::new(param_from_eth(e))),
        EthParamType::FixedArray(e, n) => ParamType::FixedArray(Box::new(param_from_eth(e)), *n),
        EthParamType::Tuple(ts) => ParamType::Tuple(ts.iter().map(param_from_eth).collect()),
    }
}

/// Converts a 256-bit value to `ethabi`'s form, limb for limb.
#[verifier::external_body]
fn u256_to_eth(x: &U256) -> EthU256 {
    EthU256([x.w0, x.w1, x.w2, x.w3])
}

/// Converts a 256-bit value from `ethabi`'s form, limb for limb.
#[verifier::external_body]
fn u256_from_eth(x: &EthU256) -> U256 {
    U256 { w0: x.0[0], w1: x.0[1], w2: x.0[2], w3: x.0[3] }
}

/// Converts a scalar token to `ethabi`'s form, variant by variant; an
/// address must carry twenty bytes, which every well-shaped token does.
#[verifier::external_body]
fn token_to_eth(t: &Token) -> EthToken {
    match t {
        Token::Address(b) => EthToken::Address(ethabi::Address::from_slice(b.as_slice())),
        Token::Bool(b) => EthToken::Bool(*b),
        Token::Str(s) => EthToken::String(s.clone()),
        Token::Bytes(b) => EthToken::Bytes(b.clone()),
        Token::FixedBytes(b) => EthToken::FixedBytes(b.clone()),
        other => token_to_eth_rest(other),
    }
}

/// Converts the numeric and compound token variants to `ethabi`'s
/// form; the scalar variants go back to their own converter.
#[verifier::external_body]
fn token_to_eth_rest(t: &Token) -> EthToken {
    match t {
        Token::Uint(x) => EthToken::Uint(u256_to_eth(x)),
        Token::Int(x) => EthToken::Int(u256_to_eth(x)),
        Token::Array(ts) => EthToken::Array(ts.iter().map(token_to_eth).collect()),
        Token::FixedArray(ts) => EthToken::FixedArray(ts.iter().map(token_to_eth).collect()),
        Token::Tuple(ts) => EthToken::Tuple(ts.iter().map(token_to_eth).collect()),
        other => token_to_eth(other),
    }
}

/// Converts a scalar token from `ethabi`'s form, variant by variant.
#[verifier::external_body]
fn token_from_eth(t: &EthToken) -> Token {
    match t {
        EthToken::Address(a) => Token::Address(a.as_bytes().to_vec()),
        EthToken::Bool(b) => Token::Bool(*b),
        EthToken::String(s) => Token::Str(s.clone()),
        EthToken::Bytes(b) => Token::Bytes(b.clone()),
        EthToken::FixedBytes(b) => Token::FixedBytes(b.clone()),
        other => token_from_eth_rest(other),
    }
}

/// Converts the numeric and compound token variants from `ethabi`'s
/// form; the scalar variants go back to their own converter.
#[verifier::external_body]
fn token_from_eth_rest(t: &EthToken) -> Token {
    match t {
        EthToken::Uint(x) => Token::Uint(u256_from_eth(x)),
        EthToken::Int(x) => Token::Int(u256_from_eth(x)),
        EthToken::Array(ts) => Token::Array(ts.iter().map(token_from_eth).collect()),
        EthToken::FixedArray(ts) => Token::FixedArray(ts.iter().map(token_from_eth).collect()),
        EthToken::Tuple(ts) => Token::Tuple(ts.iter().map(token_from_eth).collect()),
        other => token_from_eth(other),
    }
}

/// Relies on `ethabi::Contract::load`: parses a JSON interface
/// definition, succeeding exactly on the texts it accepts; the
/// functions read out of an accepted text are a fixed function of the
/// text alone.
#[verifier::external_body]
pub(crate) fn load_interface(json: &str) -> (r: Result<Vec<FunctionSig>, ethabi::Error>)
    ensures
        r is Ok <==> parsed_interface(json@) is Some,
        r matches Ok(v) ==> Some(sigs_view(v@)) == parsed_interface(json@),
{
    let c = ethabi::Contract::load(json.as_bytes())?;
    let mut out: Vec<FunctionSig> = Vec::new();
    for f in c.functions() {
        out.push(FunctionSig {
            name: f.name.clone(),
            inputs: f.inputs.iter().map(|p| param_from_eth(&p.kind)).collect(),
            outputs: f.outputs.iter().map(|p| param_from_eth(&p.kind)).collect(),
        });
    }
    Ok(out)
}

/// Relies on `ethabi::short_signature`: the four-byte selector of a
/// function, from its name and input types alone.
#[verifier::external_body]
pub(crate) fn eth_selector(name: &str, params: &Vec<ParamType>) -> (r: Vec<u8>)
    ensures
        r@ == abi_selector_of(name@, param_types_view(params@)),
        r@.len() == 4,
{
    let ps: Vec<EthParamType> = params.iter().map(param_to_eth).collect();
    ethabi::short_signature(name, &ps).to_vec()
}

/// Relies on `ethabi::encode`: packs tokens into their binary layout,
/// a total function of the tokens.  The shape hypothesis keeps every
/// address at twenty bytes, which the conversion to `ethabi`'s
/// fixed-size address type needs.
#[verifier::external_body]
pub(crate) fn eth_encode(tokens: &[Token]) -> (r: Vec<u8>)
    requires
        exists|ps: Seq<ParamTypeV>| tokens_match(tokens_view(tokens@), ps),
    ensures
        r@ == abi_encoding_of(tokens_view(tokens@)),
{
    let ts: Vec<EthToken> = tokens.iter().map(token_to_eth).collect();
    ethabi::encode(&ts)
}

/// Relies on `ethabi::decode`: reads tokens back out of bytes against
/// a parameter list, rejecting exactly the byte strings on which the
/// decoded form is undefined.  Its decoder yields one token per
/// parameter, of that parameter's shape: the declared byte length,
/// element count and tuple arity.
#[verifier::external_body]
pub(crate) fn eth_decode(params: &Vec<ParamType>, data: &Vec<u8>) -> (r: Result<
    Vec<Token>,
    ethabi::Error,
>)
    ensures
        r is Ok <==> abi_decoded(param_types_view(params@), data@) is Some,
        r matches Ok(ts) ==> Some(tokens_view(ts@)) == abi_decoded(param_types_view(params@), data@),
        r matches Ok(ts) ==> tokens_match(tokens_view(ts@), param_types_view(params@)),
{
    let ps: Vec<EthParamType> = params.iter().map(param_to_eth).collect();
    match ethabi::decode(&ps, data.as_slice()) {
        Ok(ts) => Ok(ts.iter().map(token_from_eth).collect()),
        Err(e) => Err(e),
    }
}

/// Relies on `ethabi::Error`'s `Display` impl for a printable message.
#[verifier::external_body]
pub(crate) fn eth_error_string(e: &ethabi::Error) -> String {
    format!("{}", e)
}

} // verus!
