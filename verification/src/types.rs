//! The schema, token and host-value types the coder works on, their
//! mathematical views, and the error taxonomy.

use vstd::prelude::*;
use crate::u256::U256;

verus! {

// ---------------------------------------------------------------------
// Schema nodes
// ---------------------------------------------------------------------

/// A parameter type of a contract interface: a node of the recursive
/// schema a value is tokenized against.
#[derive(Debug, PartialEq, Eq)]
pub enum ParamType {
    Address,
    Bool,
    Str,
    Bytes,
    FixedBytes(usize),
    Uint(usize),
    Int(usize),
    Array(Box<ParamType>),
    FixedArray(Box<ParamType>, usize),
    Tuple(Vec<ParamType>),
}

/// The mathematical form of a [`ParamType`].
pub enum ParamTypeV {
    Address,
    Bool,
    Str,
    Bytes,
    FixedBytes(nat),
    Uint(nat),
    Int(nat),
    Array(Box<ParamTypeV>),
    FixedArray(Box<ParamTypeV>, nat),
    Tuple(Seq<ParamTypeV>),
}

pub open spec fn param_type_view(p: ParamType) -> ParamTypeV
    decreases p,
{
    match p {
        ParamType::Address => ParamTypeV::Address,
        ParamType::Bool => ParamTypeV::Bool,
        ParamType::Str => ParamTypeV::Str,
        ParamType::Bytes => ParamTypeV::Bytes,
        ParamType::FixedBytes(n) => ParamTypeV::FixedBytes(n as nat),
        ParamType::Uint(n) => ParamTypeV::Uint(n as nat),
        ParamType::Int(n) => ParamTypeV::Int(n as nat),
        ParamType::Array(e) => ParamTypeV::Array(Box::new(param_type_view(*e))),
        ParamType::FixedArray(e, n) => ParamTypeV::FixedArray(
            Box::new(param_type_view(*e)),
            n as nat,
        ),
        ParamType::Tuple(ts) => {
            proof {
                assert(decreases_to!(p => ts));
                assert(decreases_to!(ts => ts@));
            }
            ParamTypeV::Tuple(param_types_view(ts@))
        },
    }
}

/// The views of a sequence of parameter types.
pub open spec fn param_types_view(ts: Seq<ParamType>) -> Seq<ParamTypeV>
    decreases ts,
{
    if ts.len() == 0 {
        Seq::empty()
    } else {
        proof {
            assert(decreases_to!(ts => ts[0]));
            assert(decreases_to!(ts => ts.subrange(1, ts.len() as int)));
        }
        seq![param_type_view(ts[0])].add(param_types_view(ts.subrange(1, ts.len() as int)))
    }
}

/// The element views of a sequence of parameter types, pointwise.
pub proof fn lemma_param_types_view(ts: Seq<ParamType>)
    ensures
        param_types_view(ts).len() == ts.len(),
        forall|i: int|
            0 <= i < ts.len() ==> #[trigger] param_types_view(ts)[i] == param_type_view(ts[i]),
    decreases ts.len(),
{
    if ts.len() > 0 {
        lemma_param_types_view(ts.subrange(1, ts.len() as int));
        assert forall|i: int|
            0 <= i < ts.len() implies #[trigger] param_types_view(ts)[i] == param_type_view(
            ts[i],
        ) by {
            if i > 0 {
                assert(ts.subrange(1, ts.len() as int)[i - 1] == ts[i]);
            }
        }
    }
}

impl View for ParamType {
    type V = ParamTypeV;

    open spec fn view(&self) -> ParamTypeV {
        param_type_view(*self)
    }
}

/// A verified deep copy, since a derived `Clone` would tell the proofs
/// nothing about the copy.
#[verifier::loop_isolation(false)]
pub fn clone_param(p: &ParamType) -> (r: ParamType)
    ensures
        r@ == p@,
    decreases *p,
{
    match p {
        ParamType::Address => ParamType::Address,
        ParamType::Bool => ParamType::Bool,
        ParamType::Str => ParamType::Str,
        ParamType::Bytes => ParamType::Bytes,
        ParamType::FixedBytes(n) => ParamType::FixedBytes(*n),
        ParamType::Uint(n) => ParamType::Uint(*n),
        ParamType::Int(n) => ParamType::Int(*n),
        ParamType::Array(e) => ParamType::Array(Box::new(clone_param(e))),
        ParamType::FixedArray(e, n) => ParamType::FixedArray(Box::new(clone_param(e)), *n),
        ParamType::Tuple(ts) => {
            let mut out: Vec<ParamType> = Vec::new();
            let mut i: usize = 0;
            while i < ts.len()
                invariant
                    i <= ts@.len(),
                    out@.len() == i,
                    forall|k: int| 0 <= k < i ==> #[trigger] out@[k]@ == ts@[k]@,
                decreases ts@.len() - i,
            {
                proof {
                    assert(decreases_to!(*p => *ts));
                    assert(decreases_to!(*ts => ts[i as int]));
                }
                let c = clone_param(&ts[i]);
                out.push(c);
                i = i + 1;
            }
            proof {
                lemma_param_types_view(out@);
                lemma_param_types_view(ts@);
                assert forall|k: int|
                    0 <= k < ts@.len() implies param_types_view(out@)[k] == param_types_view(
                    ts@,
                )[k] by {
                    assert(out@[k]@ == ts@[k]@);
                }
                assert(param_types_view(out@) =~= param_types_view(ts@));
            }
            ParamType::Tuple(out)
        },
    }
}

/// A verified deep copy of a parameter list.
pub fn clone_params(ps: &Vec<ParamType>) -> (r: Vec<ParamType>)
    ensures
        param_types_view(r@) == param_types_view(ps@),
{
    let mut out: Vec<ParamType> = Vec::new();
    let mut i: usize = 0;
    while i < ps.len()
        invariant
            i <= ps@.len(),
            out@.len() == i,
            forall|k: int| 0 <= k < i ==> #[trigger] out@[k]@ == ps@[k]@,
        decreases ps@.len() - i,
    {
        let c = clone_param(&ps[i]);
        out.push(c);
        i = i + 1;
    }
    proof {
        lemma_param_types_view(out@);
        lemma_param_types_view(ps@);
        assert forall|k: int|
            0 <= k < ps@.len() implies param_types_view(out@)[k] == param_types_view(ps@)[k] by {
            assert(out@[k]@ == ps@[k]@);
        }
        assert(param_types_view(out@) =~= param_types_view(ps@));
    }
    out
}

// ---------------------------------------------------------------------
// Tokens
// ---------------------------------------------------------------------

/// A strongly typed value ready for binary encoding, mirroring the
/// shape of the `ParamType` it was produced against.
#[derive(Debug, PartialEq, Eq)]
pub enum Token {
    /// Exactly twenty bytes.
    Address(Vec<u8>),
    Bool(bool),
    Str(String),
    Bytes(Vec<u8>),
    FixedBytes(Vec<u8>),
    /// The raw 256-bit unsigned value.
    Uint(U256),
    /// The two's-complement 256-bit representation of a signed value.
    Int(U256),
    Array(Vec<Token>),
    FixedArray(Vec<Token>),
    Tuple(Vec<Token>),
}

/// The mathematical form of a [`Token`].  Integer tokens carry the raw
/// 256-bit value; a negative `Int` is its two's-complement form.
pub enum TokenV {
    Address(Seq<u8>),
    Bool(bool),
    Str(Seq<char>),
    Bytes(Seq<u8>),
    FixedBytes(Seq<u8>),
    Uint(nat),
    Int(nat),
    Array(Seq<TokenV>),
    FixedArray(Seq<TokenV>),
    Tuple(Seq<TokenV>),
}

pub open spec fn token_view(t: Token) -> TokenV
    decreases t,
{
    match t {
        Token::Address(b) => TokenV::Address(b@),
        Token::Bool(b) => TokenV::Bool(b),
        Token::Str(s) => TokenV::Str(s@),
        Token::Bytes(b) => TokenV::Bytes(b@),
        Token::FixedBytes(b) => TokenV::FixedBytes(b@),
        Token::Uint(x) => TokenV::Uint(x.val()),
        Token::Int(x) => TokenV::Int(x.val()),
        Token::Array(ts) => {
            proof {
                assert(decreases_to!(t => ts));
                assert(decreases_to!(ts => ts@));
            }
            TokenV::Array(tokens_view(ts@))
        },
        Token::FixedArray(ts) => {
            proof {
                assert(decreases_to!(t => ts));
                assert(decreases_to!(ts => ts@));
            }
            TokenV::FixedArray(tokens_view(ts@))
        },
        Token::Tuple(ts) => {
            proof {
                assert(decreases_to!(t => ts));
                assert(decreases_to!(ts => ts@));
            }
            TokenV::Tuple(tokens_view(ts@))
        },
    }
}

/// The views of a sequence of tokens.
pub open spec fn tokens_view(ts: Seq<Token>) -> Seq<TokenV>
    decreases ts,
{
    if ts.len() == 0 {
        Seq::empty()
    } else {
        proof {
            assert(decreases_to!(ts => ts[0]));
            assert(decreases_to!(ts => ts.subrange(1, ts.len() as int)));
        }
        seq![token_view(ts[0])].add(tokens_view(ts.subrange(1, ts.len() as int)))
    }
}

/// The element views of a sequence of tokens, pointwise.
pub proof fn lemma_tokens_view(ts: Seq<Token>)
    ensures
        tokens_view(ts).len() == ts.len(),
        forall|i: int| 0 <= i < ts.len() ==> #[trigger] tokens_view(ts)[i] == token_view(ts[i]),
    decreases ts.len(),
{
    if ts.len() > 0 {
        lemma_tokens_view(ts.subrange(1, ts.len() as int));
        assert forall|i: int|
            0 <= i < ts.len() implies #[trigger] tokens_view(ts)[i] == token_view(ts[i]) by {
            if i > 0 {
                assert(ts.subrange(1, ts.len() as int)[i - 1] == ts[i]);
            }
        }
    }
}

impl View for Token {
    type V = TokenV;

    open spec fn view(&self) -> TokenV {
        token_view(*self)
    }
}

// ---------------------------------------------------------------------
// Host values
// ---------------------------------------------------------------------

/// A loosely typed host value: what callers hand in to be tokenized and
/// what decoded tokens are rendered back into.  Compound values are
/// positional sequences; integers beyond `i64` must be passed as
/// strings so no precision is lost.
#[derive(Debug, PartialEq, Eq)]
pub enum DynamicValue {
    Str(String),
    Number(i64),
    Boolean(bool),
    Sequence(Vec<DynamicValue>),
}

/// The mathematical form of a [`DynamicValue`].
pub enum DynV {
    Str(Seq<char>),
    Number(int),
    Boolean(bool),
    Sequence(Seq<DynV>),
}

pub open spec fn dyn_view(v: DynamicValue) -> DynV
    decreases v,
{
    match v {
        DynamicValue::Str(s) => DynV::Str(s@),
        DynamicValue::Number(n) => DynV::Number(n as int),
        DynamicValue::Boolean(b) => DynV::Boolean(b),
        DynamicValue::Sequence(vs) => {
            proof {
                assert(decreases_to!(v => vs));
                assert(decreases_to!(vs => vs@));
            }
            DynV::Sequence(dyns_view(vs@))
        },
    }
}

/// The views of a sequence of host values.
pub open spec fn dyns_view(vs: Seq<DynamicValue>) -> Seq<DynV>
    decreases vs,
{
    if vs.len() == 0 {
        Seq::empty()
    } else {
        proof {
            assert(decreases_to!(vs => vs[0]));
            assert(decreases_to!(vs => vs.subrange(1, vs.len() as int)));
        }
        seq![dyn_view(vs[0])].add(dyns_view(vs.subrange(1, vs.len() as int)))
    }
}

/// The element views of a sequence of host values, pointwise.
pub proof fn lemma_dyns_view(vs: Seq<DynamicValue>)
    ensures
        dyns_view(vs).len() == vs.len(),
        forall|i: int| 0 <= i < vs.len() ==> #[trigger] dyns_view(vs)[i] == dyn_view(vs[i]),
    decreases vs.len(),
{
    if vs.len() > 0 {
        lemma_dyns_view(vs.subrange(1, vs.len() as int));
        assert forall|i: int|
            0 <= i < vs.len() implies #[trigger] dyns_view(vs)[i] == dyn_view(vs[i]) by {
            if i > 0 {
                assert(vs.subrange(1, vs.len() as int)[i - 1] == vs[i]);
            }
        }
    }
}

impl View for DynamicValue {
    type V = DynV;

    open spec fn view(&self) -> DynV {
        dyn_view(*self)
    }
}

// ---------------------------------------------------------------------
// Errors
// ---------------------------------------------------------------------

/// Where in the schema tree a tokenizing error arose: the indices of
/// the offending element, outermost first.
pub type Path = Vec<usize>;

/// Everything a coder operation can fail with.  Each operation returns
/// a value or exactly one of these.
#[derive(Debug, PartialEq, Eq)]
pub enum CoderError {
    /// The interface definition could not be parsed.
    SchemaParse(String),
    /// No function of the requested name exists in the interface.
    FunctionNotFound,
    /// The argument count differs from the parameter count.
    ArityMismatch { expected: usize, got: usize },
    /// A value's kind does not fit the parameter type.
    TypeMismatch { path: Path },
    /// A string is not valid hex of the expected framing.
    MalformedHex { path: Path },
    /// Decoded bytes have the wrong length for a fixed-size type.
    FixedLengthMismatch { path: Path, expected: usize, got: usize },
    /// A sequence has the wrong arity for a tuple type.
    TupleArityMismatch { path: Path, expected: usize, got: usize },
    /// The external codec rejected the tokens.
    EncodingFailure(String),
    /// The external codec rejected the bytes.
    DecodingFailure(String),
}

/// The mathematical form of a [`CoderError`].
pub enum ErrV {
    SchemaParse,
    FunctionNotFound,
    ArityMismatch { expected: nat, got: nat },
    TypeMismatch { path: Seq<nat> },
    MalformedHex { path: Seq<nat> },
    FixedLengthMismatch { path: Seq<nat>, expected: nat, got: nat },
    TupleArityMismatch { path: Seq<nat>, expected: nat, got: nat },
    EncodingFailure,
    DecodingFailure,
}

pub open spec fn path_view(p: Seq<usize>) -> Seq<nat> {
    Seq::new(p.len(), |i: int| p[i] as nat)
}

impl View for CoderError {
    type V = ErrV;

    open spec fn view(&self) -> ErrV {
        match self {
            CoderError::SchemaParse(_) => ErrV::SchemaParse,
            CoderError::FunctionNotFound => ErrV::FunctionNotFound,
            CoderError::ArityMismatch { expected, got } => ErrV::ArityMismatch {
                expected: *expected as nat,
                got: *got as nat,
            },
            CoderError::TypeMismatch { path } => ErrV::TypeMismatch { path: path_view(path@) },
            CoderError::MalformedHex { path } => ErrV::MalformedHex { path: path_view(path@) },
            CoderError::FixedLengthMismatch { path, expected, got } => ErrV::FixedLengthMismatch {
                path: path_view(path@),
                expected: *expected as nat,
                got: *got as nat,
            },
            CoderError::TupleArityMismatch { path, expected, got } => ErrV::TupleArityMismatch {
                path: path_view(path@),
                expected: *expected as nat,
                got: *got as nat,
            },
            CoderError::EncodingFailure(_) => ErrV::EncodingFailure,
            CoderError::DecodingFailure(_) => ErrV::DecodingFailure,
        }
    }
}

// ---------------------------------------------------------------------
// Shape matching
// ---------------------------------------------------------------------

/// Whether a token has exactly the shape of a parameter type: the
/// invariant every token produced by the tokenizer satisfies.
pub open spec fn token_matches_type(t: TokenV, p: ParamTypeV) -> bool
    decreases t,
{
    match p {
        ParamTypeV::Address => t matches TokenV::Address(b) && b.len() == 20,
        ParamTypeV::Bool => t is Bool,
        ParamTypeV::Str => t is Str,
        ParamTypeV::Bytes => t is Bytes,
        ParamTypeV::FixedBytes(n) => t matches TokenV::FixedBytes(b) && b.len() == n,
        ParamTypeV::Uint(_) => t matches TokenV::Uint(x) && x
            < 0x1_0000_0000_0000_0000_0000_0000_0000_0000_0000_0000_0000_0000_0000_0000_0000_0000,
        ParamTypeV::Int(_) => t matches TokenV::Int(x) && x
            < 0x1_0000_0000_0000_0000_0000_0000_0000_0000_0000_0000_0000_0000_0000_0000_0000_0000,
        ParamTypeV::Array(e) => t matches TokenV::Array(ts) && forall|i: int|
            0 <= i < ts.len() ==> token_matches_type(#[trigger] ts[i], *e),
        ParamTypeV::FixedArray(e, n) => t matches TokenV::FixedArray(ts) && ts.len() == n
            && forall|i: int| 0 <= i < ts.len() ==> token_matches_type(#[trigger] ts[i], *e),
        ParamTypeV::Tuple(ps) => t matches TokenV::Tuple(ts) && ts.len() == ps.len() && forall|
            i: int,
        | 0 <= i < ts.len() ==> token_matches_type(#[trigger] ts[i], ps[i]),
    }
}

/// Pairwise shape matching of a token vector against a parameter list.
pub open spec fn tokens_match(ts: Seq<TokenV>, ps: Seq<ParamTypeV>) -> bool {
    ts.len() == ps.len() && forall|i: int|
        0 <= i < ts.len() ==> token_matches_type(#[trigger] ts[i], ps[i])
}

/// Decides shape matching for one token.
#[verifier::loop_isolation(false)]
pub fn matches_type(t: &Token, p: &ParamType) -> (r: bool)
    ensures
        r == token_matches_type(t@, p@),
    decreases t@,
{
    match p {
        ParamType::Address => match t {
            Token::Address(b) => b.len() == 20,
            _ => false,
        },
        ParamType::Bool => match t {
            Token::Bool(_) => true,
            _ => false,
        },
        ParamType::Str => match t {
            Token::Str(_) => true,
            _ => false,
        },
        ParamType::Bytes => match t {
            Token::Bytes(_) => true,
            _ => false,
        },
        ParamType::FixedBytes(n) => match t {
            Token::FixedBytes(b) => b.len() == *n,
            _ => false,
        },
        ParamType::Uint(_) => match t {
            Token::Uint(x) => {
                proof {
                    x.lemma_val_bound();
                }
                true
            },
            _ => false,
        },
        ParamType::Int(_) => match t {
            Token::Int(x) => {
                proof {
                    x.lemma_val_bound();
                }
                true
            },
            _ => false,
        },
        ParamType::Array(e) => match t {
            Token::Array(ts) => {
                proof {
                    lemma_tokens_view(ts@);
                }
                let mut i: usize = 0;
                while i < ts.len()
                    invariant
                        i <= ts@.len(),
                        forall|k: int|
                            0 <= k < i ==> token_matches_type(#[trigger] tokens_view(ts@)[k], e@),
                    decreases ts@.len() - i,
                {
                    proof {
                        assert(decreases_to!(t@ => t@->Array_0));
                        assert(decreases_to!(tokens_view(ts@) => tokens_view(ts@)[i as int]));
                    }
                    if !matches_type(&ts[i], e) {
                        return false;
                    }
                    i = i + 1;
                }
                true
            },
            _ => false,
        },
        ParamType::FixedArray(e, n) => match t {
            Token::FixedArray(ts) => {
                proof {
                    lemma_tokens_view(ts@);
                }
                if ts.len() != *n {
                    return false;
                }
                let mut i: usize = 0;
                while i < ts.len()
                    invariant
                        i <= ts@.len(),
                        forall|k: int|
                            0 <= k < i ==> token_matches_type(#[trigger] tokens_view(ts@)[k], e@),
                    decreases ts@.len() - i,
                {
                    proof {
                        assert(decreases_to!(t@ => t@->FixedArray_0));
                        assert(decreases_to!(tokens_view(ts@) => tokens_view(ts@)[i as int]));
                    }
                    if !matches_type(&ts[i], e) {
                        return false;
                    }
                    i = i + 1;
                }
                true
            },
            _ => false,
        },
        ParamType::Tuple(ps) => match t {
            Token::Tuple(ts) => {
                proof {
                    lemma_tokens_view(ts@);
                    lemma_param_types_view(ps@);
                }
                if ts.len() != ps.len() {
                    return false;
                }
                let mut i: usize = 0;
                while i < ts.len()
                    invariant
                        i <= ts@.len(),
                        forall|k: int|
                            0 <= k < i ==> token_matches_type(
                                #[trigger] tokens_view(ts@)[k],
                                param_types_view(ps@)[k],
                            ),
                    decreases ts@.len() - i,
                {
                    proof {
                        assert(decreases_to!(t@ => t@->Tuple_0));
                        assert(decreases_to!(tokens_view(ts@) => tokens_view(ts@)[i as int]));
                    }
                    if !matches_type(&ts[i], &ps[i]) {
                        return false;
                    }
                    i = i + 1;
                }
                true
            },
            _ => false,
        },
    }
}

/// Decides pairwise shape matching of tokens against parameters.
#[verifier::loop_isolation(false)]
pub fn all_match(tokens: &[Token], params: &Vec<ParamType>) -> (r: bool)
    ensures
        r == tokens_match(tokens_view(tokens@), param_types_view(params@)),
{
    proof {
        lemma_tokens_view(tokens@);
        lemma_param_types_view(params@);
    }
    if tokens.len() != params.len() {
        return false;
    }
    let mut i: usize = 0;
    while i < params.len()
        invariant
            i <= params@.len(),
            forall|k: int|
                0 <= k < i ==> token_matches_type(
                    #[trigger] tokens_view(tokens@)[k],
                    param_types_view(params@)[k],
                ),
        decreases params@.len() - i,
    {
        let t = vstd::slice::slice_index_get(tokens, i);
        if !matches_type(t, &params[i]) {
            proof {
                assert(!token_matches_type(
                    tokens_view(tokens@)[i as int],
                    param_types_view(params@)[i as int],
                ));
            }
            return false;
        }
        i = i + 1;
    }
    true
}

// ---------------------------------------------------------------------
// Function signatures
// ---------------------------------------------------------------------

/// One function of a contract interface: its name and its ordered,
/// typed inputs and outputs.
#[derive(Debug)]
pub struct FunctionSig {
    pub name: String,
    pub inputs: Vec<ParamType>,
    pub outputs: Vec<ParamType>,
}

/// The mathematical form of a [`FunctionSig`].
pub struct SigV {
    pub name: Seq<char>,
    pub inputs: Seq<ParamTypeV>,
    pub outputs: Seq<ParamTypeV>,
}

pub open spec fn sig_view(s: FunctionSig) -> SigV {
    SigV { name: s.name@, inputs: param_types_view(s.inputs@), outputs: param_types_view(s.outputs@) }
}

impl View for FunctionSig {
    type V = SigV;

    open spec fn view(&self) -> SigV {
        sig_view(*self)
    }
}

/// The views of a sequence of signatures.
pub open spec fn sigs_view(ss: Seq<FunctionSig>) -> Seq<SigV> {
    Seq::new(ss.len(), |i: int| sig_view(ss[i]))
}

} // verus!
