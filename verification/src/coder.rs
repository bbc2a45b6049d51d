//! The coder facade: holds one immutable contract interface and
//! orchestrates schema lookup, tokenizing, hex framing and the calls
//! into the external codec.  A `Coder` is stateless after construction
//! and safe to share.

use vstd::prelude::*;
use vstd::string::*;
use crate::abi::{
    abi_decoded, abi_encoding_of, abi_selector_of, eth_decode, eth_encode, eth_error_string,
    eth_selector, load_interface, parsed_interface,
};
use crate::detokenize::{detokenize_all, lemma_detokenize_elems, spec_detokenize_elems};
use crate::laws::lemma_tokenize_shape_tuple;
use crate::text::{
    chars_of, chars_to_string, hex_decode_from, hex_encode, lemma_hex_round_trip, remove_bytes4,
    remove_hex_prefix, spec_hex_decode, spec_hex_encode, spec_strip_hex_prefix,
    spec_strip_selector, str_eq,
};
use crate::tokenize::{spec_tokenize_tuple, tokenize_tuple};
use crate::types::{
    CoderError, DynamicValue, ErrV, FunctionSig, ParamType, SigV, Token, all_match, clone_params,
    dyns_view, param_types_view, sig_view, sigs_view, tokens_match, tokens_view,
};

verus! {

/// The first signature of the given name, scanning from position `i`.
pub open spec fn first_match(sigs: Seq<SigV>, name: Seq<char>, i: int) -> Option<SigV>
    decreases sigs.len() - i,
{
    if i < 0 || i >= sigs.len() {
        None
    } else if sigs[i].name == name {
        Some(sigs[i])
    } else {
        first_match(sigs, name, i + 1)
    }
}

/// The signature a function name resolves to: the first of that name
/// in declaration order within a name's overloads.
pub open spec fn resolve_sig(sigs: Seq<SigV>, name: Seq<char>) -> Option<SigV> {
    first_match(sigs, name, 0)
}

/// An encoder and decoder for the calls of one contract interface.
/// The interface is immutable once constructed: the functions stand in
/// the order the schema loader yields them, overloads of one name in
/// declaration order.
pub struct Coder {
    sigs: Vec<FunctionSig>,
}

impl View for Coder {
    type V = Seq<SigV>;

    closed spec fn view(&self) -> Seq<SigV> {
        sigs_view(self.sigs@)
    }
}

impl Coder {
    /// Builds a coder from a JSON interface definition.  Construction
    /// succeeds exactly on the definitions the schema loader parses,
    /// and then holds exactly the parsed interface; a rejected
    /// definition yields `SchemaParse` and no coder.
    pub fn new(abi_json: &str) -> (r: Result<Coder, CoderError>)
        ensures
            r is Ok <==> parsed_interface(abi_json@) is Some,
            r matches Ok(c) ==> Some(c@) == parsed_interface(abi_json@),
            r matches Err(e) ==> e@ is SchemaParse,
    {
        match load_interface(abi_json) {
            Ok(sigs) => Ok(Coder { sigs }),
            Err(e) => Err(CoderError::SchemaParse(eth_error_string(&e))),
        }
    }

    /// The index of the first signature named `function`, if any.
    fn lookup(&self, function: &str) -> (r: Option<usize>)
        ensures
            match resolve_sig(self@, function@) {
                Some(sig) => r matches Some(i) && i < self.sigs@.len() && sig_view(
                    self.sigs@[i as int],
                ) == sig,
                None => r is None,
            },
    {
        let n = self.sigs.len();
        let mut i: usize = 0;
        while i < n
            invariant
                i <= n == self.sigs@.len(),
                resolve_sig(self@, function@) == first_match(self@, function@, i as int),
            decreases n - i,
        {
            if str_eq(self.sigs[i].name.as_str(), function) {
                return Some(i);
            }
            i = i + 1;
        }
        None
    }

    /// The ordered input parameter types of the named function.
    pub fn argument_types(&self, function: &str) -> (r: Result<Vec<ParamType>, CoderError>)
        ensures
            match resolve_sig(self@, function@) {
                Some(sig) => r matches Ok(ps) && param_types_view(ps@) == sig.inputs,
                None => r matches Err(e) && e@ is FunctionNotFound,
            },
    {
        match self.lookup(function) {
            Some(i) => Ok(clone_params(&self.sigs[i].inputs)),
            None => Err(CoderError::FunctionNotFound),
        }
    }

    /// Encodes already-tokenized arguments as call data: the four-byte
    /// selector followed by the packed arguments, as a lowercase hex
    /// string without a "0x" prefix.  Tokens whose shape does not fit
    /// the function's parameter types are rejected as the external
    /// codec would reject them.
    pub fn encode_input(&self, function: &str, arguments: &[Token]) -> (r: Result<
        String,
        CoderError,
    >)
        ensures
            match resolve_sig(self@, function@) {
                None => r matches Err(e) && e@ is FunctionNotFound,
                Some(sig) => if !tokens_match(tokens_view(arguments@), sig.inputs) {
                    r matches Err(e) && e@ is EncodingFailure
                } else {
                    r matches Ok(s) && s@ == spec_hex_encode(
                        abi_selector_of(sig.name, sig.inputs).add(
                            abi_encoding_of(tokens_view(arguments@)),
                        ),
                    ) && s@.len() >= 8
                },
            },
    {
        let i = match self.lookup(function) {
            Some(i) => i,
            None => {
                return Err(CoderError::FunctionNotFound);
            },
        };
        let sig = &self.sigs[i];
        if !all_match(arguments, &sig.inputs) {
            return Err(
                CoderError::EncodingFailure(
                    String::from_str("the arguments do not fit the function's parameter types"),
                ),
            );
        }
        let mut bytes = eth_selector(sig.name.as_str(), &sig.inputs);
        let mut payload = eth_encode(arguments);
        bytes.append(&mut payload);
        proof {
            lemma_hex_round_trip(bytes@);
        }
        let digits = hex_encode(&bytes);
        Ok(chars_to_string(&digits))
    }

    /// Decodes call data: strips the "0x" prefix and the four-byte
    /// selector, hex-decodes the rest, and reads the tokens back
    /// against the function's input schema.
    pub fn decode_input(&self, function: &str, data: &str) -> (r: Result<Vec<Token>, CoderError>)
        ensures
            match resolve_sig(self@, function@) {
                None => r matches Err(e) && e@ is FunctionNotFound,
                Some(sig) => match spec_strip_selector(data@) {
                    None => r matches Err(e) && e@ matches ErrV::MalformedHex { path }
                        && path.len() == 0,
                    Some(rest) => match spec_hex_decode(rest) {
                        None => r matches Err(e) && e@ matches ErrV::MalformedHex { path }
                            && path.len() == 0,
                        Some(bytes) => match abi_decoded(sig.inputs, bytes) {
                            None => r matches Err(e) && e@ is DecodingFailure,
                            Some(ts) => r matches Ok(v) && tokens_view(v@) == ts && tokens_match(
                                ts,
                                sig.inputs,
                            ),
                        },
                    },
                },
            },
    {
        let i = match self.lookup(function) {
            Some(i) => i,
            None => {
                return Err(CoderError::FunctionNotFound);
            },
        };
        let sig = &self.sigs[i];
        let framed = match remove_bytes4(data) {
            Some(rest) => rest,
            None => {
                return Err(CoderError::MalformedHex { path: Vec::new() });
            },
        };
        let v = chars_of(framed);
        proof {
            assert(v@.skip(0) =~= v@);
        }
        let bytes = match hex_decode_from(&v, 0) {
            Some(bs) => bs,
            None => {
                return Err(CoderError::MalformedHex { path: Vec::new() });
            },
        };
        match eth_decode(&sig.inputs, &bytes) {
            Ok(ts) => Ok(ts),
            Err(e) => Err(CoderError::DecodingFailure(eth_error_string(&e))),
        }
    }

    /// Decodes return data: strips an optional "0x" prefix,
    /// hex-decodes the rest, and reads the tokens back against the
    /// function's output schema.
    pub fn decode_output(&self, function: &str, data: &str) -> (r: Result<Vec<Token>, CoderError>)
        ensures
            match resolve_sig(self@, function@) {
                None => r matches Err(e) && e@ is FunctionNotFound,
                Some(sig) => match spec_hex_decode(spec_strip_hex_prefix(data@)) {
                    None => r matches Err(e) && e@ matches ErrV::MalformedHex { path }
                        && path.len() == 0,
                    Some(bytes) => match abi_decoded(sig.outputs, bytes) {
                        None => r matches Err(e) && e@ is DecodingFailure,
                        Some(ts) => r matches Ok(v) && tokens_view(v@) == ts && tokens_match(
                            ts,
                            sig.outputs,
                        ),
                    },
                },
            },
    {
        let i = match self.lookup(function) {
            Some(i) => i,
            None => {
                return Err(CoderError::FunctionNotFound);
            },
        };
        let sig = &self.sigs[i];
        let framed = remove_hex_prefix(data);
        let v = chars_of(framed);
        proof {
            assert(v@.skip(0) =~= v@);
        }
        let bytes = match hex_decode_from(&v, 0) {
            Some(bs) => bs,
            None => {
                return Err(CoderError::MalformedHex { path: Vec::new() });
            },
        };
        match eth_decode(&sig.outputs, &bytes) {
            Ok(ts) => Ok(ts),
            Err(e) => Err(CoderError::DecodingFailure(eth_error_string(&e))),
        }
    }

    /// Encodes loosely typed arguments as call data: resolves the
    /// schema, enforces the arity, tokenizes each argument against its
    /// parameter type, and packs the tokens.  An argument count that
    /// differs from the parameter count is an `ArityMismatch`; nothing
    /// is silently dropped.
    pub fn encode_input_values(&self, function: &str, args: &Vec<DynamicValue>) -> (r: Result<
        String,
        CoderError,
    >)
        ensures
            match resolve_sig(self@, function@) {
                None => r matches Err(e) && e@ is FunctionNotFound,
                Some(sig) => if dyns_view(args@).len() != sig.inputs.len() {
                    r matches Err(e) && e@ == (ErrV::ArityMismatch {
                        expected: sig.inputs.len(),
                        got: dyns_view(args@).len(),
                    })
                } else {
                    match spec_tokenize_tuple(sig.inputs, dyns_view(args@), 0) {
                        Err(er) => r matches Err(e) && e@ == er,
                        Ok(ts) => r matches Ok(s) && s@ == spec_hex_encode(
                            abi_selector_of(sig.name, sig.inputs).add(abi_encoding_of(ts)),
                        ) && s@.len() >= 8,
                    }
                },
            },
    {
        let i = match self.lookup(function) {
            Some(i) => i,
            None => {
                return Err(CoderError::FunctionNotFound);
            },
        };
        let sig = &self.sigs[i];
        proof {
            crate::types::lemma_param_types_view(sig.inputs@);
            crate::types::lemma_dyns_view(args@);
        }
        if args.len() != sig.inputs.len() {
            let expected = sig.inputs.len();
            let got = args.len();
            return Err(CoderError::ArityMismatch { expected, got });
        }
        let tokens = match tokenize_tuple(&sig.inputs, args, 0) {
            Ok(ts) => ts,
            Err(e) => {
                return Err(e);
            },
        };
        proof {
            lemma_tokenize_shape_tuple(param_types_view(sig.inputs@), dyns_view(args@), 0);
            crate::types::lemma_tokens_view(tokens@);
            assert(tokens_match(tokens_view(tokens@), param_types_view(sig.inputs@)));
        }
        let mut bytes = eth_selector(sig.name.as_str(), &sig.inputs);
        let mut payload = eth_encode(tokens.as_slice());
        bytes.append(&mut payload);
        proof {
            lemma_hex_round_trip(bytes@);
        }
        let digits = hex_encode(&bytes);
        Ok(chars_to_string(&digits))
    }

    /// Decodes call data and renders the tokens as host values.
    pub fn decode_input_values(&self, function: &str, data: &str) -> (r: Result<
        Vec<DynamicValue>,
        CoderError,
    >)
        ensures
            match resolve_sig(self@, function@) {
                None => r matches Err(e) && e@ is FunctionNotFound,
                Some(sig) => match spec_strip_selector(data@) {
                    None => r matches Err(e) && e@ matches ErrV::MalformedHex { path }
                        && path.len() == 0,
                    Some(rest) => match spec_hex_decode(rest) {
                        None => r matches Err(e) && e@ matches ErrV::MalformedHex { path }
                            && path.len() == 0,
                        Some(bytes) => match abi_decoded(sig.inputs, bytes) {
                            None => r matches Err(e) && e@ is DecodingFailure,
                            Some(ts) => r matches Ok(v) && dyns_view(v@) == spec_detokenize_elems(
                                ts,
                                0,
                            ) && v@.len() == sig.inputs.len(),
                        },
                    },
                },
            },
    {
        match self.decode_input(function, data) {
            Ok(tokens) => {
                let values = detokenize_all(&tokens);
                proof {
                    lemma_detokenize_elems(tokens_view(tokens@), 0);
                    crate::types::lemma_tokens_view(tokens@);
                    crate::types::lemma_dyns_view(values@);
                }
                Ok(values)
            },
            Err(e) => Err(e),
        }
    }

    /// Decodes return data and renders the tokens as host values.
    pub fn decode_output_values(&self, function: &str, data: &str) -> (r: Result<
        Vec<DynamicValue>,
        CoderError,
    >)
        ensures
            match resolve_sig(self@, function@) {
                None => r matches Err(e) && e@ is FunctionNotFound,
                Some(sig) => match spec_hex_decode(spec_strip_hex_prefix(data@)) {
                    None => r matches Err(e) && e@ matches ErrV::MalformedHex { path }
                        && path.len() == 0,
                    Some(bytes) => match abi_decoded(sig.outputs, bytes) {
                        None => r matches Err(e) && e@ is DecodingFailure,
                        Some(ts) => r matches Ok(v) && dyns_view(v@) == spec_detokenize_elems(
                            ts,
                            0,
                        ) && v@.len() == sig.outputs.len(),
                    },
                },
            },
    {
        match self.decode_output(function, data) {
            Ok(tokens) => {
                let values = detokenize_all(&tokens);
                proof {
                    lemma_detokenize_elems(tokens_view(tokens@), 0);
                    crate::types::lemma_tokens_view(tokens@);
                    crate::types::lemma_dyns_view(values@);
                }
                Ok(values)
            },
            Err(e) => Err(e),
        }
    }
}

} // verus!
