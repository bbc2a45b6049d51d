//! End-to-end encoding and decoding through the real external codec.

use abi_coder::types::{CoderError, DynamicValue, ParamType, Token};
use abi_coder::{Coder, U256};

const ERC20_ABI: &str = r#"[
  {
    "type": "function",
    "name": "transfer",
    "inputs": [
      { "name": "to", "type": "address" },
      { "name": "value", "type": "uint256" }
    ],
    "outputs": [{ "name": "", "type": "bool" }]
  },
  {
    "type": "function",
    "name": "balanceOf",
    "inputs": [{ "name": "owner", "type": "address" }],
    "outputs": [{ "name": "", "type": "uint256" }]
  },
  {
    "type": "function",
    "name": "triple",
    "inputs": [
      { "name": "a", "type": "address" },
      { "name": "b", "type": "uint256" },
      { "name": "c", "type": "bool" }
    ],
    "outputs": []
  }
]"#;

fn s(text: &str) -> DynamicValue {
    DynamicValue::Str(String::from(text))
}

fn coder() -> Coder {
    Coder::new(ERC20_ABI).unwrap()
}

#[test]
fn construction_fails_on_garbage() {
    assert!(matches!(
        Coder::new("not json"),
        Err(CoderError::SchemaParse(_))
    ));
}

#[test]
fn unknown_function_is_reported() {
    let c = coder();
    assert_eq!(
        c.argument_types("missing").unwrap_err(),
        CoderError::FunctionNotFound
    );
    assert_eq!(
        c.decode_output("missing", "0x").unwrap_err(),
        CoderError::FunctionNotFound
    );
}

#[test]
fn argument_types_follow_the_schema() {
    let c = coder();
    assert_eq!(
        c.argument_types("transfer").unwrap(),
        vec![ParamType::Address, ParamType::Uint(256)]
    );
    assert_eq!(
        c.argument_types("balanceOf").unwrap(),
        vec![ParamType::Address]
    );
}

#[test]
fn transfer_encodes_selector_then_padded_arguments() {
    let c = coder();
    let args = vec![s(&format!("0x{}", "ab".repeat(20))), s("1000")];
    let encoded = c.encode_input_values("transfer", &args).unwrap();
    let expected = format!(
        "a9059cbb{}{}{}",
        "00".repeat(12),
        "ab".repeat(20),
        format!("{}03e8", "0".repeat(60)),
    );
    assert_eq!(encoded, expected);
}

#[test]
fn token_level_encoding_matches_value_level() {
    let c = coder();
    let tokens = vec![
        Token::Address(vec![0xab; 20]),
        Token::Uint(U256 { w0: 1000, w1: 0, w2: 0, w3: 0 }),
    ];
    let from_tokens = c.encode_input("transfer", &tokens).unwrap();
    let args = vec![s(&format!("0x{}", "ab".repeat(20))), s("1000")];
    let from_values = c.encode_input_values("transfer", &args).unwrap();
    assert_eq!(from_tokens, from_values);
}

#[test]
fn misshapen_tokens_are_rejected_before_encoding() {
    let c = coder();
    let tokens = vec![
        Token::Address(vec![0xab; 19]),
        Token::Uint(U256 { w0: 1000, w1: 0, w2: 0, w3: 0 }),
    ];
    assert!(matches!(
        c.encode_input("transfer", &tokens),
        Err(CoderError::EncodingFailure(_))
    ));
}

#[test]
fn arity_mismatch_never_drops_arguments() {
    let c = coder();
    let two = vec![s(&format!("0x{}", "ab".repeat(20))), s("1")];
    assert_eq!(
        c.encode_input_values("triple", &two).unwrap_err(),
        CoderError::ArityMismatch { expected: 3, got: 2 }
    );
    let four = vec![s("a"), s("b"), s("c"), s("d")];
    assert_eq!(
        c.encode_input_values("triple", &four).unwrap_err(),
        CoderError::ArityMismatch { expected: 3, got: 4 }
    );
}

#[test]
fn encode_then_decode_input_round_trips() {
    let c = coder();
    let args = vec![s(&format!("0X{}", "AB".repeat(20))), s("1000")];
    let encoded = c.encode_input_values("transfer", &args).unwrap();
    let decoded = c.decode_input_values("transfer", &encoded).unwrap();
    assert_eq!(
        decoded,
        vec![s(&format!("0x{}", "ab".repeat(20))), s("1000")]
    );
}

#[test]
fn decode_output_reads_a_padded_word() {
    let c = coder();
    let data = format!("0x{}3e8", "0".repeat(61));
    let values = c.decode_output_values("balanceOf", &data).unwrap();
    assert_eq!(values, vec![s("1000")]);
}

#[test]
fn decode_output_works_without_prefix() {
    let c = coder();
    let data = format!("{}3e8", "0".repeat(61));
    let values = c.decode_output_values("balanceOf", &data).unwrap();
    assert_eq!(values, vec![s("1000")]);
}

#[test]
fn decode_input_requires_a_whole_selector() {
    let c = coder();
    assert_eq!(
        c.decode_input("transfer", "0x0102").unwrap_err(),
        CoderError::MalformedHex { path: vec![] }
    );
}

#[test]
fn decode_input_rejects_bad_hex() {
    let c = coder();
    assert_eq!(
        c.decode_input("transfer", "0xa9059cbbzz").unwrap_err(),
        CoderError::MalformedHex { path: vec![] }
    );
    assert_eq!(
        c.decode_input("transfer", "0xa9059cbb012").unwrap_err(),
        CoderError::MalformedHex { path: vec![] }
    );
}

#[test]
fn truncated_call_data_is_a_decoding_failure() {
    let c = coder();
    assert!(matches!(
        c.decode_input("transfer", "0xa9059cbb00"),
        Err(CoderError::DecodingFailure(_))
    ));
}

#[test]
fn decode_output_renders_booleans_as_booleans() {
    let c = coder();
    let data = format!("0x{}1", "0".repeat(63));
    let values = c.decode_output_values("transfer", &data).unwrap();
    assert_eq!(values, vec![DynamicValue::Boolean(true)]);
}

#[test]
fn overloads_resolve_to_the_first_declared() {
    let abi = r#"[
      {
        "type": "function",
        "name": "setValue",
        "inputs": [{ "name": "v", "type": "uint256" }],
        "outputs": []
      },
      {
        "type": "function",
        "name": "setValue",
        "inputs": [{ "name": "v", "type": "bool" }],
        "outputs": []
      }
    ]"#;
    let c = Coder::new(abi).unwrap();
    assert_eq!(
        c.argument_types("setValue").unwrap(),
        vec![ParamType::Uint(256)]
    );
}

#[test]
fn decode_input_returns_typed_tokens() {
    let c = coder();
    let args = vec![s(&format!("0x{}", "ab".repeat(20))), s("1000")];
    let encoded = c.encode_input_values("transfer", &args).unwrap();
    let tokens = c.decode_input("transfer", &encoded).unwrap();
    assert_eq!(
        tokens,
        vec![
            Token::Address(vec![0xab; 20]),
            Token::Uint(U256 { w0: 1000, w1: 0, w2: 0, w3: 0 }),
        ]
    );
}
