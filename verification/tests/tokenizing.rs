//! Tokenizer and detokenizer behaviour on concrete values.

use abi_coder::tokenize::{tokenize, tokenize_int, tokenize_uint};
use abi_coder::detokenize::detokenize;
use abi_coder::types::{CoderError, DynamicValue, ParamType, Token};
use abi_coder::U256;

fn s(text: &str) -> DynamicValue {
    DynamicValue::Str(String::from(text))
}

#[test]
fn uint_string_and_number_zero_agree() {
    let from_string = tokenize(&ParamType::Uint(256), &s("0")).unwrap();
    let from_number = tokenize(&ParamType::Uint(256), &DynamicValue::Number(0)).unwrap();
    assert_eq!(from_string, from_number);
    assert_eq!(from_string, Token::Uint(U256 { w0: 0, w1: 0, w2: 0, w3: 0 }));
}

#[test]
fn int_minus_one_round_trips() {
    let token = tokenize(&ParamType::Int(256), &s("-1")).unwrap();
    assert_eq!(
        token,
        Token::Int(U256 {
            w0: u64::MAX,
            w1: u64::MAX,
            w2: u64::MAX,
            w3: u64::MAX,
        })
    );
    assert_eq!(detokenize(&token), s("-1"));
}

#[test]
fn uint_rejects_negative() {
    let err = tokenize(&ParamType::Uint(256), &s("-1")).unwrap_err();
    assert_eq!(err, CoderError::TypeMismatch { path: vec![] });
}

#[test]
fn uint_number_and_string_agree_elsewhere() {
    let a = tokenize(&ParamType::Uint(256), &s("9007199254740991")).unwrap();
    let b = tokenize(
        &ParamType::Uint(256),
        &DynamicValue::Number(9007199254740991),
    )
    .unwrap();
    assert_eq!(a, b);
}

#[test]
fn int_number_negative_matches_string() {
    let a = tokenize(&ParamType::Int(256), &s("-42")).unwrap();
    let b = tokenize(&ParamType::Int(256), &DynamicValue::Number(-42)).unwrap();
    assert_eq!(a, b);
}

#[test]
fn address_round_trips() {
    let zero = "0x0000000000000000000000000000000000000000";
    let token = tokenize(&ParamType::Address, &s(zero)).unwrap();
    assert_eq!(token, Token::Address(vec![0u8; 20]));
    assert_eq!(detokenize(&token), s(zero));
}

#[test]
fn address_of_nineteen_bytes_fails() {
    let short = format!("0x{}", "00".repeat(19));
    let err = tokenize(&ParamType::Address, &s(&short)).unwrap_err();
    assert_eq!(
        err,
        CoderError::FixedLengthMismatch {
            path: vec![],
            expected: 20,
            got: 19
        }
    );
}

#[test]
fn fixed_bytes_four_accepts_four_bytes() {
    let token = tokenize(&ParamType::FixedBytes(4), &s("0x01020304")).unwrap();
    assert_eq!(token, Token::FixedBytes(vec![1, 2, 3, 4]));
    assert_eq!(detokenize(&token), s("0x01020304"));
}

#[test]
fn fixed_bytes_four_rejects_two_bytes() {
    let err = tokenize(&ParamType::FixedBytes(4), &s("0x0102")).unwrap_err();
    assert_eq!(
        err,
        CoderError::FixedLengthMismatch {
            path: vec![],
            expected: 4,
            got: 2
        }
    );
}

#[test]
fn bytes_accept_any_even_length() {
    assert_eq!(
        tokenize(&ParamType::Bytes, &s("0x")).unwrap(),
        Token::Bytes(vec![])
    );
    assert_eq!(
        tokenize(&ParamType::Bytes, &s("0xAbCd")).unwrap(),
        Token::Bytes(vec![0xab, 0xcd])
    );
}

#[test]
fn bytes_reject_odd_or_bad_hex() {
    assert_eq!(
        tokenize(&ParamType::Bytes, &s("0x123")).unwrap_err(),
        CoderError::MalformedHex { path: vec![] }
    );
    assert_eq!(
        tokenize(&ParamType::Bytes, &s("0xzz")).unwrap_err(),
        CoderError::MalformedHex { path: vec![] }
    );
}

#[test]
fn bool_accepts_only_booleans() {
    assert_eq!(
        tokenize(&ParamType::Bool, &DynamicValue::Boolean(true)).unwrap(),
        Token::Bool(true)
    );
    assert_eq!(
        tokenize(&ParamType::Bool, &s("true")).unwrap_err(),
        CoderError::TypeMismatch { path: vec![] }
    );
    assert_eq!(
        tokenize(&ParamType::Bool, &DynamicValue::Number(1)).unwrap_err(),
        CoderError::TypeMismatch { path: vec![] }
    );
}

#[test]
fn string_passes_through() {
    let token = tokenize(&ParamType::Str, &s("hello")).unwrap();
    assert_eq!(token, Token::Str(String::from("hello")));
    assert_eq!(detokenize(&token), s("hello"));
}

#[test]
fn uint_largest_value_round_trips() {
    let max = "115792089237316195423570985008687907853269984665640564039457584007913129639935";
    let token = tokenize(&ParamType::Uint(256), &s(max)).unwrap();
    assert_eq!(
        token,
        Token::Uint(U256 {
            w0: u64::MAX,
            w1: u64::MAX,
            w2: u64::MAX,
            w3: u64::MAX,
        })
    );
    assert_eq!(detokenize(&token), s(max));
}

#[test]
fn uint_overflow_fails() {
    let too_big = "115792089237316195423570985008687907853269984665640564039457584007913129639936";
    assert_eq!(
        tokenize(&ParamType::Uint(256), &s(too_big)).unwrap_err(),
        CoderError::TypeMismatch { path: vec![] }
    );
}

#[test]
fn int_extreme_values() {
    let min = "-57896044618658097711785492504343953926634992332820282019728792003956564819968";
    let token = tokenize(&ParamType::Int(256), &s(min)).unwrap();
    assert_eq!(detokenize(&token), s(min));

    let below_min =
        "-57896044618658097711785492504343953926634992332820282019728792003956564819969";
    assert_eq!(
        tokenize(&ParamType::Int(256), &s(below_min)).unwrap_err(),
        CoderError::TypeMismatch { path: vec![] }
    );

    let max = "57896044618658097711785492504343953926634992332820282019728792003956564819967";
    let token = tokenize(&ParamType::Int(256), &s(max)).unwrap();
    assert_eq!(detokenize(&token), s(max));

    let above_max = "57896044618658097711785492504343953926634992332820282019728792003956564819968";
    assert_eq!(
        tokenize(&ParamType::Int(256), &s(above_max)).unwrap_err(),
        CoderError::TypeMismatch { path: vec![] }
    );
}

#[test]
fn hex_numerals_are_read() {
    let token = tokenize_uint(&s("0xff")).unwrap();
    assert_eq!(token, U256 { w0: 255, w1: 0, w2: 0, w3: 0 });
    let upper = tokenize_uint(&s("0XFF")).unwrap();
    assert_eq!(upper, token);
    let raw = tokenize_int(&s(&format!("0x{}", "f".repeat(64)))).unwrap();
    assert_eq!(detokenize(&Token::Int(raw)), s("-1"));
}

#[test]
fn minus_zero_is_zero() {
    let token = tokenize(&ParamType::Int(256), &s("-0")).unwrap();
    assert_eq!(token, Token::Int(U256 { w0: 0, w1: 0, w2: 0, w3: 0 }));
    assert_eq!(detokenize(&token), s("0"));
}

#[test]
fn empty_and_garbled_numerals_fail() {
    for bad in ["", "0x", "12a", "--1", "-", "1 000"] {
        assert_eq!(
            tokenize(&ParamType::Uint(256), &s(bad)).unwrap_err(),
            CoderError::TypeMismatch { path: vec![] },
            "input {:?}",
            bad
        );
    }
}

#[test]
fn array_tokenizes_each_element() {
    let param = ParamType::Array(Box::new(ParamType::Uint(256)));
    let value = DynamicValue::Sequence(vec![s("1"), s("2")]);
    let token = tokenize(&param, &value).unwrap();
    assert_eq!(
        token,
        Token::Array(vec![
            Token::Uint(U256 { w0: 1, w1: 0, w2: 0, w3: 0 }),
            Token::Uint(U256 { w0: 2, w1: 0, w2: 0, w3: 0 }),
        ])
    );
    assert_eq!(
        detokenize(&token),
        DynamicValue::Sequence(vec![s("1"), s("2")])
    );
}

#[test]
fn array_error_carries_element_path() {
    let param = ParamType::Array(Box::new(ParamType::Uint(256)));
    let value = DynamicValue::Sequence(vec![s("1"), s("x")]);
    assert_eq!(
        tokenize(&param, &value).unwrap_err(),
        CoderError::TypeMismatch { path: vec![1] }
    );
}

#[test]
fn nested_error_path_is_outermost_first() {
    let param = ParamType::Tuple(vec![ParamType::Array(Box::new(ParamType::Uint(256)))]);
    let value = DynamicValue::Sequence(vec![DynamicValue::Sequence(vec![s("1"), s("x")])]);
    assert_eq!(
        tokenize(&param, &value).unwrap_err(),
        CoderError::TypeMismatch { path: vec![0, 1] }
    );
}

#[test]
fn fixed_array_length_is_enforced() {
    let param = ParamType::FixedArray(Box::new(ParamType::Uint(256)), 2);
    let short = DynamicValue::Sequence(vec![s("1")]);
    assert_eq!(
        tokenize(&param, &short).unwrap_err(),
        CoderError::FixedLengthMismatch {
            path: vec![],
            expected: 2,
            got: 1
        }
    );
    let exact = DynamicValue::Sequence(vec![s("1"), s("2")]);
    assert!(matches!(
        tokenize(&param, &exact).unwrap(),
        Token::FixedArray(ref ts) if ts.len() == 2
    ));
}

#[test]
fn tuple_arity_is_enforced() {
    let param = ParamType::Tuple(vec![ParamType::Uint(256), ParamType::Bool]);
    let short = DynamicValue::Sequence(vec![s("1")]);
    assert_eq!(
        tokenize(&param, &short).unwrap_err(),
        CoderError::TupleArityMismatch {
            path: vec![],
            expected: 2,
            got: 1
        }
    );
    let not_a_sequence = s("1");
    assert_eq!(
        tokenize(&param, &not_a_sequence).unwrap_err(),
        CoderError::TypeMismatch { path: vec![] }
    );
}

#[test]
fn compound_round_trip_is_canonical() {
    let param = ParamType::Tuple(vec![
        ParamType::Address,
        ParamType::Uint(256),
        ParamType::Array(Box::new(ParamType::Bool)),
        ParamType::Str,
    ]);
    let value = DynamicValue::Sequence(vec![
        s(&format!("0X{}", "AB".repeat(20))),
        s("0x3e8"),
        DynamicValue::Sequence(vec![DynamicValue::Boolean(true), DynamicValue::Boolean(false)]),
        s("hi"),
    ]);
    let token = tokenize(&param, &value).unwrap();
    let rendered = detokenize(&token);
    assert_eq!(
        rendered,
        DynamicValue::Sequence(vec![
            s(&format!("0x{}", "ab".repeat(20))),
            s("1000"),
            DynamicValue::Sequence(vec![
                DynamicValue::Boolean(true),
                DynamicValue::Boolean(false)
            ]),
            s("hi"),
        ])
    );
    let again = tokenize(&param, &rendered).unwrap();
    assert_eq!(again, token);
    assert_eq!(detokenize(&again), rendered);
}
