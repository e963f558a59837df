//! Argument coercion and result rendering, exercised on concrete
//! parameter lists and tokens.

use wasmtime_http::coerce::{coerce_args, coerce_one};
use wasmtime_http::errors::HostError;
use wasmtime_http::numtext::{
    i32_to_dec, i64_to_dec, parse_i32_token, parse_i64_token, parse_u32_token, parse_u64_token,
    u128_to_dec, u64_to_dec,
};
use wasmtime_http::render::{render_value, render_values, RenderedValue};
use wasmtime_http::values::{TypedValue, ValKind};

fn strings(tokens: &[&str]) -> Vec<String> {
    tokens.iter().map(|t| t.to_string()).collect()
}

#[test]
fn short_argument_list_is_an_arity_mismatch() {
    // A function of signature (i32, i64) invoked with one argument.
    let params = vec![ValKind::I32, ValKind::I64];
    let r = coerce_args(&params, &strings(&["5"]));
    assert_eq!(
        r,
        Err(HostError::ArgumentCountMismatch { provided: 1, required: 2 })
    );
}

#[test]
fn long_argument_list_is_an_arity_mismatch() {
    let params = vec![ValKind::I32];
    let r = coerce_args(&params, &strings(&["5", "6"]));
    assert_eq!(
        r,
        Err(HostError::ArgumentCountMismatch { provided: 2, required: 1 })
    );
}

#[test]
fn numeric_tokens_coerce_to_their_kinds() {
    let params = vec![ValKind::I32, ValKind::I64, ValKind::F32, ValKind::F64];
    let r = coerce_args(&params, &strings(&["42", "-7", "1069547520", "13841306799736258560"]));
    assert_eq!(
        r,
        Ok(vec![
            TypedValue::I32(42),
            TypedValue::I64(-7),
            TypedValue::F32(1069547520),
            TypedValue::F64(13841306799736258560),
        ])
    );
}

#[test]
fn first_offending_position_is_reported() {
    let params = vec![ValKind::I32, ValKind::I64, ValKind::I32];
    let r = coerce_args(&params, &strings(&["42", "seven", "x"]));
    assert_eq!(
        r,
        Err(HostError::ArgumentParseError { position: 1, expected: ValKind::I64 })
    );
}

#[test]
fn reference_kind_parameters_are_unsupported() {
    let params = vec![ValKind::V128];
    let r = coerce_args(&params, &strings(&["1"]));
    assert_eq!(
        r,
        Err(HostError::UnsupportedParameterType { position: 0, kind: ValKind::V128 })
    );
    let r = coerce_one(ValKind::FuncRef, "f", 3);
    assert_eq!(
        r,
        Err(HostError::UnsupportedParameterType { position: 3, kind: ValKind::FuncRef })
    );
}

#[test]
fn integer_tokens_follow_standard_parsing() {
    assert_eq!(parse_i32_token("42"), Some(42));
    assert_eq!(parse_i32_token("+42"), Some(42));
    assert_eq!(parse_i32_token("-42"), Some(-42));
    assert_eq!(parse_i32_token("2147483647"), Some(i32::MAX));
    assert_eq!(parse_i32_token("-2147483648"), Some(i32::MIN));
    assert_eq!(parse_i32_token("2147483648"), None);
    assert_eq!(parse_i32_token(""), None);
    assert_eq!(parse_i32_token("+"), None);
    assert_eq!(parse_i32_token("4 2"), None);
    assert_eq!(parse_i32_token("0x10"), None);
    assert_eq!(parse_i64_token("-9223372036854775808"), Some(i64::MIN));
    assert_eq!(parse_i64_token("9223372036854775807"), Some(i64::MAX));
    assert_eq!(parse_i64_token("9223372036854775808"), None);
    assert_eq!(parse_u64_token("18446744073709551615"), Some(u64::MAX));
    assert_eq!(parse_u64_token("18446744073709551616"), None);
    assert_eq!(parse_u64_token("-1"), None);
    assert_eq!(parse_u32_token("4294967295"), Some(u32::MAX));
    assert_eq!(parse_u32_token("4294967296"), None);
    assert_eq!(parse_u32_token("+7"), Some(7));
}

#[test]
fn rendering_prints_integers_in_decimal() {
    assert_eq!(u64_to_dec(0), "0");
    assert_eq!(u64_to_dec(10000), "10000");
    assert_eq!(i64_to_dec(-1), "-1");
    assert_eq!(i64_to_dec(i64::MIN), "-9223372036854775808");
    assert_eq!(i32_to_dec(i32::MIN), "-2147483648");
    assert_eq!(u128_to_dec(u128::MAX), "340282366920938463463374607431768211455");
}

#[test]
fn parsing_a_rendered_value_gives_the_value_back() {
    // Numeric identity is preserved across the textual boundary.
    for n in [0i32, 1, -1, 42, i32::MAX, i32::MIN] {
        assert_eq!(parse_i32_token(&i32_to_dec(n)), Some(n));
    }
    for n in [0i64, -99999, i64::MAX, i64::MIN] {
        assert_eq!(parse_i64_token(&i64_to_dec(n)), Some(n));
    }
}

#[test]
fn rendered_results_keep_bit_patterns_and_placeholders() {
    assert_eq!(render_value(&TypedValue::I32(-3)), RenderedValue::Line("-3".to_string()));
    assert_eq!(render_value(&TypedValue::I64(7)), RenderedValue::Line("7".to_string()));
    // Float results hand their bit pattern through untouched.
    assert_eq!(render_value(&TypedValue::F32(1069547520)), RenderedValue::F32Bits(1069547520));
    assert_eq!(render_value(&TypedValue::F64(2)), RenderedValue::F64Bits(2));
    assert_eq!(
        render_value(&TypedValue::ExternRef),
        RenderedValue::Line("<externref>".to_string())
    );
    assert_eq!(render_value(&TypedValue::FuncRef), RenderedValue::Line("<funcref>".to_string()));
    assert_eq!(render_value(&TypedValue::V128(340282366920938463463374607431768211455)),
        RenderedValue::Line("340282366920938463463374607431768211455".to_string()));
    let rs = render_values(&vec![TypedValue::I32(1), TypedValue::F64(5)]);
    assert_eq!(rs, vec![RenderedValue::Line("1".to_string()), RenderedValue::F64Bits(5)]);
}
