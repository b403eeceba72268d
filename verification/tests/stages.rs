use conc::error::RuntimeError;
use conc::lexer::{lex, Token};
use conc::number::{NumKind, Number};
use conc::parser::{parse, Node};
use conc::value::{clone_value, value_eq, Value};

#[test]
fn lex_produces_expected_tokens() {
    let ts = lex("u32_5 add { } \"txt\"".to_string()).unwrap();
    assert_eq!(
        ts,
        vec![
            Token::Number(Number::U32(5)),
            Token::Identifier("add".to_string()),
            Token::OpenBracket,
            Token::CloseBracket,
            Token::StrLit("txt".to_string()),
        ]
    );
}

#[test]
fn lex_reads_every_integer_kind() {
    let ts = lex("i8_-1 i16_2 i32_-3 i64_4 i128_-5 u8_6 u16_7 u32_8 u64_9 u128_10".to_string())
        .unwrap();
    assert_eq!(
        ts,
        vec![
            Token::Number(Number::I8(-1)),
            Token::Number(Number::I16(2)),
            Token::Number(Number::I32(-3)),
            Token::Number(Number::I64(4)),
            Token::Number(Number::I128(-5)),
            Token::Number(Number::U8(6)),
            Token::Number(Number::U16(7)),
            Token::Number(Number::U32(8)),
            Token::Number(Number::U64(9)),
            Token::Number(Number::U128(10)),
        ]
    );
}

#[test]
fn lex_reads_extreme_kind_values() {
    let ts = lex("i8_-128 i8_127 u128_340282366920938463463374607431768211455".to_string())
        .unwrap();
    assert_eq!(
        ts,
        vec![
            Token::Number(Number::I8(-128)),
            Token::Number(Number::I8(127)),
            Token::Number(Number::U128(u128::MAX)),
        ]
    );
}

#[test]
fn parse_nests_matched_brackets() {
    let ts = lex("u64_1 { u64_2 { u64_3 } } u64_4".to_string()).unwrap();
    let ns = parse(ts).unwrap();
    assert_eq!(ns.len(), 3);
    assert_eq!(ns[0], Node::Tok(Token::Number(Number::U64(1))));
    match &ns[1] {
        Node::Group(inner) => {
            assert_eq!(inner.len(), 2);
            assert_eq!(inner[0], Node::Tok(Token::Number(Number::U64(2))));
            match &inner[1] {
                Node::Group(deep) => {
                    assert_eq!(deep.len(), 1);
                    assert_eq!(deep[0], Node::Tok(Token::Number(Number::U64(3))));
                },
                other => panic!("expected a nested group, got {:?}", other),
            }
        },
        other => panic!("expected a group, got {:?}", other),
    }
    assert_eq!(ns[2], Node::Tok(Token::Number(Number::U64(4))));
}

#[test]
fn number_arithmetic_matches_machine_arithmetic() {
    assert_eq!(
        Number::I64(-20).add(Number::I64(6)),
        Ok(Number::I64(-14))
    );
    assert_eq!(Number::U8(3).mul(Number::U8(7)), Ok(Number::U8(21)));
    assert_eq!(Number::I32(-9).rem(Number::I32(4)), Ok(Number::I32(-1)));
    assert_eq!(
        Number::U16(2).sub(Number::U16(5)),
        Err(RuntimeError::Overflow(NumKind::U16))
    );
    assert_eq!(
        Number::I8(1).add(Number::U8(1)),
        Err(RuntimeError::KindMismatch(NumKind::I8, NumKind::U8))
    );
}

#[test]
fn number_cast_checks_range() {
    assert_eq!(
        Number::I64(300).cast_to("u8".to_string()),
        Err(RuntimeError::CastOutOfRange(NumKind::I64, NumKind::U8))
    );
    assert_eq!(
        Number::I64(-1).cast_to("u128".to_string()),
        Err(RuntimeError::CastOutOfRange(NumKind::I64, NumKind::U128))
    );
    assert_eq!(
        Number::U128(u128::MAX).cast_to("u128".to_string()),
        Ok(Number::U128(u128::MAX))
    );
    assert_eq!(
        Number::I8(-128).cast_to("i128".to_string()),
        Ok(Number::I128(-128))
    );
}

#[test]
fn value_equality_is_deep() {
    let a = Value::Vector(vec![
        Value::Number(Number::U64(1)),
        Value::Str("x".to_string()),
    ]);
    let b = Value::Vector(vec![
        Value::Number(Number::U64(1)),
        Value::Str("x".to_string()),
    ]);
    let c = Value::Vector(vec![Value::Number(Number::U64(1))]);
    assert!(value_eq(&a, &b));
    assert!(!value_eq(&a, &c));
    assert!(!value_eq(&a, &Value::Boolean(true)));
}

#[test]
fn clone_value_preserves_structure() {
    let a = Value::Vector(vec![
        Value::Number(Number::I8(-2)),
        Value::Vector(vec![Value::Boolean(false)]),
    ]);
    let b = clone_value(&a);
    assert!(value_eq(&a, &b));
}

#[test]
fn string_literal_merges_pending_word() {
    let ts = lex("ab\"cd\"".to_string()).unwrap();
    assert_eq!(ts, vec![Token::StrLit("abcd".to_string())]);
}

#[test]
fn huge_bare_integer_is_float_shaped() {
    let e = lex("18446744073709551616".to_string()).unwrap_err();
    assert_eq!(
        e,
        conc::error::LexError::FloatUnsupported("18446744073709551616".to_string())
    );
}

#[test]
fn exponent_word_is_float_shaped() {
    let e = lex("1e9".to_string()).unwrap_err();
    assert_eq!(
        e,
        conc::error::LexError::FloatUnsupported("1e9".to_string())
    );
}

#[test]
fn dotted_identifier_is_not_float_shaped() {
    let ts = lex("1.5x".to_string()).unwrap();
    assert_eq!(ts, vec![Token::Identifier("1.5x".to_string())]);
}

#[test]
fn vector_value_renders_in_square_brackets() {
    let v = Value::Vector(vec![
        Value::Number(Number::U64(1)),
        Value::Boolean(true),
        Value::Str("x".to_string()),
    ]);
    let mut out: Vec<char> = Vec::new();
    conc::render::render_val_x(&v, &mut out);
    let text: String = out.iter().collect();
    assert_eq!(text, "[u64_1 true \"x\"]");
}

#[test]
fn extreme_number_values_render_exactly() {
    let mut out: Vec<char> = Vec::new();
    conc::render::render_val_x(&Value::Number(Number::I128(i128::MIN)), &mut out);
    let text: String = out.iter().collect();
    assert_eq!(text, "i128_-170141183460469231731687303715884105728");
}
