use conc::error::{InterpError, LexError, ParseError, RuntimeError};
use conc::number::{NumKind, Number};
use conc::runtime::run_source;
use conc::value::Value;

fn run_ok(src: &str) -> conc::runtime::State {
    match run_source(src.to_string()) {
        Ok(st) => st,
        Err(e) => panic!("run failed: {:?}", e),
    }
}

fn run_err(src: &str) -> InterpError {
    match run_source(src.to_string()) {
        Ok(_) => panic!("run unexpectedly succeeded"),
        Err(e) => e,
    }
}

#[test]
fn addition_of_equal_kinds() {
    let st = run_ok("u32_5 u32_3 +");
    assert_eq!(st.stack, vec![Value::Number(Number::U32(8))]);
}

#[test]
fn if_true_runs_quotation() {
    let st = run_ok("true { u64_1 } if");
    assert_eq!(st.stack, vec![Value::Number(Number::U64(1))]);
}

#[test]
fn if_false_leaves_stack_unchanged() {
    let st = run_ok("false { u64_1 } if");
    assert_eq!(st.stack, vec![]);
}

#[test]
fn division_by_zero_fails() {
    let e = run_err("u64_10 u64_0 /");
    assert_eq!(e, InterpError::Runtime(RuntimeError::DivideByZero));
}

#[test]
fn bound_non_function_fails_wrong_type() {
    let e = run_err("\"hi\" \"name\" global_bind name");
    assert_eq!(e, InterpError::Runtime(RuntimeError::WrongType));
}

#[test]
fn unbalanced_bracket_is_parse_error() {
    let e = run_err("{ u64_1");
    assert_eq!(e, InterpError::Parse(ParseError::UnclosedBracket));
}

#[test]
fn stray_close_is_parse_error() {
    let e = run_err("u64_1 }");
    assert_eq!(e, InterpError::Parse(ParseError::StrayClose));
}

#[test]
fn empty_source_gives_empty_stack() {
    let st = run_ok("");
    assert_eq!(st.stack, vec![]);
    assert_eq!(st.output, Vec::<String>::new());
}

#[test]
fn kind_mismatch_fails() {
    let e = run_err("u32_1 u64_2 +");
    assert_eq!(
        e,
        InterpError::Runtime(RuntimeError::KindMismatch(NumKind::U32, NumKind::U64))
    );
}

#[test]
fn unsigned_overflow_fails() {
    let e = run_err("u8_200 u8_100 +");
    assert_eq!(e, InterpError::Runtime(RuntimeError::Overflow(NumKind::U8)));
}

#[test]
fn signed_division_truncates_toward_zero() {
    let st = run_ok("i32_-7 i32_3 /");
    assert_eq!(st.stack, vec![Value::Number(Number::I32(-2))]);
}

#[test]
fn signed_min_division_overflow_fails() {
    let e = run_err("i8_-128 i8_-1 /");
    assert_eq!(e, InterpError::Runtime(RuntimeError::Overflow(NumKind::I8)));
}

#[test]
fn subtraction_and_multiplication() {
    let st = run_ok("u64_17 u64_5 - u64_2 *");
    assert_eq!(st.stack, vec![Value::Number(Number::U64(24))]);
}

#[test]
fn arithmetic_on_non_numbers_fails() {
    let e = run_err("true false +");
    assert_eq!(e, InterpError::Runtime(RuntimeError::WrongType));
}

#[test]
fn pop_on_empty_stack_fails() {
    let e = run_err("+");
    assert_eq!(e, InterpError::Runtime(RuntimeError::StackEmpty));
}

#[test]
fn unknown_word_fails() {
    let e = run_err("nope");
    assert_eq!(
        e,
        InterpError::Runtime(RuntimeError::UnknownWord("nope".to_string()))
    );
}

#[test]
fn swap_reverses_top_two() {
    let st = run_ok("u64_1 u64_2 swap");
    assert_eq!(
        st.stack,
        vec![
            Value::Number(Number::U64(2)),
            Value::Number(Number::U64(1)),
        ]
    );
}

#[test]
fn swap_twice_restores_order() {
    let st = run_ok("u64_1 u64_2 swap swap");
    assert_eq!(
        st.stack,
        vec![
            Value::Number(Number::U64(1)),
            Value::Number(Number::U64(2)),
        ]
    );
}

#[test]
fn take_zero_keeps_top_on_top() {
    let st = run_ok("u64_10 u64_20 u64_30 u64_0 take");
    assert_eq!(
        st.stack,
        vec![
            Value::Number(Number::U64(10)),
            Value::Number(Number::U64(20)),
            Value::Number(Number::U64(30)),
        ]
    );
}

#[test]
fn take_depth_minus_one_moves_bottom_to_top() {
    let st = run_ok("u64_10 u64_20 u64_30 u64_2 take");
    assert_eq!(
        st.stack,
        vec![
            Value::Number(Number::U64(20)),
            Value::Number(Number::U64(30)),
            Value::Number(Number::U64(10)),
        ]
    );
}

#[test]
fn take_out_of_range_fails() {
    let e = run_err("u64_1 u64_5 take");
    assert_eq!(e, InterpError::Runtime(RuntimeError::IndexOutOfRange));
}

#[test]
fn take_with_non_u64_index_fails() {
    let e = run_err("u64_1 u32_0 take");
    assert_eq!(e, InterpError::Runtime(RuntimeError::WrongType));
}

#[test]
fn cast_widening_and_back_reproduces_value() {
    let st = run_ok("i8_-5 \"i64\" cast \"i8\" cast");
    assert_eq!(st.stack, vec![Value::Number(Number::I8(-5))]);
}

#[test]
fn cast_to_wider_unsigned() {
    let st = run_ok("u8_7 \"u32\" cast");
    assert_eq!(st.stack, vec![Value::Number(Number::U32(7))]);
}

#[test]
fn cast_out_of_range_fails() {
    let e = run_err("u64_300 \"u8\" cast");
    assert_eq!(
        e,
        InterpError::Runtime(RuntimeError::CastOutOfRange(NumKind::U64, NumKind::U8))
    );
}

#[test]
fn cast_to_unknown_kind_fails() {
    let e = run_err("u64_1 \"f32\" cast");
    assert_eq!(
        e,
        InterpError::Runtime(RuntimeError::UnknownKind("f32".to_string()))
    );
}

#[test]
fn comparison_same_kind() {
    let st = run_ok("u32_1 u32_2 <");
    assert_eq!(st.stack, vec![Value::Boolean(true)]);
    let st2 = run_ok("u32_1 u32_2 >");
    assert_eq!(st2.stack, vec![Value::Boolean(false)]);
    let st3 = run_ok("u32_2 u32_2 >=");
    assert_eq!(st3.stack, vec![Value::Boolean(true)]);
    let st4 = run_ok("u32_3 u32_2 <=");
    assert_eq!(st4.stack, vec![Value::Boolean(false)]);
}

#[test]
fn comparison_of_mismatched_kinds_is_false() {
    let st = run_ok("u32_1 u64_2 <");
    assert_eq!(st.stack, vec![Value::Boolean(false)]);
    let st2 = run_ok("u32_1 u64_2 >");
    assert_eq!(st2.stack, vec![Value::Boolean(false)]);
    let st3 = run_ok("\"a\" u64_2 <=");
    assert_eq!(st3.stack, vec![Value::Boolean(false)]);
}

#[test]
fn equality_is_structural() {
    let st = run_ok("u64_4 u64_4 ==");
    assert_eq!(st.stack, vec![Value::Boolean(true)]);
    let st2 = run_ok("\"ab\" \"ab\" ==");
    assert_eq!(st2.stack, vec![Value::Boolean(true)]);
    let st3 = run_ok("u64_4 u32_4 !=");
    assert_eq!(st3.stack, vec![Value::Boolean(true)]);
}

#[test]
fn quotations_from_identical_text_are_equal() {
    let st = run_ok("{ u64_1 u64_2 } { u64_1 u64_2 } ==");
    assert_eq!(st.stack, vec![Value::Boolean(true)]);
}

#[test]
fn quotations_from_different_text_are_unequal() {
    let st = run_ok("{ u64_1 } { u64_2 } ==");
    assert_eq!(st.stack, vec![Value::Boolean(false)]);
}

#[test]
fn global_bind_then_invoke_runs_quotation() {
    let st = run_ok("{ u64_7 } \"f\" global_bind f");
    assert_eq!(st.stack, vec![Value::Number(Number::U64(7))]);
}

#[test]
fn global_bind_overwrites_silently() {
    let st = run_ok("{ u64_1 } \"f\" global_bind { u64_2 } \"f\" global_bind f");
    assert_eq!(st.stack, vec![Value::Number(Number::U64(2))]);
}

#[test]
fn recursion_hits_depth_limit() {
    let e = run_err("{ rec } \"rec\" global_bind rec");
    assert_eq!(e, InterpError::Runtime(RuntimeError::DepthExceeded));
}

#[test]
fn nested_if_runs_inner_quotation() {
    let st = run_ok("true { true { u64_9 } if } if");
    assert_eq!(st.stack, vec![Value::Number(Number::U64(9))]);
}

#[test]
fn print_pops_and_renders() {
    let st = run_ok("u64_5 print");
    assert_eq!(st.stack, vec![]);
    assert_eq!(st.output, vec!["u64_5".to_string()]);
}

#[test]
fn print_renders_strings_and_booleans() {
    let st = run_ok("\"hi\" print true print i8_-3 print");
    assert_eq!(
        st.output,
        vec![
            "\"hi\"".to_string(),
            "true".to_string(),
            "i8_-3".to_string(),
        ]
    );
}

#[test]
fn debug_renders_whole_stack_without_consuming() {
    let st = run_ok("u64_1 true debug");
    assert_eq!(
        st.stack,
        vec![Value::Number(Number::U64(1)), Value::Boolean(true)]
    );
    assert_eq!(st.output, vec!["[u64_1 true]".to_string()]);
}

#[test]
fn comments_are_skipped() {
    let st = run_ok("u64_1 ;a note; u64_2 +");
    assert_eq!(st.stack, vec![Value::Number(Number::U64(3))]);
}

#[test]
fn unterminated_comment_is_lex_error() {
    let e = run_err(";never closed");
    assert_eq!(e, InterpError::Lex(LexError::UnterminatedComment));
}

#[test]
fn unterminated_string_is_lex_error() {
    let e = run_err("\"never closed");
    assert_eq!(e, InterpError::Lex(LexError::UnterminatedString));
}

#[test]
fn bad_kind_literal_is_lex_error() {
    let e = run_err("i8_999");
    assert_eq!(e, InterpError::Lex(LexError::BadNumber("i8_999".to_string())));
}

#[test]
fn float_literal_is_rejected() {
    let e = run_err("1.5");
    assert_eq!(
        e,
        InterpError::Lex(LexError::FloatUnsupported("1.5".to_string()))
    );
}

#[test]
fn float_kind_prefix_is_rejected() {
    let e = run_err("f64_1");
    assert_eq!(
        e,
        InterpError::Lex(LexError::FloatUnsupported("f64_1".to_string()))
    );
}

#[test]
fn negative_bare_literal_is_float_shaped() {
    let e = run_err("-3");
    assert_eq!(
        e,
        InterpError::Lex(LexError::FloatUnsupported("-3".to_string()))
    );
}

#[test]
fn bare_integer_defaults_to_u64() {
    let st = run_ok("42");
    assert_eq!(st.stack, vec![Value::Number(Number::U64(42))]);
}

#[test]
fn brackets_must_be_whitespace_separated() {
    let e = run_err("{u64_1 }");
    assert_eq!(e, InterpError::Parse(ParseError::StrayClose));
}

#[test]
fn pushed_quotation_is_inert() {
    let st = run_ok("{ u64_1 }");
    assert_eq!(st.stack.len(), 1);
    assert!(matches!(st.stack[0], Value::Function(_)));
}

#[test]
fn print_renders_quotations_in_source_shape() {
    let st = run_ok("{ u64_1 \"s\" } print");
    assert_eq!(st.output, vec!["{ u64_1 \"s\" }".to_string()]);
}

#[test]
fn wide_kind_arithmetic() {
    let st = run_ok("u128_5 u128_6 * i128_-5 i128_5 +");
    assert_eq!(
        st.stack,
        vec![
            Value::Number(Number::U128(30)),
            Value::Number(Number::I128(0)),
        ]
    );
}

#[test]
fn plus_signed_bare_integer_is_u64() {
    let st = run_ok("+5");
    assert_eq!(st.stack, vec![Value::Number(Number::U64(5))]);
}

#[test]
fn least_i64_literal_reads_exactly() {
    let st = run_ok("i64_-9223372036854775808");
    assert_eq!(st.stack, vec![Value::Number(Number::I64(i64::MIN))]);
}

#[test]
fn empty_quotation_runs_as_nothing() {
    let st = run_ok("true { } if");
    assert_eq!(st.stack, vec![]);
}

#[test]
fn string_literals_keep_inner_whitespace() {
    let st = run_ok("\"a b\" print");
    assert_eq!(st.output, vec!["\"a b\"".to_string()]);
}

#[test]
fn word_starting_with_digits_is_an_identifier() {
    let e = run_err("9lives");
    assert_eq!(
        e,
        InterpError::Runtime(RuntimeError::UnknownWord("9lives".to_string()))
    );
}
