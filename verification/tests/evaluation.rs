use uvl::interp::UvlInterpreter;
use uvl::value::{UvlError, UvlValue};

fn eval_one(source: &str) -> Result<UvlValue, UvlError> {
    let mut interp = UvlInterpreter::new(true);
    interp.run("test", source)
}

fn expect_num(source: &str, expected: f64) {
    match eval_one(source) {
        Ok(UvlValue::Num(b)) => assert_eq!(b, expected.to_bits(), "source: {}", source),
        other => panic!("expected a number for {}, got {:?}", source, other.is_ok()),
    }
}

#[test]
fn numeric_literal_parses_exactly() {
    expect_num("1", 1.0);
    expect_num("12.5", 12.5);
    expect_num("0.1", 0.1);
    expect_num("1234567890.0987654321", 1234567890.0987654321);
}

#[test]
fn let_binding_then_read() {
    let mut interp = UvlInterpreter::new(true);
    interp.run("test", "let x = 1;").unwrap();
    match interp.run("test", "x") {
        Ok(UvlValue::Num(b)) => assert_eq!(b, 1.0f64.to_bits()),
        _ => panic!("expected Num(1)"),
    }
}

#[test]
fn redeclaration_fails_with_name_error() {
    let mut interp = UvlInterpreter::new(true);
    interp.run("test", "let x = 1;").unwrap();
    match interp.run("test", "let x = 2;") {
        Err(UvlError::NameError(m)) => assert!(m.contains("Name 'x' is already defined")),
        _ => panic!("expected a name error"),
    }
}

#[test]
fn mutable_binding_can_be_assigned() {
    let mut interp = UvlInterpreter::new(true);
    interp.run("test", "let mut x = 1;").unwrap();
    match interp.run("test", "x = 2;") {
        Ok(UvlValue::Num(b)) => assert_eq!(b, 1.0f64.to_bits()),
        _ => panic!("assignment hands back the previous value"),
    }
    match interp.run("test", "x") {
        Ok(UvlValue::Num(b)) => assert_eq!(b, 2.0f64.to_bits()),
        _ => panic!("expected Num(2)"),
    }
}

#[test]
fn immutable_binding_rejects_assignment() {
    let mut interp = UvlInterpreter::new(true);
    interp.run("test", "let y = 1;").unwrap();
    match interp.run("test", "y = 2;") {
        Err(UvlError::NameError(m)) => assert!(m.contains("Name 'y' is immutable")),
        _ => panic!("expected a name error"),
    }
}

#[test]
fn assignment_to_undeclared_name_fails() {
    match eval_one("z = 1") {
        Err(UvlError::NameError(m)) => assert!(m.contains("Name 'z' is not defined")),
        _ => panic!("expected a name error"),
    }
}

#[test]
fn undeclared_variable_read_fails() {
    match eval_one("ghostly") {
        Err(UvlError::NameError(m)) => assert!(m.contains("Name 'ghostly' is not defined")),
        _ => panic!("expected a name error"),
    }
}

#[test]
fn block_shadowing_leaves_outer_binding() {
    let mut interp = UvlInterpreter::new(true);
    interp.run("test", "let x = 1;").unwrap();
    interp.run("test", "{ let x = 2; }").unwrap();
    match interp.run("test", "x") {
        Ok(UvlValue::Num(b)) => assert_eq!(b, 1.0f64.to_bits()),
        _ => panic!("shadowing must not touch the outer binding"),
    }
}

#[test]
fn block_assignment_to_outer_binding_persists() {
    let mut interp = UvlInterpreter::new(true);
    interp.run("test", "let mut a = 1;").unwrap();
    interp.run("test", "{ a = 2; }").unwrap();
    match interp.run("test", "a") {
        Ok(UvlValue::Num(b)) => assert_eq!(b, 2.0f64.to_bits()),
        _ => panic!("assignment through a block must persist"),
    }
}

#[test]
fn block_bindings_do_not_leak() {
    let mut interp = UvlInterpreter::new(true);
    interp.run("test", "{ let inner = 1; }").unwrap();
    match interp.run("test", "inner") {
        Err(UvlError::NameError(_)) => (),
        _ => panic!("block bindings must be discarded on exit"),
    }
}

#[test]
fn addition_of_numbers() {
    expect_num("1 + 1", 2.0);
}

#[test]
fn addition_of_strings_concatenates() {
    match eval_one("\"a\" + \"b\"") {
        Ok(UvlValue::Str(s)) => assert_eq!(s, "ab"),
        _ => panic!("expected Str(ab)"),
    }
}

#[test]
fn addition_of_mixed_shapes_fails() {
    match eval_one("1 + \"a\"") {
        Err(UvlError::UnsupportedOperator(m)) => {
            assert!(m.contains("Operator '+' is not supported for"));
            assert!(m.contains("of type Number"));
            assert!(m.contains("of type String"));
        },
        _ => panic!("expected an unsupported-operator error"),
    }
}

#[test]
fn division_by_zero_fails() {
    match eval_one("1 / 0") {
        Err(UvlError::RuntimeError(m)) => assert!(m.contains("Division by zero")),
        _ => panic!("expected a runtime error"),
    }
}

#[test]
fn division_yields_fraction() {
    expect_num("1 / 2", 0.5);
}

#[test]
fn grouping_overrides_precedence() {
    expect_num("(1 + 2) * 3", 9.0);
    expect_num("1 + 2 * 3", 7.0);
}

#[test]
fn subtraction_is_left_associative() {
    expect_num("1 - 2 - 3", -4.0);
}

#[test]
fn comparisons_yield_booleans() {
    assert!(matches!(eval_one("1 < 2"), Ok(UvlValue::Bool(true))));
    assert!(matches!(eval_one("2 <= 2"), Ok(UvlValue::Bool(true))));
    assert!(matches!(eval_one("1 > 2"), Ok(UvlValue::Bool(false))));
    assert!(matches!(eval_one("2 >= 3"), Ok(UvlValue::Bool(false))));
}

#[test]
fn equality_is_structural() {
    assert!(matches!(eval_one("1 == 1"), Ok(UvlValue::Bool(true))));
    assert!(matches!(eval_one("\"a\" == \"a\""), Ok(UvlValue::Bool(true))));
    assert!(matches!(eval_one("nil == nil"), Ok(UvlValue::Bool(true))));
    assert!(matches!(eval_one("1 == \"1\""), Ok(UvlValue::Bool(false))));
}

#[test]
fn inequality_negates_equality() {
    assert!(matches!(eval_one("1 != 2"), Ok(UvlValue::Bool(true))));
    assert!(matches!(eval_one("1 != 1"), Ok(UvlValue::Bool(false))));
}

#[test]
fn boolean_and_nil_literals() {
    assert!(matches!(eval_one("true"), Ok(UvlValue::Bool(true))));
    assert!(matches!(eval_one("false"), Ok(UvlValue::Bool(false))));
    assert!(matches!(eval_one("nil"), Ok(UvlValue::Nil)));
}

#[test]
fn unary_negation() {
    expect_num("-3", -3.0);
    expect_num("--3", 3.0);
}

#[test]
fn unary_bang_is_unsupported() {
    match eval_one("!true") {
        Err(UvlError::UnsupportedOperator(m)) => assert!(m.contains("Unsupported operator Bang")),
        _ => panic!("expected an unsupported-operator error"),
    }
}

#[test]
fn unary_minus_on_string_is_unsupported() {
    match eval_one("-\"a\"") {
        Err(UvlError::UnsupportedOperator(m)) => {
            assert!(m.contains("Operator '-' is not supported for \"a\" of type String"))
        },
        _ => panic!("expected an unsupported-operator error"),
    }
}

#[test]
fn println_collects_output() {
    let mut interp = UvlInterpreter::new(false);
    let r = interp.run("test", "let x = 2; println x + x; println \"hi\";");
    assert!(matches!(r, Ok(UvlValue::Nil)));
    assert_eq!(interp.output.len(), 2);
    assert_eq!(interp.output[0], "4");
    assert_eq!(interp.output[1], "\"hi\"");
}

#[test]
fn script_stops_at_first_error() {
    let mut interp = UvlInterpreter::new(false);
    let r = interp.run("test", "println 1; println boom; println 2;");
    assert!(matches!(r, Err(UvlError::NameError(_))));
    assert_eq!(interp.output.len(), 1);
}

#[test]
fn parse_error_missing_close_paren() {
    match eval_one("(1") {
        Err(UvlError::ParseError(m)) => assert_eq!(
            m,
            "File \"<test>\", line 0, in <root>\n\tError: Expect ')' after expression at end"
        ),
        _ => panic!("expected a parse error"),
    }
}

#[test]
fn parse_error_invalid_assignment_target() {
    match eval_one("1 = 2") {
        Err(UvlError::ParseError(m)) => assert!(m.contains("Invalid assignment value")),
        _ => panic!("expected a parse error"),
    }
}

#[test]
fn parse_error_missing_terminator_in_script_mode() {
    let mut interp = UvlInterpreter::new(false);
    match interp.run("test", "1 + 1") {
        Err(UvlError::ParseError(m)) => assert!(m.contains("Expect ';' after expression")),
        _ => panic!("expected a parse error"),
    }
}

#[test]
fn parse_error_missing_close_brace() {
    let mut interp = UvlInterpreter::new(false);
    match interp.run("test", "{ let x = 1;") {
        Err(UvlError::ParseError(m)) => assert!(m.contains("Expect '}' after block")),
        _ => panic!("expected a parse error"),
    }
}

#[test]
fn parse_error_let_without_identifier() {
    match eval_one("let = 1;") {
        Err(UvlError::ParseError(m)) => assert!(m.contains("Expect identifier after let")),
        _ => panic!("expected a parse error"),
    }
}

#[test]
fn parse_error_let_without_initializer() {
    match eval_one("let x;") {
        Err(UvlError::ParseError(m)) => assert!(m.contains("Expect initialization")),
        _ => panic!("expected a parse error"),
    }
}

#[test]
fn reset_keeps_bindings() {
    let mut interp = UvlInterpreter::new(true);
    interp.run("test", "let kept = 5;").unwrap();
    interp.reset();
    match interp.run("test", "kept") {
        Ok(UvlValue::Num(b)) => assert_eq!(b, 5.0f64.to_bits()),
        _ => panic!("reset must not clear bindings"),
    }
}

#[test]
fn comment_is_ignored_in_evaluation() {
    expect_num("1 + 1 // trailing words", 2.0);
}

#[test]
fn value_display_renderings() {
    assert_eq!(UvlValue::Str(String::from("ab")).display_string(), "\"ab\"");
    assert_eq!(UvlValue::Bool(true).display_string(), "true");
    assert_eq!(UvlValue::Bool(false).display_string(), "false");
    assert_eq!(UvlValue::Nil.display_string(), "()");
    assert_eq!(UvlValue::Num(0.5f64.to_bits()).display_string(), "0.5");
}

#[test]
fn value_type_names() {
    assert_eq!(UvlValue::Str(String::new()).type_str(), "String");
    assert_eq!(UvlValue::Num(0).type_str(), "Number");
    assert_eq!(UvlValue::Bool(true).type_str(), "Bool");
    assert_eq!(UvlValue::Nil.type_str(), "Nil");
}

#[test]
fn apply_operator_directly() {
    let ctx = uvl::ast::Ctx {
        file: String::from("test"),
        line: 0,
        module: String::from("root"),
    };
    let one = UvlValue::Num(1.0f64.to_bits());
    let two = UvlValue::Num(2.0f64.to_bits());
    let r = one.apply_operator(&ctx, &uvl::token::TokenType::Plus, Some(&two));
    match r {
        Ok(UvlValue::Num(b)) => assert_eq!(b, 3.0f64.to_bits()),
        _ => panic!("expected Num(3)"),
    }
    let r2 = one.apply_operator(&ctx, &uvl::token::TokenType::Comma, Some(&two));
    match r2 {
        Err(UvlError::UnsupportedOperator(m)) => assert!(m.contains("Comma is not supported")),
        _ => panic!("expected an unsupported-operator error"),
    }
}

#[test]
fn environment_scoping_operations() {
    let mut env = uvl::envr::Environment::new();
    let name = String::from("x");
    assert!(!env.contains(&name));
    env.define(&name, true, UvlValue::Num(1.0f64.to_bits()));
    assert!(env.contains(&name));
    match env.get(&name) {
        Some(b) => {
            assert!(b.is_mutable);
            assert!(matches!(b.value, UvlValue::Num(n) if n == 1.0f64.to_bits()));
        },
        None => panic!("binding must be found"),
    }
    env.push_frame();
    assert!(!env.contains(&name));
    env.define(&name, false, UvlValue::Num(2.0f64.to_bits()));
    match env.get(&name) {
        Some(b) => assert!(matches!(b.value, UvlValue::Num(n) if n == 2.0f64.to_bits())),
        None => panic!("shadowed binding must be found"),
    }
    env.pop_frame();
    match env.get(&name) {
        Some(b) => assert!(matches!(b.value, UvlValue::Num(n) if n == 1.0f64.to_bits())),
        None => panic!("outer binding must survive the child frame"),
    }
    env.assign(&name, UvlValue::Num(9.0f64.to_bits()));
    match env.get(&name) {
        Some(b) => {
            assert!(b.is_mutable);
            assert!(matches!(b.value, UvlValue::Num(n) if n == 9.0f64.to_bits()));
        },
        None => panic!("assigned binding must be found"),
    }
}

#[test]
fn empty_interactive_input_yields_nil() {
    assert!(matches!(eval_one(""), Ok(UvlValue::Nil)));
}
