use rslogo::ast::{Command, Expression, Operator, Value};
use rslogo::error::RSLogoError;
use rslogo::parser::parse_program;

fn invalid_argument(src: &str) -> (String, String, String) {
    match parse_program(src) {
        Err(RSLogoError::InvalidArgument { command, argument, expected }) => (command, argument, expected),
        other => panic!("unexpected {:?}", other),
    }
}

#[test]
fn extra_argument_forward() {
    let (c, a, e) = invalid_argument("FORWARD 10 20\n");
    assert_eq!(c, "FORWARD");
    assert_eq!(a, "");
    assert_eq!(e, "only one argument");
}

#[test]
fn extra_argument_sety() {
    let (c, _, e) = invalid_argument("SETY 1 + 1 2\n");
    assert_eq!(c, "SETY");
    assert_eq!(e, "only one argument");
}

#[test]
fn extra_argument_penup() {
    let (c, _, e) = invalid_argument("PENUP 5\n");
    assert_eq!(c, "PENUP");
    assert_eq!(e, "no arguments");
}

#[test]
fn extra_argument_addassign() {
    let (c, _, e) = invalid_argument("ADDASSIGN \"a 1 2\n");
    assert_eq!(c, "ADDASSIGN");
    assert_eq!(e, "only two arguments");
}

#[test]
fn stray_end_reports_its_line() {
    match parse_program("FORWARD 10\nEND\n") {
        Err(RSLogoError::ParseError { span, message, .. }) => {
            assert!(message.contains("line 2 "), "{}", message);
            assert_eq!(span, (11, 3));
        }
        other => panic!("unexpected {:?}", other),
    }
}

#[test]
fn stray_end_on_first_line() {
    match parse_program("END") {
        Err(RSLogoError::ParseError { input, span, message }) => {
            assert_eq!(input, "END");
            assert_eq!(span, (0, 3));
            assert_eq!(
                message,
                "Found 'END' command on line 1 without matching 'TO' procedure definition. Each 'END' must be paired with a 'TO' procedure definition."
            );
        }
        other => panic!("unexpected {:?}", other),
    }
}

#[test]
fn unterminated_definition_names_procedure_and_count() {
    match parse_program("TO f\nFORWARD 10\nLEFT 5\n") {
        Err(RSLogoError::ParseError { input, span, message }) => {
            assert_eq!(message, "Unterminated procedure definition 'f': Expected 'END' keyword after 2 commands");
            assert_eq!(input, "FORWARD 10\nLEFT 5\n");
            assert_eq!(span, (5, 18));
        }
        other => panic!("unexpected {:?}", other),
    }
}

#[test]
fn leftover_text_is_end_of_file_error() {
    match parse_program("]") {
        Err(RSLogoError::ParseError { input, span, message }) => {
            assert_eq!(input, "]");
            assert_eq!(span, (0, 1));
            assert_eq!(message, "Parse error: End of file");
        }
        other => panic!("unexpected {:?}", other),
    }
}

#[test]
fn byte_offsets_count_utf8_bytes() {
    match parse_program("MAKE \"é 1\nEND") {
        Err(RSLogoError::ParseError { span, message, .. }) => {
            assert_eq!(span, (11, 3));
            assert!(message.contains("line 2 "));
        }
        other => panic!("unexpected {:?}", other),
    }
}

#[test]
fn blank_source_is_empty_program() {
    assert_eq!(parse_program("").unwrap().commands.len(), 0);
    assert_eq!(parse_program(" \n\t\u{a0}\n").unwrap().commands.len(), 0);
}

#[test]
fn comments_are_skipped() {
    let p = parse_program("// start\nFORWARD 1 // go\nPENUP\n").unwrap();
    assert_eq!(p.commands, vec![Command::Forward(Expression::Value(Value::Number(1))), Command::PenUp]);
}

#[test]
fn parses_binary_expression() {
    let p = parse_program("FORWARD + 1 * 2 :x").unwrap();
    let expected = Command::Forward(Expression::BinaryOp(
        Operator::Add,
        Box::new(Expression::Value(Value::Number(1))),
        Box::new(Expression::BinaryOp(
            Operator::Multiply,
            Box::new(Expression::Value(Value::Number(2))),
            Box::new(Expression::Value(Value::Variable("x".to_string()))),
        )),
    ));
    assert_eq!(p.commands, vec![expected]);
}

#[test]
fn parses_literals() {
    let p = parse_program("MAKE \"a-b TRUE\nMAKE \"n -12\nMAKE \"q XCOR\n").unwrap();
    assert_eq!(
        p.commands,
        vec![
            Command::Make(
                Expression::Value(Value::String("a-b".to_string())),
                Expression::Value(Value::Boolean(true))
            ),
            Command::Make(Expression::Value(Value::String("n".to_string())), Expression::Value(Value::Number(-12))),
            Command::Make(Expression::Value(Value::String("q".to_string())), Expression::Query("XCOR".to_string())),
        ]
    );
}

#[test]
fn parses_definition_and_call() {
    let p = parse_program("TO box :size \"label\n FORWARD :size\nEND\nbox 5 6\n").unwrap();
    assert_eq!(
        p.commands,
        vec![
            Command::ProcedureDefinition {
                name: "box".to_string(),
                parameters: vec![":size".to_string(), "label".to_string()],
                body: vec![Command::Forward(Expression::Value(Value::Variable("size".to_string())))],
            },
            Command::ProcedureCall {
                name: "box".to_string(),
                arguments: vec![Expression::Value(Value::Number(5)), Expression::Value(Value::Number(6))],
            },
        ]
    );
}

#[test]
fn bracketed_body_without_end_is_unterminated() {
    match parse_program("TO f [ PENUP PENDOWN ]\n") {
        Err(RSLogoError::ParseError { message, .. }) => {
            assert_eq!(message, "Unterminated procedure definition 'f': Expected 'END' keyword after 2 commands");
        }
        other => panic!("unexpected {:?}", other),
    }
}

#[test]
fn parses_nested_blocks() {
    let p = parse_program("IF TRUE [ WHILE FALSE [ PENDOWN ] ]").unwrap();
    assert_eq!(
        p.commands,
        vec![Command::If(
            Expression::Value(Value::Boolean(true)),
            vec![Command::While(Expression::Value(Value::Boolean(false)), vec![Command::PenDown])]
        )]
    );
}

#[test]
fn error_inside_block_surfaces() {
    let (c, _, e) = invalid_argument("IF TRUE [ LEFT 1 2 ]\n");
    assert_eq!(c, "LEFT");
    assert_eq!(e, "only one argument");
}

#[test]
fn number_too_large_is_not_a_number_literal() {
    let big = parse_program("FORWARD 2147483648").unwrap();
    assert_eq!(
        big.commands,
        vec![
            Command::ProcedureCall { name: "FORWARD".to_string(), arguments: vec![] },
            Command::ProcedureCall { name: "2147483648".to_string(), arguments: vec![] },
        ]
    );
    let p = parse_program("FORWARD -2147483648").unwrap();
    assert_eq!(p.commands, vec![Command::Forward(Expression::Value(Value::Number(i32::MIN)))]);
}
