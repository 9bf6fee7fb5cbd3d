use rslogo::ast::{Command, Operator, Value};
use rslogo::error::RSLogoError;
use rslogo::output::{image_format, ImageFormat};
use rslogo::operators::{add, and, divide, equal, less_than, multiply, not_equal, or, subtract, value_to_bool, value_to_number, greater_than};
use rslogo::procedure::{Procedure, ProcedureManager};
use rslogo::stack::Stack;
use rslogo::text::{int_to_text, parse_int};
use rslogo::turtle::Turtle;
use rslogo::variables::VariableManager;

fn s(t: &str) -> Value {
    Value::String(t.to_string())
}

#[test]
fn parse_int_follows_rust() {
    assert_eq!(parse_int("+5"), Some(5));
    assert_eq!(parse_int("-2147483648"), Some(i32::MIN));
    assert_eq!(parse_int("2147483647"), Some(i32::MAX));
    assert_eq!(parse_int("2147483648"), None);
    assert_eq!(parse_int("00012"), Some(12));
    assert_eq!(parse_int(""), None);
    assert_eq!(parse_int("-"), None);
    assert_eq!(parse_int("12a"), None);
}

#[test]
fn int_to_text_prints_decimal() {
    assert_eq!(int_to_text(-42), "-42");
    assert_eq!(int_to_text(0), "0");
    assert_eq!(int_to_text(i32::MIN), "-2147483648");
}

#[test]
fn coercions() {
    assert_eq!(value_to_number(&s("12")).unwrap(), 12);
    assert_eq!(value_to_number(&Value::Boolean(true)).unwrap(), 1);
    match value_to_number(&s("x")) {
        Err(RSLogoError::UnexpectedValue { expected, got }) => {
            assert_eq!(expected, "a number");
            assert_eq!(got, "x");
        }
        other => panic!("unexpected {:?}", other),
    }
    assert!(matches!(value_to_number(&Value::Variable("v".to_string())), Err(RSLogoError::TypeMismatch)));
    assert_eq!(value_to_bool(&s("true")).unwrap(), true);
    assert_eq!(value_to_bool(&s("FALSE")).unwrap(), false);
    assert_eq!(value_to_bool(&Value::Number(-3)).unwrap(), true);
    assert!(matches!(value_to_bool(&Value::Variable("v".to_string())), Err(RSLogoError::TypeMismatch)));
}

#[test]
fn arithmetic_and_comparison() {
    assert_eq!(add(&Value::Number(2), &s("3")).unwrap(), Value::Number(5));
    assert_eq!(subtract(&Value::Number(2), &Value::Number(3)).unwrap(), Value::Number(-1));
    assert_eq!(multiply(&Value::Number(-4), &Value::Number(3)).unwrap(), Value::Number(-12));
    assert!(matches!(multiply(&Value::Number(65536), &Value::Number(65536)), Err(RSLogoError::Overflow)));
    assert!(matches!(subtract(&Value::Number(i32::MIN), &Value::Number(1)), Err(RSLogoError::Overflow)));
    assert!(matches!(divide(&Value::Number(i32::MIN), &Value::Number(-1)), Err(RSLogoError::Overflow)));
    assert_eq!(divide(&Value::Number(7), &Value::Number(-2)).unwrap(), Value::Number(-3));
    assert_eq!(not_equal(&Value::Number(1), &Value::Boolean(true)).unwrap(), Value::Boolean(false));
    assert_eq!(greater_than(&Value::Number(2), &Value::Number(1)).unwrap(), Value::Boolean(true));
    assert_eq!(less_than(&Value::Number(2), &Value::Number(1)).unwrap(), Value::Boolean(false));
    assert_eq!(and(&Value::Boolean(true), &Value::Number(0)).unwrap(), Value::Boolean(false));
    assert_eq!(or(&Value::Boolean(false), &s("True")).unwrap(), Value::Boolean(true));
    assert_eq!(equal(&Value::Number(5), &s("5")).unwrap(), Value::Boolean(true));
    assert_eq!(equal(&s("5"), &Value::Number(6)).unwrap(), Value::Boolean(false));
    assert_eq!(equal(&Value::Boolean(true), &Value::Boolean(true)).unwrap(), Value::Boolean(true));
    assert!(matches!(equal(&Value::Boolean(true), &Value::Number(1)), Err(RSLogoError::TypeMismatch)));
}

#[test]
fn image_format_by_extension() {
    assert_eq!(image_format("out.svg").unwrap(), ImageFormat::Svg);
    assert_eq!(image_format("dir.v2/pic.png").unwrap(), ImageFormat::Png);
    assert_eq!(image_format("pic.svg/").unwrap(), ImageFormat::Svg);
    for bad in ["pic.jpg", ".svg", "svg", "dir.svg/pic", "pic.SVG", ""] {
        match image_format(bad) {
            Err(RSLogoError::ImageSaveError(m)) => assert_eq!(m, "File extension not supported"),
            other => panic!("unexpected {:?} for {}", other, bad),
        }
    }
}

#[test]
fn apply_pops_right_then_left() {
    let mut st = Stack::new();
    st.push(Value::Number(10));
    st.push(Value::Number(4));
    assert_eq!(Operator::Subtract.apply(&mut st).unwrap(), Value::Number(6));
    assert_eq!(st.len(), 0);
}

#[test]
fn apply_on_short_stack_underflows() {
    let mut st = Stack::new();
    st.push(Value::Number(1));
    assert!(matches!(Operator::Add.apply(&mut st), Err(RSLogoError::StackUnderflow)));
    assert!(matches!(st.pop(), Err(RSLogoError::StackUnderflow)));
}

#[test]
fn variables_normalize_on_set() {
    let mut vars = VariableManager::new();
    vars.set("a", s("true"));
    vars.set("b", s("FaLsE"));
    vars.set("c", s("-17"));
    vars.set("d", s("word"));
    vars.set("a", Value::Number(2));
    assert_eq!(vars.get("a"), Some(&Value::Number(2)));
    assert_eq!(vars.get("b"), Some(&Value::Boolean(false)));
    assert_eq!(vars.get("c"), Some(&Value::Number(-17)));
    assert_eq!(vars.get("d"), Some(&s("word")));
    assert_eq!(vars.get("e"), None);
    assert_eq!(vars.get_all_names(), vec!["a", "b", "c", "d"]);
}

#[test]
fn parameters_are_fixed_at_definition() {
    let mut vars = VariableManager::new();
    vars.set("x", s("size"));
    let mut procs = ProcedureManager::new();
    procs
        .define_procedure("p".to_string(), vec![":x".to_string(), ":y".to_string(), "z".to_string()], vec![Command::PenUp], &mut vars)
        .unwrap();
    let p = procs.get_procedure("p").unwrap();
    assert_eq!(p.get_parameters(), &vec!["size".to_string(), ":y".to_string(), "z".to_string()]);
    assert_eq!(p.get_body(), &vec![Command::PenUp]);
    assert!(procs.get_procedure("q").is_none());
}

#[test]
fn only_text_replaces_a_marked_parameter() {
    let mut vars = VariableManager::new();
    vars.set("x", s("len"));
    vars.set("k", Value::Number(3));
    let mut procs = ProcedureManager::new();
    procs
        .define_procedure(
            "p".to_string(),
            vec![":x".to_string(), "y".to_string(), ":z".to_string(), ":k".to_string()],
            vec![],
            &mut vars,
        )
        .unwrap();
    assert_eq!(
        procs.get_procedure("p").unwrap().get_parameters(),
        &vec!["len".to_string(), "y".to_string(), ":z".to_string(), ":k".to_string()]
    );
}

#[test]
fn marked_parameter_binds_its_name() {
    let mut procs = ProcedureManager::new();
    procs.push_parameters(&[":n".to_string()], vec![Value::Number(21)]).unwrap();
    assert_eq!(procs.get_parameter_value("n"), Some(&Value::Number(21)));
    assert_eq!(procs.get_parameter_value(":n"), None);
}

#[test]
fn parameter_frames_shadow_outer_ones() {
    let mut procs = ProcedureManager::new();
    procs.push_parameters(&["a".to_string(), "b".to_string()], vec![Value::Number(1), Value::Number(2)]).unwrap();
    procs.push_parameters(&["a".to_string()], vec![Value::Number(3)]).unwrap();
    assert_eq!(procs.get_parameter_value("a"), Some(&Value::Number(3)));
    assert_eq!(procs.get_parameter_value("b"), Some(&Value::Number(2)));
    procs.pop_parameters();
    assert_eq!(procs.get_parameter_value("a"), Some(&Value::Number(1)));
    procs.pop_parameters();
    assert_eq!(procs.get_parameter_value("a"), None);
    assert!(matches!(
        procs.push_parameters(&["a".to_string()], vec![]),
        Err(RSLogoError::InvalidArgument { .. })
    ));
}

#[test]
fn procedure_new_keeps_parts() {
    let p = Procedure::new("f".to_string(), vec!["a".to_string()], vec![Command::PenDown]);
    assert_eq!(p.get_parameters(), &vec!["a".to_string()]);
    assert_eq!(p.get_body(), &vec![Command::PenDown]);
}

#[test]
fn turtle_moves_and_turns() {
    let mut t = Turtle::new(100, 60);
    assert_eq!((t.get_x(), t.get_y(), t.get_heading(), t.get_pen_color()), (50, 30, 0, 7));
    t.left(10).unwrap();
    assert_eq!((t.get_x(), t.get_y()), (40, 30));
    t.turn(180).unwrap();
    t.forward(-5).unwrap();
    assert_eq!((t.get_x(), t.get_y()), (40, 25));
    assert!(matches!(t.turn(i32::MAX), Err(RSLogoError::Overflow)));
    assert!(matches!(t.set_pen_color(16), Err(RSLogoError::InvalidArgument { .. })));
    t.set_pen_color(15).unwrap();
    assert_eq!(t.get_pen_color(), 15);
    t.pen_down();
    assert!(t.is_pen_down());
    t.pen_up();
    assert!(!t.is_pen_down());
}
