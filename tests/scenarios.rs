use rslogo::ast::Value;
use rslogo::error::RSLogoError;
use rslogo::interpreter::Interpreter;
use rslogo::parser::parse_program;

fn run(src: &str) -> (Interpreter, Result<(), RSLogoError>) {
    let program = parse_program(src).expect("program parses");
    let mut interp = Interpreter::new(200, 200);
    let r = interp.execute(&program);
    (interp, r)
}

fn var(interp: &Interpreter, name: &str) -> Option<Value> {
    interp.variables().get(name).cloned()
}

#[test]
fn make_numeric_text_reads_as_number() {
    let (i, r) = run("MAKE \"x \"5\nMAKE \"y + :x 0\n");
    assert!(r.is_ok());
    assert_eq!(var(&i, "x"), Some(Value::Number(5)));
    assert_eq!(var(&i, "y"), Some(Value::Number(5)));
}

#[test]
fn if_runs_body_when_flag_is_true() {
    let (i, r) = run("MAKE \"flag \"TRUE\nIF :flag [ MAKE \"hit 1 ]\n");
    assert!(r.is_ok());
    assert_eq!(var(&i, "flag"), Some(Value::Boolean(true)));
    assert_eq!(var(&i, "hit"), Some(Value::Number(1)));
}

#[test]
fn if_skips_body_when_flag_is_false() {
    let (i, r) = run("MAKE \"flag \"FALSE\nIF :flag [ MAKE \"hit 1 ]\n");
    assert!(r.is_ok());
    assert_eq!(var(&i, "hit"), None);
}

#[test]
fn addassign_on_undefined_variable() {
    let (_, r) = run("ADDASSIGN \"count 1\n");
    match r {
        Err(RSLogoError::UndefinedVariable { variable_name, defined_variables }) => {
            assert_eq!(variable_name, "count");
            assert!(defined_variables.is_empty());
        }
        other => panic!("unexpected {:?}", other),
    }
}

#[test]
fn addassign_adds_to_existing_variable() {
    let (i, r) = run("MAKE \"count 10\nADDASSIGN \"count 1\n");
    assert!(r.is_ok());
    assert_eq!(var(&i, "count"), Some(Value::Number(11)));
}

#[test]
fn addassign_through_indirect_name() {
    let (i, r) = run("MAKE \"count 10\nMAKE \"ptr \"count\nADDASSIGN :ptr 5\n");
    assert!(r.is_ok());
    assert_eq!(var(&i, "count"), Some(Value::Number(15)));
}

#[test]
fn division_by_zero() {
    let (_, r) = run("MAKE \"q / 10 0\n");
    assert!(matches!(r, Err(RSLogoError::DivisionByZero)));
}

#[test]
fn addition_overflow() {
    let (_, r) = run("MAKE \"q + 2147483647 1\n");
    assert!(matches!(r, Err(RSLogoError::Overflow)));
}

#[test]
fn division_rounds_toward_zero() {
    let (i, r) = run("MAKE \"q / -7 2\n");
    assert!(r.is_ok());
    assert_eq!(var(&i, "q"), Some(Value::Number(-3)));
}

#[test]
fn while_loop_runs_three_times() {
    let (i, r) = run("MAKE \"i 0\nMAKE \"n 0\nWHILE LT :i 3 [ MAKE \"i + :i 1 MAKE \"n + :n 1 ]\n");
    assert!(r.is_ok());
    assert_eq!(var(&i, "i"), Some(Value::Number(3)));
    assert_eq!(var(&i, "n"), Some(Value::Number(3)));
}

#[test]
fn procedure_sets_global_result() {
    let (i, r) = run("TO double :n\n  MAKE \"result * :n 2\nEND\ndouble 21\n");
    assert!(r.is_ok());
    assert_eq!(var(&i, "result"), Some(Value::Number(42)));
    assert_eq!(var(&i, "n"), None);
}

#[test]
fn procedure_with_bracketed_body() {
    let (i, r) = run("TO double :n [ MAKE \"result * :n 2 ] END\ndouble 21\n");
    assert!(r.is_ok(), "{:?}", r);
    assert_eq!(var(&i, "result"), Some(Value::Number(42)));
}

#[test]
fn unbound_marked_parameter_binds_its_name() {
    let (i, r) = run("TO f :z\nMAKE \"got :z\nEND\nf 4\n");
    assert!(r.is_ok(), "{:?}", r);
    assert_eq!(var(&i, "got"), Some(Value::Number(4)));
}

#[test]
fn procedure_call_with_wrong_arity() {
    let (_, r) = run("TO f :a\nPENUP\nEND\nf\n");
    match r {
        Err(RSLogoError::InvalidArgument { command, argument, expected }) => {
            assert_eq!(command, "procedure call");
            assert_eq!(argument, "0 arguments");
            assert_eq!(expected, "1 arguments");
        }
        other => panic!("unexpected {:?}", other),
    }
}

#[test]
fn unknown_procedure() {
    let (_, r) = run("nothere 1\n");
    match r {
        Err(RSLogoError::InvalidArgument { command, argument, expected }) => {
            assert_eq!(command, "procedure call");
            assert_eq!(argument, "nothere");
            assert_eq!(expected, "a defined procedure name");
        }
        other => panic!("unexpected {:?}", other),
    }
}

#[test]
fn pen_color_out_of_range() {
    let (_, r) = run("SETPENCOLOR 16\n");
    match r {
        Err(RSLogoError::InvalidArgument { command, argument, expected }) => {
            assert_eq!(command, "SETPENCOLOR");
            assert_eq!(argument, "16");
            assert_eq!(expected, "an integer between 0 and 15");
        }
        other => panic!("unexpected {:?}", other),
    }
}

#[test]
fn text_argument_that_is_not_a_number() {
    let (_, r) = run("FORWARD \"abc\n");
    match r {
        Err(RSLogoError::UnexpectedValue { expected, got }) => {
            assert_eq!(expected, "a number");
            assert_eq!(got, "abc");
        }
        other => panic!("unexpected {:?}", other),
    }
}

#[test]
fn equality_of_number_and_non_numeric_text() {
    let (_, r) = run("MAKE \"b EQ 1 \"abc\n");
    assert!(matches!(r, Err(RSLogoError::TypeMismatch)));
}

#[test]
fn text_equality_ignores_case() {
    let (i, r) = run("MAKE \"b EQ \"abc \"ABC\n");
    assert!(r.is_ok());
    assert_eq!(var(&i, "b"), Some(Value::Boolean(true)));
}

#[test]
fn undefined_variable_lists_defined_names() {
    let (_, r) = run("MAKE \"a 1\nMAKE \"b 2\nFORWARD :zz\n");
    match r {
        Err(RSLogoError::UndefinedVariable { variable_name, defined_variables }) => {
            assert_eq!(variable_name, "zz");
            assert_eq!(defined_variables, vec!["a".to_string(), "b".to_string()]);
        }
        other => panic!("unexpected {:?}", other),
    }
}

#[test]
fn endless_loop_stops_at_step_limit() {
    let program = parse_program("WHILE TRUE [ PENUP ]\n").unwrap();
    let mut interp = Interpreter::new(100, 100);
    let r = interp.execute_with_fuel(&program, 5);
    assert!(matches!(r, Err(RSLogoError::StepLimit)));
}

#[test]
fn same_program_runs_the_same_twice() {
    let src = "MAKE \"s 3\nPENDOWN\nFORWARD 20\nRIGHT 15\nTURN 30\nSETPENCOLOR 2\nADDASSIGN \"s 4\n";
    let (a, ra) = run(src);
    let (b, rb) = run(src);
    assert!(ra.is_ok() && rb.is_ok());
    assert_eq!(a.turtle().get_x(), b.turtle().get_x());
    assert_eq!(a.turtle().get_y(), b.turtle().get_y());
    assert_eq!(a.turtle().get_heading(), b.turtle().get_heading());
    assert_eq!(a.turtle().get_pen_color(), b.turtle().get_pen_color());
    assert_eq!(a.variables().get_all_names(), b.variables().get_all_names());
    assert_eq!(var(&a, "s"), Some(Value::Number(7)));
    assert_eq!(var(&a, "s"), var(&b, "s"));
}

#[test]
fn forward_moves_up_from_the_middle() {
    let (i, r) = run("FORWARD 10\n");
    assert!(r.is_ok());
    assert_eq!(i.turtle().get_x(), 100);
    assert_eq!(i.turtle().get_y(), 90);
}

#[test]
fn drawing_line_ends_where_movement_does() {
    let (i, r) = run("PENDOWN\nSETHEADING 90\nFORWARD 25\n");
    assert!(r.is_ok());
    assert_eq!(i.turtle().get_x(), 125);
    assert_eq!(i.turtle().get_y(), 100);
}

#[test]
fn right_with_negative_distance_still_goes_right() {
    let (i, r) = run("RIGHT -10\n");
    assert!(r.is_ok());
    assert_eq!(i.turtle().get_x(), 110);
    assert_eq!(i.turtle().get_y(), 100);
}

#[test]
fn back_with_negative_distance_goes_forward() {
    let (i, r) = run("BACK -10\n");
    assert!(r.is_ok());
    assert_eq!(i.turtle().get_y(), 90);
}

#[test]
fn queries_read_the_turtle() {
    let (i, r) = run("SETX 7\nSETY 9\nTURN 45\nSETPENCOLOR 3\nMAKE \"x XCOR\nMAKE \"y YCOR\nMAKE \"h HEADING\nMAKE \"c COLOR\n");
    assert!(r.is_ok());
    assert_eq!(var(&i, "x"), Some(Value::Number(7)));
    assert_eq!(var(&i, "y"), Some(Value::Number(9)));
    assert_eq!(var(&i, "h"), Some(Value::Number(45)));
    assert_eq!(var(&i, "c"), Some(Value::Number(3)));
}

#[test]
fn start_color_is_white() {
    let (i, r) = run("MAKE \"c COLOR\n");
    assert!(r.is_ok());
    assert_eq!(var(&i, "c"), Some(Value::Number(7)));
}

#[test]
fn movement_far_from_the_image_still_works() {
    let (i, r) = run("SETX 10000000\nFORWARD 1\n");
    assert!(r.is_ok());
    assert_eq!(i.turtle().get_x(), 10000000);
    assert_eq!(i.turtle().get_y(), 99);
}

#[test]
fn movement_too_far_is_a_draw_error() {
    let (i, r) = run("SETX 20000000\nFORWARD 1\n");
    assert!(matches!(r, Err(RSLogoError::DrawError(_))));
    assert_eq!(i.turtle().get_y(), 100);
}

#[test]
fn colon_parameter_takes_its_name_at_definition() {
    let (i, r) = run("MAKE \"pname \"len\nTO p :pname\nFORWARD :len\nMAKE \"seen :len\nEND\np 5\n");
    assert!(r.is_ok(), "{:?}", r);
    assert_eq!(var(&i, "seen"), Some(Value::Number(5)));
    assert_eq!(i.turtle().get_y(), 95);
}

#[test]
fn binary_result_is_pushed() {
    let program = parse_program("MAKE \"x + 1 2\n").unwrap();
    let mut interp = Interpreter::new(100, 100);
    interp.execute(&program).unwrap();
    assert_eq!(interp.stack().len(), 2);
    assert_eq!(interp.stack().top(), Some(&Value::Number(3)));
}

#[test]
fn indirect_name_reads_parameter_frame_first() {
    let (i, r) = run("MAKE \"p \"g\nMAKE \"g 1\nMAKE \"h 10\nTO f \"p\nADDASSIGN :p 5\nEND\nf \"h\n");
    assert!(r.is_ok(), "{:?}", r);
    assert_eq!(var(&i, "h"), Some(Value::Number(15)));
    assert_eq!(var(&i, "g"), Some(Value::Number(1)));
}

#[test]
fn indirect_name_holding_truth_value() {
    let (_, r) = run("MAKE \"k \"TRUE\nADDASSIGN :k 1\n");
    match r {
        Err(RSLogoError::UnexpectedValue { expected, got }) => {
            assert_eq!(expected, "a string or number");
            assert_eq!(got, "TRUE");
        }
        other => panic!("unexpected {:?}", other),
    }
}

#[test]
fn failed_commands_leave_state_as_it_was() {
    let (i, r) = run("MAKE \"a 1\nSETPENCOLOR 3\nFORWARD 10\nSETPENCOLOR 99\nMAKE \"b 2\n");
    assert!(matches!(r, Err(RSLogoError::InvalidArgument { .. })));
    assert_eq!(var(&i, "a"), Some(Value::Number(1)));
    assert_eq!(var(&i, "b"), None);
    assert_eq!(i.turtle().get_pen_color(), 3);
    assert_eq!(i.turtle().get_y(), 90);
    let (i, r) = run("MAKE \"c 2147483647\nADDASSIGN \"c 1\n");
    assert!(matches!(r, Err(RSLogoError::Overflow)));
    assert_eq!(var(&i, "c"), Some(Value::Number(2147483647)));
    let (i, r) = run("ADDASSIGN \"count 1\n");
    assert!(r.is_err());
    assert!(i.variables().get_all_names().is_empty());
}

#[test]
fn non_ascii_names_are_names() {
    let (i, r) = run("MAKE \"héllo 3\n");
    assert!(r.is_ok());
    assert_eq!(var(&i, "héllo"), Some(Value::Number(3)));
}

#[test]
fn definition_time_parameter_name() {
    let (i, r) = run("TO setit :k\nMAKE \"got :k\nEND\nsetit 4\n");
    assert!(r.is_ok());
    assert_eq!(var(&i, "got"), Some(Value::Number(4)));
}
