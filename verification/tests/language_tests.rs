use lux::error::LoxResult;
use lux::{run, RunOutcome};

fn output_of(source: &str) -> Vec<String> {
    match run(source) {
        RunOutcome::Ran { output, ok, errors } => {
            assert!(ok, "runtime errors: {:?}", errors);
            output
        },
        RunOutcome::ScanError(e) => panic!("scan error: {:?}", e),
        RunOutcome::ParseErrors(es) => panic!("parse errors: {:?}", es),
    }
}

fn runtime_error_of(source: &str) -> LoxResult {
    match run(source) {
        RunOutcome::Ran { ok, mut errors, .. } => {
            assert!(!ok);
            assert_eq!(errors.len(), 1);
            errors.pop().unwrap()
        },
        other => panic!("expected a runtime error, got {:?}", outcome_name(&other)),
    }
}

fn outcome_name(r: &RunOutcome) -> &'static str {
    match r {
        RunOutcome::ScanError(_) => "scan error",
        RunOutcome::ParseErrors(_) => "parse errors",
        RunOutcome::Ran { .. } => "ran",
    }
}

fn runtime_message(source: &str) -> String {
    match runtime_error_of(source) {
        LoxResult::RuntimeError { message, .. } => message,
        other => panic!("expected a runtime error value, got {:?}", other),
    }
}

#[test]
fn precedence_multiplication_binds_tighter() {
    assert_eq!(output_of("print 2 + 3 * 4;"), vec!["14"]);
    assert_eq!(output_of("print (2 + 3) * 4;"), vec!["20"]);
}

#[test]
fn concatenation_association_gives_same_text() {
    let out = output_of("print (\"a\"+\"b\")+\"c\"; print \"a\"+(\"b\"+\"c\");");
    assert_eq!(out, vec!["abc", "abc"]);
}

#[test]
fn shadowing_in_a_block_leaves_the_outer_binding() {
    assert_eq!(output_of("var x = 1; { var x = 2; } print x;"), vec!["1"]);
    assert_eq!(output_of("var x = 1; { var x = 2; print x; } print x;"), vec!["2", "1"]);
}

#[test]
fn closure_observes_later_mutation_not_a_snapshot() {
    let out = output_of("var a = 1; { fun show() { print a; } a = 3; show(); }");
    assert_eq!(out, vec!["3"]);
    let out2 = output_of("var x = 1; fun f() { print x; } x = 2; f();");
    assert_eq!(out2, vec!["2"]);
}

#[test]
fn function_without_return_yields_nil() {
    assert_eq!(output_of("fun f(){ print 1; } print f();"), vec!["1", "nil"]);
}

#[test]
fn zero_is_truthy_and_nil_is_falsy() {
    assert_eq!(output_of("if (0) print \"yes\"; else print \"no\";"), vec!["yes"]);
    assert_eq!(output_of("if (nil) print \"yes\"; else print \"no\";"), vec!["no"]);
    assert_eq!(output_of("if (\"\") print \"yes\"; else print \"no\";"), vec!["yes"]);
}

#[test]
fn two_syntax_errors_are_both_reported_and_nothing_runs() {
    match run("var 1 = 2; print ;") {
        RunOutcome::ParseErrors(es) => assert_eq!(es.len(), 2),
        other => panic!("expected parse errors, got {}", outcome_name(&other)),
    }
}

#[test]
fn calling_a_non_callable_is_a_runtime_error() {
    assert_eq!(
        runtime_message("var x = 1; x(1);"),
        "Can only call functions and classes."
    );
}

#[test]
fn wrong_argument_count_is_a_runtime_error() {
    assert_eq!(
        runtime_message("fun f(a){ print a; } f(1, 2);"),
        "Expected 1 arguments but got 2."
    );
}

#[test]
fn assignment_to_an_undefined_name_is_a_runtime_error() {
    let e = runtime_error_of("x = 1;");
    match e {
        LoxResult::RuntimeError { token, message } => {
            assert_eq!(token.lexeme, "x");
            assert_eq!(message, "Undefined variable x .");
        },
        other => panic!("expected a runtime error value, got {:?}", other),
    }
}

#[test]
fn assignment_after_declaration_is_visible_in_nested_blocks() {
    assert_eq!(output_of("var x; x = 1; { print x; }"), vec!["1"]);
    assert_eq!(output_of("var x = 0; { x = 5; } print x;"), vec!["5"]);
}

#[test]
fn reading_an_undefined_name_is_a_runtime_error() {
    assert_eq!(runtime_message("print ghost;"), "Undefined variable ghost.");
}

#[test]
fn while_loop_runs_and_break_leaves_it() {
    let out = output_of("var i = 0; while (i < 5) { i = i + 1; if (i == 3) break; } print i;");
    assert_eq!(out, vec!["3"]);
    let out2 = output_of("var i = 0; while (i < 4) { i = i + 1; } print i;");
    assert_eq!(out2, vec!["4"]);
}

#[test]
fn recursion_with_return_values() {
    let out = output_of(
        "fun fib(n){ if (n < 2) return n; return fib(n - 1) + fib(n - 2); } print fib(10);",
    );
    assert_eq!(out, vec!["55"]);
}

#[test]
fn short_circuit_logic_returns_the_deciding_operand() {
    let out = output_of("print 1 or 2; print nil and 3; print nil or 2; print 1 and 3;");
    assert_eq!(out, vec!["1", "nil", "2", "3"]);
}

#[test]
fn number_and_string_concatenate_through_plus() {
    assert_eq!(output_of("print 1 + \"a\"; print \"a\" + 1;"), vec!["1a", "a1"]);
}

#[test]
fn division_by_zero_is_a_runtime_error() {
    assert_eq!(runtime_message("print 1 / 0;"), "Division by zero.");
}

#[test]
fn negating_a_string_is_a_runtime_error() {
    assert_eq!(runtime_message("print -\"a\";"), "Operand must be a number.");
}

#[test]
fn mismatched_operands_name_the_right_error() {
    assert_eq!(runtime_message("print true + 1;"), "Operands must be two numbers or two strings.");
    assert_eq!(runtime_message("print true + false;"), "Operands must be numbers.");
}

#[test]
fn nil_equality_follows_the_table() {
    let out = output_of("print nil == nil; print nil == 1; print nil != 1; print 1 == nil;");
    assert_eq!(out, vec!["true", "false", "true", "false"]);
}

#[test]
fn function_values_compare_by_identity() {
    let out = output_of("fun f(){} fun g(){} var a = f; print a == f; print f == g;");
    assert_eq!(out, vec!["true", "false"]);
}

#[test]
fn break_outside_a_loop_is_a_syntax_error() {
    match run("break;") {
        RunOutcome::ParseErrors(es) => assert_eq!(es.len(), 1),
        other => panic!("expected parse errors, got {}", outcome_name(&other)),
    }
}

#[test]
fn return_outside_a_function_is_a_syntax_error() {
    match run("return 1;") {
        RunOutcome::ParseErrors(es) => assert_eq!(es.len(), 1),
        other => panic!("expected parse errors, got {}", outcome_name(&other)),
    }
}

#[test]
fn runtime_error_stops_the_remaining_statements() {
    match run("print 1; print ghost; print 2;") {
        RunOutcome::Ran { output, ok, errors } => {
            assert!(!ok);
            assert_eq!(output, vec!["1"]);
            assert_eq!(errors.len(), 1);
        },
        other => panic!("expected a run, got {}", outcome_name(&other)),
    }
}

#[test]
fn closures_capture_their_definition_scope_not_the_call_site() {
    let out = output_of(
        "var x = \"global\"; { fun show() { print x; } { var x = \"inner\"; show(); } }",
    );
    assert_eq!(out, vec!["global"]);
}

#[test]
fn callable_renders_as_opaque_text() {
    assert_eq!(output_of("fun f(){} print f;"), vec!["<callable>"]);
}

#[test]
fn several_parameters_bind_positionally() {
    let out = output_of("fun add3(a, b, c) { return a + b + c; } print add3(1, 2, 3);");
    assert_eq!(out, vec!["6"]);
}

#[test]
fn a_closure_keeps_its_own_mutable_state() {
    let out = output_of(
        "fun make() { var c = 0; fun inc() { c = c + 1; print c; } return inc; } \
         var i = make(); i(); i();",
    );
    assert_eq!(out, vec!["1", "2"]);
}

#[test]
fn assignment_is_an_expression_with_the_assigned_value() {
    assert_eq!(output_of("var x; print x = 7; print x;"), vec!["7", "7"]);
}

#[test]
fn calls_chain_left_associatively() {
    let out = output_of(
        "fun twice() { fun inner() { return 9; } return inner; } print twice()();",
    );
    assert_eq!(out, vec!["9"]);
}

#[test]
fn unary_minus_nests_and_binds_tighter_than_binary() {
    assert_eq!(output_of("print --3; print -3 + 5; print -(3 + 5);"), vec!["3", "2", "-8"]);
}

#[test]
fn empty_source_runs_to_nothing() {
    match run("") {
        RunOutcome::Ran { output, ok, errors } => {
            assert!(ok);
            assert!(output.is_empty());
            assert!(errors.is_empty());
        },
        other => panic!("expected a run, got {}", outcome_name(&other)),
    }
    match run("   \n\t // only a comment\n/* and a block */") {
        RunOutcome::Ran { output, ok, errors } => {
            assert!(ok);
            assert!(output.is_empty());
            assert!(errors.is_empty());
        },
        other => panic!("expected a run, got {}", outcome_name(&other)),
    }
}

#[test]
fn at_most_one_runtime_error_is_recorded() {
    match run("print ghost; print spook;") {
        RunOutcome::Ran { ok, errors, .. } => {
            assert!(!ok);
            assert_eq!(errors.len(), 1);
        },
        other => panic!("expected a run, got {}", outcome_name(&other)),
    }
}
