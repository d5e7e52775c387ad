use yugolang::global::global_frame;
use yugolang::interpreter::{
    function_to_evaluate, interpret, interpret_as_function, can_interpret_as, EvaluateDetails,
    FunctionInterpretation, Error,
};
use yugolang::parser::{parse, Expression, Scope};
use yugolang::state::State;
use yugolang::typing::{Direction, MagicFunction, Priority, Type, Value};

fn statement_of(scope: &Scope) -> Vec<&Expression> {
    scope.result.as_ref().unwrap().0.iter().collect()
}

fn choice(text: &str) -> Option<(usize, Option<Direction>)> {
    let scope = parse(text).unwrap();
    let expressions = statement_of(&scope);
    let state = State::new();
    function_to_evaluate(&expressions, &state).unwrap().map(|(i, details)| {
        (
            i,
            match details {
                EvaluateDetails::NoArguments(_) => None,
                EvaluateDetails::Arguments(_, d) => Some(d),
            },
        )
    })
}

#[test]
fn the_function_of_highest_priority_goes_first() {
    // `*` (priority -4) before `+` (priority -6), taking `2` from its left
    assert_eq!(choice("3 + 2 * 7"), Some((3, Some(Direction::Left))));
}

#[test]
fn a_function_looks_the_other_way_when_its_side_is_empty() {
    assert_eq!(choice("+ 3 2"), Some((0, Some(Direction::Right))));
    assert_eq!(choice("2 3 +"), Some((2, Some(Direction::Left))));
}

#[test]
fn of_equal_priorities_the_rightmost_leftwards_function_goes_first() {
    assert_eq!(choice("1 + 2 - 3"), Some((3, Some(Direction::Left))));
}

#[test]
fn nothing_is_chosen_without_a_fitting_argument() {
    assert_eq!(choice("\"a\" +"), None);
    assert_eq!(choice("x y"), None);
}

#[test]
fn the_global_frame_holds_the_arithmetic() {
    let state = State::new();
    for name in ["+", "-", "*", "/"] {
        let variable = state.get_variable(name).unwrap();
        assert!(matches!(variable.get(), Value::Function(_)));
    }
    assert!(state.get_variable("x").is_none());
    let plus = state.get_variable("+").unwrap().get().get_type();
    let Type::Function(f) = plus else { panic!("not a function type") };
    assert!(*f.get_priority() == Priority::new(-6));
    assert_eq!(f.get_direction(), Direction::Left);
    let _frame = global_frame();
}

#[test]
fn built_in_arithmetic_needs_its_arguments() {
    let state = State::new();
    assert!(matches!(MagicFunction::Add.call(&state), Err(Error::MissingVariableError)));
    assert!(matches!(MagicFunction::Div.call(&state), Err(Error::MissingVariableError)));
}

#[test]
fn names_and_scopes_read_as_functions() {
    let scope = parse("+ {x} 1 y").unwrap();
    let expressions = statement_of(&scope);
    let state = State::new();
    assert!(matches!(interpret_as_function(expressions[0], &state), Ok(Some(FunctionInterpretation::Function(_)))));
    assert!(matches!(interpret_as_function(expressions[1], &state), Ok(Some(FunctionInterpretation::Scope(_)))));
    assert!(matches!(interpret_as_function(expressions[2], &state), Ok(None)));
    assert!(matches!(interpret_as_function(expressions[3], &state), Ok(None)));
}

#[test]
fn literals_and_names_are_checked_against_types() {
    let scope = parse("1 \"s\" + z").unwrap();
    let expressions = statement_of(&scope);
    let state = State::new();
    assert_eq!(can_interpret_as(expressions[0], &Type::Int, &state).unwrap(), true);
    assert_eq!(can_interpret_as(expressions[0], &Type::String, &state).unwrap(), false);
    assert_eq!(can_interpret_as(expressions[1], &Type::String, &state).unwrap(), true);
    assert_eq!(can_interpret_as(expressions[2], &Type::Int, &state).unwrap(), false);
    assert_eq!(can_interpret_as(expressions[3], &Type::Int, &state).unwrap(), false);
}

#[test]
fn an_empty_program_runs_to_no_value() {
    let scope = parse("").unwrap();
    assert!(matches!(interpret(scope), Ok(None)));
}
