use yugolang::state::{State, Variable};
use yugolang::typing::Value;

#[test]
fn a_lookup_gives_back_what_was_written() {
    let mut state = State::new();
    {
        let variable = state.get_variable_mut("+").unwrap();
        *variable.get_mut() = Value::Int(5);
    }
    assert!(matches!(state.get_variable("+").unwrap().get(), Value::Int(5)));
    assert!(matches!(state.get_variable("-").unwrap().get(), Value::Function(_)));
    assert!(state.get_variable_mut("nothing").is_none());
}

#[test]
fn variables_hold_their_values() {
    let fixed = Variable::new(Value::Int(1));
    let changeable = Variable::new_mut(Value::Int(2));
    assert!(matches!(fixed.get(), Value::Int(1)));
    assert!(matches!(changeable.get(), Value::Int(2)));
}
