//! The global frame: the built-in arithmetic functions `+`, `-`, `*` and `/`.
use crate::interpreter::Error;
use crate::priorities;
use crate::state::{variable_in_frames, Frame, State, Variable};
use crate::typing::{
    function_definition_of, function_type_of, Direction, Function, FunctionDefinition,
    FunctionType, FunctionTypeView, Identifier, IdentifierView, MagicFunction, PriorityLayer, Type,
    TypeView, Value,
};
use std::rc::Rc;
use vstd::prelude::*;

verus! {

/// The type of a built-in arithmetic function of priority `priority`: it
/// takes an integer `a` from the left and returns a function, one priority
/// higher, that takes an integer `b` from the right and returns an integer.
pub open spec fn arithmetic_type(priority: i64) -> FunctionTypeView {
    FunctionTypeView {
        direction: Direction::Left,
        priority: seq![PriorityLayer::Finite(priority)],
        input: seq![IdentifierView { id_type: TypeView::Int, name: seq!['a'] }],
        output: Box::new(
            TypeView::Function(
                FunctionTypeView {
                    direction: Direction::Right,
                    priority: seq![PriorityLayer::Finite((priority + 1) as i64)],
                    input: seq![IdentifierView { id_type: TypeView::Int, name: seq!['b'] }],
                    output: Box::new(TypeView::Int),
                },
            ),
        ),
    }
}

/// `v` is an unchangeable variable holding a built-in function of type `ty` doing `op`.
pub open spec fn is_magic_variable(v: Variable, ty: FunctionTypeView, op: MagicFunction) -> bool {
    &&& !v.is_mutable()
    &&& match v.value() {
        Value::Function(f) => function_type_of(*f) == ty && function_definition_of(*f)
            == FunctionDefinition::Magic(op),
        _ => false,
    }
}

/// The bindings of the global frame: `+`, `-`, `*` and `/`, in that order.
pub open spec fn is_global_bindings(bindings: Seq<(Seq<char>, Variable)>) -> bool {
    &&& bindings.len() == 4
    &&& bindings[0].0 == seq!['+']
    &&& is_magic_variable(bindings[0].1, arithmetic_type(priorities::binary_op::ADD_SUB), MagicFunction::Add)
    &&& bindings[1].0 == seq!['-']
    &&& is_magic_variable(bindings[1].1, arithmetic_type(priorities::binary_op::ADD_SUB), MagicFunction::Sub)
    &&& bindings[2].0 == seq!['*']
    &&& is_magic_variable(bindings[2].1, arithmetic_type(priorities::binary_op::MUL_DIV), MagicFunction::Mul)
    &&& bindings[3].0 == seq!['/']
    &&& is_magic_variable(bindings[3].1, arithmetic_type(priorities::binary_op::MUL_DIV), MagicFunction::Div)
}

/// The global frame.
pub fn global_frame() -> (r: Frame)
    ensures
        is_global_bindings(r.bindings()),
{
    proof {
        reveal_strlit("+");
        reveal_strlit("-");
        reveal_strlit("*");
        reveal_strlit("/");
        assert("+"@ =~= seq!['+']);
        assert("-"@ =~= seq!['-']);
        assert("*"@ =~= seq!['*']);
        assert("/"@ =~= seq!['/']);
    }
    let variables = vec![
        ("+".to_owned(), fn_add()),
        ("-".to_owned(), fn_sub()),
        ("*".to_owned(), fn_mul()),
        ("/".to_owned(), fn_div()),
    ];
    let ghost b = crate::state::bindings_view(variables@);
    assert(b[0].0 == seq!['+']);
    assert(b[1].0 == seq!['-']);
    assert(b[2].0 == seq!['*']);
    assert(b[3].0 == seq!['/']);
    assert(crate::state::names_distinct(b)) by {
        assert forall|i: int, j: int| 0 <= i < b.len() && 0 <= j < b.len() && i != j implies #[trigger] b[i].0
            != #[trigger] b[j].0 by {
            assert(b[i].0[0] != b[j].0[0]);
        }
    }
    Frame::new(variables)
}

/// An unchangeable variable holding a function of the given type and definition.
fn function(type_info: FunctionType, definition: FunctionDefinition) -> (r: Variable)
    ensures
        !r.is_mutable(),
        r.value() matches Value::Function(f) && function_type_of(*f) == type_info@
            && function_definition_of(*f) == definition,
{
    Variable::new(Value::Function(Rc::new(Function::new(type_info, definition))))
}

/// The type shared by the built-in arithmetic functions.
fn arithmetic_function_type(priority: i64) -> (r: FunctionType)
    requires
        priority < i64::MAX,
    ensures
        r@ == arithmetic_type(priority),
{
    proof {
        reveal_strlit("a");
        reveal_strlit("b");
        assert("a"@ =~= seq!['a']);
        assert("b"@ =~= seq!['b']);
    }
    let a = Identifier::new(Type::Int, "a");
    assert(a@ == IdentifierView { id_type: TypeView::Int, name: seq!['a'] });
    let mut left = Vec::new();
    left.push(a);
    let b = Identifier::new(Type::Int, "b");
    assert(b@ == IdentifierView { id_type: TypeView::Int, name: seq!['b'] });
    let mut right = Vec::new();
    right.push(b);
    assert(crate::typing::identifiers_view(left@) =~= seq![
        IdentifierView { id_type: TypeView::Int, name: seq!['a'] },
    ]);
    assert(crate::typing::identifiers_view(right@) =~= seq![
        IdentifierView { id_type: TypeView::Int, name: seq!['b'] },
    ]);
    FunctionType::curry_lr(priority, Type::Int, left, right)
}

fn fn_add() -> (r: Variable)
    ensures
        is_magic_variable(r, arithmetic_type(priorities::binary_op::ADD_SUB), MagicFunction::Add),
{
    function(
        arithmetic_function_type(priorities::binary_op::ADD_SUB),
        FunctionDefinition::Magic(MagicFunction::Add),
    )
}

fn fn_sub() -> (r: Variable)
    ensures
        is_magic_variable(r, arithmetic_type(priorities::binary_op::ADD_SUB), MagicFunction::Sub),
{
    function(
        arithmetic_function_type(priorities::binary_op::ADD_SUB),
        FunctionDefinition::Magic(MagicFunction::Sub),
    )
}

fn fn_mul() -> (r: Variable)
    ensures
        is_magic_variable(r, arithmetic_type(priorities::binary_op::MUL_DIV), MagicFunction::Mul),
{
    function(
        arithmetic_function_type(priorities::binary_op::MUL_DIV),
        FunctionDefinition::Magic(MagicFunction::Mul),
    )
}

fn fn_div() -> (r: Variable)
    ensures
        is_magic_variable(r, arithmetic_type(priorities::binary_op::MUL_DIV), MagicFunction::Div),
{
    function(
        arithmetic_function_type(priorities::binary_op::MUL_DIV),
        FunctionDefinition::Magic(MagicFunction::Div),
    )
}

/// The integer that `name` holds in a stack of frames, or why there is none.
pub open spec fn int_argument(frames: Seq<Seq<(Seq<char>, Variable)>>, name: Seq<char>) -> Result<
    i64,
    Error,
> {
    match variable_in_frames(frames, name) {
        None => Err(Error::MissingVariableError),
        Some(v) => match v.value() {
            Value::Int(x) => Ok(x),
            _ => Err(Error::TypeError),
        },
    }
}

/// The quotient of integer division rounded toward zero, as Rust's `/` on integers computes it.
pub open spec fn quotient_toward_zero(a: int, b: int) -> int {
    if a == 0 {
        0
    } else if a > 0 && b > 0 {
        a / b
    } else if a < 0 && b < 0 {
        (a * -1) / (b * -1)
    } else if a < 0 {
        ((a * -1) / b) * -1
    } else {
        (a / (b * -1)) * -1
    }
}

/// What a built-in operation computes from the integers `a` and `b`.
pub open spec fn magic_value(op: MagicFunction, a: i64, b: i64) -> Result<int, Error> {
    match op {
        MagicFunction::Add => Ok(a + b),
        MagicFunction::Sub => Ok(a - b),
        MagicFunction::Mul => Ok(a * b),
        MagicFunction::Div => if b == 0 {
            Err(Error::DivideByZeroError)
        } else {
            Ok(quotient_toward_zero(a as int, b as int))
        },
    }
}

/// Whether the arithmetic of a built-in operation, on the arguments found, stays within `i64`.
pub open spec fn magic_call_fits(op: MagicFunction, frames: Seq<Seq<(Seq<char>, Variable)>>) -> bool {
    forall|a: i64, b: i64|
        int_argument(frames, seq!['a']) == Ok::<i64, Error>(a) && int_argument(frames, seq!['b'])
            == Ok::<i64, Error>(b) ==> (#[trigger] magic_value(op, a, b) matches Ok(v) ==> i64::MIN
            <= v <= i64::MAX)
}

/// What a built-in operation returns: it reads the integers `a` and `b`
/// (failing on the first that is missing or not an integer) and computes.
pub open spec fn magic_result(op: MagicFunction, frames: Seq<Seq<(Seq<char>, Variable)>>) -> Result<
    Value,
    Error,
> {
    match int_argument(frames, seq!['a']) {
        Err(e) => Err(e),
        Ok(a) => match int_argument(frames, seq!['b']) {
            Err(e) => Err(e),
            Ok(b) => match magic_value(op, a, b) {
                Ok(v) => Ok(Value::Int(v as i64)),
                Err(e) => Err(e),
            },
        },
    }
}

/// `q` is `a / b` rounded toward zero: the remainder `a - q * b` is smaller
/// than `b` in size and has the sign of `a`.
pub open spec fn is_truncated_quotient(a: int, b: int, q: int) -> bool {
    let r = a - q * b;
    &&& (if r < 0 { -r } else { r }) < (if b < 0 { -b } else { b })
    &&& a >= 0 ==> r >= 0
    &&& a <= 0 ==> r <= 0
}

/// Rust's integer division rounds toward zero.
pub proof fn lemma_quotient_toward_zero(a: int, b: int)
    requires
        b != 0,
    ensures
        is_truncated_quotient(a, b, quotient_toward_zero(a, b)),
{
    let q = quotient_toward_zero(a, b);
    if a == 0 {
    } else if a > 0 && b > 0 {
        assert(0 <= a - (a / b) * b < b) by (nonlinear_arith)
            requires
                a > 0,
                b > 0,
        ;
    } else if a < 0 && b < 0 {
        let (x, y) = (a * -1, b * -1);
        assert(0 <= x - (x / y) * y < y) by (nonlinear_arith)
            requires
                x > 0,
                y > 0,
        ;
        assert(a - q * b == -(x - (x / y) * y)) by (nonlinear_arith)
            requires
                x == a * -1,
                y == b * -1,
                q == x / y,
        ;
    } else if a < 0 {
        let x = a * -1;
        assert(0 <= x - (x / b) * b < b) by (nonlinear_arith)
            requires
                x > 0,
                b > 0,
        ;
        assert(a - q * b == -(x - (x / b) * b)) by (nonlinear_arith)
            requires
                x == a * -1,
                q == (x / b) * -1,
        ;
    } else {
        let y = b * -1;
        assert(0 <= a - (a / y) * y < y) by (nonlinear_arith)
            requires
                a > 0,
                y > 0,
        ;
        assert(a - q * b == a - (a / y) * y) by (nonlinear_arith)
            requires
                y == b * -1,
                q == (a / y) * -1,
        ;
    }
}

/// What the built-in `/` returns: the first missing or non-integer argument
/// (`a`, then `b`) is the error; a zero divisor is `DivideByZeroError`;
/// otherwise the quotient of `a` by `b`, rounded toward zero.
pub proof fn lemma_division_results(frames: Seq<Seq<(Seq<char>, Variable)>>)
    requires
        magic_call_fits(MagicFunction::Div, frames),
    ensures
        match (int_argument(frames, seq!['a']), int_argument(frames, seq!['b'])) {
            (Err(e), _) => magic_result(MagicFunction::Div, frames) == Err::<Value, Error>(e),
            (Ok(_), Err(e)) => magic_result(MagicFunction::Div, frames) == Err::<Value, Error>(e),
            (Ok(x), Ok(y)) => if y == 0 {
                magic_result(MagicFunction::Div, frames) == Err::<Value, Error>(
                    Error::DivideByZeroError,
                )
            } else {
                exists|q: i64|
                    magic_result(MagicFunction::Div, frames) == Ok::<Value, Error>(Value::Int(q))
                        && is_truncated_quotient(x as int, y as int, q as int)
            },
        },
{
    if let (Ok(x), Ok(y)) = (int_argument(frames, seq!['a']), int_argument(frames, seq!['b'])) {
        if y != 0 {
            lemma_quotient_toward_zero(x as int, y as int);
            assert(magic_value(MagicFunction::Div, x, y) matches Ok(v) ==> i64::MIN <= v
                <= i64::MAX);
            let q = quotient_toward_zero(x as int, y as int) as i64;
            assert(magic_result(MagicFunction::Div, frames) == Ok::<Value, Error>(Value::Int(q)));
        }
    }
}

/// The built-in `+`, `-` and `*` combine the integer `a`, which they take
/// from their left, with the integer `b`, which the function they return takes
/// from their right: `a + b`, `a - b` (so that adding `b` back gives `a`)
/// and `a * b`. A missing or non-integer argument, `a` first, is the error.
pub proof fn lemma_arithmetic_results(op: MagicFunction, frames: Seq<Seq<(Seq<char>, Variable)>>)
    requires
        op != MagicFunction::Div,
        magic_call_fits(op, frames),
    ensures
        match (int_argument(frames, seq!['a']), int_argument(frames, seq!['b'])) {
            (Err(e), _) => magic_result(op, frames) == Err::<Value, Error>(e),
            (Ok(_), Err(e)) => magic_result(op, frames) == Err::<Value, Error>(e),
            (Ok(x), Ok(y)) => exists|r: i64|
                {
                    &&& magic_result(op, frames) == Ok::<Value, Error>(Value::Int(r))
                    &&& op == MagicFunction::Add ==> r == x + y
                    &&& op == MagicFunction::Sub ==> r + y == x
                    &&& op == MagicFunction::Mul ==> r == x * y
                },
        },
{
    if let (Ok(x), Ok(y)) = (int_argument(frames, seq!['a']), int_argument(frames, seq!['b'])) {
        assert(magic_value(op, x, y) matches Ok(v) ==> i64::MIN <= v <= i64::MAX);
        let v = magic_value(op, x, y)->Ok_0;
        assert(magic_result(op, frames) == Ok::<Value, Error>(Value::Int(v as i64)));
    }
}

/// The integer that `name` holds, or why there is none.
fn get_arg_int<'a>(s: &'a State, name: &str) -> (r: Result<&'a i64, Error>)
    ensures
        match int_argument(s.frames(), name@) {
            Ok(x) => r matches Ok(y) && *y == x,
            Err(e) => r matches Err(f) && f == e,
        },
{
    let variable = match s.get_variable(name) {
        Some(v) => v,
        None => return Err(Error::MissingVariableError),
    };
    let Value::Int(arg) = variable.get() else { return Err(Error::TypeError) };
    Ok(arg)
}

impl MagicFunction {
    /// Runs the built-in operation on the integers `a` and `b` of the state.
    /// The arithmetic must stay within `i64`, where Rust's would overflow.
    pub fn call(&self, s: &State) -> (r: Result<Value, Error>)
        requires
            magic_call_fits(*self, s.frames()),
        ensures
            r == magic_result(*self, s.frames()),
    {
        proof {
            reveal_strlit("a");
            reveal_strlit("b");
            assert("a"@ =~= seq!['a']);
            assert("b"@ =~= seq!['b']);
        }
        let a = match get_arg_int(s, "a") {
            Ok(a) => *a,
            Err(e) => return Err(e),
        };
        let b = match get_arg_int(s, "b") {
            Ok(b) => *b,
            Err(e) => return Err(e),
        };
        let value = match self {
            MagicFunction::Add => {
                a + b
            },
            MagicFunction::Sub => {
                a - b
            },
            MagicFunction::Mul => {
                a * b
            },
            MagicFunction::Div => {
                if b == 0 {
                    return Err(Error::DivideByZeroError);
                }
                match a.checked_div(b) {
                    Some(q) => q,
                    None => {
                        proof {
                            assert(false);
                        }
                        return Err(Error::DivideByZeroError);
                    },
                }
            },
        };
        Ok(Value::Int(value))
    }
}

} // verus!
