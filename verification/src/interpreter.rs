//! Deciding the order in which the functions of a statement are applied.
//!
//! In a statement, each expression that stands for a function (a name bound
//! to a function or to `()`, or a scope) is a candidate. The candidate of the
//! highest priority that finds an argument of its input type next to it,
//! on its preferred side first, is applied first.
use crate::parser::{Expression, Literal, Scope};
use crate::state::{variable_in_frames, State};
use crate::typing::priority::{self, priority_equal, priority_greater};
use crate::typing::{
    function_type_of, identifiers_view, types_equal, value_type, Direction,
    Function, Identifier, IdentifierView, Priority, PriorityLayer, Type, TypeView, Value,
};
use std::rc::Rc;
use vstd::prelude::*;

verus! {

/// Why interpreting failed.
#[derive(Debug, Clone, Copy, PartialEq, Eq, Structural)]
pub enum Error {
    TypeError,
    MissingVariableError,
    DivideByZeroError,
}

/// Runs a program. Applying a function to its argument is not defined yet
/// (every statement stops there), so only a program without statements and
/// without a result runs to the end, with no value.
pub fn interpret(ast: Scope) -> (r: Result<Option<Value>, Error>)
    requires
        ast.statements@.len() == 0,
        ast.result is None,
    ensures
        r == Ok::<Option<Value>, Error>(None),
{
    let mut state = State::new();
    interpret_scope(ast, &mut state)
}

/// Runs the statements of a scope, then its result. As with `interpret`,
/// only a scope without statements and without a result runs to the end.
fn interpret_scope(scope: Scope, state: &mut State) -> (r: Result<Option<Value>, Error>)
    requires
        scope.statements@.len() == 0,
        scope.result is None,
    ensures
        r == Ok::<Option<Value>, Error>(None),
        final(state).frames() == old(state).frames(),
{
    // no statement to run and no result to compute
    Ok(None)
}

/// `<Rc<Function> as Clone>::clone`: another pointer to the same function.
#[verifier::external_body]
fn rc_function_clone(f: &Rc<Function>) -> (r: Rc<Function>)
    ensures
        r == *f,
{
    Rc::clone(f)
}

/// An expression read as a function.
pub enum FunctionInterpretation<'a> {
    Function(Rc<Function>),
    EmptyScope,
    Scope(&'a Scope),
    ClosureArgs(&'a Scope),
}

/// How a chosen function is applied: without an argument, or to the
/// expression on the given side.
pub enum EvaluateDetails<'a> {
    NoArguments(FunctionInterpretation<'a>),
    Arguments(FunctionInterpretation<'a>, Direction),
}

/// The priority of a function read from an expression.
pub open spec fn interpretation_priority(f: FunctionInterpretation) -> Seq<PriorityLayer> {
    match f {
        FunctionInterpretation::Function(fun) => function_type_of(*fun).priority,
        _ => seq![PriorityLayer::NegativeInfinity],
    }
}

/// The preferred side of a function read from an expression.
pub open spec fn interpretation_direction(f: FunctionInterpretation) -> Direction {
    match f {
        FunctionInterpretation::Function(fun) => function_type_of(*fun).direction,
        _ => Direction::Right,
    }
}

/// The inputs of a function read from an expression.
pub open spec fn interpretation_inputs(f: FunctionInterpretation) -> Seq<IdentifierView> {
    match f {
        FunctionInterpretation::Function(fun) => function_type_of(*fun).input,
        _ => seq![],
    }
}

impl<'a> FunctionInterpretation<'a> {
    /// The priority: the function's own, or the lowest for a scope.
    pub fn get_priority(&self) -> (r: Priority)
        requires
            !(*self is ClosureArgs),
        ensures
            r@ == interpretation_priority(*self),
    {
        match self {
            Self::EmptyScope | Self::Scope(_) => Priority::minus_inf(),
            Self::Function(fun) => fun.get_type().get_priority().duplicate(),
            Self::ClosureArgs(_) => unreached(),
        }
    }

    /// The preferred side: the function's own, or the right for a scope.
    pub fn get_direction(&self) -> (r: Direction)
        requires
            !(*self is ClosureArgs),
        ensures
            r == interpretation_direction(*self),
    {
        match self {
            Self::EmptyScope | Self::Scope(_) => Direction::Right,
            Self::Function(fun) => fun.get_type().get_direction(),
            Self::ClosureArgs(_) => unreached(),
        }
    }

    /// The inputs: the function's own, or none for a scope.
    pub fn get_inputs(&self) -> (r: &[Identifier])
        requires
            !(*self is ClosureArgs),
        ensures
            identifiers_view(r@) == interpretation_inputs(*self),
    {
        match self {
            Self::EmptyScope | Self::Scope(_) => {
                let none: &[Identifier] = &[];
                assert(identifiers_view(none@) =~= seq![]);
                none
            },
            Self::Function(fun) => fun.get_type().get_input(),
            Self::ClosureArgs(_) => unreached(),
        }
    }
}

/// The function that an expression stands for, if any: a name bound to a
/// function or to `()` (an empty scope), or a scope.
pub open spec fn spec_interpret_as_function<'a>(
    expression: &'a Expression,
    frames: Seq<Seq<(Seq<char>, crate::state::Variable)>>,
) -> Option<FunctionInterpretation<'a>> {
    match expression {
        Expression::Identifier(s) => match variable_in_frames(frames, s@) {
            None => None,
            Some(v) => match v.value() {
                Value::Unit => Some(FunctionInterpretation::EmptyScope),
                Value::Function(f) => Some(FunctionInterpretation::Function(f)),
                _ => None,
            },
        },
        Expression::Scope(s) => Some(FunctionInterpretation::Scope(&**s)),
        Expression::ClosureArgs(s) => Some(FunctionInterpretation::ClosureArgs(&**s)),
        Expression::Literal(_) => None,
    }
}

/// Reads an expression as a function, if it stands for one.
pub fn interpret_as_function<'a, 's>(expression: &'a Expression, state: &'s State) -> (r: Result<
    Option<FunctionInterpretation<'a>>,
    Error,
>)
    ensures
        r == Ok::<Option<FunctionInterpretation<'a>>, Error>(
            spec_interpret_as_function(expression, state.frames()),
        ),
{
    Ok(
        Some(
            match expression {
                Expression::Identifier(s) => {
                    let Some(variable) = state.get_variable(s.as_str()) else {
                        return Ok(None)
                    };
                    match variable.get() {
                        Value::Unit => FunctionInterpretation::EmptyScope,
                        Value::Function(f) => FunctionInterpretation::Function(
                            rc_function_clone(f),
                        ),
                        _ => return Ok(None),
                    }
                },
                Expression::Scope(s) => FunctionInterpretation::Scope(&**s),
                Expression::ClosureArgs(s) => FunctionInterpretation::ClosureArgs(&**s),
                _ => return Ok(None),
            },
        ),
    )
}

/// Whether an expression can be checked against a type: a literal or a
/// name can; a scope or a closure argument list cannot yet.
pub open spec fn can_interpret_as_returns(expression: Expression) -> bool {
    expression is Literal || expression is Identifier
}

/// Whether an expression can serve as an argument of the given type: a
/// literal of that type, or a name bound to a value of that type.
pub open spec fn spec_can_interpret_as(
    expression: Expression,
    interpret_type: TypeView,
    frames: Seq<Seq<(Seq<char>, crate::state::Variable)>>,
) -> bool {
    match expression {
        Expression::Literal(Literal::Int(_)) => interpret_type is Int,
        Expression::Literal(Literal::Float(_)) => interpret_type is Float,
        Expression::Literal(Literal::String(_)) => interpret_type is String,
        Expression::Identifier(name) => match variable_in_frames(frames, name@) {
            Some(v) => types_equal(value_type(v.value()), interpret_type),
            None => false,
        },
        _ => false,
    }
}

/// Whether an expression can serve as an argument of the given type.
pub fn can_interpret_as(expression: &Expression, interpret_type: &Type, state: &State) -> (r:
    Result<bool, Error>)
    requires
        can_interpret_as_returns(*expression),
    ensures
        r == Ok::<bool, Error>(spec_can_interpret_as(*expression, interpret_type@, state.frames())),
{
    match expression {
        Expression::Literal(literal) => {
            Ok(
                match literal {
                    Literal::Int(_) => matches!(interpret_type, Type::Int),
                    Literal::Float(_) => matches!(interpret_type, Type::Float),
                    Literal::String(_) => matches!(interpret_type, Type::String),
                },
            )
        },
        Expression::Identifier(ident) => {
            Ok(
                match state.get_variable(ident.as_str()) {
                    Some(var) => var.get().get_type() == *interpret_type,
                    None => false,
                },
            )
        },
        _ => Ok(false),
    }
}

/// How a chosen function is applied, without the function itself.
pub enum DetailsKind {
    NoArguments,
    Arguments(Direction),
}

/// How `details` applies its function.
pub open spec fn details_kind(details: EvaluateDetails) -> DetailsKind {
    match details {
        EvaluateDetails::NoArguments(_) => DetailsKind::NoArguments,
        EvaluateDetails::Arguments(_, d) => DetailsKind::Arguments(d),
    }
}

/// The function that `details` applies.
pub open spec fn details_function<'a>(details: EvaluateDetails<'a>) -> FunctionInterpretation<'a> {
    match details {
        EvaluateDetails::NoArguments(f) => f,
        EvaluateDetails::Arguments(f, _) => f,
    }
}

/// The position next to `index` on the side `d`, computed as the offset of
/// that side added with wrap-around: `index + 1`, or `index - 1` (which
/// wraps round to `usize::MAX` at `0`).
pub open spec fn neighbour_index(index: usize, d: Direction) -> usize {
    match d {
        Direction::Right => if index == usize::MAX {
            0
        } else {
            (index + 1) as usize
        },
        Direction::Left => if index == 0 {
            usize::MAX
        } else {
            (index - 1) as usize
        },
    }
}

/// The expression next to `index` on the side `d`, if there is one.
pub open spec fn neighbour(expressions: Seq<&Expression>, index: usize, d: Direction) -> Option<
    Expression,
> {
    let n = neighbour_index(index, d);
    if n < expressions.len() {
        Some(*expressions[n as int])
    } else {
        None
    }
}

/// Whether the expression next to `index` on the side `d` can serve as an
/// argument of type `ty`.
pub open spec fn neighbour_fits(
    expressions: Seq<&Expression>,
    index: usize,
    d: Direction,
    ty: TypeView,
    frames: Seq<Seq<(Seq<char>, crate::state::Variable)>>,
) -> bool {
    match neighbour(expressions, index, d) {
        Some(e) => spec_can_interpret_as(e, ty, frames),
        None => false,
    }
}

/// Whether checking the expression next to `index` on the side `d` returns.
pub open spec fn neighbour_check_returns(
    expressions: Seq<&Expression>,
    index: usize,
    d: Direction,
    ty: TypeView,
    frames: Seq<Seq<(Seq<char>, crate::state::Variable)>>,
) -> bool {
    match neighbour(expressions, index, d) {
        Some(e) => can_interpret_as_returns(e),
        None => true,
    }
}

/// The other side.
pub open spec fn opposite(d: Direction) -> Direction {
    match d {
        Direction::Right => Direction::Left,
        Direction::Left => Direction::Right,
    }
}

/// Whether finding how to apply `f` at `index` returns: `f` is no closure
/// argument list, takes at most one input, and every neighbour that is
/// checked can be checked.
pub open spec fn evaluate_details_returns(
    expressions: Seq<&Expression>,
    index: usize,
    f: FunctionInterpretation,
    frames: Seq<Seq<(Seq<char>, crate::state::Variable)>>,
) -> bool {
    let inputs = interpretation_inputs(f);
    let d = interpretation_direction(f);
    &&& !(f is ClosureArgs)
    &&& inputs.len() > 0 ==> {
        &&& inputs.len() == 1
        &&& neighbour_check_returns(expressions, index, d, inputs[0].id_type, frames)
        &&& !neighbour_fits(expressions, index, d, inputs[0].id_type, frames)
            ==> neighbour_check_returns(expressions, index, opposite(d), inputs[0].id_type, frames)
    }
}

/// How `f` at `index` is applied: without an argument if it takes none,
/// else to the neighbour on its preferred side if that fits its input, else
/// to the neighbour on the other side if that fits; else it cannot be applied.
pub open spec fn spec_evaluate_details(
    expressions: Seq<&Expression>,
    index: usize,
    f: FunctionInterpretation,
    frames: Seq<Seq<(Seq<char>, crate::state::Variable)>>,
) -> Option<DetailsKind> {
    let inputs = interpretation_inputs(f);
    let d = interpretation_direction(f);
    if inputs.len() == 0 {
        Some(DetailsKind::NoArguments)
    } else if neighbour_fits(expressions, index, d, inputs[0].id_type, frames) {
        Some(DetailsKind::Arguments(d))
    } else if neighbour_fits(expressions, index, opposite(d), inputs[0].id_type, frames) {
        Some(DetailsKind::Arguments(opposite(d)))
    } else {
        None
    }
}

/// Whether the expression on the side `direction` of `index` can serve as an argument of `input_type`.
fn neighbour_can_be_argument(
    expressions: &[&Expression],
    index: usize,
    direction: Direction,
    input_type: &Type,
    state: &State,
) -> (r: Result<bool, Error>)
    requires
        neighbour_check_returns(expressions@, index, direction, input_type@, state.frames()),
    ensures
        r == Ok::<bool, Error>(
            neighbour_fits(expressions@, index, direction, input_type@, state.frames()),
        ),
{
    let position = direction.to_offset().wrapping_add(index);
    assert(position == neighbour_index(index, direction));
    if let Some(expression) = expressions.get(position) {
        can_interpret_as(expression, input_type, state)
    } else {
        Ok(false)
    }
}

/// How to apply `function` at `index`, if it can be applied.
pub fn get_evaluate_details<'a>(
    expressions: &[&Expression],
    index: usize,
    function: FunctionInterpretation<'a>,
    state: &State,
) -> (r: Result<Option<EvaluateDetails<'a>>, Error>)
    requires
        evaluate_details_returns(expressions@, index, function, state.frames()),
    ensures
        r matches Ok(found) && match spec_evaluate_details(
            expressions@,
            index,
            function,
            state.frames(),
        ) {
            Some(kind) => found matches Some(details) && details_kind(details) == kind
                && details_function(details) == function,
            None => found is None,
        },
{
    let direction = function.get_direction();
    let input_types = function.get_inputs();
    if input_types.is_empty() {
        return Ok(Some(EvaluateDetails::NoArguments(function)));
    }
    assert(identifiers_view(input_types@)[0] == input_types@[0]@);
    let input_type = input_types[0].get_type();
    // the preferred side first, then the other one
    let fits = match neighbour_can_be_argument(expressions, index, direction, input_type, state) {
        Ok(fits) => fits,
        Err(e) => return Err(e),
    };
    if fits {
        return Ok(Some(EvaluateDetails::Arguments(function, direction)));
    }
    let direction = direction.other_way();
    let fits = match neighbour_can_be_argument(expressions, index, direction, input_type, state) {
        Ok(fits) => fits,
        Err(e) => return Err(e),
    };
    if fits {
        return Ok(Some(EvaluateDetails::Arguments(function, direction)));
    }
    Ok(None)
}

/// The best candidate found so far: its priority, its position, how it is
/// applied, and the function.
pub type Candidate<'a> = (Seq<PriorityLayer>, usize, DetailsKind, FunctionInterpretation<'a>);

/// Whether a function of priority `p` preferring the side `d` replaces the
/// best candidate so far: its priority is higher, or equal and it looks to
/// the left (so that of equal priorities the rightmost leftwards function
/// wins, and else the leftmost rightwards one).
pub open spec fn replaces_best(p: Seq<PriorityLayer>, d: Direction, best: Option<Candidate>) -> bool {
    match best {
        None => true,
        Some((bp, _, _, _)) => priority_greater(p, bp) || (priority_equal(p, bp) && d
            == Direction::Left),
    }
}

/// Choosing the function to apply, from position `k` of the statement on,
/// where `best` is the best candidate so far. `None` stands for a run that
/// does not return: a closure argument list is met, or a neighbour that
/// must be checked is a scope.
pub open spec fn choose_function_from<'a>(
    expressions: Seq<&'a Expression>,
    frames: Seq<Seq<(Seq<char>, crate::state::Variable)>>,
    k: int,
    best: Option<Candidate<'a>>,
) -> Option<Option<(usize, DetailsKind, FunctionInterpretation<'a>)>>
    decreases expressions.len() - k,
{
    if k < 0 || k >= expressions.len() {
        Some(
            match best {
                Some((_, i, d, f)) => Some((i, d, f)),
                None => None,
            },
        )
    } else {
        match spec_interpret_as_function(expressions[k], frames) {
            None => choose_function_from(expressions, frames, k + 1, best),
            Some(f) => if f is ClosureArgs {
                None
            } else if !replaces_best(
                interpretation_priority(f),
                interpretation_direction(f),
                best,
            ) {
                choose_function_from(expressions, frames, k + 1, best)
            } else if !evaluate_details_returns(expressions, k as usize, f, frames) {
                None
            } else {
                match spec_evaluate_details(expressions, k as usize, f, frames) {
                    Some(d) => choose_function_from(
                        expressions,
                        frames,
                        k + 1,
                        Some((interpretation_priority(f), k as usize, d, f)),
                    ),
                    None => choose_function_from(expressions, frames, k + 1, best),
                }
            },
        }
    }
}

/// The function of a statement to apply first, with its position and how
/// it is applied; `None` if no function can be applied. `None` outside
/// stands for a run that does not return.
pub open spec fn spec_function_to_evaluate<'a>(
    expressions: Seq<&'a Expression>,
    frames: Seq<Seq<(Seq<char>, crate::state::Variable)>>,
) -> Option<Option<(usize, DetailsKind, FunctionInterpretation<'a>)>> {
    choose_function_from(expressions, frames, 0, None)
}

/// The candidate recorded by the search.
pub open spec fn candidate_view<'a>(
    best_value: Option<Priority>,
    best: Option<(usize, EvaluateDetails<'a>)>,
) -> Option<Candidate<'a>> {
    match (best_value, best) {
        (Some(p), Some((i, d))) => Some((p@, i, details_kind(d), details_function(d))),
        _ => None,
    }
}

/// Finds the function of a statement to apply first: the one of the highest
/// priority that can be applied, with how to apply it.
pub fn function_to_evaluate<'a, 's>(expressions: &[&'a Expression], state: &'s State) -> (r:
    Result<Option<(usize, EvaluateDetails<'a>)>, Error>)
    requires
        spec_function_to_evaluate(expressions@, state.frames()) is Some,
    ensures
        r matches Ok(found) && match spec_function_to_evaluate(expressions@, state.frames())->0 {
            Some((i, kind, f)) => found matches Some((fi, details)) && fi == i && details_kind(
                details,
            ) == kind && details_function(details) == f,
            None => found is None,
        },
{
    let ghost frames = state.frames();
    let mut best_value: Option<Priority> = None;
    let mut best: Option<(usize, EvaluateDetails<'a>)> = None;
    let mut index: usize = 0;
    while index < expressions.len()
        invariant
            frames == state.frames(),
            index <= expressions@.len(),
            best_value is Some == best is Some,
            spec_function_to_evaluate(expressions@, frames) == choose_function_from(
                expressions@,
                frames,
                index as int,
                candidate_view(best_value, best),
            ),
            spec_function_to_evaluate(expressions@, frames) is Some,
        decreases expressions@.len() - index,
    {
        let expression = expressions[index];
        let function = match interpret_as_function(expression, state) {
            Ok(Some(function)) => function,
            Ok(None) => {
                index = index + 1;
                continue ;
            },
            Err(e) => return Err(e),
        };
        let priority = function.get_priority();
        // if theres a tie, we want the rightmost leftwards function, or if not then the leftmost rightwards function.
        // therefore, we only take a rightwards function if its a new best and therefore the leftest
        // but we always take a leftwards function, since itll be more rightwards than whatever we had before
        let take = match &best_value {
            None => true,
            Some(b) => priority > *b || (priority == *b && matches!(
                function.get_direction(),
                Direction::Left
            )),
        };
        if take {
            match get_evaluate_details(expressions, index, function, state) {
                Ok(Some(details)) => {
                    best_value = Some(priority);
                    best = Some((index, details));
                },
                Ok(None) => {},
                Err(e) => return Err(e),
            }
        }
        index = index + 1;
    }
    Ok(best)
}

// ---------------------------------------------------------------------
// Which function goes first
// ---------------------------------------------------------------------

/// The priority of the function at position `j`, if one stands there and
/// can be applied there.
pub open spec fn applicable_priority(
    expressions: Seq<&Expression>,
    frames: Seq<Seq<(Seq<char>, crate::state::Variable)>>,
    j: int,
) -> Option<Seq<PriorityLayer>> {
    match spec_interpret_as_function(expressions[j], frames) {
        Some(f) => if !(f is ClosureArgs) && spec_evaluate_details(
            expressions,
            j as usize,
            f,
            frames,
        ) is Some {
            Some(interpretation_priority(f))
        } else {
            None
        },
        None => None,
    }
}

/// The preferred side of the function at position `j`.
pub open spec fn direction_at(
    expressions: Seq<&Expression>,
    frames: Seq<Seq<(Seq<char>, crate::state::Variable)>>,
    j: int,
) -> Direction {
    match spec_interpret_as_function(expressions[j], frames) {
        Some(f) => interpretation_direction(f),
        None => Direction::Right,
    }
}

/// The function at position `j`, if it can be applied, does not go before
/// the one at position `i` of priority `p` preferring the side `d`: its
/// priority is not higher, and of equal priority, a leftwards one stands
/// at or before `i`, and if the one at `i` looks right, all stand at or
/// after `i` and look right.
pub open spec fn goes_after(
    expressions: Seq<&Expression>,
    frames: Seq<Seq<(Seq<char>, crate::state::Variable)>>,
    j: int,
    p: Seq<PriorityLayer>,
    i: int,
    d: Direction,
) -> bool {
    match applicable_priority(expressions, frames, j) {
        None => true,
        Some(q) => !priority_greater(q, p) && (priority_equal(q, p) ==> {
            &&& direction_at(expressions, frames, j) == Direction::Left ==> j <= i
            &&& d == Direction::Right ==> i <= j && direction_at(expressions, frames, j)
                == Direction::Right
        }),
    }
}

/// What the choice among the first `k` positions says: nothing could be
/// applied there, or the candidate stands at one of them, can be applied
/// there as recorded, and every other function there goes after it.
pub open spec fn choice_among(
    expressions: Seq<&Expression>,
    frames: Seq<Seq<(Seq<char>, crate::state::Variable)>>,
    k: int,
    choice: Option<(usize, DetailsKind, FunctionInterpretation)>,
) -> bool {
    match choice {
        None => forall|j: int|
            0 <= j < k ==> #[trigger] applicable_priority(expressions, frames, j) is None,
        Some((i, d, f)) => {
            &&& 0 <= i < k
            &&& spec_interpret_as_function(expressions[i as int], frames) == Some(f)
            &&& !(f is ClosureArgs)
            &&& spec_evaluate_details(expressions, i, f, frames) == Some(d)
            &&& forall|j: int|
                0 <= j < k ==> #[trigger] goes_after(
                    expressions,
                    frames,
                    j,
                    interpretation_priority(f),
                    i as int,
                    interpretation_direction(f),
                )
        },
    }
}

/// The choice that a candidate stands for.
pub open spec fn candidate_choice<'a>(best: Option<Candidate<'a>>) -> Option<
    (usize, DetailsKind, FunctionInterpretation<'a>),
> {
    match best {
        Some((_, i, d, f)) => Some((i, d, f)),
        None => None,
    }
}

/// The priority of a function read from an expression has at least one layer.
proof fn lemma_interpretation_priority_has_a_layer(f: FunctionInterpretation)
    ensures
        interpretation_priority(f).len() >= 1,
{
    if let FunctionInterpretation::Function(fun) = f {
        crate::typing::lemma_function_priority_has_a_layer(fun);
    }
}

/// Of `q` not above `b`, and `p` above `b` or equal to it: `q` is not above
/// `p`, and equal to `p` only if `p` equals `b` and `q` does too.
proof fn lemma_not_above_new_best(q: Seq<PriorityLayer>, b: Seq<PriorityLayer>, p: Seq<PriorityLayer>)
    requires
        q.len() >= 1,
        b.len() >= 1,
        p.len() >= 1,
        !priority_greater(q, b),
        priority_greater(p, b) || priority_equal(p, b),
    ensures
        !priority_greater(q, p),
        priority_equal(q, p) ==> priority_equal(p, b) && priority_equal(q, b),
{
    priority::lemma_priority_order_antisymmetric(p, b);
    priority::lemma_priority_order_antisymmetric(q, b);
    priority::lemma_priority_order_antisymmetric(q, p);
    priority::lemma_priority_order_transitive(q, b, p);
    priority::lemma_priority_order_transitive(b, q, p);
    priority::lemma_priority_order_transitive(p, b, q);
}

proof fn lemma_choose_function_from(
    expressions: Seq<&Expression>,
    frames: Seq<Seq<(Seq<char>, crate::state::Variable)>>,
    k: int,
    best: Option<Candidate>,
)
    requires
        0 <= k <= expressions.len(),
        expressions.len() <= usize::MAX,
        choice_among(expressions, frames, k, candidate_choice(best)),
        best matches Some((p, _, _, f)) ==> p == interpretation_priority(f),
        choose_function_from(expressions, frames, k, best) is Some,
    ensures
        choice_among(
            expressions,
            frames,
            expressions.len() as int,
            choose_function_from(expressions, frames, k, best)->0,
        ),
    decreases expressions.len() - k,
{
    if k < expressions.len() {
        let next = k + 1;
        match spec_interpret_as_function(expressions[k], frames) {
            None => {
                assert(applicable_priority(expressions, frames, k) is None);
                assert(choice_among(expressions, frames, next, candidate_choice(best))) by {
                    if let Some((p, i, d, f)) = best {
                        assert forall|j: int| 0 <= j < next implies #[trigger] goes_after(
                            expressions,
                            frames,
                            j,
                            interpretation_priority(f),
                            i as int,
                            interpretation_direction(f),
                        ) by {
                            if j < k {
                            }
                        }
                    }
                }
                lemma_choose_function_from(expressions, frames, next, best);
            },
            Some(g) => {
                let q = interpretation_priority(g);
                lemma_interpretation_priority_has_a_layer(g);
                if !replaces_best(q, interpretation_direction(g), best) {
                    let (p, i, d, f) = best->0;
                    assert(goes_after(
                        expressions,
                        frames,
                        k,
                        interpretation_priority(f),
                        i as int,
                        interpretation_direction(f),
                    ));
                    assert(choice_among(expressions, frames, next, candidate_choice(best))) by {
                        assert forall|j: int| 0 <= j < next implies #[trigger] goes_after(
                            expressions,
                            frames,
                            j,
                            interpretation_priority(f),
                            i as int,
                            interpretation_direction(f),
                        ) by {
                            if j < k {
                            }
                        }
                    }
                    lemma_choose_function_from(expressions, frames, next, best);
                } else {
                    match spec_evaluate_details(expressions, k as usize, g, frames) {
                        Some(d) => {
                            let new_best = Some((q, k as usize, d, g));
                            priority::lemma_priority_equal_to_itself(q);
                            assert(choice_among(
                                expressions,
                                frames,
                                next,
                                candidate_choice(new_best),
                            )) by {
                                assert forall|j: int| 0 <= j < next implies #[trigger] goes_after(
                                    expressions,
                                    frames,
                                    j,
                                    q,
                                    k,
                                    interpretation_direction(g),
                                ) by {
                                    if j < k {
                                        if let Some((p, i, dd, f)) = best {
                                            assert(goes_after(
                                                expressions,
                                                frames,
                                                j,
                                                interpretation_priority(f),
                                                i as int,
                                                interpretation_direction(f),
                                            ));
                                            lemma_interpretation_priority_has_a_layer(f);
                                            if let Some(r) = applicable_priority(
                                                expressions,
                                                frames,
                                                j,
                                            ) {
                                                let h = spec_interpret_as_function(
                                                    expressions[j],
                                                    frames,
                                                )->0;
                                                lemma_interpretation_priority_has_a_layer(h);
                                                lemma_not_above_new_best(r, p, q);
                                            }
                                        } else {
                                            assert(applicable_priority(expressions, frames, j) is None);
                                        }
                                    }
                                }
                            }
                            lemma_choose_function_from(expressions, frames, next, new_best);
                        },
                        None => {
                            assert(applicable_priority(expressions, frames, k) is None);
                            assert(choice_among(expressions, frames, next, candidate_choice(best)))
                                by {
                                if let Some((p, i, dd, f)) = best {
                                    assert forall|j: int| 0 <= j < next implies #[trigger] goes_after(
                                        expressions,
                                        frames,
                                        j,
                                        interpretation_priority(f),
                                        i as int,
                                        interpretation_direction(f),
                                    ) by {
                                        if j < k {
                                        }
                                    }
                                }
                            }
                            lemma_choose_function_from(expressions, frames, next, best);
                        },
                    }
                }
            },
        }
    }
}

/// The function applied first is one of the highest priority that can be
/// applied: it stands at the chosen position and can be applied there as
/// chosen, and every function that could be applied has no higher priority.
/// Of several of equal priority, the rightmost that looks left goes first,
/// or, if none looks left, the leftmost. If none can be applied, none is chosen.
pub proof fn lemma_highest_priority_goes_first(
    expressions: Seq<&Expression>,
    frames: Seq<Seq<(Seq<char>, crate::state::Variable)>>,
)
    requires
        expressions.len() <= usize::MAX,
        spec_function_to_evaluate(expressions, frames) is Some,
    ensures
        choice_among(
            expressions,
            frames,
            expressions.len() as int,
            spec_function_to_evaluate(expressions, frames)->0,
        ),
{
    lemma_choose_function_from(expressions, frames, 0, None);
}

/// A scope, or a name bound to `()`, read as a function has the lowest
/// first layer: every priority whose first layer is above `NegativeInfinity`
/// comes before it.
pub proof fn lemma_scopes_rank_lowest(f: FunctionInterpretation, p: Seq<PriorityLayer>)
    requires
        !(f is Function),
        p.len() >= 1,
    ensures
        p[0] != PriorityLayer::NegativeInfinity ==> priority_greater(p, interpretation_priority(f)),
{
}

/// A scope is applied first only when every function that could be applied
/// has the lowest priority: any applicable function of a higher priority,
/// such as a built-in operator, goes before it.
pub proof fn lemma_scope_goes_last(
    expressions: Seq<&Expression>,
    frames: Seq<Seq<(Seq<char>, crate::state::Variable)>>,
)
    requires
        expressions.len() <= usize::MAX,
        spec_function_to_evaluate(expressions, frames) matches Some(Some((_, _, f))) && !(
        f is Function),
    ensures
        forall|j: int|
            0 <= j < expressions.len() ==> (#[trigger] applicable_priority(expressions, frames, j)
                matches Some(q) ==> q.len() >= 1 && q[0] == PriorityLayer::NegativeInfinity),
{
    lemma_highest_priority_goes_first(expressions, frames);
    let (i, d, f) = spec_function_to_evaluate(expressions, frames)->0->0;
    assert forall|j: int|
        0 <= j < expressions.len() && (#[trigger] applicable_priority(
            expressions,
            frames,
            j,
        ) matches Some(q)) implies applicable_priority(expressions, frames, j)->0.len() >= 1
        && applicable_priority(expressions, frames, j)->0[0] == PriorityLayer::NegativeInfinity by {
        let q = applicable_priority(expressions, frames, j)->0;
        assert(goes_after(
            expressions,
            frames,
            j,
            interpretation_priority(f),
            i as int,
            interpretation_direction(f),
        ));
        let g = spec_interpret_as_function(expressions[j], frames)->0;
        if let FunctionInterpretation::Function(fun) = g {
            crate::typing::lemma_function_priority_has_a_layer(fun);
        }
        lemma_scopes_rank_lowest(f, q);
    }
}

} // verus!
