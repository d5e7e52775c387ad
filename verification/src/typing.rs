//! The types and values of the interpreter.

pub mod priority;
pub mod static_analysis;

use crate::parser::Scope;
use std::rc::Rc;
use vstd::prelude::*;
use vstd::string::StringExecFns;

pub use priority::{Priority, PriorityLayer};

verus! {

/// A value of the language. A float is held as the bits of its IEEE 754
/// binary64 value (`f64::to_bits`).
#[derive(Debug, Clone)]
pub enum Value {
    Unit,
    String(String),
    Int(i64),
    Float(u64),
    Boolean(bool),
    Function(Rc<Function>),
    Identifier(String),
}

/// A function: its type and what it does.
#[derive(Debug)]
pub struct Function {
    type_info: FunctionType,
    definition: FunctionDefinition,
}

/// A typed name.
#[derive(Debug)]
pub struct Identifier {
    id_type: Type,
    name: String,
}

/// The built-in operations that the interpreter provides itself.
#[derive(Debug, Clone, Copy, PartialEq, Eq, Structural)]
pub enum MagicFunction {
    Add,
    Sub,
    Mul,
    Div,
}

/// What a function does: a scope of the language, or a built-in operation.
#[derive(Debug)]
pub enum FunctionDefinition {
    Scope(Scope),
    Magic(MagicFunction),
    MagicCurried(Box<FunctionDefinition>),
}

/// A type of the language.
#[derive(Debug)]
pub enum Type {
    Unit,
    String,
    Int,
    Float,
    Boolean,
    Function(FunctionType),
    Identifier,
}

/// The side on which a function looks first for its argument.
#[derive(Debug, Clone, Copy, PartialEq, Eq, Structural)]
pub enum Direction {
    Right,
    Left,
}

/// The type of a function: the side it prefers, its priority, its inputs and its output.
#[derive(Debug)]
pub struct FunctionType {
    preferred_direction: Direction,
    priority: Priority,
    input: Vec<Identifier>,
    output: Box<Type>,
}

// ---------------------------------------------------------------------
// Mathematical values
// ---------------------------------------------------------------------

/// The mathematical value of a `Type`.
pub enum TypeView {
    Unit,
    String,
    Int,
    Float,
    Boolean,
    Function(FunctionTypeView),
    Identifier,
}

/// The mathematical value of a `FunctionType`.
pub struct FunctionTypeView {
    pub direction: Direction,
    pub priority: Seq<PriorityLayer>,
    pub input: Seq<IdentifierView>,
    pub output: Box<TypeView>,
}

/// The mathematical value of an `Identifier`.
pub struct IdentifierView {
    pub id_type: TypeView,
    pub name: Seq<char>,
}

/// The value of a type.
pub open spec fn type_view(t: Type) -> TypeView
    decreases t,
{
    match t {
        Type::Unit => TypeView::Unit,
        Type::String => TypeView::String,
        Type::Int => TypeView::Int,
        Type::Float => TypeView::Float,
        Type::Boolean => TypeView::Boolean,
        Type::Function(f) => TypeView::Function(function_type_view(f)),
        Type::Identifier => TypeView::Identifier,
    }
}

/// The value of a function type.
pub closed spec fn function_type_view(f: FunctionType) -> FunctionTypeView
    decreases f,
{
    FunctionTypeView {
        direction: f.preferred_direction,
        priority: f.priority@,
        input: identifier_list_view(f.input@),
        output: Box::new(type_view(*f.output)),
    }
}

/// The value of an identifier.
pub closed spec fn identifier_view(i: Identifier) -> IdentifierView
    decreases i,
{
    IdentifierView { id_type: type_view(i.id_type), name: i.name@ }
}

/// The values of a list of identifiers.
pub closed spec fn identifier_list_view(ids: Seq<Identifier>) -> Seq<IdentifierView>
    decreases ids,
{
    if ids.len() == 0 {
        seq![]
    } else {
        identifier_list_view(ids.drop_last()).push(identifier_view(ids.last()))
    }
}

impl View for Type {
    type V = TypeView;

    open spec fn view(&self) -> TypeView {
        type_view(*self)
    }
}

impl View for FunctionType {
    type V = FunctionTypeView;

    open spec fn view(&self) -> FunctionTypeView {
        function_type_view(*self)
    }
}

impl View for Identifier {
    type V = IdentifierView;

    open spec fn view(&self) -> IdentifierView {
        identifier_view(*self)
    }
}

/// The values of a sequence of identifiers.
pub open spec fn identifiers_view(ids: Seq<Identifier>) -> Seq<IdentifierView> {
    ids.map_values(|i: Identifier| i@)
}

proof fn lemma_identifier_list_view(ids: Seq<Identifier>)
    ensures
        identifier_list_view(ids) == identifiers_view(ids),
    decreases ids.len(),
{
    if ids.len() > 0 {
        lemma_identifier_list_view(ids.drop_last());
    }
    assert(identifier_list_view(ids) =~= identifiers_view(ids));
}

/// The type of a function.
pub closed spec fn function_type_of(f: Function) -> FunctionTypeView {
    f.type_info@
}

/// The type of a function has a priority of at least one layer.
pub proof fn lemma_function_priority_has_a_layer(f: Rc<Function>)
    ensures
        function_type_of(*f).priority.len() >= 1,
{
    priority::lemma_priority_has_a_layer(&f.type_info.priority);
}

/// The definition of a function.
pub closed spec fn function_definition_of(f: Function) -> FunctionDefinition {
    f.definition
}

/// The type of a value.
pub open spec fn value_type(v: Value) -> TypeView {
    match v {
        Value::Unit => TypeView::Unit,
        Value::String(_) => TypeView::String,
        Value::Int(_) => TypeView::Int,
        Value::Float(_) => TypeView::Float,
        Value::Boolean(_) => TypeView::Boolean,
        Value::Function(f) => TypeView::Function(function_type_of(*f)),
        Value::Identifier(_) => TypeView::Identifier,
    }
}

// ---------------------------------------------------------------------
// Construction and access
// ---------------------------------------------------------------------

impl Direction {
    /// The offset of the neighbour on this side, to be added with wrap-around
    /// (`usize::MAX` stands for -1).
    pub fn to_offset(&self) -> (r: usize)
        ensures
            r == match *self {
                Direction::Right => 1usize,
                Direction::Left => usize::MAX,
            },
    {
        match self {
            Self::Right => 1,
            Self::Left => usize::MAX,  // meant to be overflowingly added
        }
    }

    /// The other side.
    pub fn other_way(&self) -> (r: Self)
        ensures
            r != *self,
    {
        match self {
            Self::Right => Self::Left,
            Self::Left => Self::Right,
        }
    }
}

impl Value {
    /// The type of a value; a function's type is copied from the function.
    pub fn get_type(&self) -> (r: Type)
        ensures
            r@ == value_type(*self),
    {
        match self {
            Self::Unit => Type::Unit,
            Self::String(_) => Type::String,
            Self::Int(_) => Type::Int,
            Self::Float(_) => Type::Float,
            Self::Boolean(_) => Type::Boolean,
            Self::Function(f) => Type::Function(f.type_info.duplicate()),
            Self::Identifier(_) => Type::Identifier,
        }
    }
}

impl From<&Value> for Type {
    fn from(value: &Value) -> (r: Type)
        ensures
            r@ == value_type(*value),
    {
        value.get_type()
    }
}

// A function type is copied by `from`, so the result is pinned down by its
// value (the `ensures` above), not as one particular `Type`.
impl vstd::std_specs::convert::FromSpecImpl<&Value> for Type {
    open spec fn obeys_from_spec() -> bool {
        false
    }

    open spec fn from_spec(v: &Value) -> Type {
        choose|t: Type| t@ == value_type(*v)
    }
}

impl Function {
    /// A function of the given type and definition.
    pub fn new(type_info: FunctionType, definition: FunctionDefinition) -> (r: Self)
        ensures
            function_type_of(r) == type_info@,
            function_definition_of(r) == definition,
    {
        Self { type_info, definition }
    }

    /// The type of the function.
    pub fn get_type(&self) -> (r: &FunctionType)
        ensures
            r@ == function_type_of(*self),
    {
        &self.type_info
    }
}

impl Identifier {
    /// A name of the given type.
    pub fn new(id_type: Type, name: &str) -> (r: Self)
        ensures
            r@ == (IdentifierView { id_type: id_type@, name: name@ }),
    {
        Self { id_type, name: name.to_owned() }
    }

    /// The type of the name.
    pub fn get_type(&self) -> (r: &Type)
        ensures
            r@ == self@.id_type,
    {
        &self.id_type
    }
}

impl FunctionType {
    /// The type of a scope: no inputs, the lowest priority, looking right.
    pub fn scope(output: Type) -> (r: Self)
        ensures
            r@ == (FunctionTypeView {
                direction: Direction::Right,
                priority: seq![PriorityLayer::NegativeInfinity],
                input: seq![],
                output: Box::new(output@),
            }),
    {
        let r = Self {
            preferred_direction: Direction::Right,
            priority: Priority::minus_inf(),
            input: Vec::new(),
            output: Box::new(output),
        };
        proof {
            lemma_identifier_list_view(r.input@);
        }
        assert(identifiers_view(r.input@) =~= seq![]);
        r
    }

    /// A function type from its parts.
    pub fn new(
        preferred_direction: Direction,
        priority: Priority,
        input: Vec<Identifier>,
        output: Type,
    ) -> (r: Self)
        ensures
            r@ == (FunctionTypeView {
                direction: preferred_direction,
                priority: priority@,
                input: identifiers_view(input@),
                output: Box::new(output@),
            }),
    {
        proof {
            lemma_identifier_list_view(input@);
        }
        Self { preferred_direction, priority, input, output: Box::new(output) }
    }

    /// A function type that looks right first.
    pub fn new_r(priority: Priority, input: Vec<Identifier>, output: Type) -> (r: Self)
        ensures
            r@ == (FunctionTypeView {
                direction: Direction::Right,
                priority: priority@,
                input: identifiers_view(input@),
                output: Box::new(output@),
            }),
    {
        proof {
            lemma_identifier_list_view(input@);
        }
        Self { preferred_direction: Direction::Right, priority, input, output: Box::new(output) }
    }

    /// A function type that looks left first.
    pub fn new_l(priority: Priority, input: Vec<Identifier>, output: Type) -> (r: Self)
        ensures
            r@ == (FunctionTypeView {
                direction: Direction::Left,
                priority: priority@,
                input: identifiers_view(input@),
                output: Box::new(output@),
            }),
    {
        proof {
            lemma_identifier_list_view(input@);
        }
        Self { preferred_direction: Direction::Left, priority, input, output: Box::new(output) }
    }

    /// A function that takes `left` from the left, returning a function one
    /// priority higher (so that it always triggers next) that takes `right`
    /// from the right and returns `output`.
    pub fn curry_lr(priority: i64, output: Type, left: Vec<Identifier>, right: Vec<Identifier>) -> (r:
        FunctionType)
        requires
            priority < i64::MAX,
        ensures
            r@ == (FunctionTypeView {
                direction: Direction::Left,
                priority: seq![PriorityLayer::Finite(priority)],
                input: identifiers_view(left@),
                output: Box::new(
                    TypeView::Function(
                        FunctionTypeView {
                            direction: Direction::Right,
                            priority: seq![PriorityLayer::Finite((priority + 1) as i64)],
                            input: identifiers_view(right@),
                            output: Box::new(output@),
                        },
                    ),
                ),
            }),
    {
        FunctionType::new_l(
            Priority::new(priority),
            left,
            Type::Function(FunctionType::new_r(Priority::new(priority + 1), right, output)),
        )
    }

    /// A function that takes `first` from the right, returning a function of
    /// the same priority that takes `second` from the right.
    pub fn curry_rr(priority: i64, output: Type, first: Vec<Identifier>, second: Vec<Identifier>) -> (r:
        FunctionType)
        ensures
            r@ == (FunctionTypeView {
                direction: Direction::Right,
                priority: seq![PriorityLayer::Finite(priority)],
                input: identifiers_view(first@),
                output: Box::new(
                    TypeView::Function(
                        FunctionTypeView {
                            direction: Direction::Right,
                            priority: seq![PriorityLayer::Finite(priority)],
                            input: identifiers_view(second@),
                            output: Box::new(output@),
                        },
                    ),
                ),
            }),
    {
        FunctionType::new_r(
            Priority::new(priority),
            first,
            Type::Function(FunctionType::new_r(Priority::new(priority), second, output)),
        )
    }

    /// A function that takes `first` from the left, returning a function of
    /// the same priority that takes `second` from the left.
    pub fn curry_ll(priority: i64, output: Type, first: Vec<Identifier>, second: Vec<Identifier>) -> (r:
        FunctionType)
        ensures
            r@ == (FunctionTypeView {
                direction: Direction::Left,
                priority: seq![PriorityLayer::Finite(priority)],
                input: identifiers_view(first@),
                output: Box::new(
                    TypeView::Function(
                        FunctionTypeView {
                            direction: Direction::Left,
                            priority: seq![PriorityLayer::Finite(priority)],
                            input: identifiers_view(second@),
                            output: Box::new(output@),
                        },
                    ),
                ),
            }),
    {
        FunctionType::new_l(
            Priority::new(priority),
            first,
            Type::Function(FunctionType::new_l(Priority::new(priority), second, output)),
        )
    }

    /// The priority.
    pub fn get_priority(&self) -> (r: &Priority)
        ensures
            r@ == self@.priority,
    {
        &self.priority
    }

    /// The inputs.
    pub fn get_input(&self) -> (r: &[Identifier])
        ensures
            identifiers_view(r@) == self@.input,
    {
        proof {
            lemma_identifier_list_view(self.input@);
        }
        self.input.as_slice()
    }

    /// The preferred direction.
    pub fn get_direction(&self) -> (r: Direction)
        ensures
            r == self@.direction,
    {
        self.preferred_direction
    }
}

// ---------------------------------------------------------------------
// Equality of types
// ---------------------------------------------------------------------

/// Whether two types are equal: the same type, and for function types the
/// same direction, equal priorities, equal inputs and equal outputs.
pub open spec fn types_equal(a: TypeView, b: TypeView) -> bool
    decreases a,
{
    match (a, b) {
        (TypeView::Function(x), TypeView::Function(y)) => function_types_equal(x, y),
        (TypeView::Function(_), _) => false,
        (_, TypeView::Function(_)) => false,
        _ => a == b,
    }
}

/// Whether two function types are equal, field by field.
pub open spec fn function_types_equal(a: FunctionTypeView, b: FunctionTypeView) -> bool
    decreases a,
{
    &&& a.direction == b.direction
    &&& priority::priority_equal(a.priority, b.priority)
    &&& identifier_lists_equal(a.input, b.input)
    &&& types_equal(*a.output, *b.output)
}

/// Whether two lists of identifiers are equal, item by item.
pub open spec fn identifier_lists_equal(a: Seq<IdentifierView>, b: Seq<IdentifierView>) -> bool
    decreases a,
{
    if a.len() != b.len() {
        false
    } else if a.len() == 0 {
        true
    } else {
        identifiers_equal(a[0], b[0]) && identifier_lists_equal(a.drop_first(), b.drop_first())
    }
}

/// Whether two identifiers are equal: equal types and the same name.
pub open spec fn identifiers_equal(a: IdentifierView, b: IdentifierView) -> bool
    decreases a,
{
    types_equal(a.id_type, b.id_type) && a.name == b.name
}

proof fn lemma_equal_identifier_lists(a: Seq<IdentifierView>, b: Seq<IdentifierView>)
    requires
        identifier_lists_equal(a, b),
    ensures
        a.len() == b.len(),
        forall|k: int|
            0 <= k < a.len() ==> (#[trigger] a[k]).name == b[k].name && types_equal(
                a[k].id_type,
                b[k].id_type,
            ),
    decreases a.len(),
{
    if a.len() > 0 {
        lemma_equal_identifier_lists(a.drop_first(), b.drop_first());
        assert forall|k: int| 0 <= k < a.len() implies (#[trigger] a[k]).name == b[k].name
            && types_equal(a[k].id_type, b[k].id_type) by {
            if k > 0 {
                assert(a[k] == a.drop_first()[k - 1]);
                assert(b[k] == b.drop_first()[k - 1]);
                assert(a.drop_first()[k - 1].name == b.drop_first()[k - 1].name);
            } else {
                assert(identifiers_equal(a[0], b[0]));
            }
        }
    }
}

/// Equal function types agree in everything: the same preferred side, equal
/// priorities, as many inputs with the same names and equal types, and equal
/// outputs. So two function types whose first priority layers differ are
/// never equal.
pub proof fn lemma_equal_function_types_agree(a: FunctionTypeView, b: FunctionTypeView)
    requires
        types_equal(TypeView::Function(a), TypeView::Function(b)),
    ensures
        a.direction == b.direction,
        priority::priority_equal(a.priority, b.priority),
        a.priority.len() >= 1 && b.priority.len() >= 1 ==> a.priority[0] == b.priority[0],
        a.input.len() == b.input.len(),
        forall|k: int|
            0 <= k < a.input.len() ==> (#[trigger] a.input[k]).name == b.input[k].name
                && types_equal(a.input[k].id_type, b.input[k].id_type),
        types_equal(*a.output, *b.output),
{
    lemma_equal_identifier_lists(a.input, b.input);
}

impl Type {
    /// Whether two types are equal.
    pub fn equals(&self, other: &Self) -> (r: bool)
        ensures
            r == types_equal(self@, other@),
        decreases self,
    {
        match (self, other) {
            (Type::Unit, Type::Unit) => true,
            (Type::String, Type::String) => true,
            (Type::Int, Type::Int) => true,
            (Type::Float, Type::Float) => true,
            (Type::Boolean, Type::Boolean) => true,
            (Type::Function(a), Type::Function(b)) => a.equals(b),
            (Type::Identifier, Type::Identifier) => true,
            _ => false,
        }
    }

    /// A copy with the same value.
    pub fn duplicate(&self) -> (r: Self)
        ensures
            r@ == self@,
        decreases self,
    {
        match self {
            Type::Unit => Type::Unit,
            Type::String => Type::String,
            Type::Int => Type::Int,
            Type::Float => Type::Float,
            Type::Boolean => Type::Boolean,
            Type::Function(f) => Type::Function(f.duplicate()),
            Type::Identifier => Type::Identifier,
        }
    }
}

impl FunctionType {
    /// Whether two function types are equal, field by field.
    pub fn equals(&self, other: &Self) -> (r: bool)
        ensures
            r == function_types_equal(self@, other@),
        decreases self,
    {
        proof {
            lemma_identifier_list_view(self.input@);
            lemma_identifier_list_view(other.input@);
        }
        self.preferred_direction == other.preferred_direction && self.priority.equals(
            &other.priority,
        ) && identifiers_equal_lists(&self.input, &other.input) && self.output.equals(
            &other.output,
        )
    }

    /// A copy with the same value.
    pub fn duplicate(&self) -> (r: Self)
        ensures
            r@ == self@,
        decreases self,
    {
        let mut input: Vec<Identifier> = Vec::new();
        let mut i: usize = 0;
        proof {
            lemma_identifier_list_view(self.input@);
        }
        while i < self.input.len()
            invariant
                i <= self.input@.len(),
                identifiers_view(input@) == identifiers_view(self.input@).take(i as int),
            decreases self.input@.len() - i,
        {
            let id = self.input[i].duplicate();
            let ghost before = input@;
            input.push(id);
            assert(identifiers_view(input@) =~= identifiers_view(before).push(id@));
            assert(identifiers_view(self.input@).take(i + 1) =~= identifiers_view(
                self.input@,
            ).take(i as int).push(self.input@[i as int]@));
            i = i + 1;
        }
        assert(identifiers_view(self.input@).take(i as int) =~= identifiers_view(self.input@));
        let r = FunctionType {
            preferred_direction: self.preferred_direction,
            priority: self.priority.duplicate(),
            input,
            output: Box::new(self.output.duplicate()),
        };
        proof {
            lemma_identifier_list_view(r.input@);
        }
        r
    }
}

impl Identifier {
    /// Whether two identifiers are equal: equal types and the same name.
    pub fn equals(&self, other: &Self) -> (r: bool)
        ensures
            r == identifiers_equal(self@, other@),
        decreases self,
    {
        self.id_type.equals(&other.id_type) && self.name == other.name
    }

    /// A copy with the same value.
    pub fn duplicate(&self) -> (r: Self)
        ensures
            r@ == self@,
        decreases self,
    {
        Identifier { id_type: self.id_type.duplicate(), name: self.name.clone() }
    }
}

/// Whether two lists of identifiers are equal: the lengths, then the items in order.
fn identifiers_equal_lists(a: &Vec<Identifier>, b: &Vec<Identifier>) -> (r: bool)
    ensures
        r == identifier_lists_equal(identifiers_view(a@), identifiers_view(b@)),
    decreases a,
{
    let ghost va = identifiers_view(a@);
    let ghost vb = identifiers_view(b@);
    if a.len() != b.len() {
        return false;
    }
    let mut i: usize = 0;
    assert(va.skip(0) =~= va);
    assert(vb.skip(0) =~= vb);
    while i < a.len()
        invariant
            va == identifiers_view(a@),
            vb == identifiers_view(b@),
            a@.len() == b@.len(),
            i <= a@.len(),
            identifier_lists_equal(va, vb) == identifier_lists_equal(
                va.skip(i as int),
                vb.skip(i as int),
            ),
        decreases a@.len() - i,
    {
        assert(va.skip(i as int).drop_first() =~= va.skip(i + 1));
        assert(vb.skip(i as int).drop_first() =~= vb.skip(i + 1));
        if !a[i].equals(&b[i]) {
            return false;
        }
        i = i + 1;
    }
    true
}

impl PartialEq for Type {
    fn eq(&self, other: &Self) -> (r: bool) {
        self.equals(other)
    }
}

impl Eq for Type {

}

impl vstd::std_specs::cmp::PartialEqSpecImpl for Type {
    open spec fn obeys_eq_spec() -> bool {
        true
    }

    open spec fn eq_spec(&self, other: &Type) -> bool {
        types_equal(self@, other@)
    }
}

impl PartialEq for FunctionType {
    fn eq(&self, other: &Self) -> (r: bool) {
        self.equals(other)
    }
}

impl Eq for FunctionType {

}

impl vstd::std_specs::cmp::PartialEqSpecImpl for FunctionType {
    open spec fn obeys_eq_spec() -> bool {
        true
    }

    open spec fn eq_spec(&self, other: &FunctionType) -> bool {
        function_types_equal(self@, other@)
    }
}

impl PartialEq for Identifier {
    fn eq(&self, other: &Self) -> (r: bool) {
        self.equals(other)
    }
}

impl Eq for Identifier {

}

impl vstd::std_specs::cmp::PartialEqSpecImpl for Identifier {
    open spec fn obeys_eq_spec() -> bool {
        true
    }

    open spec fn eq_spec(&self, other: &Identifier) -> bool {
        identifiers_equal(self@, other@)
    }
}

impl Clone for Type {
    fn clone(&self) -> (r: Self)
        ensures
            r@ == self@,
    {
        self.duplicate()
    }
}

impl Clone for FunctionType {
    fn clone(&self) -> (r: Self)
        ensures
            r@ == self@,
    {
        self.duplicate()
    }
}

impl Clone for Identifier {
    fn clone(&self) -> (r: Self)
        ensures
            r@ == self@,
    {
        self.duplicate()
    }
}

// ---------------------------------------------------------------------
// Text
// ---------------------------------------------------------------------

/// The decimal digits of a natural number.
pub open spec fn decimal_digits(n: nat) -> Seq<char>
    decreases n,
{
    if n < 10 {
        seq![(n + 48) as char]
    } else {
        decimal_digits(n / 10).push(((n % 10) + 48) as char)
    }
}

/// An integer written in decimal, with a leading `-` when it is negative.
pub open spec fn decimal_text(n: int) -> Seq<char> {
    if n < 0 {
        seq!['-'] + decimal_digits((-n) as nat)
    } else {
        decimal_digits(n as nat)
    }
}

/// `<i64 as ToString>::to_string`, through `Display`: the number in decimal,
/// with a leading `-` when it is negative.
#[verifier::external_body]
fn i64_to_string(n: i64) -> (s: String)
    ensures
        s@ == decimal_text(n as int),
{
    n.to_string()
}

/// The `Debug` text of a text: `<str as Debug>` writes it in double quotes,
/// escaping quotes, backslashes and characters that do not print.
pub uninterp spec fn str_debug_text(s: Seq<char>) -> Seq<char>;

/// `format!("{:?}", s)` on a `&str`: std's `Debug` text of a text, which
/// depends on the text alone.
#[verifier::external_body]
fn str_debug_string(s: &str) -> (r: String)
    ensures
        r@ == str_debug_text(s@),
{
    format!("{:?}", s)
}

/// The `Debug` text of a side: the variant's name.
pub open spec fn direction_debug_text(d: Direction) -> Seq<char> {
    match d {
        Direction::Right => "Right"@,
        Direction::Left => "Left"@,
    }
}

/// The `Debug` text of a type: the variant's name, with the function type of
/// a function in brackets.
pub open spec fn type_debug_text(t: TypeView) -> Seq<char>
    decreases t,
{
    match t {
        TypeView::Unit => "Unit"@,
        TypeView::String => "String"@,
        TypeView::Int => "Int"@,
        TypeView::Float => "Float"@,
        TypeView::Boolean => "Boolean"@,
        TypeView::Function(f) => "Function("@ + function_type_debug_text(f) + ")"@,
        TypeView::Identifier => "Identifier"@,
    }
}

/// The `Debug` text of a function type: `FunctionType { .. }` with its four fields.
pub open spec fn function_type_debug_text(f: FunctionTypeView) -> Seq<char>
    decreases f,
{
    "FunctionType { preferred_direction: "@ + direction_debug_text(f.direction)
        + ", priority: "@ + priority::priority_debug_text(f.priority) + ", input: "@
        + "["@ + identifier_items_debug_text(f.input) + "]"@ + ", output: "@ + type_debug_text(
        *f.output,
    ) + " }"@
}

/// The `Debug` text of an identifier: `Identifier { id_type: .., name: ".." }`.
pub open spec fn identifier_debug_text(i: IdentifierView) -> Seq<char>
    decreases i,
{
    "Identifier { id_type: "@ + type_debug_text(i.id_type) + ", name: "@ + str_debug_text(i.name)
        + " }"@
}

/// The `Debug` texts of identifiers, separated by `, `.
pub open spec fn identifier_items_debug_text(ids: Seq<IdentifierView>) -> Seq<char>
    decreases ids,
{
    if ids.len() == 0 {
        seq![]
    } else if ids.len() == 1 {
        identifier_debug_text(ids[0])
    } else {
        identifier_items_debug_text(ids.drop_last()) + ", "@ + identifier_debug_text(
            ids[ids.len() - 1],
        )
    }
}

/// The `Debug` text of a list of identifiers: the items in square brackets.
pub open spec fn identifiers_debug_text(ids: Seq<IdentifierView>) -> Seq<char> {
    "["@ + identifier_items_debug_text(ids) + "]"@
}

impl Direction {
    /// The `Debug` text of the side.
    pub fn debug_string(&self) -> (s: String)
        ensures
            s@ == direction_debug_text(*self),
    {
        match self {
            Self::Right => "Right".to_owned(),
            Self::Left => "Left".to_owned(),
        }
    }
}

impl Type {
    /// The `Debug` text of the type.
    pub fn debug_string(&self) -> (s: String)
        ensures
            s@ == type_debug_text(self@),
        decreases self,
    {
        match self {
            Self::Unit => "Unit".to_owned(),
            Self::String => "String".to_owned(),
            Self::Int => "Int".to_owned(),
            Self::Float => "Float".to_owned(),
            Self::Boolean => "Boolean".to_owned(),
            Self::Function(f) => {
                let mut s = "Function(".to_owned();
                s.append(f.debug_string().as_str());
                s.append(")");
                s
            },
            Self::Identifier => "Identifier".to_owned(),
        }
    }
}

impl FunctionType {
    /// The `Debug` text of the function type.
    pub fn debug_string(&self) -> (s: String)
        ensures
            s@ == function_type_debug_text(self@),
        decreases self,
    {
        proof {
            lemma_identifier_list_view(self.input@);
        }
        let mut s = "FunctionType { preferred_direction: ".to_owned();
        s.append(self.preferred_direction.debug_string().as_str());
        s.append(", priority: ");
        s.append(self.priority.debug_string().as_str());
        s.append(", input: ");
        s.append(identifiers_debug_string(&self.input).as_str());
        s.append(", output: ");
        s.append(self.output.debug_string().as_str());
        s.append(" }");
        s
    }
}

impl Identifier {
    /// The `Debug` text of the identifier.
    pub fn debug_string(&self) -> (s: String)
        ensures
            s@ == identifier_debug_text(self@),
        decreases self,
    {
        let mut s = "Identifier { id_type: ".to_owned();
        s.append(self.id_type.debug_string().as_str());
        s.append(", name: ");
        s.append(str_debug_string(self.name.as_str()).as_str());
        s.append(" }");
        s
    }
}

/// The `Debug` text of a list of identifiers, item by item.
fn identifiers_debug_string(ids: &Vec<Identifier>) -> (s: String)
    ensures
        s@ == identifiers_debug_text(identifiers_view(ids@)),
    decreases ids,
{
    let ghost v = identifiers_view(ids@);
    let mut s = "[".to_owned();
    let mut i: usize = 0;
    assert(v.take(0) =~= seq![]);
    while i < ids.len()
        invariant
            v == identifiers_view(ids@),
            i <= ids@.len(),
            s@ == "["@ + identifier_items_debug_text(v.take(i as int)),
        decreases ids@.len() - i,
    {
        assert(v.take(i + 1).drop_last() =~= v.take(i as int));
        assert(v.take(i + 1)[i as int] == ids@[i as int]@);
        if i > 0 {
            s.append(", ");
        }
        s.append(ids[i].debug_string().as_str());
        i = i + 1;
    }
    assert(v.take(i as int) =~= v);
    s.append("]");
    s
}

/// The text of a side.
pub open spec fn direction_text(d: Direction) -> Seq<char> {
    match d {
        Direction::Left => seq!['L'],
        Direction::Right => seq!['R'],
    }
}

/// The text of a priority layer.
pub open spec fn layer_text(l: PriorityLayer) -> Seq<char> {
    match l {
        PriorityLayer::Infinity => seq!['\u{221e}'],
        PriorityLayer::NegativeInfinity => seq!['-', '\u{221e}'],
        PriorityLayer::Finite(n) => decimal_text(n as int),
    }
}

/// The text of a type.
pub open spec fn type_text(t: TypeView) -> Seq<char>
    decreases t,
{
    match t {
        TypeView::Unit => seq!['(', ')'],
        TypeView::String => seq!['s', 't', 'r', 'i', 'n', 'g'],
        TypeView::Int => seq!['i', 'n', 't', 'e', 'g', 'e', 'r'],
        TypeView::Float => seq!['f', 'l', 'o', 'a', 't'],
        TypeView::Boolean => seq!['b', 'o', 'o', 'l'],
        TypeView::Function(f) => function_type_text(f),
        TypeView::Identifier => seq!['i', 'd', 'e', 'n', 't', 'i', 'f', 'i', 'e', 'r'],
    }
}

/// The text of a function type: `func [side, first layer] (inputs) -> output`.
pub open spec fn function_type_text(f: FunctionTypeView) -> Seq<char>
    decreases f,
{
    seq!['f', 'u', 'n', 'c', ' ', '['] + direction_text(f.direction) + seq![',', ' '] + layer_text(
        f.priority[0],
    ) + seq![']', ' ', '('] + identifiers_debug_text(f.input) + seq![')', ' ', '-', '>', ' ']
        + type_text(*f.output)
}

impl Direction {
    /// The text of the side: `L` or `R`.
    pub fn to_display_string(&self) -> (s: String)
        ensures
            s@ == direction_text(*self),
    {
        proof {
            reveal_strlit("L");
            reveal_strlit("R");
        }
        match self {
            Self::Left => "L".to_owned(),
            Self::Right => "R".to_owned(),
        }
    }
}

impl PriorityLayer {
    /// The text of the layer: its number, or an infinity sign.
    pub fn to_display_string(&self) -> (s: String)
        ensures
            s@ == layer_text(*self),
    {
        proof {
            reveal_strlit("\u{221e}");
            reveal_strlit("-\u{221e}");
        }
        match self {
            Self::Infinity => "\u{221e}".to_owned(),
            Self::NegativeInfinity => "-\u{221e}".to_owned(),
            Self::Finite(num) => i64_to_string(*num),
        }
    }
}

impl Type {
    /// The text of the type.
    pub fn to_display_string(&self) -> (s: String)
        ensures
            s@ == type_text(self@),
        decreases self,
    {
        proof {
            reveal_strlit("()");
            reveal_strlit("string");
            reveal_strlit("integer");
            reveal_strlit("float");
            reveal_strlit("bool");
            reveal_strlit("identifier");
        }
        match self {
            Self::Unit => "()".to_owned(),
            Self::String => "string".to_owned(),
            Self::Int => "integer".to_owned(),
            Self::Float => "float".to_owned(),
            Self::Boolean => "bool".to_owned(),
            Self::Function(fun) => fun.to_display_string(),
            Self::Identifier => "identifier".to_owned(),
        }
    }
}

impl FunctionType {
    /// The text of the function type: `func [side, first layer] (inputs) -> output`.
    pub fn to_display_string(&self) -> (s: String)
        ensures
            s@ == function_type_text(self@),
        decreases self,
    {
        proof {
            reveal_strlit("func [");
            reveal_strlit(", ");
            reveal_strlit("] (");
            reveal_strlit(") -> ");
            priority::lemma_priority_has_a_layer(&self.priority);
            lemma_identifier_list_view(self.input@);
        }
        let mut s = "func [".to_owned();
        s.append(self.preferred_direction.to_display_string().as_str());
        s.append(", ");
        s.append(self.priority.first().to_display_string().as_str());
        s.append("] (");
        s.append(identifiers_debug_string(&self.input).as_str());
        s.append(") -> ");
        s.append(self.output.to_display_string().as_str());
        s
    }
}

} // verus!
