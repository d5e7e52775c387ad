//! Priorities of functions: the order in which the functions of a statement
//! are applied.
//!
//! A priority is a list of layers, compared layer by layer; a missing layer
//! counts as `Finite(0)`, so trailing `Finite(0)` layers change nothing.
use crate::typing::{decimal_text, i64_to_string};
use std::cmp::Ordering;
use vstd::prelude::*;
use vstd::string::StringExecFns;

verus! {

/// One layer of a priority.
#[derive(Debug, Clone, Copy, PartialEq, Eq, Structural)]
pub enum PriorityLayer {
    NegativeInfinity,
    Finite(i64),
    Infinity,
}

/// The priority of a function: a first layer, then further layers that break ties.
#[derive(Debug)]
pub struct Priority {
    value: PriorityLayer,
    next: Option<Box<Priority>>,
}

/// The order of two layers: `NegativeInfinity` below every finite layer,
/// `Infinity` above, finite layers by their numbers.
pub open spec fn layer_order(a: PriorityLayer, b: PriorityLayer) -> Ordering {
    match (a, b) {
        (PriorityLayer::NegativeInfinity, PriorityLayer::NegativeInfinity) => Ordering::Equal,
        (PriorityLayer::Infinity, PriorityLayer::Infinity) => Ordering::Equal,
        (PriorityLayer::NegativeInfinity, _) => Ordering::Less,
        (_, PriorityLayer::Infinity) => Ordering::Less,
        (PriorityLayer::Infinity, _) => Ordering::Greater,
        (_, PriorityLayer::NegativeInfinity) => Ordering::Greater,
        (PriorityLayer::Finite(x), PriorityLayer::Finite(y)) => if x < y {
            Ordering::Less
        } else if x == y {
            Ordering::Equal
        } else {
            Ordering::Greater
        },
    }
}

/// The layers after the first, or a single `Finite(0)` where there are none.
pub open spec fn later_layers(layers: Seq<PriorityLayer>) -> Seq<PriorityLayer> {
    if layers.len() > 1 {
        layers.drop_first()
    } else {
        seq![PriorityLayer::Finite(0)]
    }
}

/// The order of two priorities, decided by the first layer at which they
/// differ, missing layers counting as `Finite(0)`; `Equal` if there is none.
pub open spec fn priority_order(a: Seq<PriorityLayer>, b: Seq<PriorityLayer>) -> Ordering
    decreases a.len() + b.len(),
{
    if a.len() == 0 || b.len() == 0 {
        Ordering::Equal
    } else if a[0] != b[0] {
        layer_order(a[0], b[0])
    } else if a.len() == 1 && b.len() == 1 {
        Ordering::Equal
    } else {
        priority_order(later_layers(a), later_layers(b))
    }
}

/// Whether two priorities are equal: their layers agree, missing ones counting as `Finite(0)`.
pub open spec fn priority_equal(a: Seq<PriorityLayer>, b: Seq<PriorityLayer>) -> bool {
    priority_order(a, b) == Ordering::Equal
}

/// Whether the first priority comes after the second.
pub open spec fn priority_greater(a: Seq<PriorityLayer>, b: Seq<PriorityLayer>) -> bool {
    priority_order(a, b) == Ordering::Greater
}

/// The layers of a priority, first to last.
pub closed spec fn priority_layers(p: Priority) -> Seq<PriorityLayer>
    decreases p,
{
    seq![p.value] + match p.next {
        Some(rest) => priority_layers(*rest),
        None => seq![],
    }
}

impl View for Priority {
    type V = Seq<PriorityLayer>;

    closed spec fn view(&self) -> Seq<PriorityLayer> {
        priority_layers(*self)
    }
}

/// A priority has at least one layer.
pub proof fn lemma_priority_has_a_layer(p: &Priority)
    ensures
        p@.len() >= 1,
{
}

impl PriorityLayer {
    /// The order of two layers.
    pub fn cmp(&self, other: &Self) -> (r: Ordering)
        ensures
            r == layer_order(*self, *other),
    {
        match (self, other) {
            (Self::NegativeInfinity, Self::NegativeInfinity) | (Self::Infinity, Self::Infinity) =>
                Ordering::Equal,
            (Self::NegativeInfinity, _) | (_, Self::Infinity) => Ordering::Less,
            (Self::Infinity, _) | (_, Self::NegativeInfinity) => Ordering::Greater,
            (Self::Finite(a), Self::Finite(b)) => if *a < *b {
                Ordering::Less
            } else if *a == *b {
                Ordering::Equal
            } else {
                Ordering::Greater
            },
        }
    }

}

impl Priority {
    /// A priority of one finite layer.
    pub fn new(value: i64) -> (p: Self)
        ensures
            p@ == seq![PriorityLayer::Finite(value)],
    {
        let p = Self { value: PriorityLayer::Finite(value), next: None };
        assert(p@ =~= seq![PriorityLayer::Finite(value)]);
        p
    }

    /// The lowest priority.
    pub fn minus_inf() -> (p: Self)
        ensures
            p@ == seq![PriorityLayer::NegativeInfinity],
    {
        let p = Self { value: PriorityLayer::NegativeInfinity, next: None };
        assert(p@ =~= seq![PriorityLayer::NegativeInfinity]);
        p
    }

    /// The highest priority.
    pub fn inf() -> (p: Self)
        ensures
            p@ == seq![PriorityLayer::Infinity],
    {
        let p = Self { value: PriorityLayer::Infinity, next: None };
        assert(p@ =~= seq![PriorityLayer::Infinity]);
        p
    }

    /// The first layer.
    pub fn first(&self) -> (r: &PriorityLayer)
        ensures
            *r == self@[0],
    {
        &self.value
    }

    /// A copy with the same layers.
    pub fn duplicate(&self) -> (r: Self)
        ensures
            r@ == self@,
        decreases self,
    {
        let next = match &self.next {
            Some(rest) => Some(Box::new(rest.duplicate())),
            None => None,
        };
        Priority { value: self.value, next }
    }

    /// The order of two priorities, layer by layer, missing layers counting as `Finite(0)`.
    pub fn cmp(&self, other: &Self) -> (r: Ordering)
        ensures
            r == priority_order(self@, other@),
        decreases self@.len() + other@.len(),
    {
        match self.value.cmp(&other.value) {
            Ordering::Equal => {
                if self.next.is_none() && other.next.is_none() {
                    return Ordering::Equal;
                }
                let zero = Priority::new(0);
                let a = match &self.next {
                    Some(a) => &**a,
                    None => &zero,
                };
                let b = match &other.next {
                    Some(b) => &**b,
                    None => &zero,
                };
                assert(a@ == later_layers(self@)) by {
                    if let Some(rest) = self.next {
                        assert(self@.drop_first() =~= rest@);
                    }
                }
                assert(b@ == later_layers(other@)) by {
                    if let Some(rest) = other.next {
                        assert(other@.drop_first() =~= rest@);
                    }
                }
                a.cmp(b)
            },
            different => different,
        }
    }

    /// Whether two priorities have the same layers, missing ones counting as `Finite(0)`.
    pub fn equals(&self, other: &Self) -> (r: bool)
        ensures
            r == priority_equal(self@, other@),
    {
        match self.cmp(other) {
            Ordering::Equal => true,
            _ => false,
        }
    }
}

impl Clone for Priority {
    fn clone(&self) -> (r: Self)
        ensures
            r@ == self@,
    {
        self.duplicate()
    }
}

impl PartialEq for Priority {
    fn eq(&self, other: &Self) -> (r: bool) {
        self.equals(other)
    }
}

impl Eq for Priority {

}

impl vstd::std_specs::cmp::PartialEqSpecImpl for Priority {
    open spec fn obeys_eq_spec() -> bool {
        true
    }

    open spec fn eq_spec(&self, other: &Priority) -> bool {
        priority_equal(self@, other@)
    }
}

impl PartialOrd for Priority {
    fn partial_cmp(&self, other: &Self) -> (r: Option<Ordering>) {
        Some(self.cmp(other))
    }
}

impl vstd::std_specs::cmp::PartialOrdSpecImpl for Priority {
    open spec fn obeys_partial_cmp_spec() -> bool {
        true
    }

    open spec fn partial_cmp_spec(&self, other: &Priority) -> Option<Ordering> {
        Some(priority_order(self@, other@))
    }
}

impl PartialOrd for PriorityLayer {
    fn partial_cmp(&self, other: &Self) -> (r: Option<Ordering>) {
        Some(self.cmp(other))
    }
}

impl vstd::std_specs::cmp::PartialOrdSpecImpl for PriorityLayer {
    open spec fn obeys_partial_cmp_spec() -> bool {
        true
    }

    open spec fn partial_cmp_spec(&self, other: &PriorityLayer) -> Option<Ordering> {
        Some(layer_order(*self, *other))
    }
}

/// The opposite of an order.
pub open spec fn reversed(o: Ordering) -> Ordering {
    match o {
        Ordering::Less => Ordering::Greater,
        Ordering::Equal => Ordering::Equal,
        Ordering::Greater => Ordering::Less,
    }
}

proof fn lemma_layer_order_laws(a: PriorityLayer, b: PriorityLayer, c: PriorityLayer)
    ensures
        (layer_order(a, b) == Ordering::Equal) == (a == b),
        layer_order(b, a) == reversed(layer_order(a, b)),
        layer_order(a, b) == Ordering::Less && layer_order(b, c) == Ordering::Less ==> layer_order(
            a,
            c,
        ) == Ordering::Less,
{
}

/// Every priority is equal to itself.
pub proof fn lemma_priority_order_reflexive(a: Seq<PriorityLayer>)
    ensures
        priority_order(a, a) == Ordering::Equal,
    decreases a.len(),
{
    if a.len() > 1 {
        lemma_priority_order_reflexive(later_layers(a));
    }
}

/// Every priority equals itself, so it does not come after itself.
pub proof fn lemma_priority_equal_to_itself(a: Seq<PriorityLayer>)
    ensures
        priority_equal(a, a),
        !priority_greater(a, a),
{
    lemma_priority_order_reflexive(a);
}

/// Comparing the other way round gives the opposite answer.
pub proof fn lemma_priority_order_antisymmetric(a: Seq<PriorityLayer>, b: Seq<PriorityLayer>)
    ensures
        priority_order(b, a) == reversed(priority_order(a, b)),
    decreases a.len() + b.len(),
{
    if a.len() > 0 && b.len() > 0 {
        lemma_layer_order_laws(a[0], b[0], b[0]);
        if a[0] == b[0] && !(a.len() == 1 && b.len() == 1) {
            lemma_priority_order_antisymmetric(later_layers(a), later_layers(b));
        }
    }
}

/// Priorities are ordered transitively: a priority equal to another
/// compares to a third as that one does, and one below something below `c`
/// is below `c`.
pub proof fn lemma_priority_order_transitive(
    a: Seq<PriorityLayer>,
    b: Seq<PriorityLayer>,
    c: Seq<PriorityLayer>,
)
    requires
        a.len() >= 1,
        b.len() >= 1,
        c.len() >= 1,
    ensures
        priority_order(a, b) == Ordering::Equal ==> priority_order(a, c) == priority_order(b, c),
        priority_order(a, b) == Ordering::Less && priority_order(b, c) == Ordering::Less
            ==> priority_order(a, c) == Ordering::Less,
    decreases a.len() + b.len() + c.len(),
{
    lemma_layer_order_laws(a[0], b[0], c[0]);
    lemma_layer_order_laws(a[0], c[0], b[0]);
    lemma_layer_order_laws(b[0], c[0], a[0]);
    lemma_layer_order_laws(b[0], a[0], c[0]);
    lemma_layer_order_laws(c[0], a[0], b[0]);
    lemma_layer_order_laws(c[0], b[0], a[0]);
    if a[0] == b[0] && b[0] == c[0] && !(a.len() == 1 && b.len() == 1 && c.len() == 1) {
        lemma_priority_order_transitive(later_layers(a), later_layers(b), later_layers(c));
    }
}

/// Trailing `Finite(0)` layers change nothing: a priority with one more
/// such layer is equal to it.
pub proof fn lemma_trailing_zero_layer_changes_nothing(a: Seq<PriorityLayer>)
    requires
        a.len() >= 1,
    ensures
        priority_order(a, a.push(PriorityLayer::Finite(0))) == Ordering::Equal,
    decreases a.len(),
{
    let b = a.push(PriorityLayer::Finite(0));
    assert(b[0] == a[0]);
    if a.len() > 1 {
        assert(later_layers(b) =~= later_layers(a).push(PriorityLayer::Finite(0)));
        lemma_trailing_zero_layer_changes_nothing(later_layers(a));
    } else {
        assert(later_layers(b) =~= seq![PriorityLayer::Finite(0)]);
        lemma_priority_order_reflexive(seq![PriorityLayer::Finite(0)]);
        assert(later_layers(a) =~= seq![PriorityLayer::Finite(0)]);
    }
}

/// Single finite layers are ordered by their numbers.
pub proof fn lemma_finite_priorities_ordered_by_value(x: i64, y: i64)
    ensures
        x < y ==> priority_order(seq![PriorityLayer::Finite(x)], seq![PriorityLayer::Finite(y)])
            == Ordering::Less,
        x == y ==> priority_order(seq![PriorityLayer::Finite(x)], seq![PriorityLayer::Finite(y)])
            == Ordering::Equal,
        x > y ==> priority_order(seq![PriorityLayer::Finite(x)], seq![PriorityLayer::Finite(y)])
            == Ordering::Greater,
{
}

/// The lowest priority comes below every priority that does not start with
/// `NegativeInfinity`, and the highest above every one that does not start
/// with `Infinity`.
pub proof fn lemma_infinite_priorities_are_extreme(b: Seq<PriorityLayer>)
    requires
        b.len() >= 1,
    ensures
        b[0] != PriorityLayer::NegativeInfinity ==> priority_order(
            seq![PriorityLayer::NegativeInfinity],
            b,
        ) == Ordering::Less,
        b[0] != PriorityLayer::Infinity ==> priority_order(seq![PriorityLayer::Infinity], b)
            == Ordering::Greater,
{
}

// ---------------------------------------------------------------------
// `Debug` text
// ---------------------------------------------------------------------

/// The `Debug` text of a layer: the variant's name, with the number of a finite layer.
pub open spec fn layer_debug_text(l: PriorityLayer) -> Seq<char> {
    match l {
        PriorityLayer::NegativeInfinity => "NegativeInfinity"@,
        PriorityLayer::Finite(n) => "Finite("@ + decimal_text(n as int) + ")"@,
        PriorityLayer::Infinity => "Infinity"@,
    }
}

/// The `Debug` text of a priority with the given layers:
/// `Priority { value: .., next: None }`, or `next: Some(..)` holding the rest.
pub open spec fn priority_debug_text(layers: Seq<PriorityLayer>) -> Seq<char>
    decreases layers.len(),
{
    if layers.len() == 0 {
        seq![]
    } else {
        "Priority { value: "@ + layer_debug_text(layers[0]) + ", next: "@ + (if layers.len() == 1 {
            "None"@
        } else {
            "Some("@ + priority_debug_text(layers.drop_first()) + ")"@
        }) + " }"@
    }
}

impl PriorityLayer {
    /// The `Debug` text of the layer.
    pub fn debug_string(&self) -> (s: String)
        ensures
            s@ == layer_debug_text(*self),
    {
        match self {
            Self::NegativeInfinity => "NegativeInfinity".to_owned(),
            Self::Finite(n) => {
                let mut s = "Finite(".to_owned();
                s.append(i64_to_string(*n).as_str());
                s.append(")");
                s
            },
            Self::Infinity => "Infinity".to_owned(),
        }
    }
}

impl Priority {
    /// The `Debug` text of the priority, layer after layer.
    pub fn debug_string(&self) -> (s: String)
        ensures
            s@ == priority_debug_text(self@),
        decreases self,
    {
        let mut s = "Priority { value: ".to_owned();
        s.append(self.value.debug_string().as_str());
        s.append(", next: ");
        match &self.next {
            None => {
                assert(self@ =~= seq![self.value]);
                s.append("None");
            },
            Some(rest) => {
                proof {
                    lemma_priority_has_a_layer(&**rest);
                    assert(self@.drop_first() =~= rest@);
                }
                s.append("Some(");
                s.append(rest.debug_string().as_str());
                s.append(")");
            },
        }
        s.append(" }");
        s
    }
}

} // verus!
