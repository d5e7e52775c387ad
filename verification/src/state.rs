//! The interpreter's variables: a stack of frames, each binding names to variables.
use crate::global::global_frame;
use crate::typing::Value;
use vstd::prelude::*;

verus! {

/// The frames of the interpreter, innermost last.
pub struct State {
    stack: Vec<Frame>,
}

/// The variables of one frame, each under its own name.
pub struct Frame {
    names: Vec<String>,
    values: Vec<Variable>,
}

/// A variable: its value, and whether it may be changed.
pub struct Variable {
    mutable: bool,
    value: Value,
}

/// The names and variables of a list of bindings.
pub open spec fn bindings_view(bindings: Seq<(String, Variable)>) -> Seq<(Seq<char>, Variable)> {
    bindings.map_values(|b: (String, Variable)| (b.0@, b.1))
}

/// No name occurs twice.
pub open spec fn names_distinct(bindings: Seq<(Seq<char>, Variable)>) -> bool {
    forall|i: int, j: int|
        0 <= i < bindings.len() && 0 <= j < bindings.len() && i != j ==> #[trigger] bindings[i].0
            != #[trigger] bindings[j].0
}

/// The variable bound to `name` in a list of bindings.
pub open spec fn binding_of(bindings: Seq<(Seq<char>, Variable)>, name: Seq<char>) -> Option<
    Variable,
>
    decreases bindings.len(),
{
    if bindings.len() == 0 {
        None
    } else if bindings[0].0 == name {
        Some(bindings[0].1)
    } else {
        binding_of(bindings.drop_first(), name)
    }
}

/// The variable that `name` stands for in a stack of frames: its binding in
/// the innermost frame that binds it.
pub open spec fn variable_in_frames(frames: Seq<Seq<(Seq<char>, Variable)>>, name: Seq<char>) -> Option<
    Variable,
>
    decreases frames.len(),
{
    if frames.len() == 0 {
        None
    } else {
        match binding_of(frames.last(), name) {
            Some(v) => Some(v),
            None => variable_in_frames(frames.drop_last(), name),
        }
    }
}

impl Frame {
    /// The frame's bindings, in order.
    pub closed spec fn bindings(self) -> Seq<(Seq<char>, Variable)> {
        Seq::new(self.names@.len(), |i: int| (self.names@[i]@, self.values@[i]))
    }

    /// Every name has its variable, and names are bound at most once in a frame.
    #[verifier::type_invariant]
    closed spec fn names_are_distinct(self) -> bool {
        &&& self.names@.len() == self.values@.len()
        &&& forall|i: int, j: int|
            0 <= i < self.names@.len() && 0 <= j < self.names@.len() && i != j ==> #[trigger] self.names@[i]@
                != #[trigger] self.names@[j]@
    }

    /// A frame of the given bindings, whose names must differ.
    pub fn new(variables: Vec<(String, Variable)>) -> (r: Self)
        requires
            names_distinct(bindings_view(variables@)),
        ensures
            r.bindings() == bindings_view(variables@),
    {
        let mut names: Vec<String> = Vec::new();
        let mut values: Vec<Variable> = Vec::new();
        let ghost all = bindings_view(variables@);
        let ghost orig = variables@;
        let mut rest = variables;
        let mut i: usize = 0;
        let n = rest.len();
        while i < n
            invariant
                all == bindings_view(orig),
                n == orig.len(),
                i <= n,
                rest@ == orig.skip(i as int),
                names@.len() == i,
                values@.len() == i,
                forall|j: int| 0 <= j < i ==> (#[trigger] names@[j]@, values@[j]) == all[j],
            decreases n - i,
        {
            let (name, value) = rest.remove(0);
            assert(rest@ =~= orig.skip(i + 1));
            names.push(name);
            values.push(value);
            i = i + 1;
        }
        assert forall|j: int, k: int|
            0 <= j < names@.len() && 0 <= k < names@.len() && j != k implies #[trigger] names@[j]@
            != #[trigger] names@[k]@ by {
            assert(all[j].0 == names@[j]@);
            assert(all[k].0 == names@[k]@);
        }
        let r = Self { names, values };
        assert(r.bindings() =~= all);
        r
    }

    /// The variable bound to `name` here.
    fn get(&self, name: &str) -> (r: Option<&Variable>)
        ensures
            match r {
                Some(v) => binding_of(self.bindings(), name@) == Some(*v),
                None => binding_of(self.bindings(), name@) is None,
            },
    {
        proof {
            use_type_invariant(self);
        }
        let owned = name.to_owned();
        let mut i: usize = 0;
        assert(self.bindings().skip(0) =~= self.bindings());
        while i < self.names.len()
            invariant
                owned@ == name@,
                i <= self.names@.len(),
                self.names@.len() == self.values@.len(),
                binding_of(self.bindings(), name@) == binding_of(
                    self.bindings().skip(i as int),
                    name@,
                ),
            decreases self.names@.len() - i,
        {
            assert(self.bindings().skip(i as int).drop_first() =~= self.bindings().skip(i + 1));
            assert(self.bindings()[i as int] == (self.names@[i as int]@, self.values@[i as int]));
            if self.names[i] == owned {
                assert(self.bindings().skip(i as int)[0] == self.bindings()[i as int]);
                return Some(&self.values[i]);
            }
            i = i + 1;
        }
        None
    }

    /// The variable bound to `name` here, to be changed in place.
    fn get_mut(&mut self, name: &str) -> (r: Option<&mut Variable>)
        ensures
            match binding_position(old(self).bindings(), name@) {
                Some(j) => r matches Some(v) && *v == old(self).bindings()[j].1
                    && final(self).bindings() == old(self).bindings().update(j, (name@, *final(v))),
                None => r is None && final(self).bindings() == old(self).bindings(),
            },
    {
        proof {
            use_type_invariant(&*self);
        }
        let owned = name.to_owned();
        let mut i: usize = 0;
        assert(self.bindings().skip(0) =~= self.bindings());
        while i < self.names.len()
            invariant
                owned@ == name@,
                i <= self.names@.len(),
                self.names@.len() == self.values@.len(),
                *self == *old(self),
                binding_position(self.bindings(), name@) == match binding_position(
                    self.bindings().skip(i as int),
                    name@,
                ) {
                    Some(j) => Some(j + i),
                    None => None,
                },
            decreases self.names@.len() - i,
        {
            assert(self.bindings().skip(i as int).drop_first() =~= self.bindings().skip(i + 1));
            assert(self.bindings()[i as int] == (self.names@[i as int]@, self.values@[i as int]));
            if self.names[i] == owned {
                assert(self.bindings().skip(i as int)[0] == self.bindings()[i as int]);
                proof {
                    use_type_invariant(&*self);
                }
                let r = variable_at_mut(&mut self.values, i);
                return Some(r);
            }
            i = i + 1;
        }
        None
    }
}

/// Where `name` is bound in a list of bindings: the first position that binds it.
pub open spec fn binding_position(bindings: Seq<(Seq<char>, Variable)>, name: Seq<char>) -> Option<
    int,
>
    decreases bindings.len(),
{
    if bindings.len() == 0 {
        None
    } else if bindings[0].0 == name {
        Some(0)
    } else {
        match binding_position(bindings.drop_first(), name) {
            Some(j) => Some(j + 1),
            None => None,
        }
    }
}

/// Where `name` is bound in a stack of frames: the innermost frame that
/// binds it, and the position there.
pub open spec fn variable_position(frames: Seq<Seq<(Seq<char>, Variable)>>, name: Seq<char>) -> Option<
    (int, int),
>
    decreases frames.len(),
{
    if frames.len() == 0 {
        None
    } else {
        match binding_position(frames.last(), name) {
            Some(j) => Some(((frames.len() - 1) as int, j)),
            None => variable_position(frames.drop_last(), name),
        }
    }
}

/// The bindings of each frame of a stack.
pub open spec fn frames_view(frames: Seq<Frame>) -> Seq<Seq<(Seq<char>, Variable)>> {
    frames.map_values(|f: Frame| f.bindings())
}

impl State {
    /// The bindings of each frame, innermost last.
    pub closed spec fn frames(self) -> Seq<Seq<(Seq<char>, Variable)>> {
        frames_view(self.stack@)
    }

    /// A state whose only frame is the global frame.
    pub fn new() -> (r: Self)
        ensures
            r.frames().len() == 1,
            crate::global::is_global_bindings(r.frames()[0]),
    {
        let global_frame = global_frame();
        let r = Self { stack: vec![global_frame] };

        r
    }

    /// The variable that `name` stands for: the one bound in the innermost
    /// frame that binds it.
    pub fn get_variable(&self, name: &str) -> (r: Option<&Variable>)
        ensures
            match r {
                Some(v) => variable_in_frames(self.frames(), name@) == Some(*v),
                None => variable_in_frames(self.frames(), name@) is None,
            },
    {
        let mut k = self.stack.len();
        assert(self.frames().take(k as int) =~= self.frames());
        while k > 0
            invariant
                k <= self.stack@.len(),
                variable_in_frames(self.frames(), name@) == variable_in_frames(
                    self.frames().take(k as int),
                    name@,
                ),
            decreases k,
        {
            assert(self.frames().take(k as int).drop_last() =~= self.frames().take(k - 1));
            assert(self.frames().take(k as int).last() == self.stack@[k - 1].bindings());
            if let Some(v) = self.stack[k - 1].get(name) {
                return Some(v);
            }
            k = k - 1;
        }
        None
    }

    /// The variable that `name` stands for, to be changed in place: the one
    /// bound in the innermost frame that binds it.
    pub fn get_variable_mut(&mut self, name: &str) -> (r: Option<&mut Variable>)
        ensures
            match variable_position(old(self).frames(), name@) {
                Some((k, j)) => r matches Some(v) && *v == old(self).frames()[k][j].1
                    && final(self).frames() == old(self).frames().update(
                    k,
                    old(self).frames()[k].update(j, (name@, *final(v))),
                ),
                None => r is None && final(self).frames() == old(self).frames(),
            },
    {
        let mut k = self.stack.len();
        assert(self.frames().take(k as int) =~= self.frames());
        while k > 0
            invariant
                k <= self.stack@.len(),
                *self == *old(self),
                variable_position(self.frames(), name@) == variable_position(
                    self.frames().take(k as int),
                    name@,
                ),
            decreases k,
        {
            assert(self.frames().take(k as int).drop_last() =~= self.frames().take(k - 1));
            assert(self.frames().take(k as int).last() == self.stack@[k - 1].bindings());
            proof {
                lemma_binding_position_matches(self.stack@[k - 1].bindings(), name@);
            }
            if self.stack[k - 1].get(name).is_some() {
                let frame = &mut self.stack[k - 1];
                let r = frame.get_mut(name);
                return r;
            }
            k = k - 1;
        }
        None
    }
}

/// The variable at position `i`, to be changed in place.
fn variable_at_mut(values: &mut Vec<Variable>, i: usize) -> (r: &mut Variable)
    requires
        i < old(values)@.len(),
    ensures
        *r == old(values)@[i as int],
        final(values)@.len() == old(values)@.len(),
        final(values)@ == old(values)@.update(i as int, *final(r)),
    no_unwind
{
    &mut values[i]
}

/// A name is bound exactly when it has a position.
proof fn lemma_binding_position_matches(bindings: Seq<(Seq<char>, Variable)>, name: Seq<char>)
    ensures
        binding_of(bindings, name) is Some == binding_position(bindings, name) is Some,
        binding_position(bindings, name) matches Some(j) ==> 0 <= j < bindings.len()
            && bindings[j].0 == name && binding_of(bindings, name) == Some(bindings[j].1),
    decreases bindings.len(),
{
    if bindings.len() > 0 && bindings[0].0 != name {
        lemma_binding_position_matches(bindings.drop_first(), name);
    }
}

/// The bindings after the variable at position `j` of `bindings`, named `name`,
/// was given the new contents `w`.
proof fn lemma_binding_write(
    bindings: Seq<(Seq<char>, Variable)>,
    name: Seq<char>,
    j: int,
    w: Variable,
    other: Seq<char>,
)
    requires
        binding_position(bindings, name) == Some(j),
    ensures
        binding_of(bindings.update(j, (name, w)), name) == Some(w),
        other != name ==> binding_of(bindings.update(j, (name, w)), other) == binding_of(
            bindings,
            other,
        ),
    decreases bindings.len(),
{
    lemma_binding_position_matches(bindings, name);
    let updated = bindings.update(j, (name, w));
    if j > 0 {
        assert(updated.drop_first() =~= bindings.drop_first().update(j - 1, (name, w)));
        lemma_binding_write(bindings.drop_first(), name, j - 1, w, other);
    } else {
        assert(updated.drop_first() =~= bindings.drop_first());
    }
}

/// The position found for a name lies inside the stack, in a frame that binds
/// the name there first.
proof fn lemma_variable_position_valid(frames: Seq<Seq<(Seq<char>, Variable)>>, name: Seq<char>)
    requires
        variable_position(frames, name) is Some,
    ensures
        ({
            let (k, j) = variable_position(frames, name)->0;
            &&& 0 <= k < frames.len()
            &&& binding_position(frames[k], name) == Some(j)
            &&& 0 <= j < frames[k].len()
        }),
    decreases frames.len(),
{
    lemma_binding_position_matches(frames.last(), name);
    if binding_position(frames.last(), name) is None {
        lemma_variable_position_valid(frames.drop_last(), name);
    }
}

/// A write through a variable found for `name` is what a later lookup of
/// `name` gives back, and no other name reads differently.
pub proof fn lemma_lookup_after_write(
    frames: Seq<Seq<(Seq<char>, Variable)>>,
    name: Seq<char>,
    w: Variable,
    other: Seq<char>,
)
    requires
        variable_position(frames, name) is Some,
    ensures
        ({
            let (k, j) = variable_position(frames, name)->0;
            let written = frames.update(k, frames[k].update(j, (name, w)));
            &&& variable_in_frames(written, name) == Some(w)
            &&& other != name ==> variable_in_frames(written, other) == variable_in_frames(
                frames,
                other,
            )
        }),
    decreases frames.len(),
{
    let (k, j) = variable_position(frames, name)->0;
    lemma_variable_position_valid(frames, name);
    let written = frames.update(k, frames[k].update(j, (name, w)));
    if binding_position(frames.last(), name) is Some {
        assert(k == frames.len() - 1);
        lemma_binding_write(frames.last(), name, j, w, other);
        assert(written.last() == frames.last().update(j, (name, w)));
        assert(written.drop_last() =~= frames.drop_last());
    } else {
        lemma_lookup_after_write(frames.drop_last(), name, w, other);
        lemma_binding_position_matches(frames.last(), name);
        assert(written.last() == frames.last());
        assert(written.drop_last() =~= frames.drop_last().update(
            k,
            frames.drop_last()[k].update(j, (name, w)),
        ));
    }
}

impl Variable {
    /// An unchangeable variable holding `value`.
    pub fn new(value: Value) -> (r: Self)
        ensures
            !r.is_mutable(),
            r.value() == value,
    {
        Self { mutable: false, value }
    }

    /// A changeable variable holding `value`.
    pub fn new_mut(value: Value) -> (r: Self)
        ensures
            r.is_mutable(),
            r.value() == value,
    {
        Self { mutable: true, value }
    }

    /// Whether the variable may be changed.
    pub closed spec fn is_mutable(self) -> bool {
        self.mutable
    }

    /// The value held.
    pub closed spec fn value(self) -> Value {
        self.value
    }

    /// The value held.
    pub fn get(&self) -> (r: &Value)
        ensures
            *r == self.value(),
    {
        &self.value
    }

    /// The value held, to be changed in place.
    pub fn get_mut(&mut self) -> (r: &mut Value)
        ensures
            *r == old(self).value(),
            final(self).value() == *final(r),
            final(self).is_mutable() == old(self).is_mutable(),
    {
        &mut self.value
    }
}

} // verus!
