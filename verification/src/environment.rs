//! Environments and scopes for the slang programming language.

use crate::heap::model::references;
use crate::table::{find, has, names, position, stored_names, with};
use crate::value::{Function, NativeFunction, Pointer, Value, ValueView};
use vstd::prelude::*;

verus! {

/// All errors which can occur while accessing the environment.
pub enum EnvironmentError {
    /// When there is an attempt to assign a value to a target which has not been defined.
    UndefinedAssignmentTarget { identifier: String },
    /// When there is an attempt to get the value of a target which has not been initialised.
    UninitialisedTarget { identifier: String },
    /// When there is an attempt to get the value of a target which has not been defined.
    UndefinedTarget { identifier: String },
}

/// The bindings of a scope: each identifier with its value, or with nothing while it is
/// declared but not initialised.
pub type Bindings = Seq<(Seq<char>, Option<ValueView>)>;

/// What a stored binding stands for.
pub open spec fn binding_view(binding: Option<Value>) -> Option<ValueView> {
    match binding {
        Some(value) => Some(value@),
        None => None,
    }
}

/// What a stored scope stands for.
pub open spec fn bindings_view(scope: Seq<(String, Option<Value>)>) -> Bindings {
    Seq::new(scope.len(), |i: int| (scope[i].0@, binding_view(scope[i].1)))
}

/// The heap references that the bindings hold directly, in the order of the bindings.
pub open spec fn bound_references(scope: Bindings) -> Seq<Pointer>
    decreases scope.len(),
{
    if scope.len() == 0 {
        Seq::empty()
    } else {
        match scope.last().1 {
            Some(ValueView::ObjectReference(pointer)) => bound_references(scope.drop_last()).push(
                pointer,
            ),
            _ => bound_references(scope.drop_last()),
        }
    }
}

/// The values that the bindings hold, in the order of the bindings.
pub open spec fn bound_values(scope: Bindings) -> Seq<ValueView>
    decreases scope.len(),
{
    if scope.len() == 0 {
        Seq::empty()
    } else {
        match scope.last().1 {
            Some(value) => bound_values(scope.drop_last()).push(value),
            None => bound_values(scope.drop_last()),
        }
    }
}

/// What an [`Environment`] stands for.
pub struct EnvironmentView {
    pub parent: Option<usize>,
    pub scope: Bindings,
    pub returned: Seq<Pointer>,
}

impl EnvironmentView {
    /// The roots that this environment exposes by itself: the references among its bindings,
    /// then the references that were handed back into it.
    pub open spec fn roots(self) -> Seq<Pointer> {
        bound_references(self.scope) + self.returned
    }

    /// The environment with `identifier` bound to `value`.
    pub open spec fn defined(self, identifier: Seq<char>, value: Option<ValueView>) -> Self {
        EnvironmentView { scope: with(self.scope, identifier, value), ..self }
    }

    /// What `identifier` is bound to here, if it is bound here at all.
    pub open spec fn binding(self, identifier: Seq<char>) -> Option<Option<ValueView>> {
        if has(self.scope, identifier) {
            Some(self.scope[position(self.scope, identifier)].1)
        } else {
            None
        }
    }
}

/// One scope of a running program: its bindings, and where its parent is.
///
/// This is not the same thing as the stack: the stack has a frame for each call, whereas a new
/// environment is made for each block. The parent is named by its place in the stack that owns
/// both, so an environment never outlives the one it refers to.
pub struct Environment {
    /// The place of the parent scope.
    parent: Option<usize>,
    /// The current scope.
    scope: Vec<(String, Option<Value>)>,
    /// References that calls and blocks have handed back into this scope.
    returned: Vec<Pointer>,
}

impl View for Environment {
    type V = EnvironmentView;

    closed spec fn view(&self) -> EnvironmentView {
        EnvironmentView {
            parent: self.parent,
            scope: bindings_view(self.scope@),
            returned: self.returned@,
        }
    }
}

/// The bindings of a parentless environment when it is made: the native functions.
pub open spec fn native_bindings() -> Bindings {
    seq![
        ("print"@, Some(ValueView::Function(Function::Native(NativeFunction::Print)))),
        ("format"@, Some(ValueView::Function(Function::Native(NativeFunction::Format)))),
    ]
}

impl Environment {
    /// What the global environment stands for when it is made.
    pub open spec fn new_view() -> EnvironmentView {
        EnvironmentView { parent: None, scope: native_bindings(), returned: Seq::empty() }
    }

    /// Creates a new [Environment]. One without a parent starts with the native functions.
    pub fn new(parent: Option<usize>) -> (environment: Self)
        ensures
            environment@ == (EnvironmentView {
                parent,
                scope: if parent is None {
                    native_bindings()
                } else {
                    Seq::empty()
                },
                returned: Seq::empty(),
            }),
    {
        let mut scope: Vec<(String, Option<Value>)> = Vec::new();
        if parent.is_none() {
            scope.push(
                ("print".to_string(), Some(Value::Function(Function::Native(NativeFunction::Print)))),
            );
            scope.push(
                (
                    "format".to_string(),
                    Some(Value::Function(Function::Native(NativeFunction::Format))),
                ),
            );
            assert(bindings_view(scope@) =~= native_bindings());
        } else {
            assert(bindings_view(scope@) =~= Seq::empty());
        }
        Self { parent, scope, returned: Vec::new() }
    }

    /// Defines a target in this scope, and hands back what it was bound to here before.
    pub fn define(&mut self, identifier: String, value: Option<Value>) -> (previous: Option<
        Option<Value>,
    >)
        ensures
            final(self)@ == old(self)@.defined(identifier@, binding_view(value)),
            previous is Some == old(self)@.binding(identifier@) is Some,
            previous is Some ==> binding_view(previous->0) == old(self)@.binding(identifier@)->0,
    {
        let ghost before = bindings_view(self.scope@);
        assert(stored_names(self.scope@) =~= names(before));
        let at = find(&self.scope, &identifier);
        if at < self.scope.len() {
            let mut entry = (identifier, value);
            core::mem::swap(&mut self.scope[at], &mut entry);
            assert(bindings_view(self.scope@) =~= with(before, identifier@, binding_view(value)));
            Some(entry.1)
        } else {
            self.scope.push((identifier, value));
            assert(bindings_view(self.scope@) =~= with(before, identifier@, binding_view(value)));
            None
        }
    }

    /// What the target is bound to in this scope, if it is bound here at all.
    pub fn get(&self, identifier: &String) -> (binding: Option<Option<Value>>)
        ensures
            binding is Some == self@.binding(identifier@) is Some,
            binding is Some ==> binding_view(binding->0) == self@.binding(identifier@)->0,
    {
        assert(stored_names(self.scope@) =~= names(bindings_view(self.scope@)));
        let at = find(&self.scope, identifier);
        if at < self.scope.len() {
            match &self.scope[at].1 {
                Some(value) => Some(Some(value.clone())),
                None => Some(None),
            }
        } else {
            None
        }
    }

    /// Whether the target is bound in this scope.
    pub fn defines(&self, identifier: &String) -> (answer: bool)
        ensures
            answer == has(self@.scope, identifier@),
    {
        assert(stored_names(self.scope@) =~= names(bindings_view(self.scope@)));
        find(&self.scope, identifier) < self.scope.len()
    }

    /// The heap references that this scope holds: those among its bindings, then those that
    /// were handed back into it.
    pub fn roots(&self) -> (roots: Vec<Pointer>)
        ensures
            roots@ == self@.roots(),
    {
        let ghost scope = bindings_view(self.scope@);
        let mut roots: Vec<Pointer> = Vec::new();
        let mut i: usize = 0;
        assert(scope.take(0) =~= Seq::empty());
        while i < self.scope.len()
            invariant
                i <= self.scope.len(),
                scope == bindings_view(self.scope@),
                roots@ == bound_references(scope.take(i as int)),
            decreases self.scope.len() - i,
        {
            assert(scope.take(i + 1).drop_last() =~= scope.take(i as int));
            assert(scope.take(i + 1).last() == scope[i as int]);
            if let Some(Value::ObjectReference(pointer)) = &self.scope[i].1 {
                roots.push(*pointer);
            }
            i += 1;
        }
        assert(scope.take(i as int) =~= scope);
        let mut j: usize = 0;
        while j < self.returned.len()
            invariant
                j <= self.returned.len(),
                roots@ == bound_references(scope) + self.returned@.take(j as int),
            decreases self.returned.len() - j,
        {
            roots.push(self.returned[j]);
            assert(self.returned@.take(j + 1) =~= self.returned@.take(j as int).push(
                self.returned@[j as int],
            ));
            j += 1;
        }
        assert(self.returned@.take(j as int) =~= self.returned@);
        roots
    }

    /// The place of the parent scope.
    pub fn parent(&self) -> (parent: Option<usize>)
        ensures
            parent == self@.parent,
    {
        self.parent
    }

    /// The values that this scope binds, in the order of the bindings.
    pub fn values(&self) -> (values: Vec<Value>)
        ensures
            values@.len() == bound_values(self@.scope).len(),
            forall|i: int| 0 <= i < values@.len() ==> (#[trigger] values@[i])@ == bound_values(
                self@.scope,
            )[i],
    {
        let ghost scope = bindings_view(self.scope@);
        let mut values: Vec<Value> = Vec::new();
        let mut i: usize = 0;
        assert(scope.take(0) =~= Seq::empty());
        while i < self.scope.len()
            invariant
                i <= self.scope.len(),
                scope == bindings_view(self.scope@),
                values@.len() == bound_values(scope.take(i as int)).len(),
                forall|k: int| 0 <= k < values@.len() ==> (#[trigger] values@[k])@ == bound_values(
                    scope.take(i as int),
                )[k],
            decreases self.scope.len() - i,
        {
            assert(scope.take(i + 1).drop_last() =~= scope.take(i as int));
            assert(scope.take(i + 1).last() == scope[i as int]);
            if let Some(value) = &self.scope[i].1 {
                values.push(value.clone());
            }
            i += 1;
        }
        assert(scope.take(i as int) =~= scope);
        values
    }

    /// Records a reference that a call or a block has handed back into this scope.
    pub fn add_returned_object_reference(&mut self, pointer: Pointer)
        ensures
            final(self)@ == (EnvironmentView {
                returned: old(self)@.returned.push(pointer),
                ..old(self)@
            }),
    {
        self.returned.push(pointer);
    }

    /// The references that calls and blocks have handed back into this scope.
    pub fn returned_object_references(&self) -> (returned: &Vec<Pointer>)
        ensures
            returned@ == self@.returned,
    {
        &self.returned
    }

    /// Forgets the references that were handed back into this scope, and hands them over.
    pub fn take_returned_object_references(&mut self) -> (returned: Vec<Pointer>)
        ensures
            returned@ == old(self)@.returned,
            final(self)@ == (EnvironmentView { returned: Seq::empty(), ..old(self)@ }),
    {
        let mut returned: Vec<Pointer> = Vec::new();
        core::mem::swap(&mut self.returned, &mut returned);
        returned
    }
}

} // verus!
