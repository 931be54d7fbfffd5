//! The call stack: one chain of environments for each call that is running.

use crate::environment::{
    binding_view, bound_values, Environment, EnvironmentError, EnvironmentView,
};
use crate::heap::model::released_each;
use crate::heap::ManagedHeap;
use crate::table::has;
use crate::value::{Pointer, Value, ValueView};
use vstd::layout::size_of;
use vstd::prelude::*;

verus! {

/// One call that is running.
#[derive(Clone, Copy, Debug)]
pub struct Frame {
    /// The place of the innermost environment of the call.
    pub head: usize,
    /// The place from which on the environments belong to this call or to a later one.
    pub base: usize,
}

/// What a [`Stack`] stands for: the environments that are alive, the global one first, and the
/// calls that are running, the program itself first.
pub struct StackView {
    pub environments: Seq<EnvironmentView>,
    pub frames: Seq<Frame>,
}

/// The place of the nearest environment, from `from` outwards, that binds `identifier`.
pub open spec fn resolve(environments: Seq<EnvironmentView>, from: int, identifier: Seq<char>) -> Option<
    int,
>
    decreases from,
{
    if from < 0 || from >= environments.len() {
        None
    } else if has(environments[from].scope, identifier) {
        Some(from)
    } else {
        match environments[from].parent {
            Some(parent) => if parent < from {
                resolve(environments, parent as int, identifier)
            } else {
                None
            },
            None => None,
        }
    }
}

/// The place of the outermost environment of the chain from `from` outwards: where following
/// the parents ends.
pub open spec fn outermost(environments: Seq<EnvironmentView>, from: int) -> int
    decreases from,
{
    if from < 0 || from >= environments.len() {
        from
    } else {
        match environments[from].parent {
            Some(parent) => if parent < from {
                outermost(environments, parent as int)
            } else {
                from
            },
            None => from,
        }
    }
}

/// The roots that the chain of environments from `from` outwards exposes: those of the
/// environment itself, then those of its parent, and so on.
pub open spec fn chain_roots(environments: Seq<EnvironmentView>, from: int) -> Seq<Pointer>
    decreases from,
{
    if from < 0 || from >= environments.len() {
        Seq::empty()
    } else {
        environments[from].roots() + match environments[from].parent {
            Some(parent) => if parent < from {
                chain_roots(environments, parent as int)
            } else {
                Seq::empty()
            },
            None => Seq::empty(),
        }
    }
}

/// The roots of the first `count` calls, the earliest call first.
pub open spec fn frames_roots(environments: Seq<EnvironmentView>, frames: Seq<Frame>, count: int) -> Seq<
    Pointer,
>
    decreases count,
{
    if count <= 0 || count > frames.len() {
        Seq::empty()
    } else {
        frames_roots(environments, frames, count - 1) + chain_roots(
            environments,
            frames[count - 1].head as int,
        )
    }
}

/// What reading an identifier gives.
pub enum Lookup {
    Value(ValueView),
    Uninitialised,
    Undefined,
}

impl StackView {
    /// Every environment but the global one has a parent that was made before it, each call's
    /// environments lie after those of the calls before it, and the innermost environment of
    /// the running call is the last one alive.
    pub open spec fn well_formed(self) -> bool {
        &&& self.environments.len() >= 1
        &&& self.environments[0].parent is None
        &&& forall|i: int|
            1 <= i < self.environments.len() ==> (#[trigger] self.environments[i]).parent is Some
                && self.environments[i].parent->0 < i
        &&& self.frames.len() >= 1
        &&& forall|k: int|
            0 <= k < self.frames.len() ==> 1 <= (#[trigger] self.frames[k]).base
                <= self.environments.len() && self.frames[k].head < self.environments.len()
        &&& forall|k: int|
            0 <= k < self.frames.len() - 1 ==> self.extent(#[trigger] self.frames[k])
                == self.frames[k + 1].base
        &&& self.environments.len() == self.extent(self.frames.last())
    }

    /// The number of environments that are alive while `frame` is the running call.
    pub open spec fn extent(self, frame: Frame) -> int {
        if frame.head + 1 > frame.base {
            frame.head + 1
        } else {
            frame.base as int
        }
    }

    /// The place of the innermost environment of the running call.
    pub open spec fn top(self) -> int {
        self.frames.last().head as int
    }

    /// The stack with `identifier` bound to `value` in the innermost scope.
    pub open spec fn defined(self, identifier: Seq<char>, value: Option<ValueView>) -> Self {
        StackView {
            environments: self.environments.update(
                self.top(),
                self.environments[self.top()].defined(identifier, value),
            ),
            ..self
        }
    }

    /// What reading `identifier` gives: the binding of the nearest scope that has one.
    pub open spec fn lookup(self, identifier: Seq<char>) -> Lookup {
        match resolve(self.environments, self.top(), identifier) {
            Some(place) => match self.environments[place].binding(identifier)->0 {
                Some(value) => Lookup::Value(value),
                None => Lookup::Uninitialised,
            },
            None => Lookup::Undefined,
        }
    }

    /// Whether some scope, from the innermost outwards, binds `identifier`.
    pub open spec fn binds(self, identifier: Seq<char>) -> bool {
        resolve(self.environments, self.top(), identifier) is Some
    }

    /// The stack with `value` assigned to `identifier` in the nearest scope that binds it;
    /// the stack itself where none does.
    pub open spec fn assigned(self, identifier: Seq<char>, value: Option<ValueView>) -> Self {
        match resolve(self.environments, self.top(), identifier) {
            Some(place) => StackView {
                environments: self.environments.update(
                    place,
                    self.environments[place].defined(identifier, value),
                ),
                ..self
            },
            None => self,
        }
    }

    /// What the nearest binding of `identifier` holds.
    pub open spec fn bound(self, identifier: Seq<char>) -> Option<ValueView> {
        self.environments[resolve(self.environments, self.top(), identifier)->0].binding(
            identifier,
        )->0
    }

    /// The stack with a fresh scope inside the innermost one.
    pub open spec fn entered(self) -> Self {
        StackView {
            environments: self.environments.push(
                EnvironmentView {
                    parent: Some(self.top() as usize),
                    scope: Seq::empty(),
                    returned: Seq::empty(),
                },
            ),
            frames: self.frames.update(
                self.frames.len() - 1,
                Frame { head: self.environments.len() as usize, ..self.frames.last() },
            ),
        }
    }

    /// The stack without its innermost scope; the stack itself where that scope is the global
    /// one, which has no parent.
    pub open spec fn exited(self) -> Self {
        match self.environments[self.top()].parent {
            Some(parent) => {
                let frame = Frame { head: parent, ..self.frames.last() };
                StackView {
                    environments: self.environments.take(self.extent(frame)),
                    frames: self.frames.update(self.frames.len() - 1, frame),
                }
            },
            None => self,
        }
    }

    /// The stack with a frame for a new call, whose scope has the global one as its parent.
    pub open spec fn pushed(self) -> Self {
        StackView {
            environments: self.environments.push(
                EnvironmentView { parent: Some(0), scope: Seq::empty(), returned: Seq::empty() },
            ),
            frames: self.frames.push(
                Frame {
                    head: self.environments.len() as usize,
                    base: self.environments.len() as usize,
                },
            ),
        }
    }

    /// The stack without the frame of the running call and without the environments of that
    /// call; the stack itself where only the program's own frame is left.
    pub open spec fn popped(self) -> Self {
        if self.frames.len() > 1 {
            StackView {
                environments: self.environments.take(self.frames.last().base as int),
                frames: self.frames.drop_last(),
            }
        } else {
            self
        }
    }

    /// The stack with `pointer` handed back into the innermost scope.
    pub open spec fn handed_back(self, pointer: Pointer) -> Self {
        StackView {
            environments: self.environments.update(
                self.top(),
                EnvironmentView {
                    returned: self.environments[self.top()].returned.push(pointer),
                    ..self.environments[self.top()]
                },
            ),
            ..self
        }
    }

    /// The stack with nothing handed back into the innermost scope any more.
    pub open spec fn settled(self) -> Self {
        StackView {
            environments: self.environments.update(
                self.top(),
                EnvironmentView { returned: Seq::empty(), ..self.environments[self.top()] },
            ),
            ..self
        }
    }

    /// The roots of the stack: for each call, the earliest first, the roots of its chain of
    /// environments.
    pub open spec fn roots(self) -> Seq<Pointer> {
        frames_roots(self.environments, self.frames, self.frames.len() as int)
    }
}


/// A call that is not the running one lies below the base of the running one.
pub proof fn lower_frames_lie_below(stack: StackView, k: int)
    requires
        stack.well_formed(),
        0 <= k < stack.frames.len() - 1,
    ensures
        stack.frames[k].base <= stack.frames.last().base,
        stack.frames[k].head < stack.frames.last().base,
    decreases stack.frames.len() - k,
{
    assert(stack.extent(stack.frames[k]) == stack.frames[k + 1].base);
    if k + 1 < stack.frames.len() - 1 {
        lower_frames_lie_below(stack, k + 1);
    }
}

/// Leaving a block keeps the stack well formed.
pub proof fn exited_is_well_formed(stack: StackView)
    requires
        stack.well_formed(),
    ensures
        stack.exited().well_formed(),
{
    let after = stack.exited();
    let top = stack.top();
    let count = stack.frames.len() as int;
    assert(stack.frames[count - 1] == stack.frames.last());
    if let Some(parent) = stack.environments[top].parent {
        let frame = Frame { head: parent, ..stack.frames.last() };
        let extent = stack.extent(frame);
        assert(top >= 1);
        assert(parent < top);
        assert(after.environments.len() == extent);
        assert(after.frames.last() == frame);
        assert(after.extent(frame) == extent);
        assert forall|i: int| 1 <= i < after.environments.len() implies (#[trigger] after.environments[i]).parent is Some
            && after.environments[i].parent->0 < i by {
            assert(after.environments[i] == stack.environments[i]);
        }
        assert forall|k: int| 0 <= k < after.frames.len() implies 1 <= (#[trigger] after.frames[k]).base
            <= after.environments.len() && after.frames[k].head < after.environments.len() by {
            if k < count - 1 {
                assert(after.frames[k] == stack.frames[k]);
                lower_frames_lie_below(stack, k);
            }
        }
        assert forall|k: int| 0 <= k < after.frames.len() - 1 implies after.extent(
            #[trigger] after.frames[k],
        ) == after.frames[k + 1].base by {
            assert(after.frames[k] == stack.frames[k]);
            assert(stack.extent(stack.frames[k]) == stack.frames[k + 1].base);
        }
    }
}

/// Ending a call keeps the stack well formed.
pub proof fn popped_is_well_formed(stack: StackView)
    requires
        stack.well_formed(),
    ensures
        stack.popped().well_formed(),
{
    let after = stack.popped();
    if stack.frames.len() > 1 {
        let count = stack.frames.len() as int;
        let base = stack.frames.last().base as int;
        assert(stack.frames[count - 1] == stack.frames.last());
        assert(stack.extent(stack.frames[count - 2]) == stack.frames[count - 2 + 1].base);
        assert(after.environments.len() == base);
        assert(after.frames.last() == stack.frames[count - 2]);
        assert forall|i: int| 1 <= i < after.environments.len() implies (#[trigger] after.environments[i]).parent is Some
            && after.environments[i].parent->0 < i by {
            assert(after.environments[i] == stack.environments[i]);
        }
        assert forall|k: int| 0 <= k < after.frames.len() implies 1 <= (#[trigger] after.frames[k]).base
            <= after.environments.len() && after.frames[k].head < after.environments.len() by {
            assert(after.frames[k] == stack.frames[k]);
            lower_frames_lie_below(stack, k);
        }
        assert forall|k: int| 0 <= k < after.frames.len() - 1 implies after.extent(
            #[trigger] after.frames[k],
        ) == after.frames[k + 1].base by {
            assert(after.frames[k] == stack.frames[k]);
            assert(after.frames[k + 1] == stack.frames[k + 1]);
            assert(stack.extent(stack.frames[k]) == stack.frames[k + 1].base);
        }
    }
}

/// Entering a block keeps the stack well formed.
pub proof fn entered_is_well_formed(stack: StackView)
    requires
        stack.well_formed(),
        stack.environments.len() < usize::MAX,
    ensures
        stack.entered().well_formed(),
{
    let after = stack.entered();
    let count = stack.frames.len() as int;
    assert(stack.frames[count - 1] == stack.frames.last());
    assert(after.frames.last() == Frame {
        head: stack.environments.len() as usize,
        ..stack.frames.last()
    });
    assert forall|i: int| 1 <= i < after.environments.len() implies (#[trigger] after.environments[i]).parent is Some
        && after.environments[i].parent->0 < i by {
        if i < stack.environments.len() {
            assert(after.environments[i] == stack.environments[i]);
        }
    }
    assert forall|k: int| 0 <= k < after.frames.len() implies 1 <= (#[trigger] after.frames[k]).base
        <= after.environments.len() && after.frames[k].head < after.environments.len() by {
        if k < count - 1 {
            assert(after.frames[k] == stack.frames[k]);
        }
    }
    assert forall|k: int| 0 <= k < after.frames.len() - 1 implies after.extent(
        #[trigger] after.frames[k],
    ) == after.frames[k + 1].base by {
        assert(after.frames[k] == stack.frames[k]);
        assert(stack.extent(stack.frames[k]) == stack.frames[k + 1].base);
        if k + 1 < count - 1 {
            assert(after.frames[k + 1] == stack.frames[k + 1]);
        }
    }
}

/// Starting a call keeps the stack well formed.
pub proof fn pushed_is_well_formed(stack: StackView)
    requires
        stack.well_formed(),
        stack.environments.len() < usize::MAX,
    ensures
        stack.pushed().well_formed(),
{
    let after = stack.pushed();
    let count = stack.frames.len() as int;
    assert(stack.frames[count - 1] == stack.frames.last());
    assert forall|i: int| 1 <= i < after.environments.len() implies (#[trigger] after.environments[i]).parent is Some
        && after.environments[i].parent->0 < i by {
        if i < stack.environments.len() {
            assert(after.environments[i] == stack.environments[i]);
        }
    }
    assert forall|k: int| 0 <= k < after.frames.len() implies 1 <= (#[trigger] after.frames[k]).base
        <= after.environments.len() && after.frames[k].head < after.environments.len() by {
        if k < count {
            assert(after.frames[k] == stack.frames[k]);
        }
    }
    assert forall|k: int| 0 <= k < after.frames.len() - 1 implies after.extent(
        #[trigger] after.frames[k],
    ) == after.frames[k + 1].base by {
        assert(after.frames[k] == stack.frames[k]);
        if k < count - 1 {
            assert(after.frames[k + 1] == stack.frames[k + 1]);
            assert(stack.extent(stack.frames[k]) == stack.frames[k + 1].base);
        }
    }
}

/// Changing what one environment binds or was handed back keeps the stack well formed.
pub proof fn rebound_is_well_formed(stack: StackView, place: int, environment: EnvironmentView)
    requires
        stack.well_formed(),
        0 <= place < stack.environments.len(),
        environment.parent == stack.environments[place].parent,
    ensures
        (StackView {
            environments: stack.environments.update(place, environment),
            ..stack
        }).well_formed(),
{
    let after = StackView { environments: stack.environments.update(place, environment), ..stack };
    assert forall|i: int| 1 <= i < after.environments.len() implies (#[trigger] after.environments[i]).parent is Some
        && after.environments[i].parent->0 < i by {
        if i != place {
            assert(after.environments[i] == stack.environments[i]);
        } else {
            assert(stack.environments[i].parent is Some);
        }
    }
    assert forall|k: int| 0 <= k < after.frames.len() - 1 implies after.extent(
        #[trigger] after.frames[k],
    ) == after.frames[k + 1].base by {
        assert(stack.extent(stack.frames[k]) == stack.frames[k + 1].base);
    }
}

/// The stack of a running program.
pub struct Stack {
    environments: Vec<Environment>,
    stack: Vec<Frame>,
}

impl View for Stack {
    type V = StackView;

    closed spec fn view(&self) -> StackView {
        StackView {
            environments: Seq::new(self.environments@.len(), |i: int| self.environments@[i]@),
            frames: self.stack@,
        }
    }
}

impl Stack {
    /// Whether what the stack stands for is well formed.
    pub open spec fn well_formed(&self) -> bool {
        self@.well_formed()
    }

    /// Creates a stack that holds the program's own frame, on the global environment.
    pub fn new() -> (stack: Self)
        ensures
            stack.well_formed(),
            stack@.frames == seq![Frame { head: 0, base: 1 }],
            stack@.environments == seq![Environment::new_view()],
    {
        let mut environments: Vec<Environment> = Vec::new();
        environments.push(Environment::new(None));
        let mut stack: Vec<Frame> = Vec::new();
        stack.push(Frame { head: 0, base: 1 });
        let made = Stack { environments, stack };
        assert(made@.frames =~= seq![Frame { head: 0, base: 1 }]);
        assert(made@.environments =~= seq![Environment::new_view()]);
        made
    }

    /// The place of the innermost environment of the running call.
    pub fn top(&self) -> (top: usize)
        requires
            self.well_formed(),
        ensures
            top == self@.top(),
            top < self@.environments.len(),
    {
        self.stack[self.stack.len() - 1].head
    }

    /// The environment at `place`.
    pub fn environment(&self, place: usize) -> (environment: &Environment)
        requires
            place < self@.environments.len(),
        ensures
            environment@ == self@.environments[place as int],
    {
        &self.environments[place]
    }

    /// The place of the nearest environment that binds `identifier`.
    fn find(&self, identifier: &String) -> (place: Option<usize>)
        requires
            self.well_formed(),
        ensures
            place is Some == resolve(self@.environments, self@.top(), identifier@) is Some,
            place is Some ==> place->0 == resolve(self@.environments, self@.top(), identifier@)->0,
            place is Some ==> place->0 < self@.environments.len() && has(
                self@.environments[place->0 as int].scope,
                identifier@,
            ),
    {
        let mut current = self.top();
        loop
            invariant
                self.well_formed(),
                current < self@.environments.len(),
                resolve(self@.environments, current as int, identifier@) == resolve(
                    self@.environments,
                    self@.top(),
                    identifier@,
                ),
            decreases current,
        {
            if self.environments[current].defines(identifier) {
                return Some(current);
            }
            match self.environments[current].parent() {
                Some(parent) => {
                    current = parent;
                },
                None => {
                    return None;
                },
            }
        }
    }

    /// Defines a target in the innermost scope, shadowing any outer one, and hands back what
    /// the target was bound to in that scope before.
    pub fn define(&mut self, identifier: String, value: Option<Value>) -> (previous: Option<
        Option<Value>,
    >)
        requires
            old(self).well_formed(),
        ensures
            final(self).well_formed(),
            final(self)@ == old(self)@.defined(identifier@, binding_view(value)),
            previous is Some == old(self)@.environments[old(self)@.top()].binding(identifier@)
                is Some,
            previous is Some ==> binding_view(previous->0) == old(self)@.environments[old(self)@.top()].binding(identifier@)->0,
    {
        let top = self.top();
        proof {
            rebound_is_well_formed(
                self@,
                top as int,
                self@.environments[top as int].defined(identifier@, binding_view(value)),
            );
        }
        let previous = self.environments[top].define(identifier, value);
        assert(self@.environments =~= old(self)@.environments.update(
            top as int,
            old(self)@.environments[top as int].defined(identifier@, binding_view(value)),
        ));
        previous
    }

    /// Assigns a value to a target that is defined, and hands back what it was bound to.
    ///
    /// The target is searched for from the innermost scope outwards.
    pub fn assign(&mut self, identifier: String, value: Option<Value>) -> (result: Result<
        Option<Value>,
        EnvironmentError,
    >)
        requires
            old(self).well_formed(),
        ensures
            final(self).well_formed(),
            final(self)@ == old(self)@.assigned(identifier@, binding_view(value)),
            result is Ok == old(self)@.binds(identifier@),
            result is Ok ==> binding_view(result->Ok_0) == old(self)@.bound(identifier@),
            result is Err ==> result->Err_0 == (EnvironmentError::UndefinedAssignmentTarget {
                identifier,
            }),
    {
        match self.find(&identifier) {
            Some(place) => {
                let ghost name = identifier@;
                proof {
                    rebound_is_well_formed(
                        self@,
                        place as int,
                        self@.environments[place as int].defined(name, binding_view(value)),
                    );
                }
                let previous = self.environments[place].define(identifier, value);
                assert(self@.environments =~= old(self)@.environments.update(
                    place as int,
                    old(self)@.environments[place as int].defined(name, binding_view(value)),
                ));
                Ok(previous.unwrap())
            },
            None => Err(EnvironmentError::UndefinedAssignmentTarget { identifier }),
        }
    }

    /// Gets the value of a target.
    ///
    /// The target is searched for from the innermost scope outwards.
    pub fn get(&self, identifier: &String) -> (result: Result<Value, EnvironmentError>)
        requires
            self.well_formed(),
        ensures
            match self@.lookup(identifier@) {
                Lookup::Value(value) => result is Ok && result->Ok_0@ == value,
                Lookup::Uninitialised => result == Err::<Value, EnvironmentError>(
                    EnvironmentError::UninitialisedTarget { identifier: *identifier },
                ),
                Lookup::Undefined => result == Err::<Value, EnvironmentError>(
                    EnvironmentError::UndefinedTarget { identifier: *identifier },
                ),
            },
    {
        match self.find(identifier) {
            Some(place) => match self.environments[place].get(identifier) {
                Some(Some(value)) => Ok(value),
                _ => Err(EnvironmentError::UninitialisedTarget { identifier: identifier.clone() }),
            },
            None => Err(EnvironmentError::UndefinedTarget { identifier: identifier.clone() }),
        }
    }

    /// The place of the outermost environment: the one without a parent, which every chain
    /// ends in. It is found from the innermost environment of the program's own frame, by
    /// following the parents.
    pub fn global(&self) -> (global: usize)
        requires
            self.well_formed(),
        ensures
            global == outermost(self@.environments, self@.frames[0].head as int),
            global == 0,
            self@.environments[global as int].parent is None,
    {
        let mut current = self.stack[0].head;
        loop
            invariant
                self.well_formed(),
                current < self@.environments.len(),
                outermost(self@.environments, current as int) == outermost(
                    self@.environments,
                    self@.frames[0].head as int,
                ),
            decreases current,
        {
            assert(self@.environments[current as int] == self.environments@[current as int]@);
            match self.environments[current].parent() {
                Some(parent) => {
                    current = parent;
                },
                None => {
                    return current;
                },
            }
        }
    }

    /// The values that the innermost scope binds, in the order of its bindings.
    pub fn values(&self) -> (values: Vec<Value>)
        requires
            self.well_formed(),
        ensures
            values@.len() == bound_values(self@.environments[self@.top()].scope).len(),
            forall|i: int| 0 <= i < values@.len() ==> (#[trigger] values@[i])@ == bound_values(
                self@.environments[self@.top()].scope,
            )[i],
    {
        self.environments[self.top()].values()
    }

    /// Enters a block: a fresh scope inside the innermost one.
    pub fn enter_scope(&mut self)
        requires
            old(self).well_formed(),
        ensures
            final(self).well_formed(),
            final(self)@ == old(self)@.entered(),
    {
        let top = self.top();
        let place = self.environments.len();
        self.environments.push(Environment::new(Some(top)));
        let count = self.environments.len();
        proof {
            assert(old(self)@.environments.len() + 1 == count);
            entered_is_well_formed(old(self)@);
        }
        let last = self.stack.len() - 1;
        let frame = self.stack[last];
        self.stack[last] = Frame { head: place, base: frame.base };
        assert(self@.environments =~= old(self)@.entered().environments);
        assert(self@.frames =~= old(self)@.entered().frames);
    }

    /// Records a reference that a call or a block has handed back into the innermost scope.
    pub fn add_returned_object_reference(&mut self, pointer: Pointer)
        requires
            old(self).well_formed(),
        ensures
            final(self).well_formed(),
            final(self)@ == old(self)@.handed_back(pointer),
    {
        let top = self.top();
        proof {
            rebound_is_well_formed(
                self@,
                top as int,
                self@.handed_back(pointer).environments[top as int],
            );
        }
        self.environments[top].add_returned_object_reference(pointer);
        assert(self@.environments =~= old(self)@.handed_back(pointer).environments);
    }

    /// Gives up the references that were handed back into the innermost scope.
    pub fn settle(&mut self, heap: &mut ManagedHeap)
        requires
            old(self).well_formed(),
            old(heap).well_formed(),
        ensures
            final(self).well_formed(),
            final(heap).well_formed(),
            final(heap).same_strategy(old(heap)),
            final(self)@ == old(self)@.settled(),
            final(heap)@ == if old(heap).counting() {
                released_each(old(heap)@, old(self)@.environments[old(self)@.top()].returned)
            } else {
                old(heap)@
            },
    {
        let top = self.top();
        proof {
            rebound_is_well_formed(self@, top as int, self@.settled().environments[top as int]);
        }
        let returned = self.environments[top].take_returned_object_references();
        assert(self@.environments =~= old(self)@.settled().environments);
        heap.release_pointers(returned.as_slice());
    }

    /// Leaves a block: gives up the references that were handed back into the innermost
    /// scope, then discards that scope and exposes its parent. The global scope stays.
    pub fn exit_scope(&mut self, heap: &mut ManagedHeap)
        requires
            old(self).well_formed(),
            old(heap).well_formed(),
        ensures
            final(self).well_formed(),
            final(heap).well_formed(),
            final(heap).same_strategy(old(heap)),
            final(self)@ == old(self)@.settled().exited(),
            final(heap)@ == if old(heap).counting() {
                released_each(old(heap)@, old(self)@.environments[old(self)@.top()].returned)
            } else {
                old(heap)@
            },
    {
        self.settle(heap);
        let ghost settled = self@;
        proof {
            exited_is_well_formed(settled);
        }
        let top = self.top();
        assert(self@.environments[top as int] == self.environments@[top as int]@);
        if let Some(parent) = self.environments[top].parent() {
            assert(top >= 1 && parent < top);
            let last = self.stack.len() - 1;
            let base = self.stack[last].base;
            self.stack[last] = Frame { head: parent, base };
            let extent = if parent + 1 > base {
                parent + 1
            } else {
                base
            };
            self.environments.truncate(extent);
            assert(self@.environments =~= settled.exited().environments);
            assert(self@.frames =~= settled.exited().frames);
        }
    }

    /// Starts a call: a new frame, whose scope has the global one as its parent and not the
    /// scope of the caller. Hands back the place of that scope.
    pub fn push(&mut self) -> (place: usize)
        requires
            old(self).well_formed(),
        ensures
            final(self).well_formed(),
            final(self)@ == old(self)@.pushed(),
            place == final(self)@.top(),
    {
        let global = self.global();
        let place = self.environments.len();
        self.environments.push(Environment::new(Some(global)));
        let count = self.environments.len();
        proof {
            assert(old(self)@.environments.len() + 1 == count);
            pushed_is_well_formed(old(self)@);
        }
        self.stack.push(Frame { head: place, base: place });
        assert(self@.environments =~= old(self)@.pushed().environments);
        assert(self@.frames =~= old(self)@.pushed().frames);
        place
    }

    /// Ends a call: discards its frame with all its scopes. The program's own frame stays.
    pub fn pop(&mut self)
        requires
            old(self).well_formed(),
        ensures
            final(self).well_formed(),
            final(self)@ == old(self)@.popped(),
    {
        proof {
            popped_is_well_formed(self@);
        }
        if self.stack.len() > 1 {
            let frame = self.stack.pop().unwrap();
            self.environments.truncate(frame.base);
            assert(self@.environments =~= old(self)@.popped().environments);
            assert(self@.frames =~= old(self)@.popped().frames);
        }
    }

    /// The roots of the chain of environments from `head` outwards.
    fn chain(&self, head: usize, roots: &mut Vec<Pointer>)
        requires
            self.well_formed(),
            head < self@.environments.len(),
        ensures
            final(roots)@ == old(roots)@ + chain_roots(self@.environments, head as int),
    {
        let mut current = head;
        assert(roots@ + chain_roots(self@.environments, current as int) =~= old(roots)@
            + chain_roots(self@.environments, head as int));
        loop
            invariant
                self.well_formed(),
                current < self@.environments.len(),
                roots@ + chain_roots(self@.environments, current as int) == old(roots)@
                    + chain_roots(self@.environments, head as int),
            decreases current,
        {
            let ghost before = roots@;
            assert(self@.environments[current as int] == self.environments@[current as int]@);
            let mut own = self.environments[current].roots();
            roots.append(&mut own);
            match self.environments[current].parent() {
                Some(parent) => {
                    assert(roots@ + chain_roots(self@.environments, parent as int) =~= before
                        + chain_roots(self@.environments, current as int));
                    current = parent;
                },
                None => {
                    assert(roots@ =~= before + chain_roots(self@.environments, current as int));
                    return ;
                },
            }
        }
    }

    /// The roots of the stack: every reference that some environment of some running call
    /// holds.
    pub fn roots(&self) -> (roots: Vec<Pointer>)
        requires
            self.well_formed(),
        ensures
            roots@ == self@.roots(),
    {
        let mut roots: Vec<Pointer> = Vec::new();
        let mut k: usize = 0;
        assert(roots@ =~= frames_roots(self@.environments, self@.frames, 0));
        while k < self.stack.len()
            invariant
                self.well_formed(),
                k <= self.stack.len(),
                roots@ == frames_roots(self@.environments, self@.frames, k as int),
            decreases self.stack.len() - k,
        {
            self.chain(self.stack[k].head, &mut roots);
            k += 1;
        }
        roots
    }

    /// The number of calls that are running, the program itself among them.
    pub fn frames_count(&self) -> (count: usize)
        ensures
            count == self@.frames.len(),
    {
        self.stack.len()
    }

    /// The bytes that the innermost environments of the running calls take, without what they
    /// point to; the largest number that fits where that is too many to count.
    pub fn size(&self) -> (size: usize)
        ensures
            size == if self@.frames.len() * size_of::<Environment>() <= usize::MAX {
                (self@.frames.len() * size_of::<Environment>()) as usize
            } else {
                usize::MAX
            },
    {
        match self.stack.len().checked_mul(core::mem::size_of::<Environment>()) {
            Some(size) => size,
            None => usize::MAX,
        }
    }
}

} // verus!
