//! What the interpreter has from the machine it runs on: floating-point arithmetic and a place
//! to print to.

use crate::expression::BinaryOperator;
use crate::float::Float;
use vstd::prelude::*;

verus! {

/// The services of the host.
///
/// Floating-point numbers are kept as bit patterns, and the library never rounds: the
/// arithmetic on them, and their text, are the host's.
pub struct Host<A, D> {
    /// Computes `left operator right` for the five arithmetic operators.
    pub arithmetic: A,
    /// Writes a floating-point number as text.
    pub display: D,
    /// The lines printed so far.
    pub output: Vec<String>,
}

/// How far a program may go before it is stopped.
#[derive(Clone, Copy, Debug, PartialEq, Eq, Structural)]
pub struct Limits {
    /// The number of calls that may still be started inside one another.
    pub depth: u64,
    /// The number of rounds that one run of a loop may make.
    pub rounds: u64,
}

/// What a [`Host`] stands for.
pub struct HostView<A, D> {
    pub arithmetic: A,
    pub display: D,
    pub output: Seq<Seq<char>>,
}

impl<A: Fn(BinaryOperator, Float, Float) -> Float, D: Fn(Float) -> String> HostView<A, D> {
    /// The arithmetic and the text are defined on every input, and each gives one answer.
    pub open spec fn well_formed(self) -> bool {
        &&& forall|operator: BinaryOperator, left: Float, right: Float|
            call_requires(self.arithmetic, (operator, left, right))
        &&& forall|operator: BinaryOperator, left: Float, right: Float, one: Float, other: Float|
            call_ensures(self.arithmetic, (operator, left, right), one) && call_ensures(
                self.arithmetic,
                (operator, left, right),
                other,
            ) ==> one == other
        &&& forall|float: Float| call_requires(self.display, (float,))
        &&& forall|float: Float, one: String, other: String|
            call_ensures(self.display, (float,), one) && call_ensures(
                self.display,
                (float,),
                other,
            ) ==> one@ == other@
    }

    /// What the host computes for `left operator right`.
    pub open spec fn computed(self, operator: BinaryOperator, left: Float, right: Float) -> Float {
        choose|result: Float| call_ensures(self.arithmetic, (operator, left, right), result)
    }

    /// The text that the host writes for `float`.
    pub open spec fn shown(self, float: Float) -> Seq<char> {
        (choose|text: String| call_ensures(self.display, (float,), text))@
    }

    /// The host after it has printed `line`.
    pub open spec fn printed(self, line: Seq<char>) -> Self {
        HostView { output: self.output.push(line), ..self }
    }
}

/// What a list of lines stands for.
pub open spec fn lines_view(lines: Seq<String>) -> Seq<Seq<char>> {
    Seq::new(lines.len(), |i: int| lines[i]@)
}

impl<A: Fn(BinaryOperator, Float, Float) -> Float, D: Fn(Float) -> String> View for Host<A, D> {
    type V = HostView<A, D>;

    open spec fn view(&self) -> HostView<A, D> {
        HostView {
            arithmetic: self.arithmetic,
            display: self.display,
            output: lines_view(self.output@),
        }
    }
}

impl<A: Fn(BinaryOperator, Float, Float) -> Float, D: Fn(Float) -> String> Host<A, D> {
    /// The arithmetic and the text are defined on every input, and each gives one answer.
    pub open spec fn well_formed(&self) -> bool {
        self@.well_formed()
    }

    /// Creates a host that has printed nothing.
    pub fn new(arithmetic: A, display: D) -> (host: Self)
        ensures
            host@ == (HostView { arithmetic, display, output: Seq::empty() }),
    {
        let host = Host { arithmetic, display, output: Vec::new() };
        assert(host@.output =~= Seq::empty());
        host
    }

    /// Computes `left operator right` on floating-point numbers.
    pub fn compute(&self, operator: BinaryOperator, left: Float, right: Float) -> (result: Float)
        requires
            self.well_formed(),
        ensures
            result == self@.computed(operator, left, right),
    {
        (self.arithmetic)(operator, left, right)
    }

    /// Writes a floating-point number as text.
    pub fn show(&self, float: Float) -> (text: String)
        requires
            self.well_formed(),
        ensures
            text@ == self@.shown(float),
    {
        (self.display)(float)
    }

    /// Prints a line.
    pub fn print(&mut self, line: String)
        ensures
            final(self)@ == old(self)@.printed(line@),
    {
        self.output.push(line);
        assert(self@.output =~= old(self)@.output.push(line@));
    }
}

} // verus!
