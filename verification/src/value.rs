//! The values a slang program computes with.

use crate::float::Float;
use crate::statement::Statement;
use crate::table::{find, has, names, position, stored_names, with};
use std::rc::Rc;
use vstd::prelude::*;

verus! {

/// A handle to a record that lives on the heap: the index of its slot.
///
/// Copying the handle does not copy the record. A slot index is never handed out twice, so the
/// handle of a freed record refers to nothing.
#[derive(Clone, Copy, PartialEq, Eq, Structural, Debug)]
pub struct Pointer {
    pub slot: usize,
}

/// The fields of a record, in the order in which they were first set.
pub type Object = Vec<(String, Value)>;

/// The functions that are built in.
#[derive(Clone, Copy, PartialEq, Eq, Structural, Debug)]
pub enum NativeFunction {
    Print,
    Format,
}

/// A function: one that a program defined, or one that is built in.
pub enum Function {
    UserDefined { parameters: Rc<Vec<String>>, block: Rc<Statement> },
    Native(NativeFunction),
}

/// A value of a slang program.
pub enum Value {
    String(String),
    Float(Float),
    Integer(i32),
    Boolean(bool),
    Function(Function),
    /// A record on the heap.
    ObjectReference(Pointer),
    /// A record that is not on the heap yet: the result of a record literal, before it is stored.
    Object(Object),
}

/// The types of values, as a slang program sees them.
#[derive(Clone, Copy, PartialEq, Eq, Structural, Debug)]
pub enum Type {
    String,
    Float,
    Integer,
    Boolean,
    Function,
    Object,
}

/// What a [`Value`] stands for: strings as sequences of characters, records as sequences of
/// named values.
pub enum ValueView {
    String(Seq<char>),
    Float(Float),
    Integer(i32),
    Boolean(bool),
    Function(Function),
    ObjectReference(Pointer),
    Object(Seq<(Seq<char>, ValueView)>),
}

/// What a list of fields stands for.
pub open spec fn fields_view(fields: Seq<(String, Value)>) -> Seq<(Seq<char>, ValueView)>
    decreases fields,
{
    Seq::new(
        fields.len(),
        |i: int|
            if 0 <= i < fields.len() {
                (fields[i].0@, fields[i].1.view())
            } else {
                (Seq::empty(), ValueView::Boolean(false))
            },
    )
}

impl View for Value {
    type V = ValueView;

    open spec fn view(&self) -> ValueView
        decreases self,
    {
        match self {
            Value::String(string) => ValueView::String(string@),
            Value::Float(float) => ValueView::Float(*float),
            Value::Integer(integer) => ValueView::Integer(*integer),
            Value::Boolean(boolean) => ValueView::Boolean(*boolean),
            Value::Function(function) => ValueView::Function(*function),
            Value::ObjectReference(pointer) => ValueView::ObjectReference(*pointer),
            Value::Object(fields) => ValueView::Object(fields_view(fields@)),
        }
    }
}

impl ValueView {
    /// The type of what the value stands for.
    pub open spec fn slang_type(self) -> Type {
        match self {
            ValueView::String(_) => Type::String,
            ValueView::Float(_) => Type::Float,
            ValueView::Integer(_) => Type::Integer,
            ValueView::Boolean(_) => Type::Boolean,
            ValueView::Function(_) => Type::Function,
            ValueView::ObjectReference(_) => Type::Object,
            ValueView::Object(_) => Type::Object,
        }
    }
}

/// `Rc::clone`: the new handle points at the value that the old one points at.
#[verifier::external_body]
pub(crate) fn share<T>(shared: &Rc<T>) -> (handle: Rc<T>)
    ensures
        handle == *shared,
{
    shared.clone()
}

impl Clone for Function {
    fn clone(&self) -> (copy: Self)
        ensures
            copy == *self,
    {
        match self {
            Function::UserDefined { parameters, block } => Function::UserDefined {
                parameters: share(parameters),
                block: share(block),
            },
            Function::Native(function) => Function::Native(*function),
        }
    }
}

/// Copies a list of fields.
pub fn clone_fields(fields: &Object) -> (copy: Object)
    ensures
        fields_view(copy@) == fields_view(fields@),
    decreases fields,
{
    let mut copy: Object = Vec::new();
    let mut i: usize = 0;
    while i < fields.len()
        invariant
            i <= fields.len(),
            copy.len() == i,
            forall|j: int| 0 <= j < i ==> copy[j].0@ == fields[j].0@ && copy[j].1@ == fields[j].1@,
        decreases fields.len() - i,
    {
        let name = fields[i].0.clone();
        let value = fields[i].1.clone();
        copy.push((name, value));
        i += 1;
    }
    assert(fields_view(copy@) =~= fields_view(fields@));
    copy
}

/// Reads a field of a record that is not on the heap.
pub fn get_field(fields: &Object, name: &String) -> (value: Option<Value>)
    ensures
        value is Some == has(fields_view(fields@), name@),
        value is Some ==> value->0@ == fields_view(fields@)[position(fields_view(fields@), name@)].1,
{
    assert(stored_names(fields@) =~= names(fields_view(fields@)));
    let at = find(fields, name);
    if at < fields.len() {
        Some(fields[at].1.clone())
    } else {
        None
    }
}

/// Sets a field of a record that is not on the heap.
pub fn set_field(fields: &mut Object, name: String, value: Value)
    ensures
        fields_view(final(fields)@) == with(fields_view(old(fields)@), name@, value@),
{
    let ghost before = fields_view(fields@);
    assert(stored_names(fields@) =~= names(before));
    let at = find(fields, &name);
    if at < fields.len() {
        fields[at] = (name, value);
        assert(fields_view(fields@) =~= with(before, name@, value@));
    } else {
        fields.push((name, value));
        assert(fields_view(fields@) =~= with(before, name@, value@));
    }
}

impl Clone for Value {
    fn clone(&self) -> (copy: Self)
        ensures
            copy@ == self@,
        decreases self,
    {
        match self {
            Value::String(string) => Value::String(string.clone()),
            Value::Float(float) => Value::Float(*float),
            Value::Integer(integer) => Value::Integer(*integer),
            Value::Boolean(boolean) => Value::Boolean(*boolean),
            Value::Function(function) => Value::Function(function.clone()),
            Value::ObjectReference(pointer) => Value::ObjectReference(*pointer),
            Value::Object(fields) => Value::Object(clone_fields(fields)),
        }
    }
}

impl Value {
    /// The type of the value, as a slang program sees it.
    pub fn slang_type(&self) -> (kind: Type)
        ensures
            kind == self@.slang_type(),
    {
        match self {
            Self::String(_) => Type::String,
            Self::Float(_) => Type::Float,
            Self::Integer(_) => Type::Integer,
            Self::Boolean(_) => Type::Boolean,
            Self::Function(_) => Type::Function,
            Self::Object(_) => Type::Object,
            Self::ObjectReference(_) => Type::Object,
        }
    }
}

} // verus!
