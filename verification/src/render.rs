//! Values as the text that a slang program prints.

use crate::expression::BinaryOperator;
use crate::float::Float;
use crate::heap::model::Fields;
use crate::host::{Host, HostView};
use crate::text::{decimal, decimal_text, integer_text, signed_decimal};
use crate::value::{fields_view, Function, Object, Value, ValueView};
use vstd::prelude::*;
use vstd::string::StringExecFns;

verus! {

/// The names of the fields, separated by commas.
pub open spec fn joined(fields: Fields) -> Seq<char>
    decreases fields.len(),
{
    if fields.len() == 0 {
        Seq::empty()
    } else if fields.len() == 1 {
        fields[0].0
    } else {
        joined(fields.drop_last()) + ", "@ + fields.last().0
    }
}

/// The text of a value: a string as it is, a number in decimal, a record that is not on the
/// heap as the list of its field names, and anything else as a description in angle brackets.
pub open spec fn rendered<A: Fn(BinaryOperator, Float, Float) -> Float, D: Fn(Float) -> String>(
    host: HostView<A, D>,
    value: ValueView,
) -> Seq<char> {
    match value {
        ValueView::String(string) => string,
        ValueView::Float(float) => host.shown(float),
        ValueView::Integer(integer) => signed_decimal(integer as int),
        ValueView::Boolean(boolean) => if boolean {
            "true"@
        } else {
            "false"@
        },
        ValueView::Function(Function::Native(_)) => "<native function>"@,
        ValueView::Function(Function::UserDefined { parameters, block }) => "<function with "@
            + decimal(parameters@.len()) + " named parameters>"@,
        ValueView::Object(fields) => "{ "@ + joined(fields) + " }"@,
        ValueView::ObjectReference(_) => "<object reference>"@,
    }
}

fn join(fields: &Object) -> (text: String)
    ensures
        text@ == joined(fields_view(fields@)),
{
    let ghost all = fields_view(fields@);
    let mut text = String::new();
    let mut i: usize = 0;
    assert(all.take(0) =~= Seq::empty());
    while i < fields.len()
        invariant
            i <= fields.len(),
            all == fields_view(fields@),
            text@ == joined(all.take(i as int)),
        decreases fields.len() - i,
    {
        assert(all.take(i + 1).drop_last() =~= all.take(i as int));
        assert(all.take(i + 1).last() == all[i as int]);
        if i > 0 {
            text.append(", ");
        } else {
            assert(all.take(1)[0] == all[0]);
            assert(Seq::<char>::empty() + fields[0].0@ =~= fields[0].0@);
        }
        text.append(fields[i].0.as_str());
        i += 1;
    }
    assert(all.take(i as int) =~= all);
    text
}

/// Writes a value as the text that a slang program prints for it.
pub fn render<A: Fn(BinaryOperator, Float, Float) -> Float, D: Fn(Float) -> String>(
    host: &Host<A, D>,
    value: &Value,
) -> (text: String)
    requires
        host.well_formed(),
    ensures
        text@ == rendered(host@, value@),
{
    match value {
        Value::String(string) => string.clone(),
        Value::Float(float) => host.show(*float),
        Value::Integer(integer) => integer_text(*integer),
        Value::Boolean(boolean) => if *boolean {
            "true".to_string()
        } else {
            "false".to_string()
        },
        Value::Function(Function::Native(_)) => "<native function>".to_string(),
        Value::Function(Function::UserDefined { parameters, block }) => {
            let mut text = "<function with ".to_string();
            let count = decimal_text(parameters.len() as u64);
            text.append(count.as_str());
            text.append(" named parameters>");
            text
        },
        Value::Object(fields) => {
            let mut text = "{ ".to_string();
            let names = join(fields);
            text.append(names.as_str());
            text.append(" }");
            text
        },
        Value::ObjectReference(_) => "<object reference>".to_string(),
    }
}

} // verus!
