//! The flat, named fields that an alert contributes to a SIEM event.

use vstd::prelude::*;

verus! {

/// A scalar of a SIEM event.
pub enum FieldValue {
    /// An unsigned number.
    Number(u64),
    /// A piece of text.
    Text(String),
}

/// The model of a scalar.
pub enum ValueView {
    /// An unsigned number.
    Number(u64),
    /// A piece of text.
    Text(Seq<char>),
}

/// One named scalar of a SIEM event.
pub struct Field {
    /// The key under which the scalar is indexed.
    pub name: String,
    /// The scalar itself.
    pub value: FieldValue,
}

/// The model of a named scalar.
pub struct FieldView {
    /// The key.
    pub name: Seq<char>,
    /// The scalar.
    pub value: ValueView,
}

impl View for FieldValue {
    type V = ValueView;

    open spec fn view(&self) -> ValueView {
        match self {
            FieldValue::Number(n) => ValueView::Number(*n),
            FieldValue::Text(s) => ValueView::Text(s@),
        }
    }
}

impl View for Field {
    type V = FieldView;

    open spec fn view(&self) -> FieldView {
        FieldView { name: self.name@, value: self.value@ }
    }
}

/// The models of a list of fields.
pub open spec fn field_views(fields: Seq<Field>) -> Seq<FieldView> {
    fields.map_values(|f: Field| f@)
}

/// A numeric field, in the model.
pub open spec fn number_view(name: Seq<char>, n: u64) -> FieldView {
    FieldView { name, value: ValueView::Number(n) }
}

/// A text field, in the model.
pub open spec fn text_view(name: Seq<char>, s: Seq<char>) -> FieldView {
    FieldView { name, value: ValueView::Text(s) }
}

/// Appends a numeric field.
pub fn push_number(fields: &mut Vec<Field>, name: &str, n: u64)
    ensures
        field_views(final(fields)@) == field_views(old(fields)@).push(number_view(name@, n)),
{
    fields.push(Field { name: name.to_owned(), value: FieldValue::Number(n) });
    assert(field_views(fields@) =~= field_views(old(fields)@).push(number_view(name@, n)));
}

/// Appends a text field.
pub fn push_text(fields: &mut Vec<Field>, name: &str, s: &str)
    ensures
        field_views(final(fields)@) == field_views(old(fields)@).push(text_view(name@, s@)),
{
    fields.push(Field { name: name.to_owned(), value: FieldValue::Text(s.to_owned()) });
    assert(field_views(fields@) =~= field_views(old(fields)@).push(text_view(name@, s@)));
}

} // verus!
