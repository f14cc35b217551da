//! The value tree that decoding produces.

use vstd::prelude::*;

verus! {

/// A named field of a decoded object.
#[derive(Debug, PartialEq, Eq)]
pub struct Field {
    /// The name of the property the value was decoded for.
    pub name: String,
    /// The decoded value.
    pub value: Value,
}

/// A decoded value.
///
/// Floating-point numbers are held as their IEEE 754 bit patterns.
#[derive(Debug, PartialEq, Eq)]
pub enum Value {
    /// The object has no identity, or one that the registry does not know.
    Empty,
    /// An unsigned 8-bit integer.
    U8(u8),
    /// An unsigned 16-bit integer.
    U16(u16),
    /// An unsigned 32-bit integer.
    U32(u32),
    /// An unsigned 64-bit integer.
    U64(u64),
    /// A signed 8-bit integer.
    I8(i8),
    /// A signed 16-bit integer.
    I16(i16),
    /// A signed 32-bit integer.
    I32(i32),
    /// A signed 64-bit integer.
    I64(i64),
    /// The bit pattern of a single-precision number.
    F32(u32),
    /// The bit pattern of a double-precision number.
    F64(u64),
    /// A byte string.
    Str(Vec<u8>),
    /// A string of UTF-16 code units.
    WStr(Vec<u16>),
    /// A sequence of values.
    List(Vec<Value>),
    /// An object: its fields in the order in which its type declares them.
    Object(Vec<Field>),
}

/// The mathematical content of a [`Value`].
pub enum ValueView {
    Empty,
    U8(u8),
    U16(u16),
    U32(u32),
    U64(u64),
    I8(i8),
    I16(i16),
    I32(i32),
    I64(i64),
    F32(u32),
    F64(u64),
    Str(Seq<u8>),
    WStr(Seq<u16>),
    List(Seq<ValueView>),
    Object(Seq<(Seq<char>, ValueView)>),
}

impl View for Value {
    type V = ValueView;

    open spec fn view(&self) -> ValueView
        decreases self,
    {
        match self {
            Value::Empty => ValueView::Empty,
            Value::U8(v) => ValueView::U8(*v),
            Value::U16(v) => ValueView::U16(*v),
            Value::U32(v) => ValueView::U32(*v),
            Value::U64(v) => ValueView::U64(*v),
            Value::I8(v) => ValueView::I8(*v),
            Value::I16(v) => ValueView::I16(*v),
            Value::I32(v) => ValueView::I32(*v),
            Value::I64(v) => ValueView::I64(*v),
            Value::F32(v) => ValueView::F32(*v),
            Value::F64(v) => ValueView::F64(*v),
            Value::Str(v) => ValueView::Str(v@),
            Value::WStr(v) => ValueView::WStr(v@),
            Value::List(v) => ValueView::List(
                Seq::new(
                    v.len() as nat,
                    |i: int|
                        if 0 <= i < v.len() {
                            v[i].view()
                        } else {
                            ValueView::Empty
                        },
                ),
            ),
            Value::Object(v) => ValueView::Object(
                Seq::new(
                    v.len() as nat,
                    |i: int|
                        if 0 <= i < v.len() {
                            (v[i].name@, v[i].value.view())
                        } else {
                            (Seq::empty(), ValueView::Empty)
                        },
                ),
            ),
        }
    }
}

/// The contents of a sequence of values.
pub open spec fn values_view(values: Seq<Value>) -> Seq<ValueView> {
    Seq::new(values.len(), |i: int| values[i]@)
}

/// The contents of a sequence of fields: each name with its value.
pub open spec fn fields_view(fields: Seq<Field>) -> Seq<(Seq<char>, ValueView)> {
    Seq::new(fields.len(), |i: int| (fields[i].name@, fields[i].value@))
}

/// A list's content is the contents of its items, in order.
pub proof fn lemma_list_view(items: Vec<Value>)
    ensures
        Value::List(items)@ == ValueView::List(values_view(items@)),
{
    reveal_with_fuel(<Value as View>::view, 2);
    assert(Value::List(items)@->List_0 =~= values_view(items@));
}

/// An object's content is its fields' names and contents, in order.
pub proof fn lemma_object_view(fields: Vec<Field>)
    ensures
        Value::Object(fields)@ == ValueView::Object(fields_view(fields@)),
{
    reveal_with_fuel(<Value as View>::view, 2);
    assert(Value::Object(fields)@->Object_0 =~= fields_view(fields@));
}

} // verus!
