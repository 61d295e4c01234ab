//! Values: what is encoded and what a decode gives back.

use vstd::prelude::*;

verus! {

/// A value of a primitive or composite type.
#[derive(Debug, PartialEq, Eq)]
pub enum Value {
    U8(u8),
    U16(u16),
    U32(u32),
    U64(u64),
    I8(i8),
    I16(i16),
    I32(i32),
    I64(i64),
    Bool(bool),
    /// A value of a product type: its fields in declaration order.
    Product(Vec<Value>),
    /// A value of a sum type: the index of its variant, and the variant's
    /// fields in declaration order.
    Sum(usize, Vec<Value>),
}

/// A value as a mathematical tree.
pub enum ValueView {
    U8(u8),
    U16(u16),
    U32(u32),
    U64(u64),
    I8(i8),
    I16(i16),
    I32(i32),
    I64(i64),
    Bool(bool),
    Product(Seq<ValueView>),
    Sum(nat, Seq<ValueView>),
}

/// The views of a list of values, in order.
pub open spec fn spec_views(values: Seq<Value>) -> Seq<ValueView>
    decreases values,
{
    Seq::new(
        values.len(),
        |i: int|
            if 0 <= i < values.len() {
                values[i].view()
            } else {
                ValueView::Bool(false)
            },
    )
}

impl View for Value {
    type V = ValueView;

    open spec fn view(&self) -> ValueView
        decreases self,
    {
        match self {
            Value::U8(x) => ValueView::U8(*x),
            Value::U16(x) => ValueView::U16(*x),
            Value::U32(x) => ValueView::U32(*x),
            Value::U64(x) => ValueView::U64(*x),
            Value::I8(x) => ValueView::I8(*x),
            Value::I16(x) => ValueView::I16(*x),
            Value::I32(x) => ValueView::I32(*x),
            Value::I64(x) => ValueView::I64(*x),
            Value::Bool(x) => ValueView::Bool(*x),
            Value::Product(fields) => ValueView::Product(spec_views(fields@)),
            Value::Sum(index, fields) => ValueView::Sum(*index as nat, spec_views(fields@)),
        }
    }
}

} // verus!
