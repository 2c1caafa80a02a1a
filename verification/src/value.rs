//! The typed value model: declared column types, the tagged value type that
//! coercion produces, and its mathematical view.

use vstd::prelude::*;

verus! {

broadcast use vstd::std_specs::vec::axiom_vec_decreases_to_view, vstd::seq::axiom_seq_index_decreases;

/// The type declared for one column position, fixed for a whole run.
#[derive(Clone, Copy, PartialEq, Eq, Structural, Debug)]
pub enum ColumnType {
    Str,
    Int,
    Float,
    Bool,
    Empty,
    List,
}

/// A tagged value, as bound to a column variable or produced while an
/// expression is evaluated.
///
/// A float is carried as its IEEE 754 bit pattern, so that the library's own
/// code stays free of floating-point arithmetic; two floats count as equal
/// exactly when their bit patterns are equal.
pub enum TypedValue {
    Str(String),
    Int(i64),
    Float(u64),
    Bool(bool),
    Tuple(Vec<TypedValue>),
    Empty,
}

/// The mathematical counterpart of `TypedValue`.
pub ghost enum ValueModel {
    Str(Seq<char>),
    Int(int),
    Float(u64),
    Bool(bool),
    Tuple(Seq<ValueModel>),
    Empty,
}

/// The model that a tagged value denotes.
pub open spec fn value_model_of(v: TypedValue) -> ValueModel
    decreases v,
{
    match v {
        TypedValue::Str(s) => ValueModel::Str(s@),
        TypedValue::Int(i) => ValueModel::Int(i as int),
        TypedValue::Float(bits) => ValueModel::Float(bits),
        TypedValue::Bool(b) => ValueModel::Bool(b),
        TypedValue::Tuple(items) => ValueModel::Tuple(
            Seq::new(
                items@.len(),
                |i: int|
                    if 0 <= i < items@.len() {
                        value_model_of(items@[i])
                    } else {
                        ValueModel::Empty
                    },
            ),
        ),
        TypedValue::Empty => ValueModel::Empty,
    }
}

impl View for TypedValue {
    type V = ValueModel;

    open spec fn view(&self) -> ValueModel {
        value_model_of(*self)
    }
}

impl ValueModel {
    /// Two values are of the same kind when they carry the same tag,
    /// whatever they hold.
    pub open spec fn same_kind(self, other: ValueModel) -> bool {
        match (self, other) {
            (ValueModel::Str(_), ValueModel::Str(_)) => true,
            (ValueModel::Int(_), ValueModel::Int(_)) => true,
            (ValueModel::Float(_), ValueModel::Float(_)) => true,
            (ValueModel::Bool(_), ValueModel::Bool(_)) => true,
            (ValueModel::Tuple(_), ValueModel::Tuple(_)) => true,
            (ValueModel::Empty, ValueModel::Empty) => true,
            _ => false,
        }
    }
}

} // verus!
