use vstd::prelude::*;

verus! {

/// The type of a runtime value, as reported in diagnostics and used to decide
/// which operators apply to it.
#[derive(Debug, Copy, Clone, PartialEq, Eq, Structural)]
pub enum JmlType {
    Null,
    String,
    Bool,
    Int,
    Float,
    List,
    Object,
    Lambda { arity: usize },
}

impl JmlType {
    /// Every type but a lambda can be compared for equality.
    pub fn is_comparable(self) -> (r: bool)
        ensures
            r == !(self is Lambda),
    {
        !matches!(self, JmlType::Lambda { .. })
    }

    /// Ordered types are those that `<`, `<=`, `>` and `>=` accept.
    pub fn is_ord(self) -> (r: bool)
        ensures
            r == !(self is Lambda || self is Object || self is List),
    {
        !matches!(self, JmlType::Lambda { .. } | JmlType::Object | JmlType::List)
    }

    pub fn is_number(self) -> (r: bool)
        ensures
            r == (self is Float || self is Int),
    {
        matches!(self, JmlType::Float | JmlType::Int)
    }

    pub fn is_bool(self) -> (r: bool)
        ensures
            r == (self is Bool),
    {
        matches!(self, JmlType::Bool)
    }
}

} // verus!
