//! Statements with named parameters, as the storage layer hands them to
//! whatever runs them.

use crate::common::collections::{TextMap, TextSet};
use vstd::prelude::*;
use vstd::string::*;

verus! {

/// A value bound to a named parameter of a statement.
#[derive(Debug, Clone)]
pub enum ParamValue {
    Text(String),
    Unsigned(u64),
    Signed(i64),
    /// A point in time, in milliseconds since the epoch.
    Time(i64),
    /// A map from text to text, stored as one column.
    Entries(TextMap),
    /// A set of texts, stored as one column.
    Flags(TextSet),
}

/// The mathematical content of a [`ParamValue`].
pub enum ParamValueView {
    Text(Seq<char>),
    Unsigned(u64),
    Signed(i64),
    Time(i64),
    Entries(Map<Seq<char>, Seq<char>>),
    Flags(Set<Seq<char>>),
}

impl View for ParamValue {
    type V = ParamValueView;

    open spec fn view(&self) -> ParamValueView {
        match self {
            ParamValue::Text(t) => ParamValueView::Text(t@),
            ParamValue::Unsigned(n) => ParamValueView::Unsigned(*n),
            ParamValue::Signed(n) => ParamValueView::Signed(*n),
            ParamValue::Time(n) => ParamValueView::Time(*n),
            ParamValue::Entries(m) => ParamValueView::Entries(m@),
            ParamValue::Flags(s) => ParamValueView::Flags(s@),
        }
    }
}

impl DeepView for ParamValue {
    type V = ParamValueView;

    open spec fn deep_view(&self) -> ParamValueView {
        self@
    }
}

/// A statement and the values of its named parameters.
#[derive(Debug, Clone)]
pub struct Query {
    pub sql: String,
    pub params: Vec<(String, ParamValue)>,
}

/// The mathematical content of a [`Query`].
pub struct QueryView {
    pub sql: Seq<char>,
    pub params: Seq<(Seq<char>, ParamValueView)>,
}

impl View for Query {
    type V = QueryView;

    open spec fn view(&self) -> QueryView {
        QueryView { sql: self.sql@, params: self.params.deep_view() }
    }
}

/// Binds `value` to the parameter `name`.
pub fn param(name: &str, value: ParamValue) -> (p: (String, ParamValue))
    ensures
        p.deep_view() == (name@, value@),
{
    (name.to_owned(), value)
}

} // verus!
