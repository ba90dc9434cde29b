//! The converters that ship with the engine, and the registry that finds
//! them by name.

pub mod dimension_splitter;

use crate::builtin_executor::dimension_splitter::{dimension_split, split_outcome};
use crate::common::converter::{ConverterParameter, ConverterReturned};
use crate::text::same_text;
use vstd::prelude::*;
use vstd::string::*;

verus! {

/// A converter that ships with the engine.
#[derive(Debug, Clone, Copy, PartialEq, Eq, Structural)]
pub enum BuiltIn {
    /// Regroups the records of an instance by chosen dimensions of their
    /// keys.
    DimensionSplit,
}

/// The name under which a relation asks for the dimension splitter.
pub const DIMENSION_SPLIT: &'static str = "dimensionSplit";

/// The built-in converter of the given name, if there is one.
pub open spec fn built_in_named(url: Seq<char>) -> Option<BuiltIn> {
    if url == DIMENSION_SPLIT@ {
        Some(BuiltIn::DimensionSplit)
    } else {
        None
    }
}

impl BuiltIn {
    /// Finds the built-in converter that the url of an executor names.
    pub fn resolve(url: &str) -> (r: Option<BuiltIn>)
        ensures
            r == built_in_named(url@),
    {
        if same_text(url, DIMENSION_SPLIT) {
            Some(BuiltIn::DimensionSplit)
        } else {
            None
        }
    }

    /// Runs the converter on `para`.
    pub fn convert(&self, para: &ConverterParameter) -> (r: ConverterReturned)
        ensures
            r@ == (match self {
                BuiltIn::DimensionSplit => split_outcome(para.cfg@, para.from.content@),
            }),
    {
        match self {
            BuiltIn::DimensionSplit => dimension_split(para),
        }
    }
}

} // verus!
