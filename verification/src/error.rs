//! The error taxonomy of the decoder. Every error is fatal: the first
//! failure anywhere in the recursive descent aborts the whole decode
//! and is surfaced unchanged, with no partial tree.
use crate::model::ErrVal;
use vstd::prelude::*;

verus! {

/// A fatal decoding error.
#[derive(Debug)]
pub enum ParseError {
    /// The dispatcher saw a type tag outside the fixed recognized set.
    UnknownPropertyType(String),
    /// An array's element-type tag is neither struct nor object.
    UnhandledArrayDataType(String),
    /// The shared header of a struct-element array names a type other
    /// than the struct tag.
    UnhandledArrayPropertyType(String),
    /// The buffer ended before a decoder's expected span was read.
    CursorExhausted,
    /// A string record with a length under one or a body that is not
    /// valid UTF-8.
    InvalidString,
    /// A property list that collapsed with no fields at all.
    EmptyPropertyList,
}

impl View for ParseError {
    type V = ErrVal;

    open spec fn view(&self) -> ErrVal {
        match self {
            ParseError::UnknownPropertyType(t) => ErrVal::UnknownPropertyType(t@),
            ParseError::UnhandledArrayDataType(t) => ErrVal::UnhandledArrayDataType(t@),
            ParseError::UnhandledArrayPropertyType(t) => ErrVal::UnhandledArrayPropertyType(t@),
            ParseError::CursorExhausted => ErrVal::CursorExhausted,
            ParseError::InvalidString => ErrVal::InvalidString,
            ParseError::EmptyPropertyList => ErrVal::EmptyPropertyList,
        }
    }
}

} // verus!
