//! The `notify` action.

use vstd::prelude::*;
use crate::compiler::tokens::StringItem;
use crate::runtime::context::FileCarbonCopy;

verus! {

/// A compiled `notify`: the method to notify by, a URI, and what to say.
#[derive(Debug)]
pub struct Notify {
    pub from: Option<StringItem>,
    pub importance: Option<StringItem>,
    pub options: Vec<StringItem>,
    pub message: Option<StringItem>,
    pub fcc: Option<FileCarbonCopy<StringItem>>,
    pub method: StringItem,
}

} // verus!
