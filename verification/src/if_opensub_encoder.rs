//! The encoder of the message that opens an interface inside another.

use vstd::prelude::*;

verus! {

/// The encoder of the message. It holds no state.
#[allow(non_camel_case_types)]
#[derive(Clone, Copy, Debug)]
pub struct If_OpenSubEncoder;

impl If_OpenSubEncoder {
    pub fn new() -> Self {
        If_OpenSubEncoder
    }
}

} // verus!
