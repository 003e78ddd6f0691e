//! An analysis that writes every packet out.
use vstd::prelude::*;

verus! {

/// Makes an analysis that writes every packet out.
pub struct PacketDumpBuilder {}

impl PacketDumpBuilder {
    pub fn new() -> Self {
        Self {  }
    }
}

} // verus!
