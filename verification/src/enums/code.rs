use vstd::prelude::*;

verus! {

/// The status carried in the upper nibble of a message's header byte.
///
/// Only `SUCCESS` and `EMPTY_QUEUE` have a place on the wire; `NULL_DATA` is
/// reserved, and a message that carries it never passes validation.
#[allow(non_camel_case_types)]
#[derive(Copy, Clone, Debug, PartialEq, Eq, Structural)]
pub enum Code {
    SUCCESS,
    NULL_DATA,
    EMPTY_QUEUE,
}

impl Code {
    /// The number that stands for this status: its value in the upper nibble.
    pub open spec fn number(self) -> nat {
        match self {
            Code::SUCCESS => 0,
            Code::NULL_DATA => 1,
            Code::EMPTY_QUEUE => 2,
        }
    }

    /// Whether the wire format has a place for this status.
    pub open spec fn on_wire(self) -> bool {
        self != Code::NULL_DATA
    }
}

} // verus!
