use vstd::prelude::*;

verus! {

/// One byte to send to an I/O port.
#[derive(Debug, Clone, Copy, PartialEq, Eq, Structural)]
pub struct PortWrite {
    pub port: u16,
    pub value: u8,
}

} // verus!
