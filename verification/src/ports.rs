//! Port I/O steps the platform layer performs.
use vstd::prelude::*;
use crate::drivers::vga::PortOp;

verus! {

/// A write to the unused port 0x80, which takes long enough to let a slow
/// device catch up.
pub fn io_wait() -> (r: PortOp)
    ensures
        r == (PortOp::Out { port: 0x80, value: 0 }),
{
    PortOp::Out { port: 0x80, value: 0 }
}

} // verus!
