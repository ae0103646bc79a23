//! Numbers of the words in front of the command ring.
use vstd::prelude::*;

verus! {

pub const MIN: u32 = 0;
pub const MAX: u32 = 1;
pub const NEXT_CMD: u32 = 2;
pub const STOP: u32 = 3;
pub const CAPABILITIES: u32 = 4;
pub const FENCE: u32 = 6;
pub const RESERVED: u32 = 14;
pub const BUSY: u32 = 290;
pub const NUM_REGS: u32 = 291;

} // verus!
