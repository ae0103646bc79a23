//! Numbers of the adapter's registers.
use vstd::prelude::*;

verus! {

pub const ID: u32 = 0;
pub const ENABLE: u32 = 1;
pub const WIDTH: u32 = 2;
pub const HEIGHT: u32 = 3;
pub const MAX_WIDTH: u32 = 4;
pub const MAX_HEIGHT: u32 = 5;
pub const DEPTH: u32 = 6;
pub const BITS_PER_PIXEL: u32 = 7;
pub const RED_MASK: u32 = 9;
pub const GREEN_MASK: u32 = 10;
pub const BLUE_MASK: u32 = 11;
pub const BYTES_PER_LINE: u32 = 12;
pub const FB_START: u32 = 13;
pub const FB_OFFSET: u32 = 14;
pub const VRAM_SIZE: u32 = 15;
pub const FB_SIZE: u32 = 16;
pub const CAPABILITIES: u32 = 17;
pub const MEM_START: u32 = 18;
pub const MEM_SIZE: u32 = 19;
pub const CONFIG_DONE: u32 = 20;
pub const SYNC: u32 = 21;
pub const BUSY: u32 = 22;
pub const MEM_REGS: u32 = 30;

} // verus!
