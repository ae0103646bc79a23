//! Device drivers for a small x86-64 kernel, verified with Verus.
//!
//! Every driver talks to the outside world through [`machine::Machine`]: port
//! and memory cycles, the clock, and the few services of the kernel that a
//! driver asks for.  A driver's contract says which accesses it makes, in which
//! order, and what it returns for every sequence of replies.
#![allow(unused_imports)]

pub mod ahci;
pub mod audio;
pub mod bits;
pub mod cmos;
pub mod console;
pub mod display;
pub mod driver;
pub mod fb_font;
pub mod framebuffer;
pub mod gfx;
pub mod machine;
pub mod net;
pub mod pci;
pub mod pcspk;
pub mod picture;
pub mod ps2;
pub mod registry;
pub mod rng;
pub mod serial;
pub mod serial_ext;
pub mod startup;
pub mod text;
pub mod trace;
pub mod uart;
