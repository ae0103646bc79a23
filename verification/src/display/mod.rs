//! The VMware SVGA II display adapter.
pub mod host;
pub mod protocol;
pub mod svga2;

pub use self::protocol::{CopyRect, Mode, ModeLimits, ModeRequest, Rect};
pub use self::svga2::{
    device_info, insert_fence, is_attached, present, present_and_wait, rectangle_copy,
    rectangle_copy_and_wait, register_pci_driver, synchronize, wait_fence, DeviceInfo, SvgaError,
};
