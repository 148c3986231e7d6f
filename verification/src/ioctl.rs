//! The v4l2 `VIDIOC_QUERYCAP` request, computed without C bindings — enough to
//! tell a real capture node from a metadata-only one.
use vstd::prelude::*;

verus! {

/// `_IOC_READ`.
pub const IOC_READ: u32 = 2;

/// `V4L2_CAP_VIDEO_CAPTURE` — the device can capture video.
pub const CAP_VIDEO_CAPTURE: u32 = 0x0000_0001;

/// `V4L2_CAP_DEVICE_CAPS` — `device_caps` is filled in and describes *this* node.
pub const CAP_DEVICE_CAPS: u32 = 0x8000_0000;

/// Size in bytes of `struct v4l2_capability`.
pub const CAPABILITY_SIZE: u32 = 104;

/// Linux `_IOC(dir, type, nr, size)`.
pub open spec fn ioc_spec(dir: u32, ty: u32, nr: u32, size: u32) -> u32 {
    (dir << 30u32) | (ty << 8u32) | nr | (size << 16u32)
}

/// Build a Linux `_IOC()` request number.
pub fn ioc(dir: u32, ty: u32, nr: u32, size: u32) -> (r: u32)
    ensures
        r == ioc_spec(dir, ty, nr, size),
{
    (dir << 30u32) | (ty << 8u32) | nr | (size << 16u32)
}

/// `VIDIOC_QUERYCAP`, i.e. `_IOR('V', 0, struct v4l2_capability)`.
pub fn querycap_request() -> (r: u32)
    ensures
        r == ioc_spec(IOC_READ, 86, 0, CAPABILITY_SIZE),
        r == 0x8068_5600u32,
{
    assert(ioc_spec(2, 86, 0, 104) == 0x8068_5600u32) by (bit_vector);
    ioc(IOC_READ, 86, 0, CAPABILITY_SIZE)
}

/// `struct v4l2_capability` from `<linux/videodev2.h>` (104 bytes).
pub struct V4l2Capability {
    pub driver: [u8; 16],
    pub card: [u8; 32],
    pub bus_info: [u8; 32],
    pub version: u32,
    pub capabilities: u32,
    pub device_caps: u32,
    pub reserved: [u32; 3],
}

/// Whether a node with these capability words can capture video: `device_caps`
/// describes the node when `CAP_DEVICE_CAPS` is set, `capabilities` otherwise.
pub open spec fn can_capture_spec(capabilities: u32, device_caps: u32) -> bool {
    let effective = if capabilities & CAP_DEVICE_CAPS != 0 {
        device_caps
    } else {
        capabilities
    };
    effective & CAP_VIDEO_CAPTURE != 0
}

impl V4l2Capability {
    /// Whether the queried node can capture video.
    pub fn can_capture(&self) -> (r: bool)
        ensures
            r == can_capture_spec(self.capabilities, self.device_caps),
    {
        let effective = if self.capabilities & CAP_DEVICE_CAPS != 0 {
            self.device_caps
        } else {
            self.capabilities
        };
        effective & CAP_VIDEO_CAPTURE != 0
    }
}

} // verus!
