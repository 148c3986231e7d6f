use howdy::ioctl::{
    ioc, querycap_request, V4l2Capability, CAPABILITY_SIZE, CAP_DEVICE_CAPS, IOC_READ,
};

#[test]
fn capability_struct_is_104_bytes() {
    // The size the request number encodes, and the bytes the capability record holds.
    assert_eq!(CAPABILITY_SIZE, 104);
    assert_eq!(std::mem::size_of::<V4l2Capability>(), CAPABILITY_SIZE as usize);
}

#[test]
fn querycap_request_number() {
    // _IOR('V', 0, 104) == 0x80685600
    let req = ioc(IOC_READ, b'V' as u32, 0, 104);
    assert_eq!(req, 0x8068_5600);
    assert_eq!(querycap_request(), 0x8068_5600);
}

fn caps(capabilities: u32, device_caps: u32) -> V4l2Capability {
    V4l2Capability {
        driver: [0; 16],
        card: [0; 32],
        bus_info: [0; 32],
        version: 0,
        capabilities,
        device_caps,
        reserved: [0; 3],
    }
}

#[test]
fn capture_capability_reads_the_right_word() {
    assert!(caps(1, 0).can_capture());
    assert!(!caps(CAP_DEVICE_CAPS | 1, 0x0080_0000).can_capture());
    assert!(caps(CAP_DEVICE_CAPS, 1).can_capture());
    assert!(!caps(0, 1).can_capture());
}
