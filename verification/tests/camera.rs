use howdy::ioctl::V4l2Capability;
use howdy::camera::{
    capture_devices, device_path, from_nodes, lower_name_is_ir, name_is_ir, parse_video_index,
    Camera, DeviceNode,
};

#[test]
fn ir_detection() {
    assert!(name_is_ir("ASUS IR camera"));
    assert!(name_is_ir("Integrated Infrared Camera"));
    assert!(name_is_ir("Chicony IR Camera"));
    assert!(!name_is_ir("ASUS FHD webcam"));
    assert!(!name_is_ir("Integrated RGB Camera"));
    // must match the whole word, not a substring like "third"
    assert!(!name_is_ir("third party cam"));
}

#[test]
fn ir_word_boundaries() {
    assert!(lower_name_is_ir("ir"));
    assert!(lower_name_is_ir("cam-ir"));
    assert!(lower_name_is_ir("ir_cam"));
    assert!(!lower_name_is_ir("irc"));
    assert!(!lower_name_is_ir("IR"));
    assert!(lower_name_is_ir("an infrared thing"));
}

fn cam(index: u32, is_ir: bool, can_capture: bool) -> Camera {
    Camera {
        path: format!("/dev/video{index}"),
        index,
        name: String::new(),
        is_ir,
        can_capture,
        accessible: true,
    }
}

#[test]
fn capture_devices_put_ir_first_then_index() {
    let v = capture_devices(vec![
        cam(4, false, true),
        cam(1, false, false),
        cam(3, true, true),
        cam(0, false, true),
        cam(2, true, true),
    ]);
    let order: Vec<u32> = v.iter().map(|c| c.index).collect();
    assert_eq!(order, vec![2, 3, 0, 4]);
}

#[test]
fn video_index_parsing() {
    assert_eq!(parse_video_index("video0"), Some(0));
    assert_eq!(parse_video_index("video12"), Some(12));
    assert_eq!(parse_video_index("video"), None);
    assert_eq!(parse_video_index("v4l-subdev0"), None);
    assert_eq!(parse_video_index("videoX"), None);
    assert_eq!(device_path(7), "/dev/video7");
}

fn caps(capabilities: u32, device_caps: u32) -> V4l2Capability {
    V4l2Capability {
        driver: [0; 16],
        card: [0; 32],
        bus_info: [0; 32],
        version: 0,
        capabilities,
        device_caps,
        reserved: [0; 3],
    }
}

#[test]
fn nodes_become_sorted_cameras() {
    let nodes = vec![
        DeviceNode { index: 2, name: "ASUS IR camera\n".into(), opened: true, caps: Some(caps(0x8000_0000, 1)) },
        DeviceNode { index: 0, name: " Webcam ".into(), opened: true, caps: Some(caps(1, 0)) },
        DeviceNode { index: 1, name: "Webcam".into(), opened: true, caps: None },
        DeviceNode { index: 3, name: "IR".into(), opened: false, caps: None },
    ];
    let cams = from_nodes(&nodes);
    let summary: Vec<(String, String, bool, bool, bool)> = cams
        .iter()
        .map(|c| (c.path.clone(), c.name.clone(), c.is_ir, c.can_capture, c.accessible))
        .collect();
    assert_eq!(
        summary,
        vec![
            ("/dev/video0".to_string(), "Webcam".to_string(), false, true, true),
            ("/dev/video1".to_string(), "Webcam".to_string(), false, false, true),
            ("/dev/video2".to_string(), "ASUS IR camera".to_string(), true, true, true),
            ("/dev/video3".to_string(), "IR".to_string(), true, false, false),
        ]
    );
}
