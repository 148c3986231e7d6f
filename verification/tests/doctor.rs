use howdy::camera::Camera;
use howdy::config::Config;
use howdy::doctor::{
    check_camera, check_data_files, check_dirs_traversable, check_installed, check_models,
    check_pam_python3, check_pam_wired, check_python_module, run, text_has_line, Check, LineKind,
    Status, Survey,
};

fn cam(path: &str, name: &str, is_ir: bool, can_capture: bool, accessible: bool) -> Camera {
    Camera { path: path.into(), index: 0, name: name.into(), is_ir, can_capture, accessible }
}

#[test]
fn install_and_module_checks() {
    let c = check_installed("/lib/security/howdy", true);
    assert_eq!((c.status, c.detail.as_str()), (Status::Pass, "/lib/security/howdy"));
    let c = check_installed("/x", false);
    assert_eq!(c.detail, "no config.ini found under /lib/security/howdy");
    let c = check_python_module("dlib", "dlib (face recognition)", false);
    assert_eq!(c.status, Status::Fail);
    assert_eq!(c.detail, "`python3 -c 'import dlib'` failed");
    assert_eq!(check_python_module("cv2", "OpenCV (cv2)", true).detail, "importable under python3");
}

#[test]
fn data_file_check_lists_missing_files() {
    assert_eq!(check_data_files(&[true, true, true]).detail, "all 3 data files present");
    let c = check_data_files(&[false, true, false]);
    assert_eq!(c.status, Status::Fail);
    assert_eq!(
        c.detail,
        "missing: dlib-data/shape_predictor_5_face_landmarks.dat, dlib-data/mmod_human_face_detector.dat"
    );
}

#[test]
fn pam_py_check() {
    let bad = check_pam_python3("/b/pam.py", Some("import os\n  import ConfigParser\n"));
    assert_eq!(bad.status, Status::Fail);
    let shimmed = check_pam_python3(
        "/b/pam.py",
        Some("try:\n    import configparser as ConfigParser\nexcept ImportError:\n    import ConfigParser\n"),
    );
    assert_eq!(shimmed.status, Status::Pass);
    let commented = check_pam_python3("/b/pam.py", Some("# import ConfigParser\n"));
    assert_eq!(commented.status, Status::Pass);
    let unreadable = check_pam_python3("/b/pam.py", None);
    assert_eq!((unreadable.status, unreadable.detail.as_str()), (Status::Warn, "could not read /b/pam.py"));
    assert!(text_has_line("x\nimport ConfigParser as C\n", LineKind::Py2Import));
}

#[test]
fn traversal_check() {
    assert_eq!(check_dirs_traversable(&[Some(0o755), None, Some(0o711)]).status, Status::Pass);
    let c = check_dirs_traversable(&[Some(0o750), Some(0o755), Some(0o700)]);
    assert_eq!(c.detail, "not traversable by your user: recorders, models");
}

#[test]
fn pam_wiring_check() {
    assert_eq!(check_pam_wired(Some("auth sufficient pam_python.so /lib/security/howdy/pam.py\n")).status, Status::Pass);
    let c = check_pam_wired(Some("#auth howdy\n"));
    assert_eq!((c.status, c.detail.as_str()), (Status::Warn, "not found in common-auth (run `pam-auth-update`)"));
    assert_eq!(check_pam_wired(None).detail, "could not read /etc/pam.d/common-auth");
}

#[test]
fn camera_check_cases() {
    let cams = vec![
        cam("/dev/video0", "Webcam", false, true, false),
        cam("/dev/video1", "Meta", false, false, true),
        cam("/dev/video2", "IR cam", true, true, true),
    ];
    let with = |v: &str| Config::new("/c".into(), format!("device_path = {v}\n"));
    assert_eq!(check_camera(None, &cams).detail, "could not read config.ini");
    let unset = Config::new("/c".into(), "x = 1\n".into());
    assert_eq!(check_camera(Some(&unset), &cams).detail, "device_path is unset");
    assert_eq!(check_camera(Some(&with("none")), &cams).detail, "device_path = none");
    let ok = check_camera(Some(&with("/dev/video2")), &cams);
    assert_eq!((ok.status, ok.detail.as_str()), (Status::Pass, "/dev/video2 (IR cam, IR)"));
    assert_eq!(check_camera(Some(&with("/dev/video0")), &cams).detail, "/dev/video0 (Webcam) not openable right now");
    assert_eq!(check_camera(Some(&with("/dev/video1")), &cams).detail, "/dev/video1 (Meta) is not a capture device");
    assert_eq!(
        check_camera(Some(&with("/dev/video5")), &cams).detail,
        "/dev/video5 not present (node numbering can change across reboots)"
    );
}

#[test]
fn model_check_cases() {
    assert_eq!(check_models("pishu", Ok(2)).detail, "2 model(s) for pishu");
    let c = check_models("pishu", Ok(0));
    assert_eq!((c.status, c.detail.as_str()), (Status::Warn, "no models for pishu — run `howdyctl add`"));
    assert_eq!(check_models("pishu", Err("parsing x: bad".into())).detail, "parsing x: bad");
}

#[test]
fn run_orders_every_check() {
    let s = Survey {
        base: "/lib/security/howdy".into(),
        config_present: true,
        dlib_importable: true,
        cv2_importable: false,
        data_files: [true, true, true],
        pam_py: None,
        dir_modes: [Some(0o755), Some(0o755), Some(0o755)],
        common_auth: Some("auth howdy\n".into()),
        config: Some(Config::new("/c".into(), "device_path = /dev/video2\n".into())),
        cameras: vec![cam("/dev/video2", "IR cam", true, true, true)],
        models: Ok(1),
    };
    let checks: Vec<Check> = run("pishu", &s);
    let names: Vec<&str> = checks.iter().map(|c| c.name.as_str()).collect();
    assert_eq!(
        names,
        vec![
            "Howdy installed",
            "dlib (face recognition)",
            "OpenCV (cv2)",
            "dlib model data",
            "pam.py Python 3 compatible",
            "Directories traversable",
            "PAM wired in",
            "Camera configured",
            "Face model enrolled",
        ]
    );
    assert_eq!(checks[2].status, Status::Fail);
    assert_eq!(checks[4].detail, "could not read /lib/security/howdy/pam.py");
    assert_eq!(checks[8].detail, "1 model(s) for pishu");
}
