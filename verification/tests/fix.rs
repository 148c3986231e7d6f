use howdy::camera::Camera;
use howdy::config::Config;
use howdy::fix::{
    camera_saved, camera_step, data_files_ran, data_files_step, dir_step, dirs_chmod_failed,
    dirs_fixed, pam_python3_step, pam_python3_written, pam_wired_ran, pam_wired_step,
    patch_pam_text, CameraFix, DataFix, FixOutcome, PamFix,
};

#[test]
fn patches_bare_python2_import() {
    let src = "import os\nimport ConfigParser\nconfig = ConfigParser.ConfigParser()\n";
    let out = patch_pam_text(src).expect("should patch");
    assert!(out.contains("import configparser as ConfigParser"));
    assert!(out.contains("except ImportError:"));
    assert!(out.ends_with('\n'));
    // the consumer of the alias is untouched
    assert!(out.contains("config = ConfigParser.ConfigParser()"));
}

#[test]
fn leaves_already_fixed_file_alone() {
    let src = "try:\n    import configparser as ConfigParser\nexcept ImportError:\n    import ConfigParser\n";
    assert!(patch_pam_text(src).is_none());
}

#[test]
fn no_change_when_no_configparser_import() {
    assert!(patch_pam_text("import os\nimport sys\n").is_none());
}

#[test]
fn patch_is_exact_and_idempotent() {
    let src = "import os\n  import ConfigParser  \nimport ConfigParser";
    let out = patch_pam_text(src).unwrap();
    assert_eq!(
        out,
        "import os\ntry:\n    import configparser as ConfigParser\nexcept ImportError:\n    import ConfigParser\nimport ConfigParser"
    );
    assert!(patch_pam_text(&out).is_none());
}

fn cam(path: &str, index: u32, is_ir: bool, can_capture: bool) -> Camera {
    Camera {
        path: path.to_string(),
        index,
        name: format!("cam{index}"),
        is_ir,
        can_capture,
        accessible: true,
    }
}

#[test]
fn outcome_constructors() {
    let d = FixOutcome::done("n", true, "m".to_string());
    assert!(d.ok && d.changed && d.name == "n" && d.message == "m");
    let f = FixOutcome::fail("n", "bad".to_string());
    assert!(!f.ok && !f.changed && f.message == "bad");
}

#[test]
fn pam_repair_steps() {
    match pam_python3_step("/p/pam.py", Err("denied")) {
        PamFix::Report(o) => {
            assert!(!o.ok);
            assert_eq!(o.message, "read /p/pam.py: denied");
        }
        PamFix::Write(_) => panic!("nothing to write"),
    }
    match pam_python3_step("/p/pam.py", Ok("import configparser\n")) {
        PamFix::Report(o) => {
            assert!(o.ok && !o.changed);
            assert_eq!(o.message, "already Python 3 compatible");
        }
        PamFix::Write(_) => panic!("already fixed"),
    }
    match pam_python3_step("/p/pam.py", Ok("import ConfigParser\n")) {
        PamFix::Write(t) => assert!(t.starts_with("try:\n")),
        PamFix::Report(_) => panic!("should write"),
    }
    let w = pam_python3_written("/p/pam.py", Ok(()));
    assert!(w.ok && w.changed);
    let e = pam_python3_written("/p/pam.py", Err("ro"));
    assert_eq!(e.message, "write /p/pam.py: ro");
}

#[test]
fn directory_modes() {
    assert_eq!(dir_step(Some(0o700)), Some(0o755));
    assert_eq!(dir_step(Some(0o4750)), Some(0o4755));
    assert_eq!(dir_step(Some(0o755)), None);
    assert_eq!(dir_step(Some(0o777)), None);
    assert_eq!(dir_step(None), None);
    assert_eq!(dirs_fixed(0).message, "all directories already traversable");
    let o = dirs_fixed(3);
    assert!(o.changed);
    assert_eq!(o.message, "made 3 director(ies) traversable");
    assert_eq!(dirs_chmod_failed("/d", "EPERM").message, "chmod /d: EPERM");
}

#[test]
fn data_file_repair() {
    assert!(matches!(data_files_step(&[true, true, true], false), DataFix::Report(o) if o.ok && !o.changed));
    match data_files_step(&[true, false, true], false) {
        DataFix::Report(o) => {
            assert!(!o.ok);
            assert_eq!(o.message, "data files missing and dlib-data/install.sh not found");
        }
        DataFix::RunInstaller => panic!("no script"),
    }
    assert!(matches!(data_files_step(&[false, true, true], true), DataFix::RunInstaller));
    assert!(data_files_ran(Ok(Some(0))).changed);
    assert_eq!(data_files_ran(Ok(Some(2))).message, "install.sh exited 2");
    assert_eq!(data_files_ran(Ok(None)).message, "install.sh exited -1");
    assert_eq!(data_files_ran(Err("no bash")).message, "running install.sh: no bash");
}

#[test]
fn camera_repair_prefers_ir_and_is_idempotent() {
    let cams = vec![
        cam("/dev/video0", 0, false, true),
        cam("/dev/video3", 3, true, false),
        cam("/dev/video2", 2, true, true),
    ];
    let cfg = Config::new("/c".to_string(), "[video]\ndevice_path = none\n".to_string());
    let (saved, outcome) = match camera_step(Ok(cfg), &cams) {
        CameraFix::Save(c, o) => (c, o),
        CameraFix::Report(o) => panic!("unexpected report {}", o.message),
    };
    assert_eq!(outcome.message, "set to /dev/video2 (IR)");
    assert_eq!(saved.get("device_path").as_deref(), Some("/dev/video2"));
    match camera_step(Ok(saved), &cams) {
        CameraFix::Report(o) => {
            assert!(o.ok && !o.changed);
            assert_eq!(o.message, "already set to /dev/video2");
        }
        CameraFix::Save(..) => panic!("second run must change nothing"),
    }
    assert_eq!(camera_saved(outcome.clone(), Ok(())).message, outcome.message);
    assert_eq!(camera_saved(outcome, Err("ro")).message, "write config: ro");
}

#[test]
fn camera_repair_without_cameras_or_config() {
    let cfg = Config::new("/c".to_string(), "device_path = /dev/video9\n".to_string());
    match camera_step(Ok(cfg), &vec![cam("/dev/video1", 1, false, false)]) {
        CameraFix::Report(o) => {
            assert!(!o.ok);
            assert_eq!(o.message, "no capture-capable camera found");
        }
        CameraFix::Save(..) => panic!("nothing to choose"),
    }
    match camera_step(Err("missing"), &vec![]) {
        CameraFix::Report(o) => assert_eq!(o.message, "read config: missing"),
        CameraFix::Save(..) => panic!(),
    }
}

#[test]
fn pam_wiring_repair() {
    assert!(pam_wired_step(Some("auth [success=2] pam_python.so /lib/security/howdy/pam.py\n")).is_some());
    assert!(pam_wired_step(Some("# howdy\nauth required pam_unix.so\n")).is_none());
    assert!(pam_wired_step(None).is_none());
    let ok = pam_wired_ran(Ok(Some(0)), Some("auth sufficient howdy\n"));
    assert!(ok.ok && ok.changed);
    assert_eq!(ok.message, "enabled via pam-auth-update");
    let still = pam_wired_ran(Ok(Some(0)), Some("auth required pam_unix.so\n"));
    assert_eq!(still.message, "pam-auth-update ran but Howdy is still not enabled");
    assert_eq!(pam_wired_ran(Ok(Some(1)), None).message, "pam-auth-update exited 1");
    assert_eq!(pam_wired_ran(Err("nope"), None).message, "running pam-auth-update: nope");
}

#[test]
fn patched_pam_passes_the_health_check() {
    let out = patch_pam_text("import ConfigParser\n").unwrap();
    let check = howdy::doctor::check_pam_python3("/b/pam.py", Some(&out));
    assert_eq!(check.status, howdy::doctor::Status::Pass);
}

#[test]
fn repair_picks_the_first_capture_device() {
    let cams = vec![cam("/dev/video5", 5, false, true), cam("/dev/video1", 1, false, true)];
    let first = howdy::camera::capture_devices(cams.clone())[0].path.clone();
    let cfg = Config::new("/c".to_string(), "device_path =\n".to_string());
    match camera_step(Ok(cfg), &cams) {
        CameraFix::Save(c, o) => {
            assert_eq!(c.get("device_path"), Some(first));
            assert_eq!(o.message, "set to /dev/video1 (RGB)");
        }
        CameraFix::Report(o) => panic!("unexpected report {}", o.message),
    }
}

#[test]
fn camera_repair_without_device_path_line_changes_nothing() {
    let cfg = Config::new("/c".to_string(), "[video]\nmax_height = 320\n".to_string());
    match camera_step(Ok(cfg), &vec![cam("/dev/video0", 0, false, true)]) {
        CameraFix::Report(o) => {
            assert!(!o.ok && !o.changed);
            assert_eq!(o.message, "config.ini has no device_path line");
        }
        CameraFix::Save(..) => panic!("nothing to set, nothing to write"),
    }
    let empty = Config::new("/c".to_string(), String::new());
    assert!(matches!(
        camera_step(Ok(empty), &vec![cam("/dev/video0", 0, false, true)]),
        CameraFix::Report(_)
    ));
}
