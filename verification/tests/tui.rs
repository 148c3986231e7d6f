use howdy::camera::Camera;
use howdy::model::Model;
use howdy::tui::{camera_labels, pick_camera, pick_model, CameraPick};
use howdy::config::Config;
use howdy::doctor::Status;
use howdy::tui::{
    both_args, camera_set_status, config_set, doctor_demo, end_report_status, enroll_status, fit,
    fix_status, help_hints, removed_status, sub_args, tidy_name, Action, Focus, Key, Tab, UiState,
};

#[test]
fn tidy_name_takes_meaningful_tail() {
    assert_eq!(
        tidy_name("ASUS FHD webcam: ASUS IR camera"),
        "ASUS IR camera"
    );
    assert_eq!(tidy_name("Integrated Camera"), "Integrated Camera");
    assert_eq!(tidy_name("Foo: "), "Foo:"); // empty tail → keep whole (trimmed)
}

#[test]
fn fit_pads_and_truncates() {
    assert_eq!(fit("abc", 6), "abc   ");
    assert_eq!(fit("abcdef", 6), "abcdef");
    assert_eq!(fit("ASUS FHD webcam: ASUS IR camera", 10), "ASUS FHD …");
    assert_eq!(fit("ASUS FHD …", 10).chars().count(), 10);
}

#[test]
fn tidy_name_uses_last_separator() {
    assert_eq!(tidy_name("a: b: c "), "c");
    assert_eq!(tidy_name("  plain  "), "plain");
    assert_eq!(fit("abc", 0), "…");
}

#[test]
fn tabs_wrap_around() {
    assert_eq!(Tab::all().map(|t| t.label()), ["Cameras", "Models", "Test", "Doctor"]);
    assert_eq!(Tab::Models.title(), "Face models");
    assert_eq!(Tab::Doctor.index(), 3);
    assert_eq!(Tab::Cameras.step(-1), Tab::Doctor);
    assert_eq!(Tab::Doctor.step(1), Tab::Cameras);
    assert_eq!(Tab::Test.step(-6), Tab::Cameras);
}

#[test]
fn keys_drive_navigation() {
    let mut s = UiState::new();
    s.cameras = 2;
    assert!(matches!(s.on_key(Key::Down), Action::Nothing));
    assert_eq!(s.tab, Tab::Models);
    assert!(matches!(s.on_key(Key::Enter), Action::Nothing));
    assert_eq!(s.focus, Focus::Content);
    assert!(matches!(s.on_key(Key::Char('d')), Action::DeleteModel));
    s.on_key(Key::Esc);
    assert_eq!(s.focus, Focus::Menu);
    s.on_key(Key::Up);
    s.on_key(Key::Tab);
    s.on_key(Key::Down);
    s.on_key(Key::Down);
    assert_eq!(s.cam_sel, 1);
    assert!(matches!(s.on_key(Key::Enter), Action::SetActiveCamera));
    assert!(matches!(s.on_key(Key::Char('r')), Action::Refresh));
    assert_eq!(s.status, "refreshed");
    s.on_key(Key::Char('q'));
    assert!(s.quit);
}

#[test]
fn typing_a_label_then_enrolling() {
    let mut s = UiState::new();
    s.tab = Tab::Models;
    s.focus = Focus::Content;
    s.on_key(Key::Char('a'));
    assert_eq!(s.enrolling.as_deref(), Some(""));
    for c in " Work laptopx".chars() {
        s.on_key(Key::Char(c));
    }
    s.on_key(Key::Backspace);
    s.on_key(Key::Char('q'));
    assert!(!s.quit);
    s.on_key(Key::Backspace);
    match s.on_key(Key::Enter) {
        Action::Enroll(l) => assert_eq!(l, "Work laptop"),
        other => panic!("unexpected {other:?}"),
    }
    assert!(s.enrolling.is_none());
    s.on_key(Key::Char('a'));
    s.on_key(Key::Esc);
    assert_eq!(s.status, "enrollment cancelled");
}

#[test]
fn test_and_doctor_keys() {
    let mut s = UiState::new();
    s.focus = Focus::Content;
    s.tab = Tab::Test;
    assert!(matches!(s.on_key(Key::Char('+')), Action::NudgeUp));
    assert!(matches!(s.on_key(Key::Char('_')), Action::NudgeDown));
    assert!(matches!(s.on_key(Key::Char('s')), Action::SaveCertainty));
    assert!(matches!(s.on_key(Key::Char('e')), Action::ToggleEndReport));
    assert!(matches!(s.on_key(Key::Enter), Action::RunTest));
    s.tab = Tab::Doctor;
    assert!(matches!(s.on_key(Key::Enter), Action::Recheck));
    assert_eq!(s.status, "re-ran checks");
    assert!(matches!(s.on_key(Key::Char('f')), Action::RunFix));
}

#[test]
fn footer_hints() {
    assert_eq!(help_hints(true, Focus::Content, Tab::Models), vec![("type", "label"), ("↵", "enroll"), ("Esc", "cancel")]);
    assert_eq!(help_hints(false, Focus::Menu, Tab::Test).len(), 4);
    assert_eq!(help_hints(false, Focus::Content, Tab::Models)[2], ("d", "delete"));
}

#[test]
fn demo_report_is_all_ok() {
    let checks = doctor_demo();
    assert_eq!(checks.len(), 9);
    assert!(checks.iter().all(|c| c.status == Status::Pass));
    assert_eq!(checks[8].detail, "2 model(s) for demo");
}

#[test]
fn privileged_arguments() {
    assert_eq!(
        sub_args("pishu", "remove", &vec!["3".to_string()]),
        vec!["--user", "pishu", "remove", "3"]
    );
    assert_eq!(both_args("pishu", "add", None), vec!["--user", "pishu", "add"]);
    assert_eq!(
        both_args("pishu", "add", Some("Work".into())),
        vec!["--user", "pishu", "add", "Work"]
    );
}

#[test]
fn config_set_reports_missing_keys() {
    let mut c = Config::new("/c".into(), "timeout = 5\n".into());
    assert_eq!(config_set(&mut c, "timeout", "8"), Ok(()));
    assert_eq!(c.get_u32("timeout"), Some(8));
    assert_eq!(
        config_set(&mut c, "certainty", "4.0"),
        Err("key 'certainty' not found in config.ini".to_string())
    );
}

#[test]
fn status_lines() {
    assert_eq!(enroll_status(false, "x"), "enrollment cancelled or failed");
    assert_eq!(enroll_status(true, ""), "enrolled a new model");
    assert_eq!(enroll_status(true, "Work"), "enrolled 'Work'");
    assert_eq!(camera_set_status("/dev/video2"), "camera set to /dev/video2");
    assert_eq!(removed_status(4), "removed model 4");
    assert_eq!(fix_status(true), "ran doctor --fix");
    assert_eq!(end_report_status(false), "detailed report off");
}

#[test]
fn tab_key_twice_restores_focus() {
    let mut s = UiState::new();
    let before = s.focus;
    s.on_key(Key::Tab);
    assert_ne!(s.focus, before);
    s.on_key(Key::BackTab);
    assert_eq!(s.focus, before);
}

#[test]
fn picking_camera_and_model() {
    let cams = vec![
        Camera { path: "/dev/video0".into(), index: 0, name: "a".into(), is_ir: false, can_capture: true, accessible: true },
        Camera { path: "/dev/video1".into(), index: 1, name: "b".into(), is_ir: false, can_capture: false, accessible: true },
    ];
    assert!(matches!(pick_camera(&cams, 0), CameraPick::Use(p) if p == "/dev/video0"));
    assert!(matches!(pick_camera(&cams, 1), CameraPick::NotCapture(_)));
    assert!(matches!(pick_camera(&cams, 2), CameraPick::NoCamera));
    let models = vec![Model { id: 7, label: "x".into(), time: 0 }];
    assert_eq!(pick_model(&models, 0), Ok(7));
    assert_eq!(pick_model(&models, 1), Err("no model selected".to_string()));
}

#[test]
fn camera_labels_mark_active_kind_and_metadata_nodes() {
    let node = |path: &str, is_ir: bool, can_capture: bool| Camera {
        path: path.into(),
        index: 0,
        name: String::new(),
        is_ir,
        can_capture,
        accessible: true,
    };
    let dev = String::from("/dev/video2");
    let l = camera_labels(&node("/dev/video2", true, true), &dev);
    assert_eq!((l.active, l.kind, l.tag), (true, "IR", "active"));
    let l = camera_labels(&node("/dev/video3", true, false), &dev);
    assert_eq!((l.active, l.kind, l.tag), (false, "IR", "meta"));
    let l = camera_labels(&node("/dev/video0", false, true), &dev);
    assert_eq!((l.active, l.kind, l.tag), (false, "RGB", ""));
    let l = camera_labels(&node("/dev/video2", false, false), &dev);
    assert_eq!((l.active, l.kind, l.tag), (true, "RGB", "active"));
}

#[test]
fn reloaded_lists_keep_selections_in_range() {
    let mut s = UiState::new();
    s.set_counts(3, 2);
    assert_eq!((s.cameras, s.models, s.cam_sel, s.model_sel), (3, 2, 0, 0));
    s.cam_sel = 2;
    s.model_sel = 1;
    s.set_counts(2, 5);
    assert_eq!((s.cam_sel, s.model_sel), (1, 1));
    s.set_counts(0, 0);
    assert_eq!((s.cameras, s.models, s.cam_sel, s.model_sel), (0, 0, 0, 0));
}
