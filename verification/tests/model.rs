use howdy::model::{
    add_args, clear_args, cli_py, cli_result, format_epoch, format_stamp, model_path, remove_args,
    Model,
};

#[test]
fn model_paths() {
    assert_eq!(model_path("/lib/security/howdy", "pishu"), "/lib/security/howdy/models/pishu.dat");
    assert_eq!(model_path("/base/", "a"), "/base/models/a.dat");
    assert_eq!(cli_py("/lib/security/howdy"), "/lib/security/howdy/cli.py");
}

#[test]
fn cli_arguments() {
    assert_eq!(remove_args("/h/cli.py", "u", 3), vec!["/h/cli.py", "-U", "u", "-y", "remove", "3"]);
    assert_eq!(clear_args("/h/cli.py", "u"), vec!["/h/cli.py", "-U", "u", "-y", "clear"]);
    assert_eq!(add_args("/h/cli.py", "u", true), vec!["/h/cli.py", "-U", "u", "add"]);
    assert_eq!(add_args("/h/cli.py", "u", false), vec!["/h/cli.py", "-U", "u", "-y", "add"]);
}

#[test]
fn cli_exit_reports() {
    assert_eq!(cli_result("removing model", Some(0)), Ok(()));
    assert_eq!(cli_result("removing model", Some(1)), Err("removing model failed (exit 1)".to_string()));
    assert_eq!(cli_result("clearing models", None), Err("clearing models failed (exit -1)".to_string()));
}

#[test]
fn formats_stamp_zero_padded() {
    assert_eq!(format_stamp(2026, 6, 9, 18, 55), "2026-06-09 18:55");
    assert_eq!(format_stamp(985, 12, 31, 0, 5), "0985-12-31 00:05");
    assert_eq!(format_stamp(-5, 1, 1, 0, 0), "-005-01-01 00:00");
    assert_eq!(format_epoch(-42), "-42");
}

#[test]
fn model_record() {
    let m = Model { id: 0, label: "Initial model".into(), time: 1781031338 };
    assert_eq!(m.clone().label, "Initial model");
}
