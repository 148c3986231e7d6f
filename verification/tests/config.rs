use howdy::config::{parse_bool_word, Config};

fn cfg(text: &str) -> Config {
    Config::new("/tmp/none".to_string(), text.to_string())
}

#[test]
fn reads_values_ignoring_comments() {
    let c = cfg("[video]\n# certainty = 9.9\ncertainty = 4.0\ndevice_path = /dev/video2\n");
    assert_eq!(
        c.get("certainty").and_then(|v| v.parse::<f64>().ok()),
        Some(4.0)
    );
    assert_eq!(c.get("device_path").as_deref(), Some("/dev/video2"));
    assert_eq!(c.get("missing"), None);
}

#[test]
fn set_preserves_indentation_and_replaces_once() {
    let mut c = cfg("[video]\n\tcertainty = 2.8\ncertainty = 2.8\n");
    assert!(c.set("certainty", "4.0"));
    // only the first non-comment occurrence is rewritten
    assert_eq!(c.text(), "[video]\n\tcertainty = 4.0\ncertainty = 2.8\n");
}

#[test]
fn set_reports_missing_key() {
    let mut c = cfg("certainty = 4.0\n");
    assert!(!c.set("timeout", "8"));
}

#[test]
fn semicolon_comments_are_skipped() {
    let c = cfg("; timeout = 1\n  timeout =   9  \n");
    assert_eq!(c.get("timeout").as_deref(), Some("9"));
    assert_eq!(c.get_u32("timeout"), Some(9));
}

#[test]
fn get_u32_follows_integer_parsing() {
    let c = cfg("a = +7\nb = 4294967295\nc = 4294967296\nd = -1\ne = 1 2\nf =\ng = 0012\n");
    assert_eq!(c.get_u32("a"), Some(7));
    assert_eq!(c.get_u32("b"), Some(4294967295));
    assert_eq!(c.get_u32("c"), None);
    assert_eq!(c.get_u32("d"), None);
    assert_eq!(c.get_u32("e"), None);
    assert_eq!(c.get_u32("f"), None);
    assert_eq!(c.get_u32("g"), Some(12));
    assert_eq!(c.get_u32("missing"), None);
}

#[test]
fn get_bool_is_case_insensitive() {
    let c = cfg("end_report = TRUE\nno_confirmation = False\nweird = yes\n");
    assert_eq!(c.get_bool("end_report"), Some(true));
    assert_eq!(c.get_bool("no_confirmation"), Some(false));
    assert_eq!(c.get_bool("weird"), None);
    assert_eq!(c.get_bool("missing"), None);
    assert_eq!(parse_bool_word("true"), Some(true));
    assert_eq!(parse_bool_word("True"), None);
}

#[test]
fn set_then_get_reads_back_trimmed_value() {
    let mut c = cfg("[core]\ntimeout = 5\n[video]\ndevice_path = none\n");
    assert!(c.set("device_path", " /dev/video2 "));
    assert_eq!(c.get("device_path").as_deref(), Some("/dev/video2"));
    assert_eq!(c.get("timeout").as_deref(), Some("5"));
}

#[test]
fn set_of_missing_key_keeps_values_and_normalises_newlines() {
    let mut c = cfg("a = 1\r\nb = 2");
    assert!(!c.set("z", "9"));
    assert_eq!(c.text(), "a = 1\nb = 2\n");
    assert_eq!(c.get("a").as_deref(), Some("1"));
    assert_eq!(c.get("b").as_deref(), Some("2"));
}

#[test]
fn config_keeps_its_path() {
    let mut c = Config::new("/lib/security/howdy/config.ini".to_string(), "x = 1\n".to_string());
    c.set("x", "2");
    assert_eq!(c.path(), "/lib/security/howdy/config.ini");
    assert_eq!(c.text(), "x = 2\n");
}

#[test]
fn setting_twice_is_setting_once() {
    let mut c = cfg("[video]\n  device_path = none\r\n# device_path = x\nmax_height = 320");
    let first = c.set("device_path", "/dev/video2");
    let once = c.text().to_string();
    assert_eq!(once, "[video]\n  device_path = /dev/video2\n# device_path = x\nmax_height = 320\n");
    let second = c.set("device_path", "/dev/video2");
    assert_eq!((first, second), (true, true));
    assert_eq!(c.text(), once);

    let mut m = cfg("a = 1\n");
    assert!(!m.set("b", "2"));
    let once = m.text().to_string();
    assert!(!m.set("b", "2"));
    assert_eq!(m.text(), once);
}
