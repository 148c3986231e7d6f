use howdy::recognition::{exit_message, parse_frame_count};

#[test]
fn parses_frame_count() {
    let report = "Frames searched: 120 (14.79 fps)\nBlack frames ignored: 0";
    assert_eq!(parse_frame_count(report), Some(120));
    assert_eq!(parse_frame_count("no report here"), None);
    assert_eq!(parse_frame_count("x\nFrames searched: many (1 fps)"), None);
    assert_eq!(parse_frame_count("x\nFrames searched:  many 7 (1 fps)"), Some(7));
    assert_eq!(parse_frame_count("Frames searched:"), None);
}

#[test]
fn exit_messages() {
    assert_eq!(exit_message(0), "Face matched");
    assert_eq!(exit_message(10), "No face model enrolled for this user");
    assert_eq!(exit_message(11), "No match within the timeout");
    assert_eq!(exit_message(12), "Aborted");
    assert_eq!(exit_message(13), "Image too dark (check lighting / dark_threshold)");
    assert_eq!(exit_message(-1), "compare.py exited with code -1");
}
