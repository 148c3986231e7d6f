use howdy::{base_dir, config_path, current_user, is_installed, UserEnv};

#[test]
fn base_directory_choice() {
    assert_eq!(base_dir(&[true, true]), "/lib/security/howdy");
    assert_eq!(base_dir(&[false, true]), "/usr/lib/security/howdy");
    assert_eq!(base_dir(&[false, false]), "/lib/security/howdy");
    assert!(is_installed(&[false, true]));
    assert!(!is_installed(&[false, false]));
    assert_eq!(config_path("/lib/security/howdy"), "/lib/security/howdy/config.ini");
}

fn env(sudo: Option<&str>, pk: Option<&str>, user: Option<&str>, logname: Option<&str>) -> UserEnv {
    UserEnv {
        sudo_user: sudo.map(String::from),
        pkexec_name: pk.map(String::from),
        user: user.map(String::from),
        logname: logname.map(String::from),
    }
}

#[test]
fn user_choice() {
    assert_eq!(current_user(&env(Some("pishu"), Some("x"), Some("root"), None)), "pishu");
    assert_eq!(current_user(&env(Some("root"), Some("alice"), Some("root"), None)), "alice");
    assert_eq!(current_user(&env(Some(""), None, Some("bob"), None)), "bob");
    assert_eq!(current_user(&env(None, None, None, Some("carol"))), "carol");
    assert_eq!(current_user(&env(None, None, None, None)), "root");
}
