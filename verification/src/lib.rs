//! Inspect and drive a Howdy face-authentication install on Linux: tell IR
//! cameras from RGB ones, read and edit `config.ini`, manage face models, run
//! health checks and repair what they find. The decisions are made here, on
//! values the caller reads from the system; the caller performs the I/O.
use vstd::prelude::*;

pub mod camera;
pub mod config;
pub mod doctor;
pub mod fix;
pub mod ioctl;
pub mod model;
pub mod recognition;
pub mod text;
pub mod tui;

use crate::text::{owned, path_join};

pub use crate::camera::Camera;
pub use crate::config::Config;
pub use crate::doctor::{Check, Status};
pub use crate::model::Model;

verus! {

/// The candidate locations of the Howdy install (`/lib` is a symlink to `/usr/lib`
/// on usrmerge systems, but both are worth checking).
pub open spec fn base_candidate(i: int) -> Seq<char> {
    if i == 0 {
        "/lib/security/howdy"@
    } else {
        "/usr/lib/security/howdy"@
    }
}

/// The candidate base directories, in the order they are tried.
pub fn base_candidates() -> (v: [&'static str; 2])
    ensures
        v@[0]@ == base_candidate(0),
        v@[1]@ == base_candidate(1),
{
    ["/lib/security/howdy", "/usr/lib/security/howdy"]
}

/// The base directory chosen when `has_config[i]` tells whether candidate `i`
/// holds a `config.ini`.
pub open spec fn base_dir_spec(has_config: Seq<bool>) -> Seq<char> {
    if has_config[0] {
        base_candidate(0)
    } else if has_config[1] {
        base_candidate(1)
    } else {
        base_candidate(0)
    }
}

/// Locate the installed Howdy base directory (the one containing `config.ini`):
/// the first candidate that has one, else the conventional path, so callers can
/// still build sensible error messages.
pub fn base_dir(has_config: &[bool; 2]) -> (p: String)
    ensures
        p@ == base_dir_spec(has_config@),
{
    let c = base_candidates();
    if has_config[0] {
        owned(c[0])
    } else if has_config[1] {
        owned(c[1])
    } else {
        owned(c[0])
    }
}

/// Whether Howdy looks installed: the chosen base directory has a `config.ini`.
pub fn is_installed(has_config: &[bool; 2]) -> (r: bool)
    ensures
        r == (has_config@[0] || has_config@[1]),
{
    has_config[0] || has_config[1]
}

/// Howdy counts as installed exactly when the chosen base directory is one whose
/// candidate holds a `config.ini`.
pub proof fn law_installed_iff_base_has_config(has_config: Seq<bool>)
    requires
        has_config.len() == 2,
    ensures
        (has_config[0] || has_config[1]) == ((base_dir_spec(has_config) == base_candidate(0)
            && has_config[0]) || (base_dir_spec(has_config) == base_candidate(1)
            && has_config[1])),
{
    reveal_strlit("/lib/security/howdy");
    reveal_strlit("/usr/lib/security/howdy");
    assert(base_candidate(0) != base_candidate(1)) by {
        assert(base_candidate(0).len() != base_candidate(1).len());
    }
}

/// Path of `config.ini` under a base directory.
pub fn config_path(base: &str) -> (p: String)
    ensures
        p@ == path_join(base@, "config.ini"@),
{
    text::join_path(base, "config.ini")
}

/// The environment `current_user` decides from.
pub struct UserEnv {
    /// `$SUDO_USER`.
    pub sudo_user: Option<String>,
    /// The login name of `$PKEXEC_UID`, when it parses and names a user.
    pub pkexec_name: Option<String>,
    /// `$USER`.
    pub user: Option<String>,
    /// `$LOGNAME`.
    pub logname: Option<String>,
}

/// The login name to operate on: a non-root `$SUDO_USER`, else the user behind
/// `$PKEXEC_UID`, else `$USER`, else `$LOGNAME`, else `root` — so that when
/// elevated we still target the human who launched us.
pub open spec fn current_user_spec(env: UserEnv) -> Seq<char> {
    match env.sudo_user {
        Some(u) if u@.len() > 0 && u@ != "root"@ => u@,
        _ => match env.pkexec_name {
            Some(n) => n@,
            None => match env.user {
                Some(u) => u@,
                None => match env.logname {
                    Some(l) => l@,
                    None => "root"@,
                },
            },
        },
    }
}

/// Best guess at the login name to operate on.
pub fn current_user(env: &UserEnv) -> (u: String)
    ensures
        u@ == current_user_spec(*env),
{
    if let Some(u) = &env.sudo_user {
        let root = owned("root");
        if u.as_str().unicode_len() > 0 && !(*u == root) {
            return u.clone();
        }
    }
    if let Some(n) = &env.pkexec_name {
        return n.clone();
    }
    if let Some(u) = &env.user {
        return u.clone();
    }
    if let Some(l) = &env.logname {
        return l.clone();
    }
    owned("root")
}

} // verus!
