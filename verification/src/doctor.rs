//! Health checks for a Howdy install — the things that commonly break it on
//! modern distros (Python 2 leftovers in `pam.py`, non-traversable directories
//! under PAM, missing dlib, broken PAM wiring, an inaccessible camera). The caller
//! gathers the facts from the system; the verdicts are decided here.
use vstd::prelude::*;

use crate::camera::Camera;
use crate::config::{config_get, Config};
use crate::fix::py2_import;
use crate::text::{
    chars_of, contains, contains_in, decimal, range_eq, join_path, join_strings, join_with, line_at,
    lines, lines_from, owned, path_join, push_decimal, push_str, skip_ws, starts_with,
    starts_with_in, trim_start,
};

verus! {

/// Severity of a check result.
#[derive(Debug, Clone, Copy, PartialEq, Eq, Structural)]
pub enum Status {
    /// The check passed.
    Pass,
    Warn,
    Fail,
}

/// A single health check.
#[derive(Debug, Clone)]
pub struct Check {
    pub name: String,
    pub status: Status,
    pub detail: String,
}

/// What a check says.
pub ghost struct CheckView {
    pub name: Seq<char>,
    pub status: Status,
    pub detail: Seq<char>,
}

impl View for Check {
    type V = CheckView;

    open spec fn view(&self) -> CheckView {
        CheckView { name: self.name@, status: self.status, detail: self.detail@ }
    }
}

/// The check with these parts.
pub open spec fn check_of(name: Seq<char>, status: Status, detail: Seq<char>) -> CheckView {
    CheckView { name, status, detail }
}

/// The views of a list of checks.
pub open spec fn checks_view(cs: Seq<Check>) -> Seq<CheckView> {
    cs.map_values(|c: Check| c@)
}

impl Check {
    /// A check with these parts.
    pub fn new(name: &str, status: Status, detail: String) -> (c: Check)
        ensures
            c@ == check_of(name@, status, detail@),
    {
        Check { name: owned(name), status, detail }
    }
}

/// A line that is not commented out with `#`.
pub open spec fn not_hash_comment(l: Seq<char>) -> bool {
    let t = trim_start(l);
    !(t.len() > 0 && t[0] == '#')
}

/// A live top-level `import ConfigParser` line.
pub open spec fn py2_import_line(l: Seq<char>) -> bool {
    not_hash_comment(l) && starts_with(trim_start(l), py2_import())
}

/// A live line of a PAM stack that mentions Howdy.
pub open spec fn howdy_line(l: Seq<char>) -> bool {
    not_hash_comment(l) && contains(l, "howdy"@)
}

/// The two kinds of line the checks look for.
#[derive(Clone, Copy)]
pub enum LineKind {
    Py2Import,
    HowdyPam,
}

/// A line of the given kind.
pub open spec fn is_line(kind: LineKind, l: Seq<char>) -> bool {
    match kind {
        LineKind::Py2Import => py2_import_line(l),
        LineKind::HowdyPam => howdy_line(l),
    }
}

/// Some line of `text` is of the given kind.
pub open spec fn has_line(kind: LineKind, text: Seq<char>) -> bool {
    exists|i: int| 0 <= i < lines(text).len() && is_line(kind, #[trigger] lines(text)[i])
}

/// Whether `v[p..ce]` is a line of the given kind.
fn line_is(v: &Vec<char>, p: usize, ce: usize, kind: LineKind, pat: &Vec<char>) -> (r: bool)
    requires
        p <= ce <= v.len(),
        pat@ == match kind {
            LineKind::Py2Import => py2_import(),
            LineKind::HowdyPam => "howdy"@,
        },
    ensures
        r == is_line(kind, v@.subrange(p as int, ce as int)),
{
    let t0 = skip_ws(v, p, ce);
    if t0 < ce && v[t0] == '#' {
        return false;
    }
    match kind {
        LineKind::Py2Import => starts_with_in(v, t0, ce, pat),
        LineKind::HowdyPam => contains_in(v, p, ce, pat),
    }
}

/// Whether some line of `text` is of the given kind.
pub fn text_has_line(text: &str, kind: LineKind) -> (r: bool)
    ensures
        r == has_line(kind, text@),
{
    let v = chars_of(text);
    let pat = match kind {
        LineKind::Py2Import => chars_of("import ConfigParser"),
        LineKind::HowdyPam => chars_of("howdy"),
    };
    let ghost all = lines(v@);
    let ghost mut done: Seq<Seq<char>> = seq![];
    let mut p: usize = 0;
    assert(done + lines_from(v@, 0) =~= all);
    while p < v.len()
        invariant
            v@ == text@,
            pat@ == match kind {
                LineKind::Py2Import => py2_import(),
                LineKind::HowdyPam => "howdy"@,
            },
            all == lines(v@),
            p <= v.len(),
            done + lines_from(v@, p as int) == all,
            forall|i: int| 0 <= i < done.len() ==> !is_line(kind, #[trigger] done[i]),
        decreases v.len() - p,
    {
        let (ce, next) = line_at(&v, p);
        let ghost l = v@.subrange(p as int, ce as int);
        let ghost rest = lines_from(v@, next as int);
        assert(lines_from(v@, p as int) == seq![l] + rest);
        assert(all[done.len() as int] == l);
        if line_is(&v, p, ce, kind, &pat) {
            return true;
        }
        proof {
            assert(done.push(l) + rest =~= done + (seq![l] + rest));
            done = done.push(l);
        }
        p = next;
    }
    assert(lines_from(v@, p as int) =~= Seq::<Seq<char>>::empty());
    assert(done + Seq::<Seq<char>>::empty() =~= done);
    false
}

} // verus!

verus! {

/// The dlib model files Howdy needs, relative to its base directory.
pub open spec fn data_file(i: int) -> Seq<char> {
    if i == 0 {
        "dlib-data/shape_predictor_5_face_landmarks.dat"@
    } else if i == 1 {
        "dlib-data/dlib_face_recognition_resnet_model_v1.dat"@
    } else {
        "dlib-data/mmod_human_face_detector.dat"@
    }
}

/// The directories that must be traversable under PAM.
pub open spec fn pam_dir(i: int) -> Seq<char> {
    if i == 0 {
        "recorders"@
    } else if i == 1 {
        "dlib-data"@
    } else {
        "models"@
    }
}

/// `data_file(i)` as a string.
pub fn data_file_name(i: usize) -> (s: &'static str)
    requires
        i < 3,
    ensures
        s@ == data_file(i as int),
{
    if i == 0 {
        "dlib-data/shape_predictor_5_face_landmarks.dat"
    } else if i == 1 {
        "dlib-data/dlib_face_recognition_resnet_model_v1.dat"
    } else {
        "dlib-data/mmod_human_face_detector.dat"
    }
}

/// `pam_dir(i)` as a string.
pub fn pam_dir_name(i: usize) -> (s: &'static str)
    requires
        i < 3,
    ensures
        s@ == pam_dir(i as int),
{
    if i == 0 {
        "recorders"
    } else if i == 1 {
        "dlib-data"
    } else {
        "models"
    }
}

/// The names among `names(0..3)` whose flag is set, in order.
pub open spec fn picked(names: spec_fn(int) -> Seq<char>, flags: Seq<bool>, n: int) -> Seq<
    Seq<char>,
>
    decreases n,
{
    if n <= 0 {
        seq![]
    } else if flags[n - 1] {
        picked(names, flags, n - 1).push(names(n - 1))
    } else {
        picked(names, flags, n - 1)
    }
}

/// The data files reported missing.
pub open spec fn missing_files(present: Seq<bool>) -> Seq<Seq<char>> {
    picked(|i: int| data_file(i), Seq::new(3, |i: int| !present[i]), 3)
}

/// A directory that exists and lacks the world-execute bit.
pub open spec fn blocked(mode: Option<u32>) -> bool {
    match mode {
        Some(m) => m & 1 == 0,
        None => false,
    }
}

/// The directories reported not traversable.
pub open spec fn blocked_dirs(modes: Seq<Option<u32>>) -> Seq<Seq<char>> {
    picked(|i: int| pam_dir(i), Seq::new(3, |i: int| blocked(modes[i])), 3)
}

pub open spec fn installed_check(base: Seq<char>, present: bool) -> CheckView {
    if present {
        check_of("Howdy installed"@, Status::Pass, base)
    } else {
        check_of("Howdy installed"@, Status::Fail, "no config.ini found under /lib/security/howdy"@)
    }
}

pub open spec fn module_check(module: Seq<char>, label: Seq<char>, ok: bool) -> CheckView {
    if ok {
        check_of(label, Status::Pass, "importable under python3"@)
    } else {
        check_of(label, Status::Fail, "`python3 -c 'import "@ + module + "'` failed"@)
    }
}

pub open spec fn data_files_check(present: Seq<bool>) -> CheckView {
    if missing_files(present).len() == 0 {
        check_of("dlib model data"@, Status::Pass, "all 3 data files present"@)
    } else {
        check_of(
            "dlib model data"@,
            Status::Fail,
            "missing: "@ + join_with(missing_files(present), ", "@),
        )
    }
}

pub open spec fn pam_python3_check(path: Seq<char>, text: Option<Seq<char>>) -> CheckView {
    match text {
        Some(t) => if has_line(LineKind::Py2Import, t) && !contains(t, "configparser"@) {
            check_of(
                "pam.py Python 3 compatible"@,
                Status::Fail,
                "imports the Python 2 'ConfigParser' module — auth will fall through to password"@,
            )
        } else {
            check_of("pam.py Python 3 compatible"@, Status::Pass, "no Python 2 imports"@)
        },
        None => check_of(
            "pam.py Python 3 compatible"@,
            Status::Warn,
            "could not read "@ + path,
        ),
    }
}

pub open spec fn dirs_check(modes: Seq<Option<u32>>) -> CheckView {
    if blocked_dirs(modes).len() == 0 {
        check_of("Directories traversable"@, Status::Pass, "world-execute bit set"@)
    } else {
        check_of(
            "Directories traversable"@,
            Status::Fail,
            "not traversable by your user: "@ + join_with(blocked_dirs(modes), ", "@),
        )
    }
}

pub open spec fn pam_wired_check(text: Option<Seq<char>>) -> CheckView {
    match text {
        Some(t) => if has_line(LineKind::HowdyPam, t) {
            check_of("PAM wired in"@, Status::Pass, "present in /etc/pam.d/common-auth"@)
        } else {
            check_of(
                "PAM wired in"@,
                Status::Warn,
                "not found in common-auth (run `pam-auth-update`)"@,
            )
        },
        None => check_of("PAM wired in"@, Status::Warn, "could not read /etc/pam.d/common-auth"@),
    }
}

pub open spec fn models_check(user: Seq<char>, models: Result<usize, Seq<char>>) -> CheckView {
    match models {
        Ok(n) => if n > 0 {
            check_of(
                "Face model enrolled"@,
                Status::Pass,
                decimal(n as nat) + " model(s) for "@ + user,
            )
        } else {
            check_of(
                "Face model enrolled"@,
                Status::Warn,
                "no models for "@ + user + " — run `howdyctl add`"@,
            )
        },
        Err(e) => check_of("Face model enrolled"@, Status::Warn, e),
    }
}

/// Whether Howdy's `config.ini` was found under `base`.
pub fn check_installed(base: &str, present: bool) -> (c: Check)
    ensures
        c@ == installed_check(base@, present),
{
    if present {
        Check::new("Howdy installed", Status::Pass, owned(base))
    } else {
        Check::new(
            "Howdy installed",
            Status::Fail,
            owned("no config.ini found under /lib/security/howdy"),
        )
    }
}

/// Whether `python3 -c 'import <module>'` succeeded (`ok`).
pub fn check_python_module(module: &str, label: &str, ok: bool) -> (c: Check)
    ensures
        c@ == module_check(module@, label@, ok),
{
    if ok {
        Check::new(label, Status::Pass, owned("importable under python3"))
    } else {
        let mut d = owned("`python3 -c 'import ");
        push_str(&mut d, module);
        push_str(&mut d, "'` failed");
        Check::new(label, Status::Fail, d)
    }
}

/// Collects `names(i)` for the set flags, in order.
fn pick_names(flags: &[bool; 3], dirs: bool) -> (r: Vec<String>)
    ensures
        r@.map_values(|s: String| s@) == if dirs {
            picked(|i: int| pam_dir(i), flags@, 3)
        } else {
            picked(|i: int| data_file(i), flags@, 3)
        },
{
    let ghost names = if dirs {
        |i: int| pam_dir(i)
    } else {
        |i: int| data_file(i)
    };
    let mut r: Vec<String> = Vec::new();
    let mut i: usize = 0;
    while i < 3
        invariant
            i <= 3,
            names == if dirs {
                |i: int| pam_dir(i)
            } else {
                |i: int| data_file(i)
            },
            r@.map_values(|s: String| s@) == picked(names, flags@, i as int),
        decreases 3 - i,
    {
        let ghost before = r@;
        if flags[i] {
            let name = if dirs {
                pam_dir_name(i)
            } else {
                data_file_name(i)
            };
            r.push(owned(name));
            assert(r@.map_values(|s: String| s@) =~= before.map_values(|s: String| s@).push(
                names(i as int),
            ));
        }
        i = i + 1;
    }
    r
}

/// Whether the three dlib model files are present (`present[i]` for `data_file(i)`).
pub fn check_data_files(present: &[bool; 3]) -> (c: Check)
    ensures
        c@ == data_files_check(present@),
{
    let missing: [bool; 3] = [!present[0], !present[1], !present[2]];
    assert(missing@ =~= Seq::new(3, |i: int| !present@[i]));
    let names = pick_names(&missing, false);
    if names.len() == 0 {
        Check::new("dlib model data", Status::Pass, owned("all 3 data files present"))
    } else {
        let mut d = owned("missing: ");
        let j = join_strings(&names, ", ");
        push_str(&mut d, j.as_str());
        Check::new("dlib model data", Status::Fail, d)
    }
}

/// Whether `pam.py` (at `path`, with contents `text` if it could be read) still
/// imports the Python 2 `ConfigParser` with no Python 3 fallback.
pub fn check_pam_python3(path: &str, text: Option<&str>) -> (c: Check)
    ensures
        c@ == pam_python3_check(path@, match text {
            Some(t) => Some(t@),
            None => None,
        }),
{
    match text {
        Some(t) => {
            let py3 = crate::text::str_contains(t, "configparser");
            let py2 = text_has_line(t, LineKind::Py2Import);
            if py2 && !py3 {
                Check::new(
                    "pam.py Python 3 compatible",
                    Status::Fail,
                    owned(
                        "imports the Python 2 'ConfigParser' module — auth will fall through to password",
                    ),
                )
            } else {
                Check::new("pam.py Python 3 compatible", Status::Pass, owned("no Python 2 imports"))
            }
        },
        None => {
            let mut d = owned("could not read ");
            push_str(&mut d, path);
            Check::new("pam.py Python 3 compatible", Status::Warn, d)
        },
    }
}

/// Whether the PAM-imported directories are world-traversable (`modes[i]` is the
/// mode of `pam_dir(i)`, if it exists).
pub fn check_dirs_traversable(modes: &[Option<u32>; 3]) -> (c: Check)
    ensures
        c@ == dirs_check(modes@),
{
    let b0 = match modes[0] {
        Some(m) => m & 1 == 0,
        None => false,
    };
    let b1 = match modes[1] {
        Some(m) => m & 1 == 0,
        None => false,
    };
    let b2 = match modes[2] {
        Some(m) => m & 1 == 0,
        None => false,
    };
    let flags: [bool; 3] = [b0, b1, b2];
    assert(flags@ =~= Seq::new(3, |i: int| blocked(modes@[i])));
    let names = pick_names(&flags, true);
    if names.len() == 0 {
        Check::new("Directories traversable", Status::Pass, owned("world-execute bit set"))
    } else {
        let mut d = owned("not traversable by your user: ");
        let j = join_strings(&names, ", ");
        push_str(&mut d, j.as_str());
        Check::new("Directories traversable", Status::Fail, d)
    }
}

/// Whether `/etc/pam.d/common-auth` (its contents, if readable) enables Howdy.
pub fn check_pam_wired(text: Option<&str>) -> (c: Check)
    ensures
        c@ == pam_wired_check(match text {
            Some(t) => Some(t@),
            None => None,
        }),
{
    match text {
        Some(t) => {
            if text_has_line(t, LineKind::HowdyPam) {
                Check::new("PAM wired in", Status::Pass, owned("present in /etc/pam.d/common-auth"))
            } else {
                Check::new(
                    "PAM wired in",
                    Status::Warn,
                    owned("not found in common-auth (run `pam-auth-update`)"),
                )
            }
        },
        None => Check::new(
            "PAM wired in",
            Status::Warn,
            owned("could not read /etc/pam.d/common-auth"),
        ),
    }
}

/// Whether `user` has a face model (`models` is their count, or why it is unknown).
pub fn check_models(user: &str, models: Result<usize, String>) -> (c: Check)
    ensures
        c@ == models_check(user@, match models {
            Ok(n) => Ok(n),
            Err(e) => Err(e@),
        }),
{
    match models {
        Ok(n) => {
            if n > 0 {
                let mut d = String::new();
                push_decimal(&mut d, n as u64);
                push_str(&mut d, " model(s) for ");
                push_str(&mut d, user);
                assert(d@ =~= decimal(n as nat) + " model(s) for "@ + user@);
                Check::new("Face model enrolled", Status::Pass, d)
            } else {
                let mut d = owned("no models for ");
                push_str(&mut d, user);
                push_str(&mut d, " — run `howdyctl add`");
                Check::new("Face model enrolled", Status::Warn, d)
            }
        },
        Err(e) => Check::new("Face model enrolled", Status::Warn, e),
    }
}

} // verus!

verus! {

/// The first camera at or after `i` whose node is `path`, or `cams.len()`.
pub open spec fn camera_at_from(cams: Seq<Camera>, path: Seq<char>, i: int) -> int
    decreases cams.len() - i,
{
    if i < 0 || i >= cams.len() {
        cams.len() as int
    } else if cams[i].path@ == path {
        i
    } else {
        camera_at_from(cams, path, i + 1)
    }
}

/// The first camera whose node is `path`, or `cams.len()`.
pub open spec fn camera_at(cams: Seq<Camera>, path: Seq<char>) -> int {
    camera_at_from(cams, path, 0)
}

pub open spec fn camera_check(cfg: Option<Seq<char>>, cams: Seq<Camera>) -> CheckView {
    let name = "Camera configured"@;
    match cfg {
        None => check_of(name, Status::Warn, "could not read config.ini"@),
        Some(text) => match config_get(text, "device_path"@) {
            None => check_of(name, Status::Fail, "device_path is unset"@),
            Some(p) => if p == "none"@ || p.len() == 0 {
                check_of(name, Status::Fail, "device_path = none"@)
            } else if camera_at(cams, p) < cams.len() {
                let c = cams[camera_at(cams, p)];
                if c.can_capture && c.accessible {
                    check_of(
                        name,
                        Status::Pass,
                        p + " ("@ + c.name@ + (if c.is_ir {
                            ", IR"@
                        } else {
                            ""@
                        }) + ")"@,
                    )
                } else if !c.accessible {
                    check_of(name, Status::Warn, p + " ("@ + c.name@ + ") not openable right now"@)
                } else {
                    check_of(
                        name,
                        Status::Warn,
                        p + " ("@ + c.name@ + ") is not a capture device"@,
                    )
                }
            } else {
                check_of(
                    name,
                    Status::Warn,
                    p + " not present (node numbering can change across reboots)"@,
                )
            },
        },
    }
}

/// Index of the first camera whose node is `path` (`cams.len()` if none).
pub fn find_camera(cams: &Vec<Camera>, path: &String) -> (i: usize)
    ensures
        i == camera_at(cams@, path@),
        i <= cams.len(),
{
    let mut i: usize = 0;
    while i < cams.len()
        invariant
            i <= cams.len(),
            camera_at(cams@, path@) == camera_at_from(cams@, path@, i as int),
        decreases cams.len() - i,
    {
        if cams[i].path == *path {
            return i;
        }
        i = i + 1;
    }
    i
}

/// Whether the configured `device_path` (from `cfg`, if it could be read) names a
/// camera among `cams` that can capture and can be opened.
pub fn check_camera(cfg: Option<&Config>, cams: &Vec<Camera>) -> (c: Check)
    ensures
        c@ == camera_check(match cfg {
            Some(k) => Some(k@.text),
            None => None,
        }, cams@),
{
    let name = "Camera configured";
    let cfg = match cfg {
        Some(k) => k,
        None => {
            return Check::new(name, Status::Warn, owned("could not read config.ini"));
        },
    };
    let path = match cfg.get("device_path") {
        Some(p) => p,
        None => {
            return Check::new(name, Status::Fail, owned("device_path is unset"));
        },
    };
    let pv = chars_of(path.as_str());
    let none = chars_of("none");
    assert(pv@.subrange(0, pv.len() as int) =~= pv@);
    if range_eq(&pv, 0, pv.len(), &none) || pv.len() == 0 {
        return Check::new(name, Status::Fail, owned("device_path = none"));
    }
    let i = find_camera(cams, &path);
    if i < cams.len() {
        let c = &cams[i];
        let mut d = path.clone();
        push_str(&mut d, " (");
        push_str(&mut d, c.name.as_str());
        if c.can_capture && c.accessible {
            if c.is_ir {
                push_str(&mut d, ", IR");
            } else {
                push_str(&mut d, "");
            }
            push_str(&mut d, ")");
            Check::new(name, Status::Pass, d)
        } else if !c.accessible {
            push_str(&mut d, ") not openable right now");
            Check::new(name, Status::Warn, d)
        } else {
            push_str(&mut d, ") is not a capture device");
            Check::new(name, Status::Warn, d)
        }
    } else {
        let mut d = path.clone();
        push_str(&mut d, " not present (node numbering can change across reboots)");
        Check::new(name, Status::Warn, d)
    }
}

} // verus!

verus! {

/// What the caller found on the system, for [`run`].
pub struct Survey {
    /// The Howdy base directory.
    pub base: String,
    /// `config.ini` exists under `base`.
    pub config_present: bool,
    /// `python3 -c 'import dlib'` succeeded.
    pub dlib_importable: bool,
    /// `python3 -c 'import cv2'` succeeded.
    pub cv2_importable: bool,
    /// Each `data_file(i)` exists under `base`.
    pub data_files: [bool; 3],
    /// Contents of `pam.py`, if it could be read.
    pub pam_py: Option<String>,
    /// Mode of each `pam_dir(i)` under `base`, if it exists.
    pub dir_modes: [Option<u32>; 3],
    /// Contents of `/etc/pam.d/common-auth`, if it could be read.
    pub common_auth: Option<String>,
    /// The loaded `config.ini`, if it could be read.
    pub config: Option<Config>,
    /// The detected cameras.
    pub cameras: Vec<Camera>,
    /// How many face models the user has, or why that is unknown.
    pub models: Result<usize, String>,
}

pub open spec fn opt_text(o: Option<String>) -> Option<Seq<char>> {
    match o {
        Some(s) => Some(s@),
        None => None,
    }
}

/// Every check for `user`, in order, on what `s` found.
pub open spec fn all_checks(user: Seq<char>, s: Survey) -> Seq<CheckView> {
    seq![
        installed_check(s.base@, s.config_present),
        module_check("dlib"@, "dlib (face recognition)"@, s.dlib_importable),
        module_check("cv2"@, "OpenCV (cv2)"@, s.cv2_importable),
        data_files_check(s.data_files@),
        pam_python3_check(path_join(s.base@, "pam.py"@), opt_text(s.pam_py)),
        dirs_check(s.dir_modes@),
        pam_wired_check(opt_text(s.common_auth)),
        camera_check(
            match s.config {
                Some(k) => Some(k@.text),
                None => None,
            },
            s.cameras@,
        ),
        models_check(
            user,
            match s.models {
                Ok(n) => Ok(n),
                Err(e) => Err(e@),
            },
        ),
    ]
}

/// Each Python module check follows its own probe: the dlib check (second)
/// passes exactly when `import dlib` worked, the OpenCV check (third) exactly
/// when `import cv2` worked, and a failed import names its module.
pub proof fn law_module_checks_follow_their_probes(user: Seq<char>, s: Survey)
    ensures
        all_checks(user, s).len() == 9,
        all_checks(user, s)[1].name == "dlib (face recognition)"@,
        (all_checks(user, s)[1].status == Status::Pass) == s.dlib_importable,
        !s.dlib_importable ==> all_checks(user, s)[1] == check_of(
            "dlib (face recognition)"@,
            Status::Fail,
            "`python3 -c 'import dlib'` failed"@,
        ),
        all_checks(user, s)[2].name == "OpenCV (cv2)"@,
        (all_checks(user, s)[2].status == Status::Pass) == s.cv2_importable,
        !s.cv2_importable ==> all_checks(user, s)[2] == check_of(
            "OpenCV (cv2)"@,
            Status::Fail,
            "`python3 -c 'import cv2'` failed"@,
        ),
{
    reveal_strlit("`python3 -c 'import ");
    reveal_strlit("'` failed");
    reveal_strlit("`python3 -c 'import dlib'` failed");
    reveal_strlit("`python3 -c 'import cv2'` failed");
    reveal_strlit("dlib");
    reveal_strlit("cv2");
    assert("`python3 -c 'import "@ + "dlib"@ + "'` failed"@ =~= "`python3 -c 'import dlib'` failed"@);
    assert("`python3 -c 'import "@ + "cv2"@ + "'` failed"@ =~= "`python3 -c 'import cv2'` failed"@);
}

/// Run every health check for `user` on what was found on the system.
pub fn run(user: &str, s: &Survey) -> (checks: Vec<Check>)
    ensures
        checks_view(checks@) == all_checks(user@, *s),
{
    let mut checks: Vec<Check> = Vec::new();
    checks.push(check_installed(s.base.as_str(), s.config_present));
    checks.push(check_python_module("dlib", "dlib (face recognition)", s.dlib_importable));
    checks.push(check_python_module("cv2", "OpenCV (cv2)", s.cv2_importable));
    checks.push(check_data_files(&s.data_files));
    let pam_path = join_path(s.base.as_str(), "pam.py");
    let pam_text: Option<&str> = match &s.pam_py {
        Some(t) => Some(t.as_str()),
        None => None,
    };
    checks.push(check_pam_python3(pam_path.as_str(), pam_text));
    checks.push(check_dirs_traversable(&s.dir_modes));
    let auth: Option<&str> = match &s.common_auth {
        Some(t) => Some(t.as_str()),
        None => None,
    };
    checks.push(check_pam_wired(auth));
    let cfg: Option<&Config> = match &s.config {
        Some(k) => Some(k),
        None => None,
    };
    checks.push(check_camera(cfg, &s.cameras));
    let models: Result<usize, String> = match &s.models {
        Ok(n) => Ok(*n),
        Err(e) => Err(e.clone()),
    };
    checks.push(check_models(user, models));
    assert(checks_view(checks@) =~= all_checks(user@, *s));
    checks
}

} // verus!

verus! {

pub proof fn lemma_camera_at(cams: Seq<Camera>, p: Seq<char>, i: int)
    requires
        0 <= i <= cams.len(),
    ensures
        i <= camera_at_from(cams, p, i) <= cams.len(),
        camera_at_from(cams, p, i) < cams.len() ==> cams[camera_at_from(cams, p, i)].path@ == p,
        forall|k: int| i <= k < camera_at_from(cams, p, i) ==> cams[k].path@ != p,
    decreases cams.len() - i,
{
    if i < cams.len() && cams[i].path@ != p {
        lemma_camera_at(cams, p, i + 1);
    }
}

} // verus!
