//! Automated repairs for what the health checks report. Every repair is
//! idempotent: on a healthy install it changes nothing. The library decides what
//! to change and what to report; the caller reads and writes the files.
use vstd::prelude::*;

use crate::camera::{best_capture, lemma_best_capture_in, preferred_camera, Camera};
use crate::config::{any_sets, config_get, law_set_then_get, rewrite, Config};
use crate::doctor::{
    blocked, camera_at, camera_check, has_line, lemma_camera_at, pam_python3_check, text_has_line,
    LineKind, Status,
};
use crate::text::{
    chars_of, contains, contains_in, decimal, has_char, line_at, lines, lines_from, occurs_at, owned,
    push_char, push_decimal, push_range, push_signed, push_str, range_eq, signed_decimal, trim,
    trim_bounds,
};

verus! {

/// The Python 3 module name whose presence means `pam.py` is already fixed.
pub open spec fn py3_module() -> Seq<char> {
    "configparser"@
}

/// The Python 2 import line that breaks `pam.py` on Python 3.
pub open spec fn py2_import() -> Seq<char> {
    "import ConfigParser"@
}

/// The 2/3-compatible import block written in place of `py2_import`.
pub open spec fn shim() -> Seq<char> {
    "try:\n    import configparser as ConfigParser\nexcept ImportError:\n    import ConfigParser"@
}

/// Some line is exactly the Python 2 import (once trimmed).
pub open spec fn has_py2_import(ls: Seq<Seq<char>>) -> bool
    decreases ls.len(),
{
    ls.len() > 0 && (trim(ls[0]) == py2_import() || has_py2_import(ls.drop_first()))
}

/// The lines with the first Python 2 import (unless `done`) replaced by the shim.
pub open spec fn patch_lines(ls: Seq<Seq<char>>, done: bool) -> Seq<Seq<char>>
    decreases ls.len(),
{
    if ls.len() == 0 {
        seq![]
    } else if !done && trim(ls[0]) == py2_import() {
        seq![shim()] + patch_lines(ls.drop_first(), true)
    } else {
        seq![ls[0]] + patch_lines(ls.drop_first(), done)
    }
}

/// `join("\n")`.
pub open spec fn join_nl(ls: Seq<Seq<char>>) -> Seq<char>
    decreases ls.len(),
{
    if ls.len() == 0 {
        seq![]
    } else if ls.len() == 1 {
        ls[0]
    } else {
        ls[0] + seq!['\n'] + join_nl(ls.drop_first())
    }
}

/// The rest of a join, after `started` lines have already been written.
pub open spec fn join_rest(started: bool, ls: Seq<Seq<char>>) -> Seq<char> {
    if ls.len() > 0 && started {
        seq!['\n'] + join_nl(ls)
    } else {
        join_nl(ls)
    }
}

/// The patched `pam.py`, or `None` when it already imports `configparser` or has
/// no bare Python 2 import. A final newline is kept.
pub open spec fn patch_pam(text: Seq<char>) -> Option<Seq<char>> {
    if contains(text, py3_module()) {
        None
    } else if !has_py2_import(lines(text)) {
        None
    } else {
        Some(
            join_nl(patch_lines(lines(text), false)) + if text.len() > 0 && text.last() == '\n' {
                seq!['\n']
            } else {
                seq![]
            },
        )
    }
}

proof fn lemma_join_rest_cons(started: bool, x: Seq<char>, r: Seq<Seq<char>>)
    ensures
        join_rest(started, seq![x] + r) == (if started {
            seq!['\n']
        } else {
            seq![]
        }) + x + join_rest(true, r),
{
    let ls = seq![x] + r;
    assert(ls.drop_first() =~= r);
    assert(ls[0] == x);
    if r.len() == 0 {
        assert(join_nl(ls) == x);
    }
    if started {
        assert(seq!['\n'] + join_nl(ls) =~= seq!['\n'] + x + join_rest(true, r));
    } else {
        assert(join_nl(ls) =~= Seq::<char>::empty() + x + join_rest(true, r));
    }
}

/// Rewrite a Python 2 `import ConfigParser` as a 2/3-compatible shim.
/// Returns `None` if the text already imports `configparser` or has no bare import.
pub fn patch_pam_text(text: &str) -> (r: Option<String>)
    ensures
        match r {
            Some(s) => patch_pam(text@) == Some(s@),
            None => patch_pam(text@) is None,
        },
{
    let v = chars_of(text);
    let py3 = chars_of("configparser");
    assert(v@.subrange(0, v.len() as int) =~= v@);
    if contains_in(&v, 0, v.len(), &py3) {
        return None;
    }
    let imp = chars_of("import ConfigParser");
    let ghost all = lines(v@);
    let mut out = String::new();
    let mut replaced = false;
    let mut started = false;
    let mut p: usize = 0;
    while p < v.len()
        invariant
            v@ == text@,
            imp@ == py2_import(),
            all == lines(v@),
            p <= v.len(),
            !started ==> p == 0 && out@ == Seq::<char>::empty(),
            out@ + join_rest(started, patch_lines(lines_from(v@, p as int), replaced)) == join_nl(
                patch_lines(all, false),
            ),
            has_py2_import(all) == (replaced || has_py2_import(lines_from(v@, p as int))),
        decreases v.len() - p,
    {
        let (ce, next) = line_at(&v, p);
        let ghost ls = lines_from(v@, p as int);
        let ghost rest = lines_from(v@, next as int);
        let ghost l = v@.subrange(p as int, ce as int);
        assert(ls[0] == l);
        assert(ls.drop_first() =~= rest);
        let ghost before = out@;
        let (a, b) = trim_bounds(&v, p, ce);
        let hit = !replaced && range_eq(&v, a, b, &imp);
        if started {
            push_char(&mut out, '\n');
        }
        let ghost mid = out@;
        if hit {
            push_str(
                &mut out,
                "try:\n    import configparser as ConfigParser\nexcept ImportError:\n    import ConfigParser",
            );
            proof {
                lemma_join_rest_cons(started, shim(), patch_lines(rest, true));
            }
            replaced = true;
        } else {
            push_range(&mut out, &v, p, ce);
            proof {
                lemma_join_rest_cons(started, l, patch_lines(rest, replaced));
            }
        }
        assert(out@ =~= before + (if started {
            seq!['\n']
        } else {
            seq![]
        }) + (if hit { shim() } else { l }));
        started = true;
        p = next;
    }
    assert(lines_from(v@, p as int) =~= Seq::<Seq<char>>::empty());
    if !replaced {
        return None;
    }
    if v.len() > 0 && v[v.len() - 1] == '\n' {
        push_char(&mut out, '\n');
    }
    Some(out)
}

} // verus!

verus! {

proof fn lemma_patch_has_shim(ls: Seq<Seq<char>>)
    requires
        has_py2_import(ls),
    ensures
        exists|j: int|
            0 <= j < patch_lines(ls, false).len() && #[trigger] patch_lines(ls, false)[j] == shim(),
    decreases ls.len(),
{
    let r = ls.drop_first();
    if trim(ls[0]) == py2_import() {
        assert(patch_lines(ls, false)[0] == shim());
    } else {
        lemma_patch_has_shim(r);
        let j = choose|j: int|
            0 <= j < patch_lines(r, false).len() && #[trigger] patch_lines(r, false)[j] == shim();
        assert(patch_lines(ls, false)[j + 1] == shim());
    }
}

proof fn lemma_join_occurs(ls: Seq<Seq<char>>, j: int)
    requires
        0 <= j < ls.len(),
    ensures
        exists|i: int| #[trigger] occurs_at(join_nl(ls), ls[j], i),
    decreases ls.len(),
{
    let s = join_nl(ls);
    if ls.len() == 1 {
        assert(s.subrange(0, ls[0].len() as int) =~= ls[0]);
        assert(occurs_at(s, ls[j], 0));
    } else {
        let r = ls.drop_first();
        assert(s == ls[0] + seq!['\n'] + join_nl(r));
        if j == 0 {
            assert(s.subrange(0, ls[0].len() as int) =~= ls[0]);
            assert(occurs_at(s, ls[j], 0));
        } else {
            lemma_join_occurs(r, j - 1);
            let i = choose|i: int| #[trigger] occurs_at(join_nl(r), r[j - 1], i);
            let off = ls[0].len() + 1;
            assert(s.subrange(off + i, off + i + ls[j].len()) =~= join_nl(r).subrange(
                i,
                i + r[j - 1].len(),
            ));
            assert(occurs_at(s, ls[j], off + i));
        }
    }
}

/// The shim itself imports `configparser`.
proof fn lemma_shim_has_py3()
    ensures
        occurs_at(shim(), py3_module(), 16),
        py3_module().len() == 12,
{
    reveal_strlit(
        "try:\n    import configparser as ConfigParser\nexcept ImportError:\n    import ConfigParser",
    );
    reveal_strlit("configparser");
    assert(shim().subrange(16, 28) =~= py3_module());
}

/// Patching `pam.py` twice is patching it once: the patched text is left alone,
/// and it imports `configparser`.
pub proof fn law_patch_is_idempotent(text: Seq<char>)
    ensures
        patch_pam(text) matches Some(p) ==> patch_pam(p) is None,
        patch_pam(text) matches Some(p) ==> contains(p, py3_module()),
{
    lemma_patched_imports_py3(text);
}

/// A patched `pam.py` mentions `configparser`.
proof fn lemma_patched_imports_py3(text: Seq<char>)
    ensures
        patch_pam(text) matches Some(p) ==> contains(p, py3_module()),
{
    if let Some(p) = patch_pam(text) {
        let ls = patch_lines(lines(text), false);
        lemma_patch_has_shim(lines(text));
        let j = choose|j: int| 0 <= j < ls.len() && #[trigger] ls[j] == shim();
        lemma_join_occurs(ls, j);
        let i = choose|i: int| #[trigger] occurs_at(join_nl(ls), ls[j], i);
        lemma_shim_has_py3();
        let k = i + 16;
        let js = join_nl(ls);
        assert(p.len() >= js.len());
        assert(js.subrange(i, i + shim().len()) == shim());
        assert forall|t: int| 0 <= t < 12 implies p[k + t] == py3_module()[t] by {
            assert(p[k + t] == js[k + t]);
            assert(js[k + t] == js.subrange(i, i + shim().len())[16 + t]);
            assert(shim()[16 + t] == shim().subrange(16, 28)[t]);
        }
        assert(p.subrange(k, k + 12) =~= py3_module());
        assert(occurs_at(p, py3_module(), k));
    }
}

} // verus!

verus! {

/// Result of attempting one repair.
#[derive(Debug, Clone)]
pub struct FixOutcome {
    pub name: String,
    /// Something was actually changed (vs. already healthy).
    pub changed: bool,
    /// The repair succeeded (or nothing needed doing).
    pub ok: bool,
    pub message: String,
}

/// What a repair reports.
pub ghost struct FixView {
    pub name: Seq<char>,
    pub changed: bool,
    pub ok: bool,
    pub message: Seq<char>,
}

impl View for FixOutcome {
    type V = FixView;

    open spec fn view(&self) -> FixView {
        FixView { name: self.name@, changed: self.changed, ok: self.ok, message: self.message@ }
    }
}

/// A successful repair report.
pub open spec fn done_view(name: Seq<char>, changed: bool, msg: Seq<char>) -> FixView {
    FixView { name, changed, ok: true, message: msg }
}

/// A failed repair report.
pub open spec fn fail_view(name: Seq<char>, msg: Seq<char>) -> FixView {
    FixView { name, changed: false, ok: false, message: msg }
}

impl FixOutcome {
    /// The repair succeeded; `changed` says whether anything was modified.
    pub fn done(name: &str, changed: bool, msg: String) -> (o: FixOutcome)
        ensures
            o@ == done_view(name@, changed, msg@),
    {
        FixOutcome { name: owned(name), changed, ok: true, message: msg }
    }

    /// The repair failed.
    pub fn fail(name: &str, msg: String) -> (o: FixOutcome)
        ensures
            o@ == fail_view(name@, msg@),
    {
        FixOutcome { name: owned(name), changed: false, ok: false, message: msg }
    }
}

/// `s1 + s2 + s3` as a new string.
fn cat3(a: &str, b: &str, c: &str) -> (r: String)
    ensures
        r@ == a@ + b@ + c@,
{
    let mut r = owned(a);
    push_str(&mut r, b);
    push_str(&mut r, c);
    r
}

/// How a process the caller ran ended: its exit code (`None` if killed by a
/// signal), or why it could not be started.
pub open spec fn ran_ok(ran: Result<Option<i32>, Seq<char>>) -> bool {
    ran == Ok::<Option<i32>, Seq<char>>(Some(0i32))
}

/// The exit code as the repairs report it (`-1` when there is none).
pub open spec fn code_or(c: Option<i32>) -> int {
    match c {
        Some(k) => k as int,
        None => -1,
    }
}

pub open spec fn res_view(r: Result<Option<i32>, &str>) -> Result<Option<i32>, Seq<char>> {
    match r {
        Ok(c) => Ok(c),
        Err(e) => Err(e@),
    }
}

/// The next move of the `pam.py` repair.
pub enum PamFix {
    /// Nothing to write: report this.
    Report(FixOutcome),
    /// Write this text to `pam.py`, then report with [`pam_python3_written`].
    Write(String),
}

/// First step of the `pam.py` repair, on what reading `pam.py` (at `path`) gave.
pub fn pam_python3_step(path: &str, read: Result<&str, &str>) -> (r: PamFix)
    ensures
        match read {
            Err(e) => r matches PamFix::Report(o) && o@ == fail_view(
                "pam.py Python 3 import"@,
                "read "@ + path@ + ": "@ + e@,
            ),
            Ok(t) => match patch_pam(t@) {
                None => r matches PamFix::Report(o) && o@ == done_view(
                    "pam.py Python 3 import"@,
                    false,
                    "already Python 3 compatible"@,
                ),
                Some(p) => r matches PamFix::Write(s) && s@ == p,
            },
        },
{
    let name = "pam.py Python 3 import";
    match read {
        Err(e) => {
            let mut m = cat3("read ", path, ": ");
            push_str(&mut m, e);
            PamFix::Report(FixOutcome::fail(name, m))
        },
        Ok(t) => match patch_pam_text(t) {
            None => PamFix::Report(FixOutcome::done(name, false, owned("already Python 3 compatible"))),
            Some(p) => PamFix::Write(p),
        },
    }
}

/// Report of the `pam.py` repair once the patched text was written (or not).
pub fn pam_python3_written(path: &str, write: Result<(), &str>) -> (o: FixOutcome)
    ensures
        o@ == match write {
            Ok(()) => done_view(
                "pam.py Python 3 import"@,
                true,
                "patched to use configparser with a fallback"@,
            ),
            Err(e) => fail_view("pam.py Python 3 import"@, "write "@ + path@ + ": "@ + e@),
        },
{
    let name = "pam.py Python 3 import";
    match write {
        Ok(()) => FixOutcome::done(name, true, owned("patched to use configparser with a fallback")),
        Err(e) => {
            let mut m = cat3("write ", path, ": ");
            push_str(&mut m, e);
            FixOutcome::fail(name, m)
        },
    }
}

/// The mode a directory gets: at least `rwxr-xr-x`, any extra bits kept.
pub open spec fn traversable(mode: u32) -> u32 {
    mode | 0o755u32
}

/// The new mode for a directory of mode `mode` (if it exists), or `None` when it
/// needs no change.
pub fn dir_step(mode: Option<u32>) -> (r: Option<u32>)
    ensures
        r == match mode {
            Some(m) => if traversable(m) != m {
                Some(traversable(m))
            } else {
                None
            },
            None => None,
        },
{
    match mode {
        Some(m) => {
            let want = m | 0o755u32;
            if want != m {
                Some(want)
            } else {
                None
            }
        },
        None => None,
    }
}

/// Report of the directory repair after `changed` directories were made traversable.
pub fn dirs_fixed(changed: u64) -> (o: FixOutcome)
    ensures
        o@ == if changed == 0 {
            done_view("Directories traversable"@, false, "all directories already traversable"@)
        } else {
            done_view(
                "Directories traversable"@,
                true,
                "made "@ + decimal(changed as nat) + " director(ies) traversable"@,
            )
        },
{
    let name = "Directories traversable";
    if changed == 0 {
        FixOutcome::done(name, false, owned("all directories already traversable"))
    } else {
        let mut m = owned("made ");
        push_decimal(&mut m, changed);
        push_str(&mut m, " director(ies) traversable");
        FixOutcome::done(name, true, m)
    }
}

/// Report of the directory repair when changing the mode of `dir` failed.
pub fn dirs_chmod_failed(dir: &str, err: &str) -> (o: FixOutcome)
    ensures
        o@ == fail_view("Directories traversable"@, "chmod "@ + dir@ + ": "@ + err@),
{
    let mut m = cat3("chmod ", dir, ": ");
    push_str(&mut m, err);
    FixOutcome::fail("Directories traversable", m)
}

/// The next move of the model-data repair.
pub enum DataFix {
    Report(FixOutcome),
    /// Run `dlib-data/install.sh`, then report with [`data_files_ran`].
    RunInstaller,
}

/// First step of the model-data repair: which data files are present, and whether
/// the installer script exists.
pub fn data_files_step(present: &[bool; 3], script_exists: bool) -> (r: DataFix)
    ensures
        (present@[0] && present@[1] && present@[2]) ==> (r matches DataFix::Report(o) && o@
            == done_view("dlib model data"@, false, "all data files present"@)),
        !(present@[0] && present@[1] && present@[2]) && !script_exists ==> (
        r matches DataFix::Report(o) && o@ == fail_view(
            "dlib model data"@,
            "data files missing and dlib-data/install.sh not found"@,
        )),
        !(present@[0] && present@[1] && present@[2]) && script_exists ==> r is RunInstaller,
{
    let name = "dlib model data";
    if present[0] && present[1] && present[2] {
        return DataFix::Report(FixOutcome::done(name, false, owned("all data files present")));
    }
    if !script_exists {
        return DataFix::Report(
            FixOutcome::fail(name, owned("data files missing and dlib-data/install.sh not found")),
        );
    }
    DataFix::RunInstaller
}

/// Report of the model-data repair once the installer ran (or could not start).
pub fn data_files_ran(ran: Result<Option<i32>, &str>) -> (o: FixOutcome)
    ensures
        o@ == match ran {
            Ok(c) => if c == Some(0i32) {
                done_view("dlib model data"@, true, "downloaded the model data files"@)
            } else {
                fail_view("dlib model data"@, "install.sh exited "@ + signed_decimal(code_or(c)))
            },
            Err(e) => fail_view("dlib model data"@, "running install.sh: "@ + e@),
        },
{
    let name = "dlib model data";
    match ran {
        Ok(c) => {
            if c == Some(0i32) {
                FixOutcome::done(name, true, owned("downloaded the model data files"))
            } else {
                let k: i64 = match c {
                    Some(k) => k as i64,
                    None => -1,
                };
                let mut m = owned("install.sh exited ");
                push_signed(&mut m, k);
                FixOutcome::fail(name, m)
            }
        },
        Err(e) => {
            let mut m = owned("running install.sh: ");
            push_str(&mut m, e);
            FixOutcome::fail(name, m)
        },
    }
}

} // verus!

verus! {

/// The configured camera is usable: set, not `none`, and a capture node among `cams`.
pub open spec fn camera_ok(cur: Seq<char>, cams: Seq<Camera>) -> bool {
    cur.len() > 0 && cur != "none"@ && exists|i: int|
        0 <= i < cams.len() && #[trigger] cams[i].path@ == cur && cams[i].can_capture
}

/// The configured `device_path`, or empty when unset.
pub open spec fn current_device(text: Seq<char>) -> Seq<char> {
    match config_get(text, "device_path"@) {
        Some(v) => v,
        None => seq![],
    }
}

/// The next move of the camera repair.
pub enum CameraFix {
    Report(FixOutcome),
    /// Save this config; report the outcome if that works (see [`camera_saved`]).
    Save(Config, FixOutcome),
}

/// The camera repair leaves `device_path` alone only when it names a listed
/// camera that can capture video (not a metadata-only node, not `none`).
pub proof fn law_camera_left_alone_only_when_usable(text: Seq<char>, cams: Seq<Camera>)
    ensures
        camera_ok(current_device(text), cams) ==> current_device(text) != "none"@ && exists|
            i: int,
        | 0 <= i < cams.len() && #[trigger] cams[i].path@ == current_device(text) && cams[i].can_capture,
        (exists|i: int| 0 <= i < cams.len() && #[trigger] cams[i].path@ == current_device(text)
            && !cams[i].can_capture && forall|k: int| 0 <= k < cams.len() && k != i ==> #[trigger] cams[k].path@
            != cams[i].path@) ==> !camera_ok(current_device(text), cams),
{
}

/// First step of the camera repair, on the loaded config (or why it could not be
/// read) and the detected cameras. A config without a `device_path` line is
/// reported and left unwritten: there is no line to set.
pub fn camera_step(cfg: Result<Config, &str>, cams: &Vec<Camera>) -> (r: CameraFix)
    ensures
        cfg matches Ok(c) ==> r matches CameraFix::Report(o) ==> o@.ok && !o@.changed ==> exists|
            i: int,
        |
            0 <= i < cams.len() && #[trigger] cams@[i].path@ == current_device(c@.text)
                && cams@[i].can_capture,
        match cfg {
            Err(e) => r matches CameraFix::Report(o) && o@ == fail_view(
                "Camera device_path"@,
                "read config: "@ + e@,
            ),
            Ok(c) => {
                let cur = current_device(c@.text);
                if camera_ok(cur, cams@) {
                    r matches CameraFix::Report(o) && o@ == done_view(
                        "Camera device_path"@,
                        false,
                        "already set to "@ + cur,
                    )
                } else {
                    match best_capture(cams@) {
                        None => r matches CameraFix::Report(o) && o@ == fail_view(
                            "Camera device_path"@,
                            "no capture-capable camera found"@,
                        ),
                        Some(j) => if !any_sets(lines(c@.text), "device_path"@) {
                            r matches CameraFix::Report(o) && o@ == fail_view(
                                "Camera device_path"@,
                                "config.ini has no device_path line"@,
                            )
                        } else {
                            r matches CameraFix::Save(k, o) && k@.path == c@.path
                            && k@.text == rewrite(
                            lines(c@.text),
                            "device_path"@,
                            cams@[j].path@,
                            false,
                        ) && o@ == done_view(
                            "Camera device_path"@,
                            true,
                            "set to "@ + cams@[j].path@ + " ("@ + (if cams@[j].is_ir {
                                "IR"@
                            } else {
                                "RGB"@
                            }) + ")"@,
                        )
                        },
                    }
                }
            },
        },
{
    let name = "Camera device_path";
    let mut cfg = match cfg {
        Err(e) => {
            let mut m = owned("read config: ");
            push_str(&mut m, e);
            return CameraFix::Report(FixOutcome::fail(name, m));
        },
        Ok(c) => c,
    };
    let cur = match cfg.get("device_path") {
        Some(v) => v,
        None => String::new(),
    };
    let cv = chars_of(cur.as_str());
    let none = chars_of("none");
    assert(cv@.subrange(0, cv.len() as int) =~= cv@);
    let mut found = false;
    let mut i: usize = 0;
    while i < cams.len()
        invariant
            i <= cams.len(),
            found == exists|k: int| 0 <= k < i && #[trigger] cams@[k].path@ == cur@ && cams@[k].can_capture,
        decreases cams.len() - i,
    {
        if cams[i].path == cur && cams[i].can_capture {
            found = true;
        }
        i = i + 1;
    }
    let cur_ok = cv.len() > 0 && !range_eq(&cv, 0, cv.len(), &none) && found;
    if cur_ok {
        let mut m = owned("already set to ");
        push_str(&mut m, cur.as_str());
        return CameraFix::Report(FixOutcome::done(name, false, m));
    }
    match preferred_camera(cams) {
        Some(j) => {
            let cam = &cams[j];
            if !cfg.set("device_path", cam.path.as_str()) {
                return CameraFix::Report(
                    FixOutcome::fail(name, owned("config.ini has no device_path line")),
                );
            }
            let mut m = cat3("set to ", cam.path.as_str(), " (");
            push_str(&mut m, if cam.is_ir { "IR" } else { "RGB" });
            push_str(&mut m, ")");
            CameraFix::Save(cfg, FixOutcome::done(name, true, m))
        },
        None => CameraFix::Report(FixOutcome::fail(name, owned("no capture-capable camera found"))),
    }
}

/// Report of the camera repair once the new config was saved (or not).
pub fn camera_saved(planned: FixOutcome, write: Result<(), &str>) -> (o: FixOutcome)
    ensures
        o@ == match write {
            Ok(()) => planned@,
            Err(e) => fail_view("Camera device_path"@, "write config: "@ + e@),
        },
{
    match write {
        Ok(()) => planned,
        Err(e) => {
            let mut m = owned("write config: ");
            push_str(&mut m, e);
            FixOutcome::fail("Camera device_path", m)
        },
    }
}

/// First step of the PAM repair: `Some(report)` when `common-auth` (its contents,
/// if readable) already enables Howdy, `None` when `pam-auth-update` should run.
pub fn pam_wired_step(text: Option<&str>) -> (r: Option<FixOutcome>)
    ensures
        match text {
            Some(t) if has_line(LineKind::HowdyPam, t@) => r matches Some(o) && o@ == done_view(
                "PAM wired in"@,
                false,
                "already present in common-auth"@,
            ),
            _ => r is None,
        },
{
    match text {
        Some(t) => {
            if text_has_line(t, LineKind::HowdyPam) {
                Some(FixOutcome::done("PAM wired in", false, owned("already present in common-auth")))
            } else {
                None
            }
        },
        None => None,
    }
}

/// Report of the PAM repair after `pam-auth-update` ran (or could not start), with
/// `common-auth` as read afterwards.
pub fn pam_wired_ran(ran: Result<Option<i32>, &str>, after: Option<&str>) -> (o: FixOutcome)
    ensures
        o@ == match ran {
            Ok(c) => if c == Some(0i32) {
                if (match after {
                    Some(t) => has_line(LineKind::HowdyPam, t@),
                    None => false,
                }) {
                    done_view("PAM wired in"@, true, "enabled via pam-auth-update"@)
                } else {
                    fail_view(
                        "PAM wired in"@,
                        "pam-auth-update ran but Howdy is still not enabled"@,
                    )
                }
            } else {
                fail_view("PAM wired in"@, "pam-auth-update exited "@ + signed_decimal(code_or(c)))
            },
            Err(e) => fail_view("PAM wired in"@, "running pam-auth-update: "@ + e@),
        },
{
    let name = "PAM wired in";
    match ran {
        Ok(c) => {
            if c == Some(0i32) {
                let wired = match after {
                    Some(t) => text_has_line(t, LineKind::HowdyPam),
                    None => false,
                };
                if wired {
                    FixOutcome::done(name, true, owned("enabled via pam-auth-update"))
                } else {
                    FixOutcome::fail(name, owned("pam-auth-update ran but Howdy is still not enabled"))
                }
            } else {
                let k: i64 = match c {
                    Some(k) => k as i64,
                    None => -1,
                };
                let mut m = owned("pam-auth-update exited ");
                push_signed(&mut m, k);
                FixOutcome::fail(name, m)
            }
        },
        Err(e) => {
            let mut m = owned("running pam-auth-update: ");
            push_str(&mut m, e);
            FixOutcome::fail(name, m)
        },
    }
}

/// Making a directory traversable twice is making it traversable once: a
/// directory the repair already changed needs no further change.
pub proof fn law_traversable_idempotent(mode: u32)
    ensures
        traversable(traversable(mode)) == traversable(mode),
{
    assert((mode | 0o755u32) | 0o755u32 == mode | 0o755u32) by (bit_vector);
}

} // verus!

verus! {

/// Once the camera repair has saved its choice, the repair run again finds the
/// camera usable and changes nothing — provided the config has a `device_path`
/// line to rewrite and the chosen node's path is a plain one-line path.
pub proof fn law_camera_fix_idempotent(text: Seq<char>, cams: Seq<Camera>, j: int)
    requires
        best_capture(cams) == Some(j),
        any_sets(lines(text), "device_path"@),
        trim(cams[j].path@) == cams[j].path@,
        !has_char(cams[j].path@, '\n'),
        cams[j].path@.len() > 0,
        cams[j].path@ != "none"@,
    ensures
        camera_ok(current_device(rewrite(lines(text), "device_path"@, cams[j].path@, false)), cams),
{
    lemma_best_capture_in(cams, cams.len() as int);
    law_set_then_get(text, "device_path"@, cams[j].path@);
    let t2 = rewrite(lines(text), "device_path"@, cams[j].path@, false);
    assert(current_device(t2) == cams[j].path@);
    assert(cams[j].path@ == current_device(t2) && cams[j].can_capture);
}

} // verus!

verus! {

/// A `pam.py` that the repair patched passes the health check.
pub proof fn law_patched_pam_passes_check(path: Seq<char>, text: Seq<char>)
    ensures
        patch_pam(text) matches Some(p) ==> pam_python3_check(path, Some(p)).status
            == Status::Pass,
{
    lemma_patched_imports_py3(text);
}

} // verus!

verus! {

/// A directory the repair made traversable passes the health check.
pub proof fn law_traversable_passes_check(mode: u32)
    ensures
        !blocked(Some(traversable(mode))),
{
    assert((mode | 0o755u32) & 1u32 != 0u32) by (bit_vector);
}

/// After the camera repair saved its choice, the health check finds the camera
/// configured — when the chosen node can be opened, no two nodes share a path,
/// the config had a `device_path` line, and the node's path is a plain one-line
/// path.
pub proof fn law_camera_fix_passes_check(text: Seq<char>, cams: Seq<Camera>, j: int)
    requires
        best_capture(cams) == Some(j),
        cams[j].accessible,
        forall|a: int, b: int|
            0 <= a < cams.len() && 0 <= b < cams.len() && a != b ==> #[trigger] cams[a].path@
                != #[trigger] cams[b].path@,
        any_sets(lines(text), "device_path"@),
        trim(cams[j].path@) == cams[j].path@,
        !has_char(cams[j].path@, '\n'),
        cams[j].path@.len() > 0,
        cams[j].path@ != "none"@,
    ensures
        camera_check(
            Some(rewrite(lines(text), "device_path"@, cams[j].path@, false)),
            cams,
        ).status == Status::Pass,
{
    lemma_best_capture_in(cams, cams.len() as int);
    law_set_then_get(text, "device_path"@, cams[j].path@);
    let p = cams[j].path@;
    lemma_camera_at(cams, p, 0);
    let i = camera_at(cams, p);
    assert(i <= j);
    assert(cams[i].path@ == p);
    assert(i == j);
}

} // verus!
