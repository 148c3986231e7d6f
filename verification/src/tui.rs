//! The decisions of the interactive manager: tabs, focus, key handling and the
//! small text helpers its screens use. Drawing and running actions are the
//! caller's.
use vstd::prelude::*;

use crate::config::{any_sets, rewrite, Config};
use crate::doctor::{check_of, checks_view, Check, CheckView, Status};
use crate::text::{
    chars_of, lines, owned, push_char, push_str, repeat_char, string_of_range, trim,
    trim_bounds, occurs_at,
};

verus! {

/// The sections of the manager.
#[derive(Clone, Copy, Debug, PartialEq, Eq, Structural)]
pub enum Tab {
    Cameras,
    Models,
    Test,
    Doctor,
}

/// Position of a tab in the menu.
pub open spec fn tab_index(t: Tab) -> int {
    match t {
        Tab::Cameras => 0,
        Tab::Models => 1,
        Tab::Test => 2,
        Tab::Doctor => 3,
    }
}

/// The tab at a menu position (`0..4`).
pub open spec fn tab_at(i: int) -> Tab {
    if i == 0 {
        Tab::Cameras
    } else if i == 1 {
        Tab::Models
    } else if i == 2 {
        Tab::Test
    } else {
        Tab::Doctor
    }
}

impl Tab {
    /// Every tab, in menu order.
    pub fn all() -> (v: [Tab; 4])
        ensures
            forall|i: int| 0 <= i < 4 ==> v@[i] == tab_at(i),
    {
        [Tab::Cameras, Tab::Models, Tab::Test, Tab::Doctor]
    }

    /// Menu label.
    pub fn label(self) -> (s: &'static str)
        ensures
            s@ == match self {
                Tab::Cameras => "Cameras"@,
                Tab::Models => "Models"@,
                Tab::Test => "Test"@,
                Tab::Doctor => "Doctor"@,
            },
    {
        match self {
            Tab::Cameras => "Cameras",
            Tab::Models => "Models",
            Tab::Test => "Test",
            Tab::Doctor => "Doctor",
        }
    }

    /// Title shown on the content panel.
    pub fn title(self) -> (s: &'static str)
        ensures
            s@ == match self {
                Tab::Cameras => "Cameras"@,
                Tab::Models => "Face models"@,
                Tab::Test => "Recognition test"@,
                Tab::Doctor => "Doctor"@,
            },
    {
        match self {
            Tab::Cameras => "Cameras",
            Tab::Models => "Face models",
            Tab::Test => "Recognition test",
            Tab::Doctor => "Doctor",
        }
    }

    /// Position in the menu.
    pub fn index(self) -> (i: usize)
        ensures
            i == tab_index(self),
    {
        match self {
            Tab::Cameras => 0,
            Tab::Models => 1,
            Tab::Test => 2,
            Tab::Doctor => 3,
        }
    }

    /// The tab `delta` steps away in the menu, wrapping around.
    pub fn step(self, delta: i32) -> (t: Tab)
        ensures
            t == tab_at((tab_index(self) + delta) % 4),
    {
        let r: i64 = self.index() as i64 + delta as i64;
        let i: u64 = if r >= 0 {
            (r as u64) % 4
        } else {
            let m = ((-r) as u64) % 4;
            if m == 0 {
                0
            } else {
                4 - m
            }
        };
        assert(i == (tab_index(self) + delta) % 4) by (nonlinear_arith)
            requires
                r == tab_index(self) + delta,
                r >= 0 ==> i == r % 4,
                r < 0 ==> (i == (if (-r) % 4 == 0 {
                    0
                } else {
                    4 - (-r) % 4
                })),
        ;
        if i == 0 {
            Tab::Cameras
        } else if i == 1 {
            Tab::Models
        } else if i == 2 {
            Tab::Test
        } else {
            Tab::Doctor
        }
    }
}

/// Moving through the menu four steps in either direction comes back to where it
/// started; a step forward undoes a step back.
pub proof fn law_menu_wraps(t: Tab)
    ensures
        tab_at((tab_index(t) + 4) % 4) == t,
        tab_at((tab_index(tab_at((tab_index(t) + 1) % 4)) + -1) % 4) == t,
{
}

} // verus!

verus! {

/// The last position where `p` occurs in `s` at or before `i`.
pub open spec fn last_occurrence_upto(s: Seq<char>, p: Seq<char>, i: int) -> Option<int>
    decreases i + 1,
{
    if i < 0 {
        None
    } else if occurs_at(s, p, i) {
        Some(i)
    } else {
        last_occurrence_upto(s, p, i - 1)
    }
}

/// `str::rsplit_once(": ")`: the text after the last `": "`.
pub open spec fn tail_after_colon(s: Seq<char>) -> Option<Seq<char>> {
    match last_occurrence_upto(s, seq![':', ' '], s.len() - 2) {
        Some(i) => Some(s.skip(i + 2)),
        None => None,
    }
}

/// A v4l2 card name trimmed down to its meaningful tail: the trimmed text after
/// the last `": "` if that is not blank, else the whole name, trimmed.
pub open spec fn tidy(name: Seq<char>) -> Seq<char> {
    match tail_after_colon(name) {
        Some(t) if trim(t).len() > 0 => trim(t),
        _ => trim(name),
    }
}

/// Trim a kernel v4l2 card name down to its meaningful tail, e.g.
/// `"ASUS FHD webcam: ASUS IR camera"` → `"ASUS IR camera"`.
pub fn tidy_name(name: &str) -> (r: &str)
    ensures
        r@ == tidy(name@),
{
    let v = chars_of(name);
    assert(v@.subrange(0, v.len() as int) =~= v@);
    let ghost sep = seq![':', ' '];
    let mut found: Option<usize> = None;
    if v.len() >= 2 {
        let mut i: usize = v.len() - 2;
        loop
            invariant_except_break
                found is None,
            invariant
                v@ == name@,
                sep == seq![':', ' '],
                v.len() >= 2,
                i <= v.len() - 2,
                last_occurrence_upto(v@, sep, v.len() - 2) == last_occurrence_upto(v@, sep, i as int),
            ensures
                match found {
                    Some(j) => last_occurrence_upto(v@, sep, v.len() - 2) == Some(j as int) && j
                        <= v.len() - 2,
                    None => last_occurrence_upto(v@, sep, v.len() - 2) is None,
                },
            decreases i,
        {
            if v[i] == ':' && v[i + 1] == ' ' {
                assert(v@.subrange(i as int, i + 2) =~= sep);
                found = Some(i);
                break;
            }
            assert(!occurs_at(v@, sep, i as int)) by {
                if occurs_at(v@, sep, i as int) {
                    assert(v@.subrange(i as int, i + 2)[0] == v@[i as int]);
                    assert(v@.subrange(i as int, i + 2)[1] == v@[i + 1]);
                }
            }
            if i == 0 {
                assert(last_occurrence_upto(v@, sep, -1) is None);
                break;
            }
            i = i - 1;
        }
    }
    let ghost tac = tail_after_colon(name@);
    assert(match found {
        Some(i) => tac == Some(name@.skip(i + 2)) && i + 2 <= v.len(),
        None => tac is None,
    });
    if let Some(i) = found {
        let (a, b) = trim_bounds(&v, i + 2, v.len());
        assert(v@.subrange(i + 2, v.len() as int) =~= name@.skip(i + 2));
        if a < b {
            return name.substring_char(a, b);
        }
    }
    let (a, b) = trim_bounds(&v, 0, v.len());
    name.substring_char(a, b)
}

/// `s` fitted to exactly `w` columns: padded with spaces if short, cut with `…`
/// if long.
pub open spec fn fit_spec(s: Seq<char>, w: int) -> Seq<char> {
    if s.len() <= w {
        s + repeat_char(' ', w - s.len())
    } else {
        s.take(if w >= 1 {
            w - 1
        } else {
            0
        }) + seq!['…']
    }
}

/// Fit `s` into exactly `width` columns: left-pad if short, truncate with `…` if long.
pub fn fit(s: &str, width: usize) -> (r: String)
    ensures
        r@ == fit_spec(s@, width as int),
{
    let v = chars_of(s);
    if v.len() <= width {
        let mut r = owned(s);
        crate::text::push_repeat(&mut r, ' ', width - v.len());
        r
    } else {
        let k = if width >= 1 {
            width - 1
        } else {
            0
        };
        let mut r = string_of_range(&v, 0, k);
        push_char(&mut r, '…');
        assert(r@ =~= fit_spec(s@, width as int));
        r
    }
}

/// A `fit` text is `w` characters long.
pub proof fn law_fit_width(s: Seq<char>, w: int)
    requires
        w >= 1,
    ensures
        fit_spec(s, w).len() == w,
{
}

} // verus!

verus! {

/// The sample health report shown in demo mode.
pub open spec fn demo_checks() -> Seq<CheckView> {
    seq![
        check_of("Howdy installed"@, Status::Pass, "/lib/security/howdy"@),
        check_of("dlib (face recognition)"@, Status::Pass, "importable under python3"@),
        check_of("OpenCV (cv2)"@, Status::Pass, "importable under python3"@),
        check_of("dlib model data"@, Status::Pass, "all 3 data files present"@),
        check_of("pam.py Python 3 compatible"@, Status::Pass, "no Python 2 imports"@),
        check_of("Directories traversable"@, Status::Pass, "world-execute bit set"@),
        check_of("PAM wired in"@, Status::Pass, "present in /etc/pam.d/common-auth"@),
        check_of("Camera configured"@, Status::Pass, "/dev/video2 (Integrated IR camera, IR)"@),
        check_of("Face model enrolled"@, Status::Pass, "2 model(s) for demo"@),
    ]
}

/// A hand-built health report, so demo mode renders without touching the system.
pub fn doctor_demo() -> (v: Vec<Check>)
    ensures
        checks_view(v@) == demo_checks(),
{
    let mut v: Vec<Check> = Vec::new();
    v.push(Check::new("Howdy installed", Status::Pass, owned("/lib/security/howdy")));
    v.push(Check::new("dlib (face recognition)", Status::Pass, owned("importable under python3")));
    v.push(Check::new("OpenCV (cv2)", Status::Pass, owned("importable under python3")));
    v.push(Check::new("dlib model data", Status::Pass, owned("all 3 data files present")));
    v.push(Check::new("pam.py Python 3 compatible", Status::Pass, owned("no Python 2 imports")));
    v.push(Check::new("Directories traversable", Status::Pass, owned("world-execute bit set")));
    v.push(Check::new("PAM wired in", Status::Pass, owned("present in /etc/pam.d/common-auth")));
    v.push(
        Check::new(
            "Camera configured",
            Status::Pass,
            owned("/dev/video2 (Integrated IR camera, IR)"),
        ),
    );
    v.push(Check::new("Face model enrolled", Status::Pass, owned("2 model(s) for demo")));
    assert(checks_view(v@) =~= demo_checks());
    v
}

/// The views of a list of strings.
pub open spec fn str_views(v: Seq<String>) -> Seq<Seq<char>> {
    v.map_values(|s: String| s@)
}

/// The arguments that re-run subcommand `sub` for `user` with `positionals`.
pub fn sub_args(user: &str, sub: &str, positionals: &Vec<String>) -> (v: Vec<String>)
    ensures
        str_views(v@) == seq!["--user"@, user@, sub@] + str_views(positionals@),
{
    let mut v: Vec<String> = Vec::new();
    v.push(owned("--user"));
    v.push(owned(user));
    v.push(owned(sub));
    let mut i: usize = 0;
    while i < positionals.len()
        invariant
            i <= positionals.len(),
            str_views(v@) == seq!["--user"@, user@, sub@] + str_views(positionals@.take(i as int)),
        decreases positionals.len() - i,
    {
        let ghost before = v@;
        v.push(positionals[i].clone());
        assert(str_views(v@) =~= str_views(before).push(positionals@[i as int]@));
        assert(positionals@.take(i + 1) =~= positionals@.take(i as int).push(positionals@[i as int]));
        assert(str_views(positionals@.take(i + 1)) =~= str_views(positionals@.take(i as int)).push(
            positionals@[i as int]@,
        ));
        assert(str_views(v@) =~= seq!["--user"@, user@, sub@] + str_views(positionals@.take(i + 1)));
        i = i + 1;
    }
    assert(positionals@.take(i as int) =~= positionals@);
    v
}

/// Like [`sub_args`], for a subcommand whose only positional is an optional label.
pub fn both_args(user: &str, sub: &str, label: Option<String>) -> (v: Vec<String>)
    ensures
        str_views(v@) == seq!["--user"@, user@, sub@] + match label {
            Some(l) => seq![l@],
            None => seq![],
        },
{
    let mut v: Vec<String> = Vec::new();
    v.push(owned("--user"));
    v.push(owned(user));
    v.push(owned(sub));
    let ghost l0 = label;
    if let Some(l) = label {
        v.push(l);
    }
    assert(str_views(v@) =~= seq!["--user"@, user@, sub@] + match l0 {
        Some(l) => seq![l@],
        None => seq![],
    });
    v
}

/// Sets `key` in the loaded config for the `set-config` family of commands,
/// failing with `key '<key>' not found in config.ini` when it is absent. The
/// caller saves the config on success.
pub fn config_set(cfg: &mut Config, key: &str, value: &str) -> (r: Result<(), String>)
    ensures
        final(cfg)@.path == old(cfg)@.path,
        final(cfg)@.text == rewrite(lines(old(cfg)@.text), key@, value@, false),
        match r {
            Ok(()) => any_sets(lines(old(cfg)@.text), key@),
            Err(e) => !any_sets(lines(old(cfg)@.text), key@) && e@ == "key '"@ + key@
                + "' not found in config.ini"@,
        },
{
    if !cfg.set(key, value) {
        let mut m = owned("key '");
        push_str(&mut m, key);
        push_str(&mut m, "' not found in config.ini");
        return Err(m);
    }
    Ok(())
}

} // verus!

verus! {

/// Which pane has the keyboard.
#[derive(Clone, Copy, Debug, PartialEq, Eq, Structural)]
pub enum Focus {
    Menu,
    Content,
}

/// A key press, as far as the manager distinguishes keys.
#[derive(Clone, Copy, Debug)]
pub enum Key {
    Char(char),
    Esc,
    Tab,
    BackTab,
    Up,
    Down,
    Left,
    Right,
    Enter,
    Backspace,
    Delete,
    Other,
}

/// What the caller should do after a key press.
#[derive(Debug)]
pub enum Action {
    Nothing,
    /// Reload cameras, models, config and checks.
    Refresh,
    /// Make the selected camera Howdy's `device_path`.
    SetActiveCamera,
    /// Remove the selected model.
    DeleteModel,
    /// Enroll a new model with this label (empty: Howdy's default).
    Enroll(String),
    /// Run a recognition test.
    RunTest,
    /// Raise the pending certainty threshold by a tenth.
    NudgeUp,
    /// Lower the pending certainty threshold by a tenth.
    NudgeDown,
    /// Save the pending certainty threshold.
    SaveCertainty,
    /// Toggle Howdy's detailed end report.
    ToggleEndReport,
    /// Re-run the health checks.
    Recheck,
    /// Run the automated repairs.
    RunFix,
}

/// What an action asks for.
pub ghost enum ActionView {
    Nothing,
    Refresh,
    SetActiveCamera,
    DeleteModel,
    Enroll(Seq<char>),
    RunTest,
    NudgeUp,
    NudgeDown,
    SaveCertainty,
    ToggleEndReport,
    Recheck,
    RunFix,
}

impl View for Action {
    type V = ActionView;

    open spec fn view(&self) -> ActionView {
        match self {
            Action::Nothing => ActionView::Nothing,
            Action::Refresh => ActionView::Refresh,
            Action::SetActiveCamera => ActionView::SetActiveCamera,
            Action::DeleteModel => ActionView::DeleteModel,
            Action::Enroll(l) => ActionView::Enroll(l@),
            Action::RunTest => ActionView::RunTest,
            Action::NudgeUp => ActionView::NudgeUp,
            Action::NudgeDown => ActionView::NudgeDown,
            Action::SaveCertainty => ActionView::SaveCertainty,
            Action::ToggleEndReport => ActionView::ToggleEndReport,
            Action::Recheck => ActionView::Recheck,
            Action::RunFix => ActionView::RunFix,
        }
    }
}

/// The navigation state of the manager.
pub struct UiState {
    pub tab: Tab,
    pub focus: Focus,
    pub quit: bool,
    pub status: String,
    /// `Some(buffer)` while the user is typing a label for a new model.
    pub enrolling: Option<String>,
    pub cam_sel: usize,
    pub model_sel: usize,
    /// Number of cameras listed.
    pub cameras: usize,
    /// Number of models listed.
    pub models: usize,
}

/// The navigation state, abstractly.
pub ghost struct UiView {
    pub tab: Tab,
    pub focus: Focus,
    pub quit: bool,
    pub status: Seq<char>,
    pub enrolling: Option<Seq<char>>,
    pub cam_sel: int,
    pub model_sel: int,
    pub cameras: int,
    pub models: int,
}

impl View for UiState {
    type V = UiView;

    open spec fn view(&self) -> UiView {
        UiView {
            tab: self.tab,
            focus: self.focus,
            quit: self.quit,
            status: self.status@,
            enrolling: match self.enrolling {
                Some(b) => Some(b@),
                None => None,
            },
            cam_sel: self.cam_sel as int,
            model_sel: self.model_sel as int,
            cameras: self.cameras as int,
            models: self.models as int,
        }
    }
}

/// `x` clamped to `lo..=hi`.
pub open spec fn clamp(x: int, lo: int, hi: int) -> int {
    if x < lo {
        lo
    } else if x > hi {
        hi
    } else {
        x
    }
}

/// Moving the selection of the current list by `delta`, kept within the list.
pub open spec fn move_sel(s: UiView, delta: int) -> UiView {
    match s.tab {
        Tab::Cameras => if s.cameras == 0 {
            s
        } else {
            UiView { cam_sel: clamp(s.cam_sel + delta, 0, s.cameras - 1), ..s }
        },
        Tab::Models => if s.models == 0 {
            s
        } else {
            UiView { model_sel: clamp(s.model_sel + delta, 0, s.models - 1), ..s }
        },
        _ => s,
    }
}

/// Index of the last item of a list of `n` (0 for an empty list).
pub open spec fn last_index(n: int) -> int {
    if n > 0 {
        n - 1
    } else {
        0
    }
}

/// The state once the lists were reloaded with `cameras` and `models` items:
/// each selection is pulled back to the last item if the list got shorter.
pub open spec fn with_counts(s: UiView, cameras: int, models: int) -> UiView {
    UiView {
        cameras,
        models,
        cam_sel: if s.cam_sel > last_index(cameras) {
            last_index(cameras)
        } else {
            s.cam_sel
        },
        model_sel: if s.model_sel > last_index(models) {
            last_index(models)
        } else {
            s.model_sel
        },
        ..s
    }
}

/// A key while a model label is being typed.
pub open spec fn label_step(s: UiView, buf: Seq<char>, k: Key) -> (UiView, ActionView) {
    match k {
        Key::Esc => (UiView { enrolling: None, status: "enrollment cancelled"@, ..s }, ActionView::Nothing),
        Key::Enter => (UiView { enrolling: None, ..s }, ActionView::Enroll(trim(buf))),
        Key::Backspace => (
            UiView {
                enrolling: Some(
                    if buf.len() > 0 {
                        buf.drop_last()
                    } else {
                        buf
                    },
                ),
                ..s
            },
            ActionView::Nothing,
        ),
        Key::Char(c) => (UiView { enrolling: Some(buf.push(c)), ..s }, ActionView::Nothing),
        _ => (s, ActionView::Nothing),
    }
}

/// A key for the content pane of the current tab.
pub open spec fn content_step(s: UiView, k: Key) -> (UiView, ActionView) {
    match s.tab {
        Tab::Cameras => match k {
            Key::Enter => (s, ActionView::SetActiveCamera),
            _ => (s, ActionView::Nothing),
        },
        Tab::Models => match k {
            Key::Char('a') => (
                UiView {
                    enrolling: Some(seq![]),
                    status: "type a label, Enter to enroll (empty = default), Esc to cancel"@,
                    ..s
                },
                ActionView::Nothing,
            ),
            Key::Char('d') | Key::Delete => (s, ActionView::DeleteModel),
            _ => (s, ActionView::Nothing),
        },
        Tab::Test => match k {
            Key::Enter => (s, ActionView::RunTest),
            Key::Char('+') | Key::Char('=') => (s, ActionView::NudgeUp),
            Key::Char('-') | Key::Char('_') => (s, ActionView::NudgeDown),
            Key::Char('s') => (s, ActionView::SaveCertainty),
            Key::Char('e') => (s, ActionView::ToggleEndReport),
            _ => (s, ActionView::Nothing),
        },
        Tab::Doctor => match k {
            Key::Enter => (UiView { status: "re-ran checks"@, ..s }, ActionView::Recheck),
            Key::Char('f') => (s, ActionView::RunFix),
            _ => (s, ActionView::Nothing),
        },
    }
}

/// A key that moves focus or goes to the content pane.
pub open spec fn other_step(s: UiView, k: Key) -> (UiView, ActionView) {
    if s.focus == Focus::Menu && (k is Right || k matches Key::Char('l') || k is Enter) {
        (UiView { focus: Focus::Content, ..s }, ActionView::Nothing)
    } else if s.focus == Focus::Content && (k is Left || k matches Key::Char('h')) {
        (UiView { focus: Focus::Menu, ..s }, ActionView::Nothing)
    } else if s.focus == Focus::Content {
        content_step(s, k)
    } else {
        (s, ActionView::Nothing)
    }
}

/// The manager's response to a key: the next state and what to do.
pub open spec fn next(s: UiView, k: Key) -> (UiView, ActionView) {
    match s.enrolling {
        Some(buf) => label_step(s, buf, k),
        None => match k {
            Key::Char('q') => (UiView { quit: true, ..s }, ActionView::Nothing),
            Key::Esc => if s.focus == Focus::Content {
                (UiView { focus: Focus::Menu, ..s }, ActionView::Nothing)
            } else {
                (UiView { quit: true, ..s }, ActionView::Nothing)
            },
            Key::Tab | Key::BackTab => (
                UiView {
                    focus: if s.focus == Focus::Menu {
                        Focus::Content
                    } else {
                        Focus::Menu
                    },
                    ..s
                },
                ActionView::Nothing,
            ),
            Key::Char('r') => (UiView { status: "refreshed"@, ..s }, ActionView::Refresh),
            Key::Up => if s.focus == Focus::Menu {
                (UiView { tab: tab_at((tab_index(s.tab) - 1) % 4), ..s }, ActionView::Nothing)
            } else {
                (move_sel(s, -1), ActionView::Nothing)
            },
            Key::Down => if s.focus == Focus::Menu {
                (UiView { tab: tab_at((tab_index(s.tab) + 1) % 4), ..s }, ActionView::Nothing)
            } else {
                (move_sel(s, 1), ActionView::Nothing)
            },
            _ => other_step(s, k),
        },
    }
}

} // verus!

verus! {

/// `sel + delta` kept within `0..len`.
fn clamp_sel(sel: usize, delta: i32, len: usize) -> (r: usize)
    requires
        len > 0,
    ensures
        r == clamp(sel + delta, 0, len - 1),
{
    let t: i128 = sel as i128 + delta as i128;
    let hi: i128 = len as i128 - 1;
    if t < 0 {
        0
    } else if t > hi {
        len - 1
    } else {
        t as usize
    }
}

impl UiState {
    /// A fresh manager state: the Cameras tab, menu focused.
    pub fn new() -> (s: UiState)
        ensures
            s@ == (UiView {
                tab: Tab::Cameras,
                focus: Focus::Menu,
                quit: false,
                status: "ready"@,
                enrolling: None,
                cam_sel: 0,
                model_sel: 0,
                cameras: 0,
                models: 0,
            }),
    {
        UiState {
            tab: Tab::Cameras,
            focus: Focus::Menu,
            quit: false,
            status: owned("ready"),
            enrolling: None,
            cam_sel: 0,
            model_sel: 0,
            cameras: 0,
            models: 0,
        }
    }

    /// Record the sizes of the reloaded camera and model lists, keeping each
    /// selection within its list.
    pub fn set_counts(&mut self, cameras: usize, models: usize)
        ensures
            final(self)@ == with_counts(old(self)@, cameras as int, models as int),
    {
        self.cameras = cameras;
        self.models = models;
        let last_cam: usize = if cameras > 0 {
            cameras - 1
        } else {
            0
        };
        if self.cam_sel > last_cam {
            self.cam_sel = last_cam;
        }
        let last_model: usize = if models > 0 {
            models - 1
        } else {
            0
        };
        if self.model_sel > last_model {
            self.model_sel = last_model;
        }
    }

    fn move_sel(&mut self, delta: i32)
        ensures
            final(self)@ == move_sel(old(self)@, delta as int),
    {
        match self.tab {
            Tab::Cameras => {
                if self.cameras > 0 {
                    self.cam_sel = clamp_sel(self.cam_sel, delta, self.cameras);
                }
            },
            Tab::Models => {
                if self.models > 0 {
                    self.model_sel = clamp_sel(self.model_sel, delta, self.models);
                }
            },
            _ => {},
        }
    }

    fn on_label_key(&mut self, buf: String, key: Key) -> (a: Action)
        requires
            old(self).enrolling matches Some(b) && b@ == buf@,
        ensures
            (final(self)@, a@) == label_step(old(self)@, buf@, key),
    {
        match key {
            Key::Esc => {
                self.enrolling = None;
                self.status = owned("enrollment cancelled");
                Action::Nothing
            },
            Key::Enter => {
                self.enrolling = None;
                let v = chars_of(buf.as_str());
                assert(v@.subrange(0, v.len() as int) =~= v@);
                let (a, b) = trim_bounds(&v, 0, v.len());
                Action::Enroll(string_of_range(&v, a, b))
            },
            Key::Backspace => {
                let v = chars_of(buf.as_str());
                if v.len() > 0 {
                    let shorter = string_of_range(&v, 0, v.len() - 1);
                    assert(shorter@ =~= buf@.drop_last());
                    self.enrolling = Some(shorter);
                } else {
                    self.enrolling = Some(buf);
                }
                Action::Nothing
            },
            Key::Char(c) => {
                let mut b = buf;
                push_char(&mut b, c);
                self.enrolling = Some(b);
                Action::Nothing
            },
            _ => Action::Nothing,
        }
    }

    fn on_content_key(&mut self, key: Key) -> (a: Action)
        ensures
            (final(self)@, a@) == content_step(old(self)@, key),
    {
        match self.tab {
            Tab::Cameras => match key {
                Key::Enter => Action::SetActiveCamera,
                _ => Action::Nothing,
            },
            Tab::Models => match key {
                Key::Char('a') => {
                    self.enrolling = Some(String::new());
                    self.status = owned(
                        "type a label, Enter to enroll (empty = default), Esc to cancel",
                    );
                    Action::Nothing
                },
                Key::Char('d') | Key::Delete => Action::DeleteModel,
                _ => Action::Nothing,
            },
            Tab::Test => match key {
                Key::Enter => Action::RunTest,
                Key::Char('+') | Key::Char('=') => Action::NudgeUp,
                Key::Char('-') | Key::Char('_') => Action::NudgeDown,
                Key::Char('s') => Action::SaveCertainty,
                Key::Char('e') => Action::ToggleEndReport,
                _ => Action::Nothing,
            },
            Tab::Doctor => match key {
                Key::Enter => {
                    self.status = owned("re-ran checks");
                    Action::Recheck
                },
                Key::Char('f') => Action::RunFix,
                _ => Action::Nothing,
            },
        }
    }

    /// Handle a key press: update the navigation state and say what to do.
    pub fn on_key(&mut self, key: Key) -> (a: Action)
        ensures
            (final(self)@, a@) == next(old(self)@, key),
    {
        let buf = match &self.enrolling {
            Some(b) => Some(b.clone()),
            None => None,
        };
        if let Some(b) = buf {
            return self.on_label_key(b, key);
        }
        match key {
            Key::Char('q') => {
                self.quit = true;
                Action::Nothing
            },
            Key::Esc => {
                if self.focus == Focus::Content {
                    self.focus = Focus::Menu;
                } else {
                    self.quit = true;
                }
                Action::Nothing
            },
            Key::Tab | Key::BackTab => {
                self.focus = if self.focus == Focus::Menu {
                    Focus::Content
                } else {
                    Focus::Menu
                };
                Action::Nothing
            },
            Key::Char('r') => {
                self.status = owned("refreshed");
                Action::Refresh
            },
            Key::Up => {
                if self.focus == Focus::Menu {
                    self.tab = self.tab.step(-1);
                } else {
                    self.move_sel(-1);
                }
                Action::Nothing
            },
            Key::Down => {
                if self.focus == Focus::Menu {
                    self.tab = self.tab.step(1);
                } else {
                    self.move_sel(1);
                }
                Action::Nothing
            },
            _ => {
                let to_content = match key {
                    Key::Right | Key::Char('l') | Key::Enter => true,
                    _ => false,
                };
                let to_menu = match key {
                    Key::Left | Key::Char('h') => true,
                    _ => false,
                };
                if self.focus == Focus::Menu && to_content {
                    self.focus = Focus::Content;
                    Action::Nothing
                } else if self.focus == Focus::Content && to_menu {
                    self.focus = Focus::Menu;
                    Action::Nothing
                } else if self.focus == Focus::Content {
                    self.on_content_key(key)
                } else {
                    Action::Nothing
                }
            },
        }
    }
}

} // verus!

verus! {

/// Selections point into their lists (or are zero when a list is empty).
pub open spec fn selections_in_range(s: UiView) -> bool {
    &&& 0 <= s.cam_sel && (s.cameras == 0 || s.cam_sel < s.cameras)
    &&& 0 <= s.model_sel && (s.models == 0 || s.model_sel < s.models)
    &&& s.cameras >= 0 && s.models >= 0
}

/// No key moves a selection out of its list.
pub proof fn law_selection_stays_in_range(s: UiView, k: Key)
    requires
        selections_in_range(s),
    ensures
        selections_in_range(next(s, k).0),
{
}

/// After the lists are reloaded, both selections point into their lists.
pub proof fn law_reload_keeps_selection_in_range(s: UiView, cameras: nat, models: nat)
    requires
        s.cam_sel >= 0,
        s.model_sel >= 0,
    ensures
        selections_in_range(with_counts(s, cameras as int, models as int)),
{
}

/// In the content pane, Up and Down never change the section: they move the
/// selection of the current list one item up or down, stopping at its ends,
/// and change nothing else.
pub proof fn law_arrows_move_the_selection(s: UiView)
    requires
        s.focus == Focus::Content,
        s.enrolling is None,
    ensures
        next(s, Key::Up).0.tab == s.tab,
        next(s, Key::Down).0.tab == s.tab,
        next(s, Key::Up).1 is Nothing,
        next(s, Key::Down).1 is Nothing,
        s.tab == Tab::Cameras && 0 <= s.cam_sel < s.cameras ==> {
            &&& next(s, Key::Up).0 == UiView {
                cam_sel: if s.cam_sel > 0 {
                    s.cam_sel - 1
                } else {
                    0
                },
                ..s
            }
            &&& next(s, Key::Down).0 == UiView {
                cam_sel: if s.cam_sel + 1 < s.cameras {
                    s.cam_sel + 1
                } else {
                    s.cam_sel
                },
                ..s
            }
        },
        s.tab == Tab::Models && 0 <= s.model_sel < s.models ==> {
            &&& next(s, Key::Up).0 == UiView {
                model_sel: if s.model_sel > 0 {
                    s.model_sel - 1
                } else {
                    0
                },
                ..s
            }
            &&& next(s, Key::Down).0 == UiView {
                model_sel: if s.model_sel + 1 < s.models {
                    s.model_sel + 1
                } else {
                    s.model_sel
                },
                ..s
            }
        },
        s.tab == Tab::Test || s.tab == Tab::Doctor ==> next(s, Key::Up).0 == s && next(
            s,
            Key::Down,
        ).0 == s,
{
}

/// On the Test tab with the content focused, `-` and `_` ask to lower the
/// certainty threshold and `+` and `=` ask to raise it; none of them changes
/// the state.
pub proof fn law_nudge_keys(s: UiView)
    requires
        s.tab == Tab::Test,
        s.focus == Focus::Content,
        s.enrolling is None,
    ensures
        next(s, Key::Char('-')) == (s, ActionView::NudgeDown),
        next(s, Key::Char('_')) == (s, ActionView::NudgeDown),
        next(s, Key::Char('+')) == (s, ActionView::NudgeUp),
        next(s, Key::Char('=')) == (s, ActionView::NudgeUp),
{
}

/// Pressing Tab twice gives the keyboard back to the pane that had it.
pub proof fn law_tab_twice(s: UiView)
    requires
        s.enrolling is None,
    ensures
        next(next(s, Key::Tab).0, Key::Tab).0 == s,
{
}

/// While a label is being typed, no key quits, moves or changes tabs, and only
/// Enter asks for an action (the enrollment, with the trimmed label).
pub proof fn law_typing_captures_keys(s: UiView, k: Key)
    requires
        s.enrolling is Some,
    ensures
        next(s, k).0.quit == s.quit,
        next(s, k).0.tab == s.tab,
        next(s, k).0.focus == s.focus,
        next(s, k).1 is Nothing || (k is Enter && next(s, k).1 == ActionView::Enroll(
            trim(s.enrolling->0),
        )),
{
}

/// The key hints shown in the footer.
pub open spec fn hints_spec(typing: bool, focus: Focus, tab: Tab) -> Seq<(Seq<char>, Seq<char>)> {
    if typing {
        seq![("type"@, "label"@), ("↵"@, "enroll"@), ("Esc"@, "cancel"@)]
    } else if focus == Focus::Menu {
        seq![("↑↓"@, "section"@), ("⇥/→"@, "open"@), ("r"@, "refresh"@), ("q"@, "quit"@)]
    } else {
        match tab {
            Tab::Cameras => seq![
                ("↑↓"@, "select"@),
                ("↵"@, "set active"@),
                ("⇥/←"@, "menu"@),
                ("q"@, "quit"@),
            ],
            Tab::Models => seq![
                ("↑↓"@, "select"@),
                ("a"@, "add"@),
                ("d"@, "delete"@),
                ("⇥/←"@, "menu"@),
                ("q"@, "quit"@),
            ],
            Tab::Test => seq![
                ("↵"@, "run"@),
                ("± "@, "threshold"@),
                ("s"@, "save"@),
                ("⇥/←"@, "menu"@),
                ("q"@, "quit"@),
            ],
            Tab::Doctor => seq![
                ("↵"@, "re-check"@),
                ("f"@, "fix"@),
                ("⇥/←"@, "menu"@),
                ("q"@, "quit"@),
            ],
        }
    }
}

/// The views of a list of hints.
pub open spec fn hints_view(v: Seq<(&'static str, &'static str)>) -> Seq<(Seq<char>, Seq<char>)> {
    v.map_values(|h: (&'static str, &'static str)| (h.0@, h.1@))
}

/// The `key`/`description` hints for the footer: the label field's while typing,
/// the menu's when it has focus, else those of the current tab.
pub fn help_hints(typing: bool, focus: Focus, tab: Tab) -> (v: Vec<(&'static str, &'static str)>)
    ensures
        hints_view(v@) == hints_spec(typing, focus, tab),
{
    let v: Vec<(&'static str, &'static str)> = if typing {
        vec![("type", "label"), ("↵", "enroll"), ("Esc", "cancel")]
    } else if focus == Focus::Menu {
        vec![("↑↓", "section"), ("⇥/→", "open"), ("r", "refresh"), ("q", "quit")]
    } else {
        match tab {
            Tab::Cameras => vec![("↑↓", "select"), ("↵", "set active"), ("⇥/←", "menu"), ("q", "quit")],
            Tab::Models => vec![
                ("↑↓", "select"),
                ("a", "add"),
                ("d", "delete"),
                ("⇥/←", "menu"),
                ("q", "quit"),
            ],
            Tab::Test => vec![
                ("↵", "run"),
                ("± ", "threshold"),
                ("s", "save"),
                ("⇥/←", "menu"),
                ("q", "quit"),
            ],
            Tab::Doctor => vec![("↵", "re-check"), ("f", "fix"), ("⇥/←", "menu"), ("q", "quit")],
        }
    };
    assert(hints_view(v@) =~= hints_spec(typing, focus, tab));
    v
}

} // verus!

verus! {

/// The status line after an enrollment attempt.
pub open spec fn enroll_status_spec(ok: bool, label: Seq<char>) -> Seq<char> {
    if !ok {
        "enrollment cancelled or failed"@
    } else if label.len() == 0 {
        "enrolled a new model"@
    } else {
        "enrolled '"@ + label + "'"@
    }
}

/// The status line after an enrollment attempt with `label`.
pub fn enroll_status(ok: bool, label: &str) -> (s: String)
    ensures
        s@ == enroll_status_spec(ok, label@),
{
    if !ok {
        owned("enrollment cancelled or failed")
    } else if label.unicode_len() == 0 {
        owned("enrolled a new model")
    } else {
        let mut s = owned("enrolled '");
        push_str(&mut s, label);
        push_str(&mut s, "'");
        s
    }
}

/// The status line after the active camera was set to `path`.
pub fn camera_set_status(path: &str) -> (s: String)
    ensures
        s@ == "camera set to "@ + path@,
{
    let mut s = owned("camera set to ");
    push_str(&mut s, path);
    s
}

/// The status line after model `id` was removed.
pub fn removed_status(id: u32) -> (s: String)
    ensures
        s@ == "removed model "@ + crate::text::decimal(id as nat),
{
    let mut s = owned("removed model ");
    crate::text::push_decimal(&mut s, id as u64);
    s
}

/// The status line after the repairs ran (`ok`: they could be run).
pub fn fix_status(ok: bool) -> (s: String)
    ensures
        s@ == if ok {
            "ran doctor --fix"@
        } else {
            "doctor --fix failed"@
        },
{
    if ok {
        owned("ran doctor --fix")
    } else {
        owned("doctor --fix failed")
    }
}

/// The status line after the detailed report was switched `on` or off.
pub fn end_report_status(on: bool) -> (s: String)
    ensures
        s@ == "detailed report "@ + if on {
            "on"@
        } else {
            "off"@
        },
{
    let mut s = owned("detailed report ");
    push_str(&mut s, if on { "on" } else { "off" });
    s
}

} // verus!

verus! {

/// What the camera list shows of a node beside its path and name.
pub struct CameraLabels {
    /// The node is the configured `device_path` (drawn with a marker).
    pub active: bool,
    /// `IR` or `RGB`.
    pub kind: &'static str,
    /// `active`, `meta` for a node that cannot capture, or nothing.
    pub tag: &'static str,
}

/// The labels of camera `c` in the list, given the configured `device_path`.
pub fn camera_labels(c: &crate::camera::Camera, device_path: &String) -> (r: CameraLabels)
    ensures
        r.active == (c.path@ == device_path@),
        r.kind@ == (if c.is_ir {
            "IR"@
        } else {
            "RGB"@
        }),
        r.tag@ == (if c.path@ == device_path@ {
            "active"@
        } else if !c.can_capture {
            "meta"@
        } else {
            ""@
        }),
{
    let active = c.path == *device_path;
    let kind = if c.is_ir {
        "IR"
    } else {
        "RGB"
    };
    let tag = if active {
        "active"
    } else if !c.can_capture {
        "meta"
    } else {
        ""
    };
    CameraLabels { active, kind, tag }
}

/// What pressing Enter on the camera list leads to.
pub enum CameraPick {
    /// The selection points at no camera.
    NoCamera,
    /// The selected node is metadata-only: say so.
    NotCapture(String),
    /// Make this node the active camera.
    Use(String),
}

/// The decision for making the selected camera (`sel`) active.
pub fn pick_camera(cams: &Vec<crate::camera::Camera>, sel: usize) -> (r: CameraPick)
    ensures
        sel >= cams.len() ==> r is NoCamera,
        sel < cams.len() && !cams@[sel as int].can_capture ==> (r matches CameraPick::NotCapture(
            m,
        ) && m@ == "that node can't capture video — pick a capture device"@),
        sel < cams.len() && cams@[sel as int].can_capture ==> (r matches CameraPick::Use(p) && p@
            == cams@[sel as int].path@),
{
    if sel >= cams.len() {
        return CameraPick::NoCamera;
    }
    let c = &cams[sel];
    if !c.can_capture {
        CameraPick::NotCapture(owned("that node can't capture video — pick a capture device"))
    } else {
        CameraPick::Use(c.path.clone())
    }
}

/// The id of the selected model (`sel`), or the status line saying none is selected.
pub fn pick_model(models: &Vec<crate::model::Model>, sel: usize) -> (r: Result<u32, String>)
    ensures
        sel < models.len() ==> r == Ok::<u32, String>(models@[sel as int].id),
        sel >= models.len() ==> (r matches Err(m) && m@ == "no model selected"@),
{
    if sel < models.len() {
        Ok(models[sel].id)
    } else {
        Err(owned("no model selected"))
    }
}

} // verus!
