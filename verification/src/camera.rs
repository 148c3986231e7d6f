//! Video4linux capture devices: which are infrared, which can capture, and the
//! order in which Howdy should prefer them.
use vstd::prelude::*;

use crate::ioctl::{can_capture_spec, V4l2Capability};
use crate::text::{
    chars_of, contains, decimal, lowercase, occurs_at, owned, parse_u32, parse_u32_chars,
    push_decimal, starts_with, starts_with_in, str_contains, string_of_range, to_lowercase, trim,
    trim_bounds,
};

verus! {

/// A video4linux device node discovered on the system.
#[derive(Debug, Clone)]
pub struct Camera {
    /// Path to the node, e.g. `/dev/video2`.
    pub path: String,
    /// `videoN` index.
    pub index: u32,
    /// Human-readable name from sysfs, e.g. `ASUS IR camera`.
    pub name: String,
    /// Looks like an infrared camera (best for Howdy — works in the dark, harder to spoof).
    pub is_ir: bool,
    /// The node actually does video capture (vs. a metadata-only companion node).
    pub can_capture: bool,
    /// We were able to open the node (permissions / not busy).
    pub accessible: bool,
}

} // verus!

verus! {

/// The order Howdy prefers cameras in: IR first, then by index.
pub open spec fn rank(c: Camera) -> int {
    (if c.is_ir {
        0int
    } else {
        0x1_0000_0000int
    }) + c.index as int
}

/// The capture camera that sorts first (lowest rank, earliest among equals) within
/// `cams[0..n]`.
pub open spec fn best_capture_in(cams: Seq<Camera>, n: int) -> Option<int>
    decreases n,
{
    if n <= 0 {
        None
    } else {
        let b = best_capture_in(cams, n - 1);
        if cams[n - 1].can_capture && (b is None || rank(cams[n - 1]) < rank(cams[b->0])) {
            Some(n - 1)
        } else {
            b
        }
    }
}

/// The capture camera Howdy should use: the first of `capture_devices`.
pub open spec fn best_capture(cams: Seq<Camera>) -> Option<int> {
    best_capture_in(cams, cams.len() as int)
}

pub proof fn lemma_best_capture_in(cams: Seq<Camera>, n: int)
    requires
        0 <= n <= cams.len(),
    ensures
        match best_capture_in(cams, n) {
            Some(j) => 0 <= j < n && cams[j].can_capture && forall|i: int|
                0 <= i < n && #[trigger] cams[i].can_capture ==> rank(cams[j]) < rank(cams[i]) || (
                rank(cams[j]) == rank(cams[i]) && j <= i),
            None => forall|i: int| 0 <= i < n ==> !#[trigger] cams[i].can_capture,
        },
    decreases n,
{
    if n > 0 {
        lemma_best_capture_in(cams, n - 1);
    }
}

/// Index of `best_capture(cams)`.
pub fn preferred_camera(cams: &Vec<Camera>) -> (r: Option<usize>)
    ensures
        match r {
            Some(j) => best_capture(cams@) == Some(j as int) && j < cams.len(),
            None => best_capture(cams@) is None,
        },
{
    let mut best: Option<usize> = None;
    let mut i: usize = 0;
    while i < cams.len()
        invariant
            i <= cams.len(),
            match best {
                Some(j) => best_capture_in(cams@, i as int) == Some(j as int) && j < i,
                None => best_capture_in(cams@, i as int) is None,
            },
        decreases cams.len() - i,
    {
        let c = &cams[i];
        if c.can_capture {
            let better = match best {
                None => true,
                Some(j) => {
                    let b = &cams[j];
                    if c.is_ir != b.is_ir {
                        c.is_ir
                    } else {
                        c.index < b.index
                    }
                },
            };
            if better {
                best = Some(i);
            }
        }
        i = i + 1;
    }
    best
}

} // verus!

verus! {

/// `char::is_ascii_alphanumeric`.
pub open spec fn ascii_alnum(c: char) -> bool {
    ('0' <= c && c <= '9') || ('a' <= c && c <= 'z') || ('A' <= c && c <= 'Z')
}

/// `s[i..]` starts with the word `w`, not run together with letters or digits on
/// either side.
pub open spec fn word_at(s: Seq<char>, w: Seq<char>, i: int) -> bool {
    &&& occurs_at(s, w, i)
    &&& (i == 0 || !ascii_alnum(s[i - 1]))
    &&& (i + w.len() == s.len() || !ascii_alnum(s[i + w.len()]))
}

/// A lowercased device name that denotes an infrared camera: it mentions
/// `infrared`, or has `ir` as a whole word.
pub open spec fn ir_name(lower: Seq<char>) -> bool {
    contains(lower, "infrared"@) || exists|i: int| word_at(lower, seq!['i', 'r'], i)
}

/// Whether a lowercased device name denotes an infrared camera.
pub fn lower_name_is_ir(lower: &str) -> (r: bool)
    ensures
        r == ir_name(lower@),
{
    if str_contains(lower, "infrared") {
        return true;
    }
    let v = chars_of(lower);
    let ghost ir = seq!['i', 'r'];
    if v.len() < 2 {
        assert forall|i: int| !word_at(v@, ir, i) by {}
        return false;
    }
    let mut i: usize = 0;
    while i + 1 < v.len()
        invariant
            v@ == lower@,
            ir == seq!['i', 'r'],
            v.len() >= 2,
            i + 1 <= v.len(),
            forall|k: int| 0 <= k < i ==> !word_at(v@, ir, k),
        decreases v.len() - i,
    {
        let left = i == 0 || !is_ascii_alnum(v[i - 1]);
        let right = i + 2 == v.len() || !is_ascii_alnum(v[i + 2]);
        if v[i] == 'i' && v[i + 1] == 'r' && left && right {
            assert(v@.subrange(i as int, i + 2) =~= ir);
            assert(word_at(v@, ir, i as int));
            return true;
        }
        assert(!word_at(v@, ir, i as int)) by {
            if occurs_at(v@, ir, i as int) {
                assert(v@.subrange(i as int, i + 2)[0] == v@[i as int]);
                assert(v@.subrange(i as int, i + 2)[1] == v@[i + 1]);
            }
        }
        i = i + 1;
    }
    assert forall|k: int| !word_at(v@, ir, k) by {
        if k >= i && occurs_at(v@, ir, k) {
            assert(k + 2 <= v.len());
        }
    }
    false
}

/// Executable `ascii_alnum`.
pub fn is_ascii_alnum(c: char) -> (r: bool)
    ensures
        r == ascii_alnum(c),
{
    ('0' <= c && c <= '9') || ('a' <= c && c <= 'z') || ('A' <= c && c <= 'Z')
}

/// Heuristic: does this device name denote an infrared camera? The name is
/// lowercased first (Unicode case mapping, named by `lowercase`).
pub fn name_is_ir(name: &str) -> (r: bool)
    ensures
        r == ir_name(lowercase(name@)),
{
    let lower = to_lowercase(name);
    lower_name_is_ir(lower.as_str())
}

} // verus!

verus! {

/// Which order to sort cameras in.
#[derive(Clone, Copy)]
pub enum Order {
    /// By `videoN` index.
    ByIndex,
    /// IR first, then by index (see `rank`).
    ByPreference,
}

/// The key a camera sorts by.
pub open spec fn sort_key(o: Order, c: Camera) -> int {
    match o {
        Order::ByIndex => c.index as int,
        Order::ByPreference => rank(c),
    }
}

/// The test for key `k`.
pub open spec fn key_is(o: Order, k: int) -> spec_fn(Camera) -> bool {
    |c: Camera| sort_key(o, c) == k
}

/// The cameras of `s` with key `k`, in their order in `s`.
pub open spec fn with_key(s: Seq<Camera>, o: Order, k: int) -> Seq<Camera> {
    s.filter(key_is(o, k))
}

/// `s` is in nondecreasing key order.
pub open spec fn sorted_by(s: Seq<Camera>, o: Order) -> bool {
    forall|i: int, j: int| 0 <= i < j < s.len() ==> sort_key(o, s[i]) <= sort_key(o, s[j])
}

/// `r` is `s` stably sorted by key: in key order, and for every key the cameras
/// with that key appear as they did in `s`.
pub open spec fn stable_sort_of(r: Seq<Camera>, s: Seq<Camera>, o: Order) -> bool {
    &&& sorted_by(r, o)
    &&& forall|k: int| #[trigger] with_key(r, o, k) == with_key(s, o, k)
}

proof fn lemma_filter_push<A>(s: Seq<A>, x: A, pred: spec_fn(A) -> bool)
    ensures
        s.push(x).filter(pred) == if pred(x) {
            s.filter(pred).push(x)
        } else {
            s.filter(pred)
        },
{
    reveal(Seq::filter);
    assert(s.push(x).drop_last() =~= s);
}

proof fn lemma_filter_none<A>(s: Seq<A>, pred: spec_fn(A) -> bool)
    requires
        forall|i: int| 0 <= i < s.len() ==> !pred(#[trigger] s[i]),
    ensures
        s.filter(pred) == Seq::<A>::empty(),
    decreases s.len(),
{
    reveal(Seq::filter);
    if s.len() > 0 {
        lemma_filter_none(s.drop_last(), pred);
        assert(!pred(s[s.len() - 1]));
    }
}

/// Whether `a` sorts after `b`.
fn key_gt(o: Order, a: &Camera, b: &Camera) -> (r: bool)
    ensures
        r == (sort_key(o, *a) > sort_key(o, *b)),
{
    match o {
        Order::ByIndex => a.index > b.index,
        Order::ByPreference => {
            if a.is_ir != b.is_ir {
                b.is_ir
            } else {
                a.index > b.index
            }
        },
    }
}

/// Stably sorts cameras by key.
pub fn sort_cameras(cams: Vec<Camera>, o: Order) -> (r: Vec<Camera>)
    ensures
        stable_sort_of(r@, cams@, o),
{
    let ghost orig = cams@;
    let mut input = cams;
    let mut r: Vec<Camera> = Vec::new();
    let ghost mut n: int = 0;
    assert(orig.skip(0) =~= orig);
    proof {
        assert forall|k: int| #[trigger] with_key(r@, o, k) == with_key(orig.take(0), o, k) by {
            lemma_filter_none(r@, key_is(o, k));
            lemma_filter_none(orig.take(0), key_is(o, k));
        }
    }
    while input.len() > 0
        invariant
            0 <= n <= orig.len(),
            input@ == orig.skip(n),
            sorted_by(r@, o),
            forall|k: int| #[trigger] with_key(r@, o, k) == with_key(orig.take(n), o, k),
        decreases input.len(),
    {
        let x = input.remove(0);
        assert(x == orig[n]);
        let mut j = r.len();
        while j > 0 && key_gt(o, &r[j - 1], &x)
            invariant
                j <= r.len(),
                forall|t: int| j <= t < r.len() ==> sort_key(o, #[trigger] r@[t]) > sort_key(o, x),
            decreases j,
        {
            j = j - 1;
        }
        let ghost old_r = r@;
        r.insert(j, x);
        proof {
            assert(r@ =~= old_r.take(j as int) + seq![x] + old_r.skip(j as int));
            assert(old_r =~= old_r.take(j as int) + old_r.skip(j as int));
            assert(orig.take(n + 1) =~= orig.take(n).push(x));
            assert forall|k: int| #[trigger] with_key(r@, o, k) == with_key(orig.take(n + 1), o, k) by {
                let p = key_is(o, k);
                let a = old_r.take(j as int);
                let b = old_r.skip(j as int);
                Seq::filter_distributes_over_add(a + seq![x], b, p);
                Seq::filter_distributes_over_add(a, seq![x], p);
                Seq::filter_distributes_over_add(a, b, p);
                lemma_filter_push(orig.take(n), x, p);
                lemma_filter_push(Seq::<Camera>::empty(), x, p);
                assert(Seq::<Camera>::empty().push(x) =~= seq![x]);
                lemma_filter_none(Seq::<Camera>::empty(), p);
                assert(r@.filter(p) == a.filter(p) + seq![x].filter(p) + b.filter(p));
                assert(old_r.filter(p) == a.filter(p) + b.filter(p));
                assert(with_key(old_r, o, k) == with_key(orig.take(n), o, k));
                assert(with_key(orig.take(n), o, k) == old_r.filter(p));
                if sort_key(o, x) == k {
                    assert(p(x));
                    assert(seq![x].filter(p) == seq![x]);
                    assert forall|t: int| 0 <= t < b.len() implies !p(#[trigger] b[t]) by {
                        assert(b[t] == old_r[j + t]);
                        assert(sort_key(o, old_r[j + t]) > sort_key(o, x));
                    }
                    lemma_filter_none(b, p);
                    assert(a.filter(p) + seq![x] + Seq::<Camera>::empty() =~= (a.filter(p)
                        + Seq::<Camera>::empty()).push(x));
                    assert(orig.take(n + 1).filter(p) == old_r.filter(p).push(x));
                } else {
                    assert(!p(x));
                    assert(seq![x].filter(p) == Seq::<Camera>::empty());
                    assert(a.filter(p) + Seq::<Camera>::empty() + b.filter(p) =~= a.filter(p)
                        + b.filter(p));
                    assert(orig.take(n + 1).filter(p) == old_r.filter(p));
                }
            }
            assert forall|s: int, t: int| 0 <= s < t < r@.len() implies sort_key(o, r@[s])
                <= sort_key(o, r@[t]) by {
                if t < j {
                } else if t == j {
                    if j > 0 {
                        assert(sort_key(o, old_r[j - 1]) <= sort_key(o, x));
                        assert(sort_key(o, old_r[s]) <= sort_key(o, old_r[j - 1]) || s == j - 1);
                    }
                } else if s == j {
                    assert(r@[t] == old_r[t - 1]);
                } else if s < j {
                    assert(r@[t] == old_r[t - 1]);
                } else {
                    assert(r@[t] == old_r[t - 1]);
                    assert(r@[s] == old_r[s - 1]);
                }
            }
            n = n + 1;
        }
        assert(input@ =~= orig.skip(n));
    }
    assert(orig.take(n) =~= orig);
    r
}

} // verus!

verus! {

/// What a camera record says.
pub ghost struct CameraView {
    pub path: Seq<char>,
    pub index: u32,
    pub name: Seq<char>,
    pub is_ir: bool,
    pub can_capture: bool,
    pub accessible: bool,
}

impl View for Camera {
    type V = CameraView;

    open spec fn view(&self) -> CameraView {
        CameraView {
            path: self.path@,
            index: self.index,
            name: self.name@,
            is_ir: self.is_ir,
            can_capture: self.can_capture,
            accessible: self.accessible,
        }
    }
}

/// The test for a capture node.
pub open spec fn captures() -> spec_fn(Camera) -> bool {
    |c: Camera| c.can_capture
}

/// The cameras that are usable as a Howdy `device_path`: real capture nodes.
/// IR cameras come first, then by index (`cams` is what detection found).
pub fn capture_devices(cams: Vec<Camera>) -> (r: Vec<Camera>)
    ensures
        stable_sort_of(r@, cams@.filter(captures()), Order::ByPreference),
{
    let ghost orig = cams@;
    let mut input = cams;
    let mut kept: Vec<Camera> = Vec::new();
    let ghost mut n: int = 0;
    assert(orig.skip(0) =~= orig);
    proof {
        lemma_filter_none(orig.take(0), captures());
    }
    while input.len() > 0
        invariant
            0 <= n <= orig.len(),
            input@ == orig.skip(n),
            kept@ == orig.take(n).filter(captures()),
        decreases input.len(),
    {
        let c = input.remove(0);
        assert(c == orig[n]);
        proof {
            assert(orig.take(n + 1) =~= orig.take(n).push(c));
            lemma_filter_push(orig.take(n), c, captures());
            n = n + 1;
        }
        if c.can_capture {
            kept.push(c);
        }
        assert(input@ =~= orig.skip(n));
    }
    assert(orig.take(n) =~= orig);
    sort_cameras(kept, Order::ByPreference)
}

/// `/dev/video<index>`.
pub open spec fn device_path_spec(index: u32) -> Seq<char> {
    "/dev/video"@ + decimal(index as nat)
}

/// Path of the device node with this index.
pub fn device_path(index: u32) -> (p: String)
    ensures
        p@ == device_path_spec(index),
{
    let mut p = owned("/dev/video");
    push_decimal(&mut p, index as u64);
    p
}

/// The `videoN` index a sysfs entry name stands for: `video` followed by a `u32`.
pub open spec fn video_index(fname: Seq<char>) -> Option<u32> {
    if starts_with(fname, "video"@) {
        parse_u32(fname.skip(5))
    } else {
        None
    }
}

/// Index of a `/sys/class/video4linux` entry, if it is a `videoN` node.
pub fn parse_video_index(fname: &str) -> (r: Option<u32>)
    ensures
        r == video_index(fname@),
{
    let v = chars_of(fname);
    let pre = chars_of("video");
    proof {
        reveal_strlit("video");
    }
    assert(v@.subrange(0, v.len() as int) =~= v@);
    if !starts_with_in(&v, 0, v.len(), &pre) {
        return None;
    }
    let mut rest: Vec<char> = Vec::new();
    let mut i: usize = 5;
    while i < v.len()
        invariant
            5 <= i <= v.len(),
            rest@ == v@.subrange(5, i as int),
        decreases v.len() - i,
    {
        rest.push(v[i]);
        i = i + 1;
        assert(rest@ =~= v@.subrange(5, i as int));
    }
    assert(rest@ =~= fname@.skip(5));
    parse_u32_chars(&rest)
}

/// `(can_capture, accessible)` of a node: whether it could be opened, and what
/// `VIDIOC_QUERYCAP` answered, if it answered.
pub open spec fn probe_flags(opened: bool, caps: Option<V4l2Capability>) -> (bool, bool) {
    if !opened {
        (false, false)
    } else {
        match caps {
            Some(cap) => (can_capture_spec(cap.capabilities, cap.device_caps), true),
            None => (false, true),
        }
    }
}

/// A `videoN` node as found on the system.
pub struct DeviceNode {
    /// `N`.
    pub index: u32,
    /// Contents of its sysfs `name` file (empty if unreadable).
    pub name: String,
    /// The node could be opened read/write.
    pub opened: bool,
    /// What `VIDIOC_QUERYCAP` answered, if the query worked.
    pub caps: Option<V4l2Capability>,
}

/// The camera record for a node.
pub open spec fn node_camera(n: DeviceNode) -> CameraView {
    CameraView {
        path: device_path_spec(n.index),
        index: n.index,
        name: trim(n.name@),
        is_ir: ir_name(lowercase(trim(n.name@))),
        can_capture: probe_flags(n.opened, n.caps).0,
        accessible: probe_flags(n.opened, n.caps).1,
    }
}

/// The camera record for one node.
pub fn camera_of(n: &DeviceNode) -> (c: Camera)
    ensures
        c@ == node_camera(*n),
{
    let v = chars_of(n.name.as_str());
    let (a, b) = trim_bounds(&v, 0, v.len());
    assert(v@.subrange(0, v.len() as int) =~= v@);
    let name = string_of_range(&v, a, b);
    let is_ir = name_is_ir(name.as_str());
    let (can_capture, accessible) = if !n.opened {
        (false, false)
    } else {
        match &n.caps {
            Some(cap) => (cap.can_capture(), true),
            None => (false, true),
        }
    };
    Camera { path: device_path(n.index), index: n.index, name, is_ir, can_capture, accessible }
}

/// The cameras for the detected nodes, sorted by index.
pub fn from_nodes(nodes: &Vec<DeviceNode>) -> (r: Vec<Camera>)
    ensures
        exists|m: Seq<Camera>|
            m.len() == nodes@.len() && (forall|i: int|
                0 <= i < m.len() ==> #[trigger] m[i]@ == node_camera(nodes@[i])) && stable_sort_of(
                r@,
                m,
                Order::ByIndex,
            ),
{
    let mut m: Vec<Camera> = Vec::new();
    let mut i: usize = 0;
    while i < nodes.len()
        invariant
            i <= nodes.len(),
            m.len() == i,
            forall|k: int| 0 <= k < i ==> #[trigger] m@[k]@ == node_camera(nodes@[k]),
        decreases nodes.len() - i,
    {
        let c = camera_of(&nodes[i]);
        m.push(c);
        i = i + 1;
    }
    let ghost mm = m@;
    let r = sort_cameras(m, Order::ByIndex);
    assert(mm.len() == nodes@.len() && (forall|i: int|
        0 <= i < mm.len() ==> #[trigger] mm[i]@ == node_camera(nodes@[i])) && stable_sort_of(
        r@,
        mm,
        Order::ByIndex,
    ));
    r
}

} // verus!

verus! {

/// The first element of a filter is the first element that passes.
proof fn lemma_filter_first<A>(s: Seq<A>, p: spec_fn(A) -> bool, m: int)
    requires
        0 <= m < s.len(),
        p(s[m]),
        forall|i: int| 0 <= i < m ==> !p(#[trigger] s[i]),
    ensures
        s.filter(p).len() > 0,
        s.filter(p)[0] == s[m],
    decreases s.len(),
{
    reveal(Seq::filter);
    let d = s.drop_last();
    if m == s.len() - 1 {
        assert forall|i: int| 0 <= i < d.len() implies !p(#[trigger] d[i]) by {
            assert(d[i] == s[i]);
        }
        lemma_filter_none(d, p);
    } else {
        assert forall|i: int| 0 <= i < m implies !p(#[trigger] d[i]) by {
            assert(d[i] == s[i]);
        }
        lemma_filter_first(d, p, m);
    }
}

/// Filtering twice is filtering once by both tests.
proof fn lemma_filter_filter<A>(s: Seq<A>, p: spec_fn(A) -> bool, q: spec_fn(A) -> bool)
    ensures
        s.filter(p).filter(q) == s.filter(|x: A| p(x) && q(x)),
    decreases s.len(),
{
    reveal(Seq::filter);
    if s.len() > 0 {
        lemma_filter_filter(s.drop_last(), p, q);
        let pq = |x: A| p(x) && q(x);
        if p(s.last()) {
            lemma_filter_push(s.drop_last().filter(p), s.last(), q);
        }
    }
}

/// A filter is non-empty when some element passes.
proof fn lemma_filter_nonempty<A>(s: Seq<A>, p: spec_fn(A) -> bool, i: int)
    requires
        0 <= i < s.len(),
        p(s[i]),
    ensures
        s.filter(p).len() > 0,
{
    s.lemma_filter_contains(p, i);
}

/// An element of a filter comes from the filtered sequence and passes.
proof fn lemma_filter_member<A>(s: Seq<A>, p: spec_fn(A) -> bool, i: int)
    requires
        0 <= i < s.filter(p).len(),
    ensures
        p(s.filter(p)[i]),
        s.contains(s.filter(p)[i]),
{
    s.lemma_filter_pred(p, i);
    assert(s.filter(p).contains(s.filter(p)[i]));
    s.lemma_filter_contains_rev(p, s.filter(p)[i]);
}

/// The first of `capture_devices` is the camera `best_capture` picks, and there is
/// none exactly when no camera can capture.
pub proof fn law_capture_devices_first_is_best(cams: Seq<Camera>, r: Seq<Camera>)
    requires
        stable_sort_of(r, cams.filter(captures()), Order::ByPreference),
    ensures
        (r.len() == 0) == (best_capture(cams) is None),
        best_capture(cams) matches Some(j) ==> r[0] == cams[j],
{
    let o = Order::ByPreference;
    let f = cams.filter(captures());
    lemma_best_capture_in(cams, cams.len() as int);
    match best_capture(cams) {
        None => {
            assert forall|i: int| 0 <= i < cams.len() implies !captures()(#[trigger] cams[i]) by {}
            lemma_filter_none(cams, captures());
            if r.len() > 0 {
                let k0 = sort_key(o, r[0]);
                lemma_filter_nonempty(r, key_is(o, k0), 0);
                assert(with_key(r, o, k0) == with_key(f, o, k0));
                lemma_filter_none(f, key_is(o, k0));
            }
        },
        Some(j) => {
            let k = rank(cams[j]);
            lemma_filter_nonempty(cams, captures(), j);
            // `cams[j]` is in `f`, so some camera of `r` has key `k`
            assert(cams.filter(captures()).contains(cams[j])) by {
                cams.lemma_filter_contains(captures(), j);
            }
            let jf = choose|x: int| 0 <= x < f.len() && f[x] == cams[j];
            lemma_filter_nonempty(f, key_is(o, k), jf);
            assert(with_key(r, o, k) == with_key(f, o, k));
            assert(r.len() > 0) by {
                if r.len() == 0 {
                    lemma_filter_none(r, key_is(o, k));
                }
            }
            let k0 = sort_key(o, r[0]);
            // keys of `r` are keys of capture cameras, which are at least `k`
            lemma_filter_nonempty(r, key_is(o, k0), 0);
            assert(with_key(r, o, k0) == with_key(f, o, k0));
            lemma_filter_member(f, key_is(o, k0), 0);
            let g = with_key(f, o, k0)[0];
            lemma_filter_member(cams, captures(), choose|x: int| 0 <= x < f.len() && f[x] == g);
            let gi = choose|x: int| 0 <= x < cams.len() && cams[x] == g;
            assert(captures()(g));
            assert(cams[gi].can_capture);
            assert(k <= k0);
            // and some camera of `r` has key `k`, so the first has key at most `k`
            lemma_filter_member(r, key_is(o, k), 0);
            let h = with_key(r, o, k)[0];
            let hi = choose|x: int| 0 <= x < r.len() && r[x] == h;
            assert(k0 <= k) by {
                if hi > 0 {
                    assert(sort_key(o, r[0]) <= sort_key(o, r[hi]));
                }
            }
            // the first of each side with key `k`
            lemma_filter_first(r, key_is(o, k), 0);
            lemma_filter_filter(cams, captures(), key_is(o, k));
            let both = |x: Camera| captures()(x) && key_is(o, k)(x);
            assert forall|i: int| 0 <= i < j implies !both(#[trigger] cams[i]) by {
                if both(cams[i]) {
                    assert(cams[i].can_capture);
                }
            }
            lemma_filter_first(cams, both, j);
        },
    }
}

} // verus!
