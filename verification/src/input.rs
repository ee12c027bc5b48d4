//! Input state tracking with both edge-triggered and level-triggered queries.
//!
//! Level-triggered (`is_held`) queries are true every frame the key is
//! physically down; edge-triggered (`is_just_pressed` / `is_just_released`)
//! queries are true only during the frame the transition happened and are
//! cleared by `end_frame`, which the main loop calls only after at least one
//! fixed simulation step has consumed them.

use vstd::prelude::*;

verus! {

/// Keys the engine distinguishes.
#[derive(Debug, Clone, Copy, PartialEq, Eq, Hash, Structural)]
pub enum Key {
    Left,
    Right,
    Up,
    Down,
    Escape,
    Space,
    F3,
    F4,
    F5,
    W,
    A,
    S,
    D,
    R,
}

/// Mouse buttons the engine distinguishes.
#[derive(Debug, Clone, Copy, PartialEq, Eq, Hash, Structural)]
pub enum MouseBtn {
    Left,
    Right,
    Middle,
}

/// Whether a key occurs in a sequence.
pub open spec fn key_in(s: Seq<Key>, k: Key) -> bool {
    exists|i: int| 0 <= i < s.len() && s[i] == k
}

/// Whether a mouse button occurs in a sequence.
pub open spec fn btn_in(s: Seq<MouseBtn>, b: MouseBtn) -> bool {
    exists|i: int| 0 <= i < s.len() && s[i] == b
}

/// Membership scan for a key.
fn key_contains(v: &Vec<Key>, k: Key) -> (r: bool)
    ensures
        r == key_in(v@, k),
{
    let n = v.len();
    let mut i: usize = 0;
    while i < n
        invariant
            i <= n,
            n == v@.len(),
            forall|j: int| 0 <= j < i ==> v@[j] != k,
        decreases n - i,
    {
        if v[i] == k {
            return true;
        }
        i = i + 1;
    }
    false
}

/// Set-style insert: push the key only if it is absent; reports whether it
/// was inserted.
fn key_insert(v: &mut Vec<Key>, k: Key) -> (inserted: bool)
    ensures
        inserted == !key_in(old(v)@, k),
        forall|x: Key| key_in(final(v)@, x) == (key_in(old(v)@, x) || x == k),
        (forall|p: int, q: int| 0 <= p < q < old(v)@.len() ==> old(v)@[p] != old(v)@[q])
            ==> (forall|p: int, q: int|
            0 <= p < q < final(v)@.len() ==> final(v)@[p] != final(v)@[q]),
{
    if key_contains(v, k) {
        false
    } else {
        v.push(k);
        proof {
            assert forall|x: Key| key_in(v@, x) == (key_in(old(v)@, x) || x == k) by {
                if key_in(old(v)@, x) {
                    let i = choose|i: int| 0 <= i < old(v)@.len() && old(v)@[i] == x;
                    assert(v@[i] == x);
                }
                if x == k {
                    assert(v@[v@.len() - 1] == x);
                }
                if key_in(v@, x) {
                    let i = choose|i: int| 0 <= i < v@.len() && v@[i] == x;
                    if i < old(v)@.len() {
                        assert(old(v)@[i] == x);
                    }
                }
            }
            if (forall|p: int, q: int| 0 <= p < q < old(v)@.len() ==> old(v)@[p] != old(v)@[q]) {
                assert forall|p: int, q: int|
                    0 <= p < q < v@.len() implies v@[p] != v@[q] by {
                    if q == old(v)@.len() {
                        assert(v@[p] == old(v)@[p]);
                        if old(v)@[p] == k {
                            assert(key_in(old(v)@, k));
                        }
                    } else {
                        assert(v@[p] == old(v)@[p] && v@[q] == old(v)@[q]);
                    }
                }
            }
        }
        true
    }
}

/// Set-style remove: take the key out if present; reports whether it was
/// present. Keys are unique in these vectors, so one removal suffices.
fn key_remove(v: &mut Vec<Key>, k: Key) -> (removed: bool)
    requires
        forall|i: int, j: int| 0 <= i < j < old(v)@.len() ==> old(v)@[i] != old(v)@[j],
    ensures
        removed == key_in(old(v)@, k),
        forall|x: Key| key_in(final(v)@, x) == (key_in(old(v)@, x) && x != k),
        forall|i: int, j: int| 0 <= i < j < final(v)@.len() ==> final(v)@[i] != final(v)@[j],
{
    let n = v.len();
    let mut i: usize = 0;
    while i < n
        invariant
            i <= n,
            n == v@.len(),
            v@ == old(v)@,
            forall|p: int, q: int| 0 <= p < q < old(v)@.len() ==> old(v)@[p] != old(v)@[q],
            forall|j: int| 0 <= j < i ==> v@[j] != k,
        decreases n - i,
    {
        if v[i] == k {
            v.remove(i);
            proof {
                let pre = old(v)@;
                assert forall|x: Key| key_in(v@, x) == (key_in(pre, x) && x != k) by {
                    if key_in(v@, x) {
                        let j = choose|j: int| 0 <= j < v@.len() && v@[j] == x;
                        if j < i {
                            assert(pre[j] == x);
                        } else {
                            assert(pre[j + 1] == x);
                        }
                        assert(x != k) by {
                            if j < i {
                                assert(pre[j] != k);
                            } else {
                                assert(pre[i as int] != pre[j + 1]);
                            }
                        }
                    }
                    if key_in(pre, x) && x != k {
                        let j = choose|j: int| 0 <= j < pre.len() && pre[j] == x;
                        if j < i {
                            assert(v@[j] == x);
                        } else {
                            assert(j != i);
                            assert(v@[j - 1] == x);
                        }
                    }
                }
                assert forall|p: int, q: int|
                    0 <= p < q < v@.len() implies v@[p] != v@[q] by {
                    let pp: int = if p < i { p } else { p + 1 };
                    let qq: int = if q < i { q } else { q + 1 };
                    assert(v@[p] == pre[pp]);
                    assert(v@[q] == pre[qq]);
                    assert(pre[pp] != pre[qq]);
                }
            }
            return true;
        }
        i = i + 1;
    }
    false
}

/// Membership scan for a mouse button.
fn btn_contains(v: &Vec<MouseBtn>, b: MouseBtn) -> (r: bool)
    ensures
        r == btn_in(v@, b),
{
    let n = v.len();
    let mut i: usize = 0;
    while i < n
        invariant
            i <= n,
            n == v@.len(),
            forall|j: int| 0 <= j < i ==> v@[j] != b,
        decreases n - i,
    {
        if v[i] == b {
            return true;
        }
        i = i + 1;
    }
    false
}

/// Set-style insert for mouse buttons; see [`key_insert`].
fn btn_insert(v: &mut Vec<MouseBtn>, b: MouseBtn) -> (inserted: bool)
    ensures
        inserted == !btn_in(old(v)@, b),
        forall|x: MouseBtn| btn_in(final(v)@, x) == (btn_in(old(v)@, x) || x == b),
        (forall|p: int, q: int| 0 <= p < q < old(v)@.len() ==> old(v)@[p] != old(v)@[q])
            ==> (forall|p: int, q: int|
            0 <= p < q < final(v)@.len() ==> final(v)@[p] != final(v)@[q]),
{
    if btn_contains(v, b) {
        false
    } else {
        v.push(b);
        proof {
            assert forall|x: MouseBtn| btn_in(v@, x) == (btn_in(old(v)@, x) || x == b) by {
                if btn_in(old(v)@, x) {
                    let i = choose|i: int| 0 <= i < old(v)@.len() && old(v)@[i] == x;
                    assert(v@[i] == x);
                }
                if x == b {
                    assert(v@[v@.len() - 1] == x);
                }
                if btn_in(v@, x) {
                    let i = choose|i: int| 0 <= i < v@.len() && v@[i] == x;
                    if i < old(v)@.len() {
                        assert(old(v)@[i] == x);
                    }
                }
            }
            if (forall|p: int, q: int| 0 <= p < q < old(v)@.len() ==> old(v)@[p] != old(v)@[q]) {
                assert forall|p: int, q: int|
                    0 <= p < q < v@.len() implies v@[p] != v@[q] by {
                    if q == old(v)@.len() {
                        assert(v@[p] == old(v)@[p]);
                        if old(v)@[p] == b {
                            assert(btn_in(old(v)@, b));
                        }
                    } else {
                        assert(v@[p] == old(v)@[p] && v@[q] == old(v)@[q]);
                    }
                }
            }
        }
        true
    }
}

/// Set-style remove for mouse buttons; see [`key_remove`].
fn btn_remove(v: &mut Vec<MouseBtn>, b: MouseBtn) -> (removed: bool)
    requires
        forall|i: int, j: int| 0 <= i < j < old(v)@.len() ==> old(v)@[i] != old(v)@[j],
    ensures
        removed == btn_in(old(v)@, b),
        forall|x: MouseBtn| btn_in(final(v)@, x) == (btn_in(old(v)@, x) && x != b),
        forall|i: int, j: int| 0 <= i < j < final(v)@.len() ==> final(v)@[i] != final(v)@[j],
{
    let n = v.len();
    let mut i: usize = 0;
    while i < n
        invariant
            i <= n,
            n == v@.len(),
            v@ == old(v)@,
            forall|p: int, q: int| 0 <= p < q < old(v)@.len() ==> old(v)@[p] != old(v)@[q],
            forall|j: int| 0 <= j < i ==> v@[j] != b,
        decreases n - i,
    {
        if v[i] == b {
            v.remove(i);
            proof {
                let pre = old(v)@;
                assert forall|x: MouseBtn| btn_in(v@, x) == (btn_in(pre, x) && x != b) by {
                    if btn_in(v@, x) {
                        let j = choose|j: int| 0 <= j < v@.len() && v@[j] == x;
                        if j < i {
                            assert(pre[j] == x);
                        } else {
                            assert(pre[j + 1] == x);
                        }
                        assert(x != b) by {
                            if j < i {
                                assert(pre[j] != b);
                            } else {
                                assert(pre[i as int] != pre[j + 1]);
                            }
                        }
                    }
                    if btn_in(pre, x) && x != b {
                        let j = choose|j: int| 0 <= j < pre.len() && pre[j] == x;
                        if j < i {
                            assert(v@[j] == x);
                        } else {
                            assert(j != i);
                            assert(v@[j - 1] == x);
                        }
                    }
                }
                assert forall|p: int, q: int|
                    0 <= p < q < v@.len() implies v@[p] != v@[q] by {
                    let pp: int = if p < i { p } else { p + 1 };
                    let qq: int = if q < i { q } else { q + 1 };
                    assert(v@[p] == pre[pp]);
                    assert(v@[q] == pre[qq]);
                    assert(pre[pp] != pre[qq]);
                }
            }
            return true;
        }
        i = i + 1;
    }
    false
}

/// Keyboard and mouse state for one frame. The vectors are sets (no
/// duplicates); they are public for specification purposes and are managed
/// solely by the methods below.
pub struct InputState {
    pub held: Vec<Key>,
    pub just_pressed: Vec<Key>,
    pub just_released: Vec<Key>,
    pub mouse_held: Vec<MouseBtn>,
    pub mouse_just_pressed: Vec<MouseBtn>,
    pub mouse_just_released: Vec<MouseBtn>,
    /// Last reported cursor position, in window pixels.
    pub mouse_position: (i64, i64),
}

impl InputState {
    /// The `held` sets stay duplicate-free, so a release removes the key
    /// entirely.
    pub open spec fn ok(self) -> bool {
        &&& forall|i: int, j: int| 0 <= i < j < self.held@.len()
            ==> self.held@[i] != self.held@[j]
        &&& forall|i: int, j: int| 0 <= i < j < self.mouse_held@.len()
            ==> self.mouse_held@[i] != self.mouse_held@[j]
    }

    /// Empty input state: nothing held, no transitions, cursor at the origin.
    pub fn new() -> (r: InputState)
        ensures
            r.ok(),
            r.held@.len() == 0,
            r.just_pressed@.len() == 0,
            r.just_released@.len() == 0,
            r.mouse_held@.len() == 0,
            r.mouse_just_pressed@.len() == 0,
            r.mouse_just_released@.len() == 0,
            r.mouse_position == (0i64, 0i64),
    {
        InputState {
            held: Vec::new(),
            just_pressed: Vec::new(),
            just_released: Vec::new(),
            mouse_held: Vec::new(),
            mouse_just_pressed: Vec::new(),
            mouse_just_released: Vec::new(),
            mouse_position: (0, 0),
        }
    }

    /// Record a key press: mark it held, and mark it just-pressed only on
    /// the down transition (an auto-repeat press changes nothing).
    pub fn key_down(&mut self, key: Key)
        requires
            old(self).ok(),
        ensures
            final(self).ok(),
            forall|x: Key| key_in(final(self).held@, x) == (key_in(old(self).held@, x) || x
                == key),
            forall|x: Key| key_in(final(self).just_pressed@, x) == (key_in(
                old(self).just_pressed@,
                x,
            ) || (x == key && !key_in(old(self).held@, key))),
            final(self).just_released@ == old(self).just_released@,
            final(self).mouse_held@ == old(self).mouse_held@,
            final(self).mouse_just_pressed@ == old(self).mouse_just_pressed@,
            final(self).mouse_just_released@ == old(self).mouse_just_released@,
            final(self).mouse_position == old(self).mouse_position,
    {
        if key_insert(&mut self.held, key) {
            key_insert(&mut self.just_pressed, key);
        }
    }

    /// Record a key release: unmark it held, and mark it just-released only
    /// if it was actually held (a stray release changes nothing).
    pub fn key_up(&mut self, key: Key)
        requires
            old(self).ok(),
        ensures
            final(self).ok(),
            forall|x: Key| key_in(final(self).held@, x) == (key_in(old(self).held@, x) && x
                != key),
            forall|x: Key| key_in(final(self).just_released@, x) == (key_in(
                old(self).just_released@,
                x,
            ) || (x == key && key_in(old(self).held@, key))),
            final(self).just_pressed@ == old(self).just_pressed@,
            final(self).mouse_held@ == old(self).mouse_held@,
            final(self).mouse_just_pressed@ == old(self).mouse_just_pressed@,
            final(self).mouse_just_released@ == old(self).mouse_just_released@,
            final(self).mouse_position == old(self).mouse_position,
    {
        if key_remove(&mut self.held, key) {
            key_insert(&mut self.just_released, key);
        }
    }

    /// Record a mouse button press; see [`InputState::key_down`].
    pub fn mouse_down(&mut self, btn: MouseBtn)
        requires
            old(self).ok(),
        ensures
            final(self).ok(),
            forall|x: MouseBtn| btn_in(final(self).mouse_held@, x) == (btn_in(
                old(self).mouse_held@,
                x,
            ) || x == btn),
            forall|x: MouseBtn| btn_in(final(self).mouse_just_pressed@, x) == (btn_in(
                old(self).mouse_just_pressed@,
                x,
            ) || (x == btn && !btn_in(old(self).mouse_held@, btn))),
            final(self).held@ == old(self).held@,
            final(self).just_pressed@ == old(self).just_pressed@,
            final(self).just_released@ == old(self).just_released@,
            final(self).mouse_just_released@ == old(self).mouse_just_released@,
            final(self).mouse_position == old(self).mouse_position,
    {
        if btn_insert(&mut self.mouse_held, btn) {
            btn_insert(&mut self.mouse_just_pressed, btn);
        }
    }

    /// Record a mouse button release; see [`InputState::key_up`].
    pub fn mouse_up(&mut self, btn: MouseBtn)
        requires
            old(self).ok(),
        ensures
            final(self).ok(),
            forall|x: MouseBtn| btn_in(final(self).mouse_held@, x) == (btn_in(
                old(self).mouse_held@,
                x,
            ) && x != btn),
            forall|x: MouseBtn| btn_in(final(self).mouse_just_released@, x) == (btn_in(
                old(self).mouse_just_released@,
                x,
            ) || (x == btn && btn_in(old(self).mouse_held@, btn))),
            final(self).held@ == old(self).held@,
            final(self).just_pressed@ == old(self).just_pressed@,
            final(self).just_released@ == old(self).just_released@,
            final(self).mouse_just_pressed@ == old(self).mouse_just_pressed@,
            final(self).mouse_position == old(self).mouse_position,
    {
        if btn_remove(&mut self.mouse_held, btn) {
            btn_insert(&mut self.mouse_just_released, btn);
        }
    }

    /// Whether the key is down this frame.
    pub fn is_held(&self, key: Key) -> (r: bool)
        ensures
            r == key_in(self.held@, key),
    {
        key_contains(&self.held, key)
    }

    /// Whether the key went down this frame.
    pub fn is_just_pressed(&self, key: Key) -> (r: bool)
        ensures
            r == key_in(self.just_pressed@, key),
    {
        key_contains(&self.just_pressed, key)
    }

    /// Whether the key went up this frame.
    pub fn is_just_released(&self, key: Key) -> (r: bool)
        ensures
            r == key_in(self.just_released@, key),
    {
        key_contains(&self.just_released, key)
    }

    /// Whether the button is down this frame.
    pub fn is_mouse_held(&self, btn: MouseBtn) -> (r: bool)
        ensures
            r == btn_in(self.mouse_held@, btn),
    {
        btn_contains(&self.mouse_held, btn)
    }

    /// Whether the button went down this frame.
    pub fn is_mouse_just_pressed(&self, btn: MouseBtn) -> (r: bool)
        ensures
            r == btn_in(self.mouse_just_pressed@, btn),
    {
        btn_contains(&self.mouse_just_pressed, btn)
    }

    /// Whether the button went up this frame.
    pub fn is_mouse_just_released(&self, btn: MouseBtn) -> (r: bool)
        ensures
            r == btn_in(self.mouse_just_released@, btn),
    {
        btn_contains(&self.mouse_just_released, btn)
    }

    /// Clear the edge-triggered sets at the end of a frame; held state
    /// persists across frames.
    pub fn end_frame(&mut self)
        requires
            old(self).ok(),
        ensures
            final(self).ok(),
            final(self).just_pressed@.len() == 0,
            final(self).just_released@.len() == 0,
            final(self).mouse_just_pressed@.len() == 0,
            final(self).mouse_just_released@.len() == 0,
            final(self).held@ == old(self).held@,
            final(self).mouse_held@ == old(self).mouse_held@,
            final(self).mouse_position == old(self).mouse_position,
    {
        self.just_pressed = Vec::new();
        self.just_released = Vec::new();
        self.mouse_just_pressed = Vec::new();
        self.mouse_just_released = Vec::new();
    }
}

impl Default for InputState {
    /// Same as [`InputState::new`].
    fn default() -> (r: Self)
        ensures
            r.ok(),
            r.held@.len() == 0,
            r.just_pressed@.len() == 0,
            r.just_released@.len() == 0,
            r.mouse_held@.len() == 0,
            r.mouse_just_pressed@.len() == 0,
            r.mouse_just_released@.len() == 0,
            r.mouse_position == (0i64, 0i64),
    {
        InputState::new()
    }
}

/// What the scripting boundary sees of the keyboard each tick: the names of
/// the movement-relevant keys currently held and of those that went down
/// this frame.
#[derive(Debug, Clone)]
pub struct InputSnapshot {
    pub held_keys: Vec<String>,
    pub just_pressed_keys: Vec<String>,
}

/// The keys a snapshot reports, with their names, in reporting order.
pub open spec fn snapshot_names(s: Seq<Key>) -> Seq<Seq<char>> {
    (if key_in(s, Key::Left) {
        seq!["left"@]
    } else {
        Seq::empty()
    }) + (if key_in(s, Key::Right) {
        seq!["right"@]
    } else {
        Seq::empty()
    }) + (if key_in(s, Key::Up) {
        seq!["up"@]
    } else {
        Seq::empty()
    }) + (if key_in(s, Key::Down) {
        seq!["down"@]
    } else {
        Seq::empty()
    }) + (if key_in(s, Key::Space) {
        seq!["space"@]
    } else {
        Seq::empty()
    }) + (if key_in(s, Key::W) {
        seq!["w"@]
    } else {
        Seq::empty()
    }) + (if key_in(s, Key::A) {
        seq!["a"@]
    } else {
        Seq::empty()
    }) + (if key_in(s, Key::S) {
        seq!["s"@]
    } else {
        Seq::empty()
    }) + (if key_in(s, Key::D) {
        seq!["d"@]
    } else {
        Seq::empty()
    })
}

/// The views of a list of strings.
pub open spec fn string_views(s: Seq<String>) -> Seq<Seq<char>> {
    s.map(|i: int, x: String| x@)
}

/// Collect the names of the held and just-pressed movement keys for the
/// scripting boundary.
pub fn build_input_snapshot(input: &InputState) -> (r: InputSnapshot)
    ensures
        string_views(r.held_keys@) == snapshot_names(input.held@),
        string_views(r.just_pressed_keys@) == snapshot_names(input.just_pressed@),
{
    let held_keys = collect_key_names(&input.held);
    let just_pressed_keys = collect_key_names(&input.just_pressed);
    InputSnapshot { held_keys, just_pressed_keys }
}

/// Append the key's reported name if it is present.
fn push_key_name(keys: &Vec<Key>, out: &mut Vec<String>, k: Key, name: &str)
    ensures
        string_views(final(out)@) == string_views(old(out)@) + (if key_in(keys@, k) {
            seq![name@]
        } else {
            Seq::<Seq<char>>::empty()
        }),
{
    let ghost pre = out@;
    if key_contains(keys, k) {
        out.push(name.to_owned());
        proof {
            assert(string_views(out@) =~= string_views(pre) + seq![name@]);
        }
    } else {
        proof {
            assert(string_views(out@) =~= string_views(pre) + Seq::<Seq<char>>::empty());
        }
    }
}

/// Push the names of the reported keys present in `keys`, in reporting order.
fn collect_key_names(keys: &Vec<Key>) -> (r: Vec<String>)
    ensures
        string_views(r@) == snapshot_names(keys@),
{
    let mut out: Vec<String> = Vec::new();
    proof {
        assert(string_views(out@) =~= Seq::<Seq<char>>::empty());
    }
    push_key_name(keys, &mut out, Key::Left, "left");
    push_key_name(keys, &mut out, Key::Right, "right");
    push_key_name(keys, &mut out, Key::Up, "up");
    push_key_name(keys, &mut out, Key::Down, "down");
    push_key_name(keys, &mut out, Key::Space, "space");
    push_key_name(keys, &mut out, Key::W, "w");
    push_key_name(keys, &mut out, Key::A, "a");
    push_key_name(keys, &mut out, Key::S, "s");
    push_key_name(keys, &mut out, Key::D, "d");
    proof {
        assert(string_views(out@) =~= snapshot_names(keys@));
    }
    out
}

} // verus!
