//! Input state and screen rectangles.

use vstd::prelude::*;
use std::collections::{HashMap, HashSet};
use core::marker::PhantomData;
use vstd::std_specs::iter::IteratorSpec;

verus! {

/// The keys that the game reacts to.
#[derive(Copy, Clone, Debug, Hash, PartialEq, Eq)]
pub enum Key {
    Up,
    Down,
    Left,
    Right,
    Space,
    ShiftLeft,
    CtrlLeft,
}

/// The mouse buttons.
#[derive(Copy, Clone, Debug, Hash, PartialEq, Eq)]
pub enum MouseButton {
    Left,
    Middle,
    Right,
}

/// The state of a key or button in the current frame: the transition states
/// hold for the frame in which it was pressed or released.
#[derive(Copy, Clone, Debug, PartialEq, Eq, Structural)]
pub enum KeyState {
    TransitionDown,
    Down,
    TransitionUp,
    Up,
}

/// Whether a state counts as pressed.
pub open spec fn state_is_down(s: KeyState) -> bool {
    s is TransitionDown || s is Down
}

/// Whether a state counts as released.
pub open spec fn state_is_up(s: KeyState) -> bool {
    s is TransitionUp || s is Up
}

impl KeyState {
    /// Pressed, or pressed in this frame.
    pub fn is_down(&self) -> (r: bool)
        ensures
            r == state_is_down(*self),
    {
        match *self {
            KeyState::TransitionDown | KeyState::Down => true,
            _ => false,
        }
    }

    /// Released, or released in this frame.
    pub fn is_up(&self) -> (r: bool)
        ensures
            r == state_is_up(*self),
    {
        match *self {
            KeyState::TransitionUp | KeyState::Up => true,
            _ => false,
        }
    }
}

/// A key type whose keys are told apart by a number; tables of key states
/// are keyed by these numbers.
pub trait KeyCode: Copy + Sized {
    /// The number of a key.
    spec fn code_of(self) -> u32;

    /// Different keys have different numbers.
    proof fn lemma_code_injective(a: Self, b: Self)
        requires
            a.code_of() == b.code_of(),
        ensures
            a == b,
    ;

    /// The number of this key.
    fn code(&self) -> (c: u32)
        ensures
            c == self.code_of(),
    ;
}

impl KeyCode for Key {
    open spec fn code_of(self) -> u32 {
        match self {
            Key::Up => 0,
            Key::Down => 1,
            Key::Left => 2,
            Key::Right => 3,
            Key::Space => 4,
            Key::ShiftLeft => 5,
            Key::CtrlLeft => 6,
        }
    }

    proof fn lemma_code_injective(a: Self, b: Self) {
    }

    fn code(&self) -> (c: u32) {
        match *self {
            Key::Up => 0,
            Key::Down => 1,
            Key::Left => 2,
            Key::Right => 3,
            Key::Space => 4,
            Key::ShiftLeft => 5,
            Key::CtrlLeft => 6,
        }
    }
}

impl KeyCode for MouseButton {
    open spec fn code_of(self) -> u32 {
        match self {
            MouseButton::Left => 0,
            MouseButton::Middle => 1,
            MouseButton::Right => 2,
        }
    }

    proof fn lemma_code_injective(a: Self, b: Self) {
    }

    fn code(&self) -> (c: u32) {
        match *self {
            MouseButton::Left => 0,
            MouseButton::Middle => 1,
            MouseButton::Right => 2,
        }
    }
}

/// Plain numbers are their own codes.
impl KeyCode for u32 {
    open spec fn code_of(self) -> u32 {
        self
    }

    proof fn lemma_code_injective(a: Self, b: Self) {
    }

    fn code(&self) -> (c: u32) {
        *self
    }
}

/// The state of a key in a table of states: a key that the table does not
/// hold is up.
pub open spec fn state_of(m: Map<u32, KeyState>, code: u32) -> KeyState {
    if m.contains_key(code) { m[code] } else { KeyState::Up }
}

/// The states of a set of keys or buttons, keyed by the keys' codes.
#[derive(Debug)]
pub struct KeyStates<K>(pub HashMap<u32, KeyState>, pub PhantomData<K>);

impl<K> Clone for KeyStates<K> {
    fn clone(&self) -> (r: KeyStates<K>) {
        KeyStates(self.0.clone(), PhantomData)
    }
}

impl<K: KeyCode> KeyStates<K> {
    /// The table with the given states, keyed by the keys' codes.
    pub fn new(states: HashMap<u32, KeyState>) -> (r: KeyStates<K>)
        ensures
            r.0@ == states@,
    {
        KeyStates(states, PhantomData)
    }

    /// The state of `key`; `Up` where the table does not hold it.
    pub fn key_state(&self, key: K) -> (r: KeyState)
        ensures
            r == state_of(self.0@, key.code_of()),
    {
        broadcast use vstd::std_specs::hash::group_hash_axioms;
        let c = key.code();
        match self.0.get(&c) {
            Some(key_state) => *key_state,
            None => KeyState::Up,
        }
    }

    /// Whether `key` is pressed; false where the table does not hold it.
    pub fn is_down(&self, key: K) -> (r: bool)
        ensures
            r == state_is_down(state_of(self.0@, key.code_of())),
    {
        broadcast use vstd::std_specs::hash::group_hash_axioms;
        let c = key.code();
        match self.0.get(&c) {
            Some(key_state) => key_state.is_down(),
            None => false,
        }
    }

    /// Whether `key` is released; true where the table does not hold it. A
    /// key is released exactly when it is not pressed.
    pub fn is_up(&self, key: K) -> (r: bool)
        ensures
            r == state_is_up(state_of(self.0@, key.code_of())),
            r == !state_is_down(state_of(self.0@, key.code_of())),
    {
        broadcast use vstd::std_specs::hash::group_hash_axioms;
        proof {
            lemma_down_xor_up(state_of(self.0@, key.code_of()));
        }
        let c = key.code();
        match self.0.get(&c) {
            Some(key_state) => key_state.is_up(),
            None => true,
        }
    }
}

/// The state of a key after a frame in which it is pressed (`pressed`) or
/// not, from its state `s` before (`None`: not in the table): a pressed key
/// goes to `Down`, by `TransitionDown` if it was up; a released key goes to
/// `Up`, by `TransitionUp` if it was down; a key that was never pressed stays
/// out of the table.
pub open spec fn next_key_state(s: Option<KeyState>, pressed: bool) -> Option<KeyState> {
    match s {
        Some(KeyState::TransitionDown) | Some(KeyState::Down) => Some(
            if pressed { KeyState::Down } else { KeyState::TransitionUp },
        ),
        Some(_) => Some(if pressed { KeyState::TransitionDown } else { KeyState::Up }),
        None => if pressed { Some(KeyState::TransitionDown) } else { None },
    }
}

/// The table of states after a frame in which the keys with codes `pressed`
/// are down.
pub open spec fn updated_states(old: Map<u32, KeyState>, pressed: Set<u32>) -> Map<u32, KeyState> {
    Map::new(
        |k: u32| old.contains_key(k) || pressed.contains(k),
        |k: u32| next_key_state(if old.contains_key(k) { Some(old[k]) } else { None }, pressed.contains(k))->0,
    )
}

/// The codes of the keys in `keys`.
pub open spec fn codes_of<K: KeyCode>(keys: Seq<K>) -> Set<u32> {
    Set::new(|c: u32| exists|i: int| 0 <= i < keys.len() && #[trigger] keys[i].code_of() == c)
}

/// The states of the keys after a frame in which the keys `pressed_keys` are
/// down, as `updated_states` describes.
pub fn update_key_states<K: KeyCode>(key_states: &KeyStates<K>, pressed_keys: &[K]) -> (r: KeyStates<K>)
    ensures
        r.0@ == updated_states(key_states.0@, codes_of(pressed_keys@)),
{
    broadcast use vstd::std_specs::hash::group_hash_axioms;
    let mut pressed: HashSet<u32> = HashSet::new();
    for i in 0..pressed_keys.len()
        invariant
            pressed@ == Set::new(|c: u32| exists|j: int| 0 <= j < i && #[trigger] pressed_keys@[j].code_of() == c),
    {
        let c = pressed_keys[i].code();
        pressed.insert(c);
        proof {
            assert(pressed_keys@[i as int].code_of() == c);
            assert(pressed@ =~= Set::new(
                |c: u32| exists|j: int| 0 <= j < i + 1 && #[trigger] pressed_keys@[j].code_of() == c,
            ));
        }
    }
    assert(pressed@ =~= codes_of(pressed_keys@));
    KeyStates::new(next_states(&key_states.0, &pressed))
}

/// The table after a frame, from the table before and the codes pressed.
fn next_states(old_states: &HashMap<u32, KeyState>, pressed_keys: &HashSet<u32>) -> (r: HashMap<u32, KeyState>)
    ensures
        r@ == updated_states(old_states@, pressed_keys@),
{
    broadcast use vstd::std_specs::hash::group_hash_axioms;
    let ghost old_map = old_states@;
    let ghost pressed = pressed_keys@;
    let mut new_states: HashMap<u32, KeyState> = HashMap::new();
    let ghost s0 = pressed_keys.iter().remaining();
    assert(s0.unref().to_set() == pressed);
    let ghost mut n: int = 0;
    for key in it: pressed_keys.iter()
        invariant
            pressed == pressed_keys@,
            it.seq() == s0,
            n == it.index(),
            0 <= n <= s0.len(),
            forall|k: u32| #[trigger] new_states@.contains_key(k) <==> exists|i: int| 0 <= i < n && *s0[i] == k,
            forall|k: u32| #[trigger] new_states@.contains_key(k) ==> new_states@[k] == KeyState::TransitionDown,
    {
        assert(*key == *s0[n]);
        new_states.insert(*key, KeyState::TransitionDown);
        proof {
            assert forall|k: u32| #[trigger] new_states@.contains_key(k)
                <==> exists|i: int| 0 <= i < n + 1 && *s0[i] == k by {
                if k == *key {
                    assert(*s0[n] == k);
                }
            }
            n = n + 1;
        }
    }
    assert(n == s0.len());
    assert forall|k: u32| #[trigger] new_states@.contains_key(k) <==> pressed.contains(k) by {
        assert(s0.unref().to_set().contains(k) <==> s0.unref().contains(k));
        if new_states@.contains_key(k) {
            let i = choose|i: int| 0 <= i < n && *s0[i] == k;
            assert(s0.unref()[i] == k);
        }
        if s0.unref().contains(k) {
            let i = choose|i: int| 0 <= i < s0.unref().len() && s0.unref()[i] == k;
            assert(*s0[i] == k);
        }
    }
    let ghost e0 = old_states.iter().remaining();
    assert(e0.len() == old_map.dom().len());
    let ghost mut m: int = 0;
    for entry in it: old_states.iter()
        invariant
            old_map == old_states@,
            pressed == pressed_keys@,
            it.seq() == e0,
            m == it.index(),
            0 <= m <= e0.len(),
            forall|i: int| 0 <= i < e0.len() ==> old_map.contains_key(*(#[trigger] e0[i]).0)
                && old_map[*e0[i].0] == *e0[i].1,
            forall|k: u32| #[trigger] old_map.contains_key(k) ==> e0.contains((&k, &old_map[k])),
            forall|k: u32| #[trigger] new_states@.contains_key(k)
                <==> pressed.contains(k) || exists|i: int| 0 <= i < m && *(#[trigger] e0[i]).0 == k,
            forall|k: u32| #[trigger] new_states@.contains_key(k) ==> new_states@[k]
                == if exists|i: int| 0 <= i < m && *(#[trigger] e0[i]).0 == k {
                    next_key_state(Some(old_map[k]), pressed.contains(k))->0
                } else {
                    KeyState::TransitionDown
                },
    {
        let (key, state) = entry;
        assert(entry == e0[m]);
        let down = pressed_keys.contains(key);
        let next = match *state {
            KeyState::TransitionDown | KeyState::Down => if down { KeyState::Down } else { KeyState::TransitionUp },
            KeyState::TransitionUp | KeyState::Up => if down { KeyState::TransitionDown } else { KeyState::Up },
        };
        new_states.insert(*key, next);
        proof {
            assert(*e0[m].0 == *key);
            assert forall|k: u32| #[trigger] new_states@.contains_key(k)
                <==> pressed.contains(k) || exists|i: int| 0 <= i < m + 1 && *(#[trigger] e0[i]).0 == k by {
                if k == *key {
                    assert(*e0[m].0 == k);
                }
            }
            assert forall|k: u32| #[trigger] new_states@.contains_key(k) implies new_states@[k]
                == if exists|i: int| 0 <= i < m + 1 && *(#[trigger] e0[i]).0 == k {
                    next_key_state(Some(old_map[k]), pressed.contains(k))->0
                } else {
                    KeyState::TransitionDown
                } by {
                if k == *key {
                    assert(*e0[m].0 == k);
                } else if exists|i: int| 0 <= i < m + 1 && *(#[trigger] e0[i]).0 == k {
                    let i = choose|i: int| 0 <= i < m + 1 && *(#[trigger] e0[i]).0 == k;
                    assert(i != m);
                }
            }
            m = m + 1;
        }
    }
    assert(m == e0.len());
    assert(new_states@ =~= updated_states(old_map, pressed)) by {
        assert forall|k: u32| #[trigger] old_map.contains_key(k) implies
            exists|i: int| 0 <= i < e0.len() && *(#[trigger] e0[i]).0 == k by {
            assert(e0.contains((&k, &old_map[k])));
            let i = choose|i: int| 0 <= i < e0.len() && e0[i] == (&k, &old_map[k]);
            assert(*e0[i].0 == k);
        }
    }
    new_states
}

/// After a frame, a key counts as pressed exactly when its code was pressed
/// in that frame.
pub proof fn lemma_updated_down_iff_pressed(old: Map<u32, KeyState>, pressed: Set<u32>, code: u32)
    ensures
        state_is_down(state_of(updated_states(old, pressed), code)) == pressed.contains(code),
{
}

/// After a frame in which the keys `pressed` are down, a key counts as
/// pressed exactly when it is one of them, and released exactly when it is
/// not.
pub proof fn lemma_key_down_iff_pressed<K: KeyCode>(old: Map<u32, KeyState>, pressed: Seq<K>, key: K)
    ensures
        state_is_down(state_of(updated_states(old, codes_of(pressed)), key.code_of())) == pressed.contains(key),
        state_is_up(state_of(updated_states(old, codes_of(pressed)), key.code_of())) == !pressed.contains(key),
{
    let c = key.code_of();
    lemma_updated_down_iff_pressed(old, codes_of(pressed), c);
    lemma_down_xor_up(state_of(updated_states(old, codes_of(pressed)), c));
    if codes_of(pressed).contains(c) {
        let i = choose|i: int| 0 <= i < pressed.len() && #[trigger] pressed[i].code_of() == c;
        K::lemma_code_injective(pressed[i], key);
        assert(pressed[i] == key);
    }
    if pressed.contains(key) {
        let i = choose|i: int| 0 <= i < pressed.len() && pressed[i] == key;
        assert(pressed[i].code_of() == c);
    }
}

/// The transition states last one frame: a key pressed in two frames in a
/// row is `Down`, and a key released in two frames in a row is `Up` or was
/// never pressed.
pub proof fn lemma_transitions_last_one_frame(s: Option<KeyState>)
    ensures
        next_key_state(next_key_state(s, true), true) == Some(KeyState::Down),
        next_key_state(next_key_state(s, false), false) is None
            || next_key_state(next_key_state(s, false), false) == Some(KeyState::Up),
{
}

/// Every key state is either pressed or released, never both.
pub proof fn lemma_down_xor_up(s: KeyState)
    ensures
        state_is_down(s) != state_is_up(s),
{
}

/// A rectangle: its top left corner and its size.
#[derive(Default, Copy, Clone, Debug, PartialEq, Eq, Structural)]
pub struct Rect {
    pub x: i32,
    pub y: i32,
    pub w: i32,
    pub h: i32,
}

/// Whether `extend(r, other)` stays within 32 bits.
pub open spec fn extend_fits(r: Rect, other: Rect) -> bool {
    let x = if r.x <= other.x { r.x } else { other.x };
    let y = if r.y <= other.y { r.y } else { other.y };
    &&& i32::MIN <= x + r.w <= i32::MAX
    &&& i32::MIN <= other.x + other.w <= i32::MAX
    &&& i32::MIN <= y + r.h <= i32::MAX
    &&& i32::MIN <= other.y + other.h <= i32::MAX
    &&& i32::MIN <= (if x + r.w >= other.x + other.w { x + r.w } else { other.x + other.w }) - x <= i32::MAX
    &&& i32::MIN <= (if y + r.h >= other.y + other.h { y + r.h } else { other.y + other.h }) - y <= i32::MAX
}

/// The rectangle that `extend` makes of `r` and `other`: the corner moves to
/// the least corner of the two, and the far edges are measured from that new
/// corner with the width and height that `r` had.
pub open spec fn extended(r: Rect, other: Rect) -> Rect {
    let x = if r.x <= other.x { r.x } else { other.x };
    let y = if r.y <= other.y { r.y } else { other.y };
    Rect {
        x,
        y,
        w: ((if x + r.w >= other.x + other.w { x + r.w } else { other.x + other.w }) - x) as i32,
        h: ((if y + r.h >= other.y + other.h { y + r.h } else { other.y + other.h }) - y) as i32,
    }
}

/// Growing a rectangle towards another makes it cover the other.
pub proof fn lemma_extended_covers_other(r: Rect, other: Rect)
    requires
        extend_fits(r, other),
    ensures
        extended(r, other).x <= other.x,
        extended(r, other).y <= other.y,
        extended(r, other).x + extended(r, other).w >= other.x + other.w,
        extended(r, other).y + extended(r, other).h >= other.y + other.h,
{
}

impl Rect {
    /// The empty rectangle at the origin.
    pub fn new() -> (r: Rect)
        ensures
            r == (Rect { x: 0, y: 0, w: 0, h: 0 }),
    {
        Rect { x: 0, y: 0, w: 0, h: 0 }
    }

    pub fn of(x: i32, y: i32, w: i32, h: i32) -> (r: Rect)
        ensures
            r == (Rect { x, y, w, h }),
    {
        Rect { x: x, y: y, w: w, h: h }
    }

    /// Moves the rectangle by `(x, y)`.
    pub fn translate(&mut self, x: i32, y: i32)
        requires
            i32::MIN <= old(self).x + x <= i32::MAX,
            i32::MIN <= old(self).y + y <= i32::MAX,
        ensures
            *final(self) == (Rect { x: (old(self).x + x) as i32, y: (old(self).y + y) as i32, ..*old(self) }),
    {
        self.x = self.x + x;
        self.y = self.y + y;
    }

    /// Grows the rectangle towards `other`, as `extended` describes.
    pub fn extend(&mut self, other: &Rect)
        requires
            extend_fits(*old(self), *other),
        ensures
            *final(self) == extended(*old(self), *other),
    {
        self.x = if self.x <= other.x { self.x } else { other.x };
        self.y = if self.y <= other.y { self.y } else { other.y };
        let right = self.x + self.w;
        let other_right = other.x + other.w;
        self.w = (if right >= other_right { right } else { other_right }) - self.x;
        let bottom = self.y + self.h;
        let other_bottom = other.y + other.h;
        self.h = (if bottom >= other_bottom { bottom } else { other_bottom }) - self.y;
    }
}

/// A point of the screen or of the map, in pixels.
#[derive(Default, Copy, Clone, Debug, PartialEq, Eq, Structural)]
pub struct Point {
    pub x: i32,
    pub y: i32,
}

impl Point {
    pub fn new(x: i32, y: i32) -> (p: Point)
        ensures
            p == (Point { x, y }),
    {
        Point { x, y }
    }
}

/// A color with its opacity, one byte each.
#[derive(Default, Copy, Clone, Debug, PartialEq, Eq, Structural)]
pub struct Color {
    pub r: u8,
    pub g: u8,
    pub b: u8,
    pub a: u8,
}

/// The four bytes of a palette color, lowest first (the order in which a
/// 32-bit color lies in memory on the little-endian machines the game runs on).
pub open spec fn color_bytes(c: u32) -> Seq<u8> {
    seq![(c & 0xFF) as u8, ((c >> 8) & 0xFF) as u8, ((c >> 16) & 0xFF) as u8, ((c >> 24) & 0xFF) as u8]
}

/// The four bytes of pixel `k` of an image in palette indices: those of its
/// palette color, or transparent black for index 0.
pub open spec fn pixel_bytes(palette: Seq<u32>, pixels: Seq<u8>, k: int) -> Seq<u8> {
    if pixels[k] == 0 { seq![0u8, 0u8, 0u8, 0u8] } else { color_bytes(palette[pixels[k] as int]) }
}

/// A pixel of palette index 0 becomes four zero bytes (transparent), whatever
/// the palette holds; any other pixel becomes the four bytes of its palette
/// color, least significant first.
pub proof fn lemma_pixel_bytes(palette: Seq<u32>, pixels: Seq<u8>, k: int)
    requires
        0 <= k < pixels.len(),
        pixels[k] != 0 ==> pixels[k] < palette.len(),
    ensures
        pixel_bytes(palette, pixels, k).len() == 4,
        pixels[k] == 0 ==> pixel_bytes(palette, pixels, k) == seq![0u8, 0u8, 0u8, 0u8],
        pixels[k] != 0 ==> {
            let b = pixel_bytes(palette, pixels, k);
            b[0] + 256 * b[1] + 65536 * b[2] + 16777216 * b[3] == palette[pixels[k] as int]
        },
{
    if pixels[k] != 0 {
        let c = palette[pixels[k] as int];
        assert(((c & 0xFF) as u8) as u32 + 256 * (((c >> 8) & 0xFF) as u8) as u32
            + 65536 * (((c >> 16) & 0xFF) as u8) as u32 + 16777216 * (((c >> 24) & 0xFF) as u8) as u32 == c)
            by (bit_vector);
    }
}

/// Converts the first `width * height` pixels of an image in palette indices
/// (row by row) to four bytes each, as `pixel_bytes` describes. Every index
/// but 0 must name a palette color.
pub fn to_rgba(palette: &[u32], src_pixels: &[u8], width: usize, height: usize) -> (r: Vec<u8>)
    requires
        width * height * 4 <= usize::MAX,
        src_pixels@.len() >= width * height,
        forall|k: int| 0 <= k < width * height ==> src_pixels@[k] == 0 || src_pixels@[k] < palette@.len(),
    ensures
        r@.len() == 4 * (width * height),
        forall|k: int, j: int| 0 <= k < width * height && 0 <= j < 4 ==> r@[4 * k + j] == #[trigger] pixel_bytes(palette@, src_pixels@, k)[j],
        forall|k: int| 0 <= k < width * height && #[trigger] src_pixels@[k] == 0 ==> r@[4 * k] == 0 && r@[4 * k + 1] == 0
            && r@[4 * k + 2] == 0 && r@[4 * k + 3] == 0,
        forall|k: int| 0 <= k < width * height && #[trigger] src_pixels@[k] != 0 ==> r@[4 * k] + 256 * r@[4 * k + 1]
            + 65536 * r@[4 * k + 2] + 16777216 * r@[4 * k + 3] == palette@[src_pixels@[k] as int],
{
    let n = width * height;
    let mut out: Vec<u8> = Vec::new();
    let mut k: usize = 0;
    while k < n
        invariant
            n == width * height,
            n * 4 <= usize::MAX,
            k <= n,
            src_pixels@.len() >= n,
            forall|q: int| 0 <= q < n ==> src_pixels@[q] == 0 || src_pixels@[q] < palette@.len(),
            out@.len() == 4 * k,
            forall|q: int, j: int| 0 <= q < k && 0 <= j < 4 ==> out@[4 * q + j] == #[trigger] pixel_bytes(palette@, src_pixels@, q)[j],
        decreases n - k,
    {
        let index = src_pixels[k];
        let bytes: [u8; 4] = if index > 0 {
            let c = palette[index as usize];
            [(c & 0xFF) as u8, ((c >> 8) & 0xFF) as u8, ((c >> 16) & 0xFF) as u8, ((c >> 24) & 0xFF) as u8]
        } else {
            [0u8, 0u8, 0u8, 0u8]
        };
        assert(bytes@ =~= pixel_bytes(palette@, src_pixels@, k as int));
        let ghost before = out@;
        out.push(bytes[0]);
        out.push(bytes[1]);
        out.push(bytes[2]);
        out.push(bytes[3]);
        assert forall|q: int, j: int| 0 <= q < k + 1 && 0 <= j < 4 implies out@[4 * q + j] == #[trigger] pixel_bytes(palette@, src_pixels@, q)[j] by {
            if q < k {
                assert(out@[4 * q + j] == before[4 * q + j]);
            }
        }
        k = k + 1;
    }
    assert forall|q: int| 0 <= q < n implies {
        &&& (src_pixels@[q] == 0 ==> out@[4 * q] == 0 && out@[4 * q + 1] == 0 && out@[4 * q + 2] == 0 && out@[4 * q + 3] == 0)
        &&& (src_pixels@[q] != 0 ==> out@[4 * q] + 256 * out@[4 * q + 1] + 65536 * out@[4 * q + 2] + 16777216 * out@[4 * q + 3]
            == palette@[src_pixels@[q] as int])
    } by {
        lemma_pixel_bytes(palette@, src_pixels@, q);
        assert(out@[4 * q + 0] == pixel_bytes(palette@, src_pixels@, q)[0]);
        assert(out@[4 * q + 1] == pixel_bytes(palette@, src_pixels@, q)[1]);
        assert(out@[4 * q + 2] == pixel_bytes(palette@, src_pixels@, q)[2]);
        assert(out@[4 * q + 3] == pixel_bytes(palette@, src_pixels@, q)[3]);
    }
    out
}

} // verus!
