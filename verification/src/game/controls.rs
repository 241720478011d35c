use std::collections::HashMap;
use vstd::prelude::*;

verus! {

broadcast use vstd::std_specs::hash::group_hash_axioms;

/// A rebindable player action.
#[derive(Debug, Clone, Copy, PartialEq, Eq, Hash, Structural)]
pub enum GameAction {
    MoveLeft,
    MoveRight,
    Jump,
    Interact,
    Attack,
}

/// Number of rebindable actions.
pub const ACTION_COUNT: usize = 5;

/// The position of an action in the order MoveLeft, MoveRight, Jump,
/// Interact, Attack.
pub open spec fn action_index(a: GameAction) -> int {
    match a {
        GameAction::MoveLeft => 0,
        GameAction::MoveRight => 1,
        GameAction::Jump => 2,
        GameAction::Interact => 3,
        GameAction::Attack => 4,
    }
}

/// The action at a position of that order.
pub open spec fn action_at(i: int) -> GameAction {
    if i == 0 {
        GameAction::MoveLeft
    } else if i == 1 {
        GameAction::MoveRight
    } else if i == 2 {
        GameAction::Jump
    } else if i == 3 {
        GameAction::Interact
    } else {
        GameAction::Attack
    }
}

/// The label shown for an action in the Controls tab.
pub open spec fn action_label(a: GameAction) -> Seq<char> {
    match a {
        GameAction::MoveLeft => "Move Left"@,
        GameAction::MoveRight => "Move Right"@,
        GameAction::Jump => "Jump"@,
        GameAction::Interact => "Interact"@,
        GameAction::Attack => "Attack"@,
    }
}

impl GameAction {
    /// All actions, in the order of the Controls tab.
    pub fn all() -> (v: Vec<GameAction>)
        ensures
            v@.len() == ACTION_COUNT,
            forall|i: int| 0 <= i < ACTION_COUNT ==> v@[i] == action_at(i),
    {
        vec![
            GameAction::MoveLeft,
            GameAction::MoveRight,
            GameAction::Jump,
            GameAction::Interact,
            GameAction::Attack,
        ]
    }

    /// The position of this action in `all()`.
    pub fn index(self) -> (i: usize)
        ensures
            i as int == action_index(self),
            i < ACTION_COUNT,
            action_at(i as int) == self,
    {
        match self {
            GameAction::MoveLeft => 0,
            GameAction::MoveRight => 1,
            GameAction::Jump => 2,
            GameAction::Interact => 3,
            GameAction::Attack => 4,
        }
    }

    /// The label shown for this action in the Controls tab.
    pub fn display_name(self) -> (name: &'static str)
        ensures
            name@ == action_label(self),
    {
        match self {
            GameAction::MoveLeft => "Move Left",
            GameAction::MoveRight => "Move Right",
            GameAction::Jump => "Jump",
            GameAction::Interact => "Interact",
            GameAction::Attack => "Attack",
        }
    }
}

/// A keyboard key. The keys the game names get a variant of their own; every
/// other key is `Other`, told apart by a code that the host assigns.
#[derive(Debug, Clone, Copy, PartialEq, Eq, Hash, Structural)]
pub enum Key {
    KeyA,
    KeyB,
    KeyC,
    KeyD,
    KeyE,
    KeyF,
    KeyG,
    KeyH,
    KeyI,
    KeyJ,
    KeyK,
    KeyL,
    KeyM,
    KeyN,
    KeyO,
    KeyP,
    KeyQ,
    KeyR,
    KeyS,
    KeyT,
    KeyU,
    KeyV,
    KeyW,
    KeyX,
    KeyY,
    KeyZ,
    Space,
    Enter,
    ShiftLeft,
    ShiftRight,
    ControlLeft,
    ControlRight,
    ArrowUp,
    ArrowDown,
    ArrowLeft,
    ArrowRight,
    Tab,
    Escape,
    Other(u32),
}

/// The label shown for a key: its letter, a short name for the named
/// special keys, "???" for any other key.
pub open spec fn key_label(key: Key) -> Seq<char> {
    match key {
        Key::KeyA => "A"@,
        Key::KeyB => "B"@,
        Key::KeyC => "C"@,
        Key::KeyD => "D"@,
        Key::KeyE => "E"@,
        Key::KeyF => "F"@,
        Key::KeyG => "G"@,
        Key::KeyH => "H"@,
        Key::KeyI => "I"@,
        Key::KeyJ => "J"@,
        Key::KeyK => "K"@,
        Key::KeyL => "L"@,
        Key::KeyM => "M"@,
        Key::KeyN => "N"@,
        Key::KeyO => "O"@,
        Key::KeyP => "P"@,
        Key::KeyQ => "Q"@,
        Key::KeyR => "R"@,
        Key::KeyS => "S"@,
        Key::KeyT => "T"@,
        Key::KeyU => "U"@,
        Key::KeyV => "V"@,
        Key::KeyW => "W"@,
        Key::KeyX => "X"@,
        Key::KeyY => "Y"@,
        Key::KeyZ => "Z"@,
        Key::Space => "Space"@,
        Key::Enter => "Enter"@,
        Key::ShiftLeft => "L-Shift"@,
        Key::ShiftRight => "R-Shift"@,
        Key::ControlLeft => "L-Ctrl"@,
        Key::ControlRight => "R-Ctrl"@,
        Key::ArrowUp => "Up"@,
        Key::ArrowDown => "Down"@,
        Key::ArrowLeft => "Left"@,
        Key::ArrowRight => "Right"@,
        Key::Tab => "Tab"@,
        _ => "???"@,
    }
}

/// The label shown for a key in the Controls tab.
pub fn keycode_display_name(key: Key) -> (name: &'static str)
    ensures
        name@ == key_label(key),
{
    match key {
        Key::KeyA => "A",
        Key::KeyB => "B",
        Key::KeyC => "C",
        Key::KeyD => "D",
        Key::KeyE => "E",
        Key::KeyF => "F",
        Key::KeyG => "G",
        Key::KeyH => "H",
        Key::KeyI => "I",
        Key::KeyJ => "J",
        Key::KeyK => "K",
        Key::KeyL => "L",
        Key::KeyM => "M",
        Key::KeyN => "N",
        Key::KeyO => "O",
        Key::KeyP => "P",
        Key::KeyQ => "Q",
        Key::KeyR => "R",
        Key::KeyS => "S",
        Key::KeyT => "T",
        Key::KeyU => "U",
        Key::KeyV => "V",
        Key::KeyW => "W",
        Key::KeyX => "X",
        Key::KeyY => "Y",
        Key::KeyZ => "Z",
        Key::Space => "Space",
        Key::Enter => "Enter",
        Key::ShiftLeft => "L-Shift",
        Key::ShiftRight => "R-Shift",
        Key::ControlLeft => "L-Ctrl",
        Key::ControlRight => "R-Ctrl",
        Key::ArrowUp => "Up",
        Key::ArrowDown => "Down",
        Key::ArrowLeft => "Left",
        Key::ArrowRight => "Right",
        Key::Tab => "Tab",
        _ => "???",
    }
}

/// The labels of the keys: letters as themselves, "Space", "Enter",
/// "L-Shift", "R-Shift", "L-Ctrl", "R-Ctrl", "Up", "Down", "Left", "Right",
/// "Tab", and "???" for Escape and every other key.
pub proof fn lemma_key_labels()
    ensures
        key_label(Key::KeyA) == "A"@,
        key_label(Key::KeyB) == "B"@,
        key_label(Key::KeyC) == "C"@,
        key_label(Key::KeyD) == "D"@,
        key_label(Key::KeyE) == "E"@,
        key_label(Key::KeyF) == "F"@,
        key_label(Key::KeyG) == "G"@,
        key_label(Key::KeyH) == "H"@,
        key_label(Key::KeyI) == "I"@,
        key_label(Key::KeyJ) == "J"@,
        key_label(Key::KeyK) == "K"@,
        key_label(Key::KeyL) == "L"@,
        key_label(Key::KeyM) == "M"@,
        key_label(Key::KeyN) == "N"@,
        key_label(Key::KeyO) == "O"@,
        key_label(Key::KeyP) == "P"@,
        key_label(Key::KeyQ) == "Q"@,
        key_label(Key::KeyR) == "R"@,
        key_label(Key::KeyS) == "S"@,
        key_label(Key::KeyT) == "T"@,
        key_label(Key::KeyU) == "U"@,
        key_label(Key::KeyV) == "V"@,
        key_label(Key::KeyW) == "W"@,
        key_label(Key::KeyX) == "X"@,
        key_label(Key::KeyY) == "Y"@,
        key_label(Key::KeyZ) == "Z"@,
        key_label(Key::Space) == "Space"@,
        key_label(Key::Enter) == "Enter"@,
        key_label(Key::ShiftLeft) == "L-Shift"@,
        key_label(Key::ShiftRight) == "R-Shift"@,
        key_label(Key::ControlLeft) == "L-Ctrl"@,
        key_label(Key::ControlRight) == "R-Ctrl"@,
        key_label(Key::ArrowUp) == "Up"@,
        key_label(Key::ArrowDown) == "Down"@,
        key_label(Key::ArrowLeft) == "Left"@,
        key_label(Key::ArrowRight) == "Right"@,
        key_label(Key::Tab) == "Tab"@,
        key_label(Key::Escape) == "???"@,
        forall|code: u32| #[trigger] key_label(Key::Other(code)) == "???"@,
{
}

/// The labels of the actions in the Controls tab.
pub proof fn lemma_action_labels()
    ensures
        action_label(GameAction::MoveLeft) == "Move Left"@,
        action_label(GameAction::MoveRight) == "Move Right"@,
        action_label(GameAction::Jump) == "Jump"@,
        action_label(GameAction::Interact) == "Interact"@,
        action_label(GameAction::Attack) == "Attack"@,
        forall|i: int| 0 <= i < ACTION_COUNT ==> action_index(#[trigger] action_at(i)) == i,
{
}

/// The default keys: A moves left, D right, Space jumps, E interacts, F
/// attacks.
pub proof fn lemma_default_keys()
    ensures
        default_bindings().len() == ACTION_COUNT,
        default_bindings()[action_index(GameAction::MoveLeft)] == Some(Key::KeyA),
        default_bindings()[action_index(GameAction::MoveRight)] == Some(Key::KeyD),
        default_bindings()[action_index(GameAction::Jump)] == Some(Key::Space),
        default_bindings()[action_index(GameAction::Interact)] == Some(Key::KeyE),
        default_bindings()[action_index(GameAction::Attack)] == Some(Key::KeyF),
{
}

/// Which key each action is bound to: a map from the action's position
/// (`action_index`) to its key; an action with no entry has no key.
pub struct ControlBindings {
    bindings: HashMap<usize, Key>,
}

/// The binding table as a sequence indexed by action position.
pub type BindingsView = Seq<Option<Key>>;

/// The key an action is reached by: its binding, or Escape when it has none.
pub open spec fn key_of(b: BindingsView, i: int) -> Key {
    match b[i] {
        Some(k) => k,
        None => Key::Escape,
    }
}

/// Some action other than `i` is bound to `k`.
pub open spec fn held_elsewhere(b: BindingsView, i: int, k: Key) -> bool {
    exists|j: int| 0 <= j < b.len() && j != i && b[j] == Some(k)
}

/// The first action other than `i` bound to `k`, when there is one.
pub open spec fn first_holder(b: BindingsView, i: int, k: Key) -> int {
    choose|j: int|
        0 <= j < b.len() && j != i && b[j] == Some(k) && forall|m: int|
            0 <= m < j && m != i ==> b[m] != Some(k)
}

proof fn lemma_first_holder_below(b: BindingsView, i: int, k: Key, n: int)
    requires
        0 <= n <= b.len(),
        exists|j: int| 0 <= j < n && j != i && b[j] == Some(k),
    ensures
        exists|j: int|
            0 <= j < b.len() && j != i && b[j] == Some(k) && forall|m: int|
                0 <= m < j && m != i ==> b[m] != Some(k),
    decreases n,
{
    if exists|j: int| 0 <= j < n - 1 && j != i && b[j] == Some(k) {
        lemma_first_holder_below(b, i, k, n - 1);
    } else {
        let j = n - 1;
        assert(j != i && b[j] == Some(k));
        assert(forall|m: int| 0 <= m < j && m != i ==> b[m] != Some(k));
    }
}

/// When some other action holds `k`, `first_holder` names the first of them.
pub proof fn lemma_first_holder(b: BindingsView, i: int, k: Key)
    requires
        held_elsewhere(b, i, k),
    ensures
        0 <= first_holder(b, i, k) < b.len(),
        first_holder(b, i, k) != i,
        b[first_holder(b, i, k)] == Some(k),
        forall|m: int| 0 <= m < first_holder(b, i, k) && m != i ==> b[m] != Some(k),
{
    lemma_first_holder_below(b, i, k, b.len() as int);
}

/// The table after binding action `i` to `k`: an action that already held
/// `k` (the first one, if several did) takes over `i`'s old key, so no key
/// is lost and none is doubled.
pub open spec fn rebound(b: BindingsView, i: int, k: Key) -> BindingsView {
    if held_elsewhere(b, i, k) {
        b.update(first_holder(b, i, k), Some(key_of(b, i))).update(i, Some(k))
    } else {
        b.update(i, Some(k))
    }
}

/// Every action has a key and no key serves two actions.
pub open spec fn total_and_distinct(b: BindingsView) -> bool {
    &&& forall|i: int| 0 <= i < b.len() ==> (#[trigger] b[i]) is Some
    &&& forall|i: int, j: int| 0 <= i < b.len() && 0 <= j < b.len() && i != j ==> #[trigger] b[i]
        != #[trigger] b[j]
}

impl View for ControlBindings {
    type V = BindingsView;

    /// Entry `i` is the key of `action_at(i)`.
    closed spec fn view(&self) -> BindingsView {
        Seq::new(
            ACTION_COUNT as nat,
            |i: int|
                if self.bindings@.contains_key(i as usize) {
                    Some(self.bindings@[i as usize])
                } else {
                    None
                },
        )
    }
}

/// The default table: A moves left, D right, Space jumps, E interacts, F
/// attacks.
pub open spec fn default_bindings() -> BindingsView {
    seq![Some(Key::KeyA), Some(Key::KeyD), Some(Key::Space), Some(Key::KeyE), Some(Key::KeyF)]
}

impl ControlBindings {
    /// The table has one entry per action.
    pub proof fn lemma_view_len(&self)
        ensures
            self@.len() == ACTION_COUNT,
    {
    }

    /// Store `k` for the action at position `i`.
    fn put(&mut self, i: usize, k: Key)
        requires
            i < ACTION_COUNT,
        ensures
            final(self)@ == old(self)@.update(i as int, Some(k)),
    {
        self.bindings.insert(i, k);
        assert(self@ =~= old(self)@.update(i as int, Some(k)));
    }

    /// The entry of the action at position `i`.
    fn entry(&self, i: usize) -> (k: Option<Key>)
        requires
            i < ACTION_COUNT,
        ensures
            k == self@[i as int],
    {
        match self.bindings.get(&i) {
            Some(k) => Some(*k),
            None => None,
        }
    }

    /// A: move left, D: move right, Space: jump, E: interact, F: attack.
    pub fn new() -> (c: Self)
        ensures
            c@ == default_bindings(),
    {
        let mut c = ControlBindings { bindings: HashMap::new() };
        c.put(0, Key::KeyA);
        c.put(1, Key::KeyD);
        c.put(2, Key::Space);
        c.put(3, Key::KeyE);
        c.put(4, Key::KeyF);
        assert(c@ =~= default_bindings());
        c
    }

    /// The key bound to `action`, if any.
    pub fn binding(&self, action: GameAction) -> (k: Option<Key>)
        ensures
            k == self@[action_index(action)],
    {
        self.entry(action.index())
    }

    /// The key bound to `action`; Escape when it has none.
    pub fn key_for(&self, action: GameAction) -> (k: Key)
        ensures
            k == key_of(self@, action_index(action)),
    {
        match self.entry(action.index()) {
            Some(k) => k,
            None => Key::Escape,
        }
    }

    /// Bind `action` to `new_key`. If another action already uses `new_key`,
    /// the two swap: that action gets `action`'s previous key.
    pub fn rebind(&mut self, action: GameAction, new_key: Key)
        ensures
            final(self)@ == rebound(old(self)@, action_index(action), new_key),
    {
        let a = action.index();
        let ghost b = self@;
        let mut swap: Option<usize> = None;
        let mut j: usize = 0;
        while j < ACTION_COUNT
            invariant
                self@ == b,
                b.len() == ACTION_COUNT,
                a < ACTION_COUNT,
                j <= ACTION_COUNT,
                match swap {
                    None => forall|m: int| 0 <= m < j && m != a ==> b[m] != Some(new_key),
                    Some(s) => s < j && s != a && b[s as int] == Some(new_key) && forall|m: int|
                        0 <= m < s && m != a ==> b[m] != Some(new_key),
                },
            decreases ACTION_COUNT - j,
        {
            if swap.is_none() && j != a {
                if let Some(k) = self.entry(j) {
                    if k == new_key {
                        swap = Some(j);
                    }
                }
            }
            j = j + 1;
        }
        match swap {
            Some(s) => {
                proof {
                    assert(held_elsewhere(b, a as int, new_key));
                    lemma_first_holder(b, a as int, new_key);
                    let f = first_holder(b, a as int, new_key);
                    if f < s {
                        assert(b[f] != Some(new_key));
                    }
                    if s < f {
                        assert(b[s as int] != Some(new_key));
                    }
                    assert(f == s);
                }
                let old_key = self.key_for(action);
                self.put(s, old_key);
            },
            None => {
                assert(!held_elsewhere(b, a as int, new_key));
            },
        }
        self.put(a, new_key);
    }
}

impl Default for ControlBindings {
    fn default() -> (c: Self)
        ensures
            c@ == default_bindings(),
    {
        ControlBindings::new()
    }
}

/// After a rebind the action answers to the new key.
pub proof fn lemma_rebind_takes_effect(b: BindingsView, i: int, k: Key)
    requires
        0 <= i < b.len(),
    ensures
        key_of(rebound(b, i, k), i) == k,
        rebound(b, i, k).len() == b.len(),
{
    if held_elsewhere(b, i, k) {
        lemma_first_holder(b, i, k);
    }
}

/// Rebinding keeps the table one-to-one: if every action had its own key
/// before, every action has its own key after.
pub proof fn lemma_rebind_keeps_distinct(b: BindingsView, i: int, k: Key)
    requires
        0 <= i < b.len(),
        total_and_distinct(b),
    ensures
        total_and_distinct(rebound(b, i, k)),
{
    let r = rebound(b, i, k);
    if held_elsewhere(b, i, k) {
        lemma_first_holder(b, i, k);
        let f = first_holder(b, i, k);
        assert forall|x: int, y: int| 0 <= x < r.len() && 0 <= y < r.len() && x != y implies r[x]
            != r[y] by {
            if x == i && y == f {
                assert(r[y] == b[i]);
            } else if x == f && y == i {
                assert(r[x] == b[i]);
            } else if x == i {
                assert(b[y] != b[f]);
            } else if y == i {
                assert(b[x] != b[f]);
            } else if x == f {
                assert(b[y] != b[i]);
            } else if y == f {
                assert(b[x] != b[i]);
            }
        }
    } else {
        assert forall|x: int, y: int| 0 <= x < r.len() && 0 <= y < r.len() && x != y implies r[x]
            != r[y] by {
            if x == i {
                assert(b[y] != Some(k));
            } else if y == i {
                assert(b[x] != Some(k));
            }
        }
    }
}

/// Taking a key that another action holds only swaps the two: the same keys
/// stay in use, the action now has `k` and the other action its old key.
pub proof fn lemma_rebind_swap_keeps_keys(b: BindingsView, i: int, k: Key, key: Key)
    requires
        0 <= i < b.len(),
        total_and_distinct(b),
        held_elsewhere(b, i, k),
    ensures
        (exists|j: int| 0 <= j < b.len() && #[trigger] rebound(b, i, k)[j] == Some(key)) <==> (exists|
            j: int,
        | 0 <= j < b.len() && #[trigger] b[j] == Some(key)),
        rebound(b, i, k)[first_holder(b, i, k)] == b[i],
{
    lemma_first_holder(b, i, k);
    let f = first_holder(b, i, k);
    let r = rebound(b, i, k);
    assert(r[i] == b[f]);
    assert(r[f] == b[i]);
    if exists|j: int| 0 <= j < b.len() && #[trigger] r[j] == Some(key) {
        let j = choose|j: int| 0 <= j < b.len() && #[trigger] r[j] == Some(key);
        if j == i {
            assert(b[f] == Some(key));
        } else if j == f {
            assert(b[i] == Some(key));
        } else {
            assert(b[j] == Some(key));
        }
    }
    if exists|j: int| 0 <= j < b.len() && #[trigger] b[j] == Some(key) {
        let j = choose|j: int| 0 <= j < b.len() && #[trigger] b[j] == Some(key);
        if j == i {
            assert(r[f] == Some(key));
        } else if j == f {
            assert(r[i] == Some(key));
        } else {
            assert(r[j] == Some(key));
        }
    }
}

/// Binding an action to the key it already has changes nothing.
pub proof fn lemma_rebind_same_key(b: BindingsView, i: int)
    requires
        0 <= i < b.len(),
        total_and_distinct(b),
    ensures
        rebound(b, i, key_of(b, i)) == b,
{
    let k = key_of(b, i);
    assert(!held_elsewhere(b, i, k)) by {
        if held_elsewhere(b, i, k) {
            let j = choose|j: int| 0 <= j < b.len() && j != i && b[j] == Some(k);
            assert(b[j] != b[i]);
        }
    }
    assert(rebound(b, i, k) =~= b);
}

/// The default table gives every action its own key.
pub proof fn lemma_default_distinct()
    ensures
        total_and_distinct(default_bindings()),
{
}

/// What the Controls tab is waiting for: the action whose new key the next
/// key press sets, if any.
#[derive(Debug, Clone, Copy, PartialEq, Eq, Structural)]
pub struct RebindingState {
    pub awaiting: Option<GameAction>,
}

impl Default for RebindingState {
    fn default() -> (s: Self)
        ensures
            s.awaiting is None,
    {
        RebindingState { awaiting: None }
    }
}

} // verus!
