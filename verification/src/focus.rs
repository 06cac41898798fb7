use vstd::prelude::*;
use crate::event::{Event, KeyCode, KeyEvent, KeyModifiers};
use crate::geometry::Rect;
use crate::observe::HitEvent;

verus! {

/// Keys that move the focus: to the next or previous element of the group,
/// or to the nearest element in a direction.
#[derive(Clone, Copy, Debug, PartialEq, Eq, Structural, Default)]
pub struct KeyMap {
    pub next: Option<KeyEvent>,
    pub prev: Option<KeyEvent>,
    pub down: Option<KeyEvent>,
    pub up: Option<KeyEvent>,
    pub left: Option<KeyEvent>,
    pub right: Option<KeyEvent>,
}

/// One of the six keys of a [`KeyMap`].
#[derive(Clone, Copy, Debug, PartialEq, Eq, Structural)]
pub enum KeyMapSlot {
    Next,
    Prev,
    Down,
    Up,
    Left,
    Right,
}

/// For each direction, the element that the focus moves to.
#[derive(Clone, Copy, Debug, PartialEq, Eq, Structural, Default)]
pub struct Transitions {
    pub down: usize,
    pub up: usize,
    pub left: usize,
    pub right: usize,
}

/// A direction on the screen.
#[derive(Clone, Copy, Debug, PartialEq, Eq, Structural)]
pub enum Heading {
    Down,
    Up,
    Left,
    Right,
}

/// What a focus-aware element can tell and be told about its focus.
pub trait Focus {
    spec fn spec_focus(&self) -> bool;

    spec fn spec_rect(&self) -> Option<Rect>;

    spec fn spec_keymaps(&self) -> Seq<KeyMap>;

    spec fn spec_hit(&self) -> HitEvent;

    fn set_focus(&mut self, value: bool)
        ensures
            final(self).spec_focus() == value,
            final(self).spec_rect() == old(self).spec_rect(),
            final(self).spec_keymaps() == old(self).spec_keymaps(),
            final(self).spec_hit() == old(self).spec_hit(),
    ;

    fn focus(&self) -> (b: bool)
        ensures
            b == self.spec_focus(),
    ;

    fn rect(&self) -> (r: Option<Rect>)
        ensures
            r == self.spec_rect(),
    ;

    fn keymaps(&self) -> (r: Vec<KeyMap>)
        ensures
            r@ == self.spec_keymaps(),
    ;

    fn hit_test(&self) -> (r: HitEvent)
        ensures
            r == self.spec_hit(),
    ;
}

/// What a focus group reads of an element: where it is, which keys move the
/// focus away from it, and its last hit event.
#[derive(Clone, Debug)]
pub struct FocusItem {
    pub rect: Option<Rect>,
    pub keymaps: Vec<KeyMap>,
    pub hit: HitEvent,
}

/// The state of a focus group, as a mathematical value.
pub struct FocusGroupView<T> {
    pub index: usize,
    pub tag: Option<T>,
    pub len: usize,
    pub keymaps: Seq<KeyMap>,
    pub transitions: Transitions,
}

/// Keeps track of which element of a group has the focus, and moves it.
pub struct FocusGroup<T: Copy> {
    index: usize,
    tag: Option<T>,
    len: usize,
    current_keymaps: Vec<KeyMap>,
    transitions: Transitions,
}

/// The elements of a focus group, gathered before [`FocusGroupItems::commit`].
pub struct FocusGroupItems<T: Copy> {
    group: FocusGroup<T>,
    items: Vec<(FocusItem, T)>,
    index: usize,
}

/// Whether a group consumed an event; either way the group is handed back.
pub enum EventOutcome<T> {
    Consumed(T),
    Unhandled(T),
}

/// A request from an element to move the focus.
#[derive(Clone, Copy, Debug, PartialEq, Eq, Structural, Hash)]
pub enum FocusEvent {
    Nothing,
    Next,
    Prev,
}

impl Default for FocusEvent {
    fn default() -> (r: FocusEvent)
        ensures
            r == FocusEvent::Nothing,
    {
        FocusEvent::Nothing
    }
}

impl<T> EventOutcome<T> {
    pub open spec fn spec_inner(self) -> T {
        match self {
            EventOutcome::Consumed(v) => v,
            EventOutcome::Unhandled(v) => v,
        }
    }

    /// The value, whether the event was consumed or not.
    pub fn into_inner(self) -> (r: T)
        ensures
            r == self.spec_inner(),
    {
        match self {
            EventOutcome::Consumed(value) => value,
            EventOutcome::Unhandled(value) => value,
        }
    }
}

impl KeyMap {
    pub open spec fn spec_key(self, slot: KeyMapSlot) -> Option<KeyEvent> {
        match slot {
            KeyMapSlot::Next => self.next,
            KeyMapSlot::Prev => self.prev,
            KeyMapSlot::Down => self.down,
            KeyMapSlot::Up => self.up,
            KeyMapSlot::Left => self.left,
            KeyMapSlot::Right => self.right,
        }
    }

    /// The key in `slot`.
    pub fn key(&self, slot: KeyMapSlot) -> (r: Option<KeyEvent>)
        ensures
            r == self.spec_key(slot),
    {
        match slot {
            KeyMapSlot::Next => self.next,
            KeyMapSlot::Prev => self.prev,
            KeyMapSlot::Down => self.down,
            KeyMapSlot::Up => self.up,
            KeyMapSlot::Left => self.left,
            KeyMapSlot::Right => self.right,
        }
    }
}

/// The key map holds, in `slot`, a key equal to `ev`.
pub open spec fn spec_slot_matches(m: KeyMap, slot: KeyMapSlot, ev: KeyEvent) -> bool {
    match m.spec_key(slot) {
        Some(k) => k.spec_eq(ev),
        None => false,
    }
}

/// Some key map of `maps` holds, in `slot`, a key equal to `ev`.
pub open spec fn spec_keymaps_match(maps: Seq<KeyMap>, slot: KeyMapSlot, ev: KeyEvent) -> bool {
    exists|i: int| 0 <= i < maps.len() && spec_slot_matches(#[trigger] maps[i], slot, ev)
}

/// Whether some key map of `maps` holds, in `slot`, a key equal to `ev`.
pub fn keymaps_match(maps: &Vec<KeyMap>, slot: KeyMapSlot, ev: &KeyEvent) -> (b: bool)
    ensures
        b == spec_keymaps_match(maps@, slot, *ev),
{
    let mut i: usize = 0;
    while i < maps.len()
        invariant
            i <= maps.len(),
            forall|j: int| 0 <= j < i ==> !spec_slot_matches(#[trigger] maps@[j], slot, *ev),
        decreases maps.len() - i,
    {
        match maps[i].key(slot) {
            Some(k) => {
                if k.key_eq(ev) {
                    assert(spec_slot_matches(maps@[i as int], slot, *ev));
                    return true;
                }
            },
            None => {},
        }
        i = i + 1;
    }
    false
}

pub open spec fn spec_default_keymap() -> KeyMap {
    KeyMap {
        next: Some(spec_key_press(KeyCode::Tab, KeyModifiers::spec_none())),
        prev: Some(spec_key_press(KeyCode::BackTab, KeyModifiers::spec_shift())),
        down: Some(spec_key_press(KeyCode::Down, KeyModifiers::spec_none())),
        up: Some(spec_key_press(KeyCode::Up, KeyModifiers::spec_none())),
        left: Some(spec_key_press(KeyCode::Left, KeyModifiers::spec_none())),
        right: Some(spec_key_press(KeyCode::Right, KeyModifiers::spec_none())),
    }
}

pub open spec fn spec_cycle_keymap() -> KeyMap {
    KeyMap {
        next: Some(spec_key_press(KeyCode::Tab, KeyModifiers::spec_none())),
        prev: Some(spec_key_press(KeyCode::BackTab, KeyModifiers::spec_shift())),
        down: None,
        up: None,
        left: None,
        right: None,
    }
}

pub open spec fn spec_ctrl_keymap() -> KeyMap {
    KeyMap {
        next: Some(spec_key_press(KeyCode::Tab, KeyModifiers::spec_none())),
        prev: Some(spec_key_press(KeyCode::BackTab, KeyModifiers::spec_shift())),
        down: Some(spec_key_press(KeyCode::Down, KeyModifiers::spec_control())),
        up: Some(spec_key_press(KeyCode::Up, KeyModifiers::spec_control())),
        left: Some(spec_key_press(KeyCode::Left, KeyModifiers::spec_control())),
        right: Some(spec_key_press(KeyCode::Right, KeyModifiers::spec_control())),
    }
}

pub open spec fn spec_vim_keymap() -> KeyMap {
    KeyMap {
        next: Some(spec_key_press(KeyCode::Tab, KeyModifiers::spec_none())),
        prev: Some(spec_key_press(KeyCode::BackTab, KeyModifiers::spec_shift())),
        down: Some(spec_key_press(KeyCode::Char('j'), KeyModifiers::spec_none())),
        up: Some(spec_key_press(KeyCode::Char('k'), KeyModifiers::spec_none())),
        left: Some(spec_key_press(KeyCode::Char('h'), KeyModifiers::spec_none())),
        right: Some(spec_key_press(KeyCode::Char('l'), KeyModifiers::spec_none())),
    }
}

pub open spec fn spec_vim_ctrl_keymap() -> KeyMap {
    KeyMap {
        next: Some(spec_key_press(KeyCode::Tab, KeyModifiers::spec_none())),
        prev: Some(spec_key_press(KeyCode::BackTab, KeyModifiers::spec_shift())),
        down: Some(spec_key_press(KeyCode::Char('j'), KeyModifiers::spec_control())),
        up: Some(spec_key_press(KeyCode::Char('k'), KeyModifiers::spec_control())),
        left: Some(spec_key_press(KeyCode::Char('h'), KeyModifiers::spec_control())),
        right: Some(spec_key_press(KeyCode::Char('l'), KeyModifiers::spec_control())),
    }
}

pub open spec fn spec_vim_ctrl_keymap_no_cycle() -> KeyMap {
    KeyMap { next: None, prev: None, ..spec_vim_ctrl_keymap() }
}

/// A key press with empty state.
pub open spec fn spec_key_press(code: KeyCode, mods: KeyModifiers) -> KeyEvent {
    KeyEvent {
        code,
        modifiers: mods,
        kind: crate::event::KeyEventKind::Press,
        state: crate::event::KeyEventState::spec_empty(),
    }
}

/// Tab and Shift+BackTab cycle, the arrow keys move in their direction.
pub fn default_keymap() -> (m: KeyMap)
    ensures
        m == spec_default_keymap(),
{
    KeyMap {
        next: Some(KeyEvent::new(KeyCode::Tab, KeyModifiers::none())),
        prev: Some(KeyEvent::new(KeyCode::BackTab, KeyModifiers::shift())),
        down: Some(KeyEvent::new(KeyCode::Down, KeyModifiers::none())),
        up: Some(KeyEvent::new(KeyCode::Up, KeyModifiers::none())),
        left: Some(KeyEvent::new(KeyCode::Left, KeyModifiers::none())),
        right: Some(KeyEvent::new(KeyCode::Right, KeyModifiers::none())),
    }
}

/// Tab and Shift+BackTab cycle; no direction keys.
pub fn cycle_keymap() -> (m: KeyMap)
    ensures
        m == spec_cycle_keymap(),
{
    KeyMap {
        next: Some(KeyEvent::new(KeyCode::Tab, KeyModifiers::none())),
        prev: Some(KeyEvent::new(KeyCode::BackTab, KeyModifiers::shift())),
        down: None,
        up: None,
        left: None,
        right: None,
    }
}

/// Tab and Shift+BackTab cycle, Control with an arrow key moves.
pub fn ctrl_keymap() -> (m: KeyMap)
    ensures
        m == spec_ctrl_keymap(),
{
    KeyMap {
        next: Some(KeyEvent::new(KeyCode::Tab, KeyModifiers::none())),
        prev: Some(KeyEvent::new(KeyCode::BackTab, KeyModifiers::shift())),
        down: Some(KeyEvent::new(KeyCode::Down, KeyModifiers::control())),
        up: Some(KeyEvent::new(KeyCode::Up, KeyModifiers::control())),
        left: Some(KeyEvent::new(KeyCode::Left, KeyModifiers::control())),
        right: Some(KeyEvent::new(KeyCode::Right, KeyModifiers::control())),
    }
}

/// Tab and Shift+BackTab cycle, h j k l move.
pub fn vim_keymap() -> (m: KeyMap)
    ensures
        m == spec_vim_keymap(),
{
    KeyMap {
        next: Some(KeyEvent::new(KeyCode::Tab, KeyModifiers::none())),
        prev: Some(KeyEvent::new(KeyCode::BackTab, KeyModifiers::shift())),
        down: Some(KeyEvent::new(KeyCode::Char('j'), KeyModifiers::none())),
        up: Some(KeyEvent::new(KeyCode::Char('k'), KeyModifiers::none())),
        left: Some(KeyEvent::new(KeyCode::Char('h'), KeyModifiers::none())),
        right: Some(KeyEvent::new(KeyCode::Char('l'), KeyModifiers::none())),
    }
}

/// Tab and Shift+BackTab cycle, Control with h j k l moves.
pub fn vim_ctrl_keymap() -> (m: KeyMap)
    ensures
        m == spec_vim_ctrl_keymap(),
{
    KeyMap {
        next: Some(KeyEvent::new(KeyCode::Tab, KeyModifiers::none())),
        prev: Some(KeyEvent::new(KeyCode::BackTab, KeyModifiers::shift())),
        down: Some(KeyEvent::new(KeyCode::Char('j'), KeyModifiers::control())),
        up: Some(KeyEvent::new(KeyCode::Char('k'), KeyModifiers::control())),
        left: Some(KeyEvent::new(KeyCode::Char('h'), KeyModifiers::control())),
        right: Some(KeyEvent::new(KeyCode::Char('l'), KeyModifiers::control())),
    }
}

/// Control with h j k l moves; no cycling keys.
pub fn vim_ctrl_keymap_no_cycle() -> (m: KeyMap)
    ensures
        m == spec_vim_ctrl_keymap_no_cycle(),
{
    KeyMap { next: None, prev: None, ..vim_ctrl_keymap() }
}


/// `a - b`, saturating at zero.
pub open spec fn sat_sub_usize(a: usize, b: usize) -> usize {
    if a < b { 0 } else { (a - b) as usize }
}

/// `x` clamped to `0..=hi`.
pub open spec fn clamp_to(x: usize, hi: usize) -> usize {
    if x > hi { hi } else { x }
}

/// The highest index that the focus may take in a group of `len` elements.
pub open spec fn last_index(len: usize) -> usize {
    sat_sub_usize(len, 1)
}

impl<T> FocusGroupView<T> {
    /// The focus moved to `index`, clamped to the group.
    pub open spec fn spec_focus_at(self, index: usize) -> FocusGroupView<T> {
        FocusGroupView { index: clamp_to(index, last_index(self.len)), ..self }
    }

    /// The focus moved one element forward, staying on the last element.
    pub open spec fn spec_focus_next(self) -> FocusGroupView<T> {
        self.spec_focus_at((self.index + 1) as usize)
    }

    /// The focus moved one element back, staying on the first element.
    pub open spec fn spec_focus_prev(self) -> FocusGroupView<T> {
        self.spec_focus_at(sat_sub_usize(self.index, 1))
    }

    /// The group after a request of an element.
    pub open spec fn spec_handle_event(self, ev: FocusEvent) -> FocusGroupView<T> {
        match ev {
            FocusEvent::Nothing => self,
            FocusEvent::Next => self.spec_focus_next(),
            FocusEvent::Prev => self.spec_focus_prev(),
        }
    }

    /// Whether the group consumes `ev`, and the group afterwards. The key slots
    /// are tried in the order next, previous, down, right, left, up.
    pub open spec fn spec_update(self, ev: Event) -> (bool, FocusGroupView<T>) {
        match ev.spec_as_key_event() {
            None => (false, self),
            Some(k) => {
                if spec_keymaps_match(self.keymaps, KeyMapSlot::Next, k) {
                    (true, self.spec_focus_next())
                } else if spec_keymaps_match(self.keymaps, KeyMapSlot::Prev, k) {
                    (true, self.spec_focus_prev())
                } else if spec_keymaps_match(self.keymaps, KeyMapSlot::Down, k) {
                    (true, self.spec_focus_at(self.transitions.down))
                } else if spec_keymaps_match(self.keymaps, KeyMapSlot::Right, k) {
                    (true, self.spec_focus_at(self.transitions.right))
                } else if spec_keymaps_match(self.keymaps, KeyMapSlot::Left, k) {
                    (true, self.spec_focus_at(self.transitions.left))
                } else if spec_keymaps_match(self.keymaps, KeyMapSlot::Up, k) {
                    (true, self.spec_focus_at(self.transitions.up))
                } else {
                    (false, self)
                }
            },
        }
    }
}

impl<T: Copy> View for FocusGroup<T> {
    type V = FocusGroupView<T>;

    closed spec fn view(&self) -> FocusGroupView<T> {
        FocusGroupView {
            index: self.index,
            tag: self.tag,
            len: self.len,
            keymaps: self.current_keymaps@,
            transitions: self.transitions,
        }
    }
}

impl<T: Copy> FocusGroup<T> {
    /// The focused index never leaves the group.
    #[verifier::type_invariant]
    closed spec fn index_in_group(self) -> bool {
        self.index <= last_index(self.len)
    }

    /// An empty group: focus on the first element, no keys, no transitions.
    pub fn new() -> (g: FocusGroup<T>)
        ensures
            g@.index == 0,
            g@.len == 0,
            g@.tag == None::<T>,
            g@.keymaps == Seq::<KeyMap>::empty(),
            g@.transitions == (Transitions { down: 0, up: 0, left: 0, right: 0 }),
    {
        FocusGroup {
            index: 0,
            tag: None,
            len: 0,
            current_keymaps: Vec::new(),
            transitions: Transitions { down: 0, up: 0, left: 0, right: 0 },
        }
    }

    /// The index of the focused element.
    pub fn focused(&self) -> (i: usize)
        ensures
            i == self@.index,
            i <= last_index(self@.len),
    {
        proof {
            use_type_invariant(self);
        }
        self.index
    }

    /// The tag of the focused element, once the group was committed.
    pub fn focused_tag(&self) -> (t: Option<T>)
        ensures
            t == self@.tag,
    {
        self.tag
    }

    /// The number of elements at the last commit.
    pub fn len(&self) -> (n: usize)
        ensures
            n == self@.len,
    {
        self.len
    }

    /// The elements that the direction keys move the focus to.
    pub fn transitions(&self) -> (t: Transitions)
        ensures
            t == self@.transitions,
    {
        self.transitions
    }

    /// Starts gathering the elements of the group.
    pub fn items(self) -> (r: FocusGroupItems<T>)
        ensures
            r@.group == self@,
            r@.items == Seq::<(FocusItem, T)>::empty(),
    {
        proof {
            use_type_invariant(&self);
        }
        let index = self.index;
        FocusGroupItems { group: self, items: Vec::new(), index }
    }

    /// Moves the focus to `index`, clamped to the group.
    pub fn focus_at(self, index: usize) -> (r: Self)
        ensures
            r@ == self@.spec_focus_at(index),
    {
        let hi = self.len.saturating_sub(1);
        let index = if index > hi {
            hi
        } else {
            index
        };
        FocusGroup { index, ..self }
    }

    /// Moves the focus to the next element; it stays on the last one.
    pub fn focus_next(self) -> (r: Self)
        ensures
            r@ == self@.spec_focus_next(),
    {
        proof {
            use_type_invariant(&self);
        }
        let idx = self.index + 1;
        self.focus_at(idx)
    }

    /// Moves the focus to the previous element; it stays on the first one.
    pub fn focus_prev(self) -> (r: Self)
        ensures
            r@ == self@.spec_focus_prev(),
    {
        let idx = self.index.saturating_sub(1);
        self.focus_at(idx)
    }

    /// Moves the focus if `event` is one of the keys of the focused element's
    /// key maps.
    pub fn update(self, event: &Event) -> (r: EventOutcome<Self>)
        ensures
            match r {
                EventOutcome::Consumed(g) => self@.spec_update(*event).0 && g@ == self@.spec_update(
                    *event,
                ).1,
                EventOutcome::Unhandled(g) => !self@.spec_update(*event).0 && g@
                    == self@.spec_update(*event).1,
            },
    {
        if let Some(event) = event.as_key_event() {
            let transitions = self.transitions;
            if keymaps_match(&self.current_keymaps, KeyMapSlot::Next, &event) {
                return EventOutcome::Consumed(self.focus_next());
            }
            if keymaps_match(&self.current_keymaps, KeyMapSlot::Prev, &event) {
                return EventOutcome::Consumed(self.focus_prev());
            }
            if keymaps_match(&self.current_keymaps, KeyMapSlot::Down, &event) {
                return EventOutcome::Consumed(self.focus_at(transitions.down));
            }
            if keymaps_match(&self.current_keymaps, KeyMapSlot::Right, &event) {
                return EventOutcome::Consumed(self.focus_at(transitions.right));
            }
            if keymaps_match(&self.current_keymaps, KeyMapSlot::Left, &event) {
                return EventOutcome::Consumed(self.focus_at(transitions.left));
            }
            if keymaps_match(&self.current_keymaps, KeyMapSlot::Up, &event) {
                return EventOutcome::Consumed(self.focus_at(transitions.up));
            }
        }
        EventOutcome::Unhandled(self)
    }

    /// Follows a request of an element to move the focus.
    pub fn handle_event(self, event: FocusEvent) -> (r: Self)
        ensures
            r@ == self@.spec_handle_event(event),
    {
        match event {
            FocusEvent::Nothing => self,
            FocusEvent::Next => self.focus_next(),
            FocusEvent::Prev => self.focus_prev(),
        }
    }

    /// Tells the element at `position` of the committed group whether it has
    /// the focus, as a commit does for each element it gathered: the focused
    /// one gets it, all others lose it.
    pub fn apply_focus<F: Focus>(&self, position: usize, item: &mut F)
        ensures
            final(item).spec_focus() == (position == self@.index),
            final(item).spec_rect() == old(item).spec_rect(),
            final(item).spec_keymaps() == old(item).spec_keymaps(),
            final(item).spec_hit() == old(item).spec_hit(),
    {
        item.set_focus(position == self.index);
    }

    /// Follows the request that comes with a value, and hands the value on.
    pub fn pipe<U>(self, value: (U, FocusEvent)) -> (r: (U, Self))
        ensures
            r.0 == value.0,
            r.1@ == self@.spec_handle_event(value.1),
    {
        let (v, ev) = value;
        (v, self.handle_event(ev))
    }
}

impl<T: Copy> Default for FocusGroup<T> {
    fn default() -> (g: FocusGroup<T>)
        ensures
            g@.index == 0,
            g@.len == 0,
            g@.tag == None::<T>,
            g@.keymaps == Seq::<KeyMap>::empty(),
            g@.transitions == (Transitions { down: 0, up: 0, left: 0, right: 0 }),
    {
        FocusGroup::new()
    }
}

/// The elements gathered for a focus group, as a mathematical value.
pub struct FocusGroupItemsView<T> {
    pub group: FocusGroupView<T>,
    pub items: Seq<(FocusItem, T)>,
}

impl<T: Copy> View for FocusGroupItems<T> {
    type V = FocusGroupItemsView<T>;

    closed spec fn view(&self) -> FocusGroupItemsView<T> {
        FocusGroupItemsView { group: self.group@, items: self.items@ }
    }
}


impl Transitions {
    /// All four directions lead to `value`.
    pub fn splat(value: usize) -> (t: Transitions)
        ensures
            t == (Transitions { down: value, up: value, left: value, right: value }),
    {
        Transitions { down: value, up: value, left: value, right: value }
    }

    pub open spec fn spec_get(self, d: Heading) -> usize {
        match d {
            Heading::Down => self.down,
            Heading::Up => self.up,
            Heading::Left => self.left,
            Heading::Right => self.right,
        }
    }
}

/// The hit event is a click.
pub open spec fn spec_clicked(h: HitEvent) -> bool {
    h is Clicked
}

/// `|a - b|`.
pub open spec fn abs_diff(a: u16, b: u16) -> int {
    if a >= b {
        a - b
    } else {
        b - a
    }
}

/// Element `j` lies in direction `d` of the focused element `f`: both have an
/// area, and the corner of `j` is further from that of `f` along `d`'s axis
/// than across it (ties count as horizontal), on `d`'s side.
pub open spec fn is_candidate<T>(items: Seq<(FocusItem, T)>, f: int, j: int, d: Heading) -> bool {
    &&& 0 <= j < items.len()
    &&& 0 <= f < items.len()
    &&& j != f
    &&& items[f].0.rect is Some
    &&& items[j].0.rect is Some
    &&& {
        let fr = items[f].0.rect.unwrap();
        let r = items[j].0.rect.unwrap();
        let h = abs_diff(r.x, fr.x);
        let v = abs_diff(r.y, fr.y);
        match d {
            Heading::Down => v > h && r.y > fr.y,
            Heading::Up => v > h && r.y < fr.y,
            Heading::Right => v <= h && r.x > fr.x,
            Heading::Left => v <= h && r.x < fr.x,
        }
    }
}

/// How far element `j` is from the focused element `f` along the axis of `d`.
pub open spec fn distance<T>(items: Seq<(FocusItem, T)>, f: int, j: int, d: Heading) -> int {
    let fr = items[f].0.rect.unwrap();
    let r = items[j].0.rect.unwrap();
    match d {
        Heading::Down | Heading::Up => abs_diff(r.y, fr.y),
        Heading::Left | Heading::Right => abs_diff(r.x, fr.x),
    }
}

/// Among the elements before `bound`, `r` is the nearest one in direction `d`
/// of `f` (the first of the nearest on ties), or `f` itself when there is none.
pub open spec fn is_nearest<T>(
    items: Seq<(FocusItem, T)>,
    f: int,
    d: Heading,
    bound: int,
    r: int,
) -> bool {
    ||| r == f && forall|j: int| 0 <= j < bound ==> !#[trigger] is_candidate(items, f, j, d)
    ||| {
        &&& 0 <= r < bound
        &&& is_candidate(items, f, r, d)
        &&& forall|j: int|
            0 <= j < bound && #[trigger] is_candidate(items, f, j, d) ==> distance(items, f, r, d)
                < distance(items, f, j, d) || (distance(items, f, r, d) == distance(
                items,
                f,
                j,
                d,
            ) && r <= j)
    }
}

/// The loop of `commit` has found `r` as nearest in direction `d` among the
/// elements before `bound`, at distance `dist` (`usize::MAX` when none).
pub open spec fn tracks<T>(
    items: Seq<(FocusItem, T)>,
    f: int,
    d: Heading,
    bound: int,
    r: usize,
    dist: usize,
) -> bool {
    &&& is_nearest(items, f, d, bound, r as int)
    &&& (r == f ==> dist == usize::MAX)
    &&& (r != f ==> dist == distance(items, f, r as int, d))
}

/// The index that a commit focuses: the first clicked element, else `index`.
pub open spec fn spec_commit_index<T>(items: Seq<(FocusItem, T)>, index: int) -> int {
    if exists|j: int| 0 <= j < items.len() && spec_clicked(#[trigger] items[j].0.hit) {
        choose|j: int|
            0 <= j < items.len() && spec_clicked(items[j].0.hit) && forall|k: int|
                0 <= k < j ==> !spec_clicked(#[trigger] items[k].0.hit)
    } else {
        index
    }
}

/// The first clicked element, if any.
fn first_clicked<T>(items: &Vec<(FocusItem, T)>) -> (r: Option<usize>)
    ensures
        match r {
            Some(i) => i < items@.len() && spec_clicked(items@[i as int].0.hit) && forall|k: int|
                0 <= k < i ==> !spec_clicked(#[trigger] items@[k].0.hit),
            None => forall|k: int| 0 <= k < items@.len() ==> !spec_clicked(#[trigger] items@[k].0.hit),
        },
{
    let mut i: usize = 0;
    while i < items.len()
        invariant
            i <= items@.len(),
            forall|k: int| 0 <= k < i ==> !spec_clicked(#[trigger] items@[k].0.hit),
        decreases items.len() - i,
    {
        match items[i].0.hit {
            HitEvent::Clicked(_, _) => {
                return Some(i);
            },
            _ => {},
        }
        i = i + 1;
    }
    None
}

fn abs_diff_u16(a: u16, b: u16) -> (r: usize)
    ensures
        r == abs_diff(a, b),
{
    if a >= b {
        (a - b) as usize
    } else {
        (b - a) as usize
    }
}

impl FocusGroupItems<()> {
    /// Adds an element with no tag.
    pub fn next_untagged<F: Focus>(self, item: &F) -> (r: Self)
        ensures
            r@.group == self@.group,
            r@.items.len() == self@.items.len() + 1,
            r@.items.subrange(0, self@.items.len() as int) == self@.items,
            r@.items.last().0.rect == item.spec_rect(),
            r@.items.last().0.keymaps@ == item.spec_keymaps(),
            r@.items.last().0.hit == item.spec_hit(),
    {
        self.next((item, ()))
    }

    /// Adds what a focus group reads of an element, with no tag.
    pub fn next_dyn_untagged(self, item: FocusItem) -> (r: Self)
        ensures
            r@.group == self@.group,
            r@.items == self@.items.push((item, ())),
    {
        self.next_dyn((item, ()))
    }
}

impl<T: Copy> FocusGroupItems<T> {
    #[verifier::type_invariant]
    closed spec fn index_of_group(self) -> bool {
        self.index == self.group.index
    }

    /// Adds an element with its tag.
    pub fn next<F: Focus>(self, entry: (&F, T)) -> (r: Self)
        ensures
            r@.group == self@.group,
            r@.items.len() == self@.items.len() + 1,
            r@.items.subrange(0, self@.items.len() as int) == self@.items,
            r@.items.last().0.rect == entry.0.spec_rect(),
            r@.items.last().0.keymaps@ == entry.0.spec_keymaps(),
            r@.items.last().0.hit == entry.0.spec_hit(),
            r@.items.last().1 == entry.1,
    {
        let (item, tag) = entry;
        let snapshot = FocusItem { rect: item.rect(), keymaps: item.keymaps(), hit: item.hit_test() };
        let r = self.next_dyn((snapshot, tag));
        assert(r@.items.subrange(0, self@.items.len() as int) =~= self@.items);
        r
    }

    /// Adds what a focus group reads of an element, with its tag.
    pub fn next_dyn(self, entry: (FocusItem, T)) -> (r: Self)
        ensures
            r@.group == self@.group,
            r@.items == self@.items.push(entry),
    {
        proof {
            use_type_invariant(&self);
        }
        let FocusGroupItems { group, mut items, index } = self;
        items.push(entry);
        FocusGroupItems { group, items, index }
    }
}


impl<T: Copy> FocusGroupItems<T> {
    /// Commits the group as [`FocusGroupItems::commit`] does, and tells each of
    /// the gathered elements whether it has the focus: `elements[j]` is the
    /// element gathered `j`-th. Every element but the focused one loses the
    /// focus, and the focused one gets it last.
    pub fn commit_focusing<F: Focus>(self, elements: &mut Vec<F>) -> (r: FocusGroup<T>)
        requires
            self@.items.len() > 0,
            (exists|j: int| 0 <= j < self@.items.len() && spec_clicked(#[trigger] self@.items[j].0.hit))
                || self@.group.index < self@.items.len(),
            old(elements)@.len() == self@.items.len(),
        ensures
            r@.len == self@.items.len(),
            r@.index == spec_commit_index(self@.items, self@.group.index as int),
            r@.index < r@.len,
            r@.tag == Some(self@.items[r@.index as int].1),
            r@.keymaps == self@.items[r@.index as int].0.keymaps@,
            forall|d: Heading|
                is_nearest(
                    self@.items,
                    r@.index as int,
                    d,
                    self@.items.len() as int,
                    #[trigger] r@.transitions.spec_get(d) as int,
                ),
            final(elements)@.len() == old(elements)@.len(),
            forall|j: int|
                0 <= j < old(elements)@.len() ==> (#[trigger] final(elements)@[j]).spec_focus() == (j
                    == r@.index) && final(elements)@[j].spec_rect() == old(elements)@[j].spec_rect()
                    && final(elements)@[j].spec_keymaps() == old(elements)@[j].spec_keymaps()
                    && final(elements)@[j].spec_hit() == old(elements)@[j].spec_hit(),
    {
        let r = self.commit();
        let idx = r.focused();
        let ghost before = elements@;
        let n = elements.len();
        let mut j: usize = 0;
        while j < n
            invariant
                n == elements@.len(),
                n == before.len(),
                j <= n,
                idx < n,
                forall|i: int|
                    0 <= i < j && i != idx ==> !(#[trigger] elements@[i]).spec_focus() && elements@[i].spec_rect()
                        == before[i].spec_rect() && elements@[i].spec_keymaps() == before[i].spec_keymaps()
                        && elements@[i].spec_hit() == before[i].spec_hit(),
                forall|i: int| (j <= i < n || i == idx) && 0 <= i < n ==> #[trigger] elements@[i] == before[i],
            decreases n - j,
        {
            if j != idx {
                let mut e = elements.remove(j);
                e.set_focus(false);
                elements.insert(j, e);
            }
            j = j + 1;
        }
        let mut e = elements.remove(idx);
        e.set_focus(true);
        elements.insert(idx, e);
        r
    }

    /// Focuses the first clicked element, else keeps the group's focus; records
    /// the number of elements, the key maps and the tag of the focused element,
    /// and for each direction the nearest element in that direction. The
    /// elements learn whether they have the focus from
    /// [`FocusGroupItems::commit_focusing`], which commits too, or from
    /// [`FocusGroup::apply_focus`].
    #[verifier::rlimit(30)]
    pub fn commit(self) -> (r: FocusGroup<T>)
        requires
            self@.items.len() > 0,
            (exists|j: int| 0 <= j < self@.items.len() && spec_clicked(#[trigger] self@.items[j].0.hit))
                || self@.group.index < self@.items.len(),
        ensures
            r@.len == self@.items.len(),
            r@.index == spec_commit_index(self@.items, self@.group.index as int),
            r@.index < r@.len,
            r@.tag == Some(self@.items[r@.index as int].1),
            r@.keymaps == self@.items[r@.index as int].0.keymaps@,
            forall|d: Heading|
                is_nearest(
                    self@.items,
                    r@.index as int,
                    d,
                    self@.items.len() as int,
                    #[trigger] r@.transitions.spec_get(d) as int,
                ),
    {
        proof {
            use_type_invariant(&self);
        }
        let ghost its = self@.items;
        let FocusGroupItems { group: _, mut items, index } = self;
        let idx = match first_clicked(&items) {
            Some(i) => i,
            None => index,
        };
        proof {
            if exists|j: int| 0 <= j < its.len() && spec_clicked(#[trigger] its[j].0.hit) {
                let c = spec_commit_index(its, index as int);
                assert(0 <= c < its.len() && spec_clicked(its[c].0.hit) && forall|k: int|
                    0 <= k < c ==> !spec_clicked(#[trigger] its[k].0.hit));
                if c < idx {
                    assert(!spec_clicked(its[c].0.hit));
                }
                if idx < c {
                    assert(!spec_clicked(its[idx as int].0.hit));
                }
            }
        }
        let n = items.len();
        let focused_rect = items[idx].0.rect;
        let mut t = Transitions::splat(idx);
        let mut dist = Transitions::splat(usize::MAX);
        let mut i: usize = 0;
        while i < n
            invariant
                items@ == its,
                n == its.len(),
                idx < n,
                i <= n,
                focused_rect == its[idx as int].0.rect,
                tracks(its, idx as int, Heading::Down, i as int, t.down, dist.down),
                tracks(its, idx as int, Heading::Up, i as int, t.up, dist.up),
                tracks(its, idx as int, Heading::Left, i as int, t.left, dist.left),
                tracks(its, idx as int, Heading::Right, i as int, t.right, dist.right),
            decreases n - i,
        {
            let ghost ii = i as int;
            if i != idx {
                match (focused_rect, items[i].0.rect) {
                    (Some(f), Some(rect)) => {
                        let h = abs_diff_u16(rect.x, f.x);
                        let v = abs_diff_u16(rect.y, f.y);
                        if v > h {
                            if rect.y > f.y && dist.down > v {
                                dist.down = v;
                                t.down = i;
                            }
                            if rect.y < f.y && dist.up > v {
                                dist.up = v;
                                t.up = i;
                            }
                        } else {
                            if rect.x > f.x && dist.right > h {
                                dist.right = h;
                                t.right = i;
                            }
                            if rect.x < f.x && dist.left > h {
                                dist.left = h;
                                t.left = i;
                            }
                        }
                    },
                    _ => {},
                }
            }
            i = i + 1;
        }
        let (item, tag) = items.remove(idx);
        assert(forall|d: Heading|
            is_nearest(its, idx as int, d, its.len() as int, #[trigger] t.spec_get(d) as int)) by {
            assert forall|d: Heading|
                is_nearest(its, idx as int, d, its.len() as int, #[trigger] t.spec_get(d) as int) by {
                match d {
                    Heading::Down => {},
                    Heading::Up => {},
                    Heading::Left => {},
                    Heading::Right => {},
                }
            }
        }
        FocusGroup { index: idx, tag: Some(tag), len: n, current_keymaps: item.keymaps, transitions: t }
    }
}

} // verus!
