use vstd::prelude::*;
use crate::components::common::FocusItemState;
use crate::event::{Event, KeyCode, KeyModifiers, spec_is_press};
use crate::focus::{ctrl_keymap, spec_ctrl_keymap, spec_vim_ctrl_keymap, vim_ctrl_keymap, Focus, KeyMap};
use crate::geometry::{sat_add_u16, sat_sub_u16, Position, Rect};
use crate::observe::HitEvent;

verus! {

/// How far a scroll view is scrolled, in cells from its top-left corner.
#[derive(Clone, Copy, Debug, PartialEq, Eq, Structural, Default)]
pub struct ScrollViewState {
    pub offset: Position,
}

impl ScrollViewState {
    pub fn scroll_down(&mut self)
        ensures
            final(self).offset == (Position { y: sat_add_u16(old(self).offset.y, 1), ..old(self).offset }),
    {
        self.offset.y = self.offset.y.saturating_add(1);
    }

    pub fn scroll_up(&mut self)
        ensures
            final(self).offset == (Position { y: sat_sub_u16(old(self).offset.y, 1), ..old(self).offset }),
    {
        self.offset.y = self.offset.y.saturating_sub(1);
    }

    pub fn scroll_right(&mut self)
        ensures
            final(self).offset == (Position { x: sat_add_u16(old(self).offset.x, 1), ..old(self).offset }),
    {
        self.offset.x = self.offset.x.saturating_add(1);
    }

    pub fn scroll_left(&mut self)
        ensures
            final(self).offset == (Position { x: sat_sub_u16(old(self).offset.x, 1), ..old(self).offset }),
    {
        self.offset.x = self.offset.x.saturating_sub(1);
    }

    /// Back to the top-left corner.
    pub fn scroll_to_top(&mut self)
        ensures
            final(self).offset == (Position { x: 0, y: 0 }),
    {
        self.offset = Position { x: 0, y: 0 };
    }

    /// Down as far as possible; drawing clamps the offset to the content.
    pub fn scroll_to_bottom(&mut self)
        ensures
            final(self).offset == (Position { y: u16::MAX, ..old(self).offset }),
    {
        self.offset.y = u16::MAX;
    }
}

/// A focusable view that scrolls its content.
#[derive(Debug, Default)]
pub struct Pager {
    focus: FocusItemState,
    inner_state: ScrollViewState,
}

/// The state of a pager, as a mathematical value.
pub struct PagerView {
    pub focused: bool,
    pub area: Option<Rect>,
    pub hit: HitEvent,
    pub offset: Position,
}

impl View for Pager {
    type V = PagerView;

    closed spec fn view(&self) -> PagerView {
        PagerView {
            focused: self.focus.focused,
            area: self.focus.area_ref@,
            hit: self.focus.hit_test@,
            offset: self.inner_state.offset,
        }
    }
}

/// `a + n`, saturating at `u16::MAX`.
pub open spec fn sat_add_usize_u16(a: u16, n: usize) -> u16 {
    if a + n > u16::MAX { u16::MAX } else { (a + n) as u16 }
}

/// `a - n`, saturating at zero.
pub open spec fn sat_sub_usize_u16(a: u16, n: usize) -> u16 {
    if a < n { 0 } else { (a - n) as u16 }
}

impl PagerView {
    pub open spec fn spec_scroll_down_by(self, n: usize) -> PagerView {
        PagerView { offset: Position { y: sat_add_usize_u16(self.offset.y, n), ..self.offset }, ..self }
    }

    pub open spec fn spec_scroll_up_by(self, n: usize) -> PagerView {
        PagerView { offset: Position { y: sat_sub_usize_u16(self.offset.y, n), ..self.offset }, ..self }
    }

    /// The pager after an event: `j`/Down and `k`/Up scroll one row, `h`/Left and
    /// `l`/Right one column, `g` to the top and Shift+`G` to the bottom.
    pub open spec fn spec_update(self, ev: Event) -> PagerView {
        let none = KeyModifiers::spec_none();
        if !self.focused {
            self
        } else if spec_is_press(ev, KeyCode::Char('j'), none) || spec_is_press(ev, KeyCode::Down, none) {
            self.spec_scroll_down_by(1)
        } else if spec_is_press(ev, KeyCode::Char('k'), none) || spec_is_press(ev, KeyCode::Up, none) {
            self.spec_scroll_up_by(1)
        } else if spec_is_press(ev, KeyCode::Char('h'), none) || spec_is_press(ev, KeyCode::Left, none) {
            PagerView { offset: Position { x: sat_sub_u16(self.offset.x, 1), ..self.offset }, ..self }
        } else if spec_is_press(ev, KeyCode::Char('l'), none) || spec_is_press(ev, KeyCode::Right, none) {
            PagerView { offset: Position { x: sat_add_u16(self.offset.x, 1), ..self.offset }, ..self }
        } else if spec_is_press(ev, KeyCode::Char('g'), none) {
            PagerView { offset: Position { x: 0, y: 0 }, ..self }
        } else if spec_is_press(ev, KeyCode::Char('G'), KeyModifiers::spec_shift()) {
            PagerView { offset: Position { y: u16::MAX, ..self.offset }, ..self }
        } else {
            self
        }
    }
}

impl Pager {
    /// An unfocused pager at the top of its content.
    pub fn new() -> (p: Pager)
        ensures
            !p@.focused,
            p@.area == None::<Rect>,
            p@.hit == HitEvent::Nothing,
            p@.offset == (Position { x: 0, y: 0 }),
    {
        Pager {
            focus: FocusItemState {
                focused: false,
                area_ref: crate::observe::AreaRef::empty(),
                hit_test: crate::observe::HitTest::empty(),
            },
            inner_state: ScrollViewState { offset: Position { x: 0, y: 0 } },
        }
    }

    /// How far the content is scrolled.
    pub fn offset(&self) -> (p: Position)
        ensures
            p == self@.offset,
    {
        self.inner_state.offset
    }

    /// Records the area the pager was drawn in, as the renderer does.
    pub fn set_area(&mut self, area: Rect)
        ensures
            final(self)@ == (PagerView { area: Some(area), ..old(self)@ }),
    {
        self.focus.area_ref.set(area);
    }

    /// Records the last hit event of the pager, as the renderer does.
    pub fn set_hit(&mut self, hit: HitEvent)
        ensures
            final(self)@ == (PagerView { hit, ..old(self)@ }),
    {
        self.focus.hit_test.set(hit);
    }

    /// Scrolls down by `scroll` rows, one at a time.
    pub fn scroll_down_by(self, scroll: usize) -> (r: Pager)
        ensures
            r@ == self@.spec_scroll_down_by(scroll),
    {
        let mut s = self;
        let mut i: usize = 0;
        while i < scroll
            invariant
                i <= scroll,
                s@ == self@.spec_scroll_down_by(i),
            decreases scroll - i,
        {
            s.inner_state.scroll_down();
            i = i + 1;
        }
        s
    }

    /// Scrolls up by `scroll` rows, one at a time.
    pub fn scroll_up_by(self, scroll: usize) -> (r: Pager)
        ensures
            r@ == self@.spec_scroll_up_by(scroll),
    {
        let mut s = self;
        let mut i: usize = 0;
        while i < scroll
            invariant
                i <= scroll,
                s@ == self@.spec_scroll_up_by(i),
            decreases scroll - i,
        {
            s.inner_state.scroll_up();
            i = i + 1;
        }
        s
    }

    pub fn scroll_down(self) -> (r: Pager)
        ensures
            r@ == self@.spec_scroll_down_by(1),
    {
        self.scroll_down_by(1)
    }

    pub fn scroll_up(self) -> (r: Pager)
        ensures
            r@ == self@.spec_scroll_up_by(1),
    {
        self.scroll_up_by(1)
    }

    /// Scrolls with the keys of a pager while focused.
    pub fn update(self, event: &Event) -> (r: Pager)
        ensures
            r@ == self@.spec_update(*event),
    {
        if !self.focus.focused {
            return self;
        }
        let mut s = self;
        if event.is_plain_press(KeyCode::Char('j')) || event.is_plain_press(KeyCode::Down) {
            s.scroll_down()
        } else if event.is_plain_press(KeyCode::Char('k')) || event.is_plain_press(KeyCode::Up) {
            s.scroll_up()
        } else if event.is_plain_press(KeyCode::Char('h')) || event.is_plain_press(KeyCode::Left) {
            s.inner_state.scroll_left();
            s
        } else if event.is_plain_press(KeyCode::Char('l')) || event.is_plain_press(KeyCode::Right) {
            s.inner_state.scroll_right();
            s
        } else if event.is_plain_press(KeyCode::Char('g')) {
            s.inner_state.scroll_to_top();
            s
        } else if event.is_press(KeyCode::Char('G'), KeyModifiers::shift()) {
            s.inner_state.scroll_to_bottom();
            s
        } else {
            s
        }
    }
}

impl Focus for Pager {
    closed spec fn spec_focus(&self) -> bool {
        self.focus.focused
    }

    closed spec fn spec_rect(&self) -> Option<Rect> {
        self.focus.area_ref@
    }

    closed spec fn spec_keymaps(&self) -> Seq<KeyMap> {
        seq![spec_vim_ctrl_keymap(), spec_ctrl_keymap()]
    }

    closed spec fn spec_hit(&self) -> HitEvent {
        self.focus.hit_test@
    }

    fn set_focus(&mut self, value: bool)
        ensures
            final(self)@ == (PagerView { focused: value, ..old(self)@ }),
    {
        self.focus.focused = value;
    }

    fn focus(&self) -> (b: bool) {
        self.focus.focused
    }

    fn rect(&self) -> (r: Option<Rect>) {
        self.focus.area_ref.get()
    }

    fn keymaps(&self) -> (r: Vec<KeyMap>) {
        let mut v = Vec::new();
        v.push(vim_ctrl_keymap());
        v.push(ctrl_keymap());
        assert(v@ =~= seq![spec_vim_ctrl_keymap(), spec_ctrl_keymap()]);
        v
    }

    fn hit_test(&self) -> (r: HitEvent) {
        self.focus.hit_test.get()
    }
}

} // verus!
