use vstd::prelude::*;
use crate::event::{Event, KeyCode, KeyModifiers, spec_is_press};
use crate::focus::{Focus, FocusEvent, KeyMap, spec_vim_ctrl_keymap_no_cycle, vim_ctrl_keymap_no_cycle};
use crate::geometry::Rect;
use crate::observe::{AreaRef, HitEvent, HitTest};

verus! {

/// A selectable list of `len` items.
#[derive(Debug)]
pub struct List {
    index: Option<usize>,
    len: usize,
    focused: bool,
    area_ref: AreaRef,
    hit_test: HitTest,
}

/// The state of a list, as a mathematical value.
pub struct ListView {
    pub index: Option<usize>,
    pub len: usize,
    pub focused: bool,
    pub area: Option<Rect>,
    pub hit: HitEvent,
}

/// What a list asks of its focus group.
#[derive(Clone, Copy, Debug, PartialEq, Eq, Structural)]
pub enum ListEvent {
    Nothing,
    FocusNext,
    FocusPrev,
}

impl View for List {
    type V = ListView;

    closed spec fn view(&self) -> ListView {
        ListView {
            index: self.index,
            len: self.len,
            focused: self.focused,
            area: self.area_ref@,
            hit: self.hit_test@,
        }
    }
}

/// `idx + offset`, saturating at both ends of `usize`.
pub open spec fn sat_add_signed(idx: usize, offset: isize) -> usize {
    let s = idx + offset;
    if s < 0 {
        0
    } else if s > usize::MAX {
        usize::MAX
    } else {
        s as usize
    }
}

/// The key moves the selection down: `j`, Down or Tab.
pub open spec fn spec_is_down_key(ev: Event) -> bool {
    ||| spec_is_press(ev, KeyCode::Char('j'), KeyModifiers::spec_none())
    ||| spec_is_press(ev, KeyCode::Down, KeyModifiers::spec_none())
    ||| spec_is_press(ev, KeyCode::Tab, KeyModifiers::spec_none())
}

/// The key moves the selection up: `k`, Up or Shift+BackTab.
pub open spec fn spec_is_up_key(ev: Event) -> bool {
    ||| spec_is_press(ev, KeyCode::Char('k'), KeyModifiers::spec_none())
    ||| spec_is_press(ev, KeyCode::Up, KeyModifiers::spec_none())
    ||| spec_is_press(ev, KeyCode::BackTab, KeyModifiers::spec_shift())
}

/// The key selects the first item: `g`.
pub open spec fn spec_is_first_key(ev: Event) -> bool {
    spec_is_press(ev, KeyCode::Char('g'), KeyModifiers::spec_none())
}

/// The key selects the last item: Shift with `g`.
pub open spec fn spec_is_last_key(ev: Event) -> bool {
    spec_is_press(ev, KeyCode::Char('g'), KeyModifiers::spec_shift())
}

impl ListView {
    pub open spec fn spec_select(self, idx: Option<usize>) -> ListView {
        ListView { index: idx, ..self }
    }

    /// The selection moved by `offset` and clamped to the list; no selection stays none.
    pub open spec fn spec_select_offset(self, offset: isize) -> ListView {
        match self.index {
            Some(i) => {
                let j = sat_add_signed(i, offset);
                let hi = (self.len - 1) as usize;
                self.spec_select(Some(if j > hi { hi } else { j }))
            },
            None => self,
        }
    }

    pub open spec fn spec_select_first(self) -> ListView {
        self.spec_select(Some(0))
    }

    /// The last item selected (an index past `isize::MAX` cannot be reached).
    pub open spec fn spec_select_last(self) -> ListView {
        let hi = (self.len - 1) as usize;
        self.spec_select(Some(if hi > isize::MAX { isize::MAX as usize } else { hi }))
    }

    /// `update` stops with a panic on this event: it needs the last index of
    /// an empty list.
    pub open spec fn spec_update_fails(self, ev: Event) -> bool {
        &&& self.focused
        &&& self.len == 0
        &&& {
            ||| spec_is_down_key(ev)
            ||| (spec_is_up_key(ev) && self.index is Some && self.index != Some(0usize))
            ||| (!spec_is_down_key(ev) && !spec_is_up_key(ev) && !spec_is_first_key(ev)
                && spec_is_last_key(ev))
        }
    }

    /// The list and its request after an event.
    pub open spec fn spec_update(self, ev: Event) -> (ListView, ListEvent) {
        if !self.focused {
            (self, ListEvent::Nothing)
        } else {
            let s = if self.index is None {
                self.spec_select_first()
            } else {
                self
            };
            if spec_is_down_key(ev) && s.index == Some((s.len - 1) as usize) {
                (s, ListEvent::FocusNext)
            } else if spec_is_up_key(ev) && s.index == Some(0usize) {
                (s, ListEvent::FocusPrev)
            } else if spec_is_down_key(ev) {
                (s.spec_select_offset(1isize), ListEvent::Nothing)
            } else if spec_is_up_key(ev) {
                (s.spec_select_offset(-1isize), ListEvent::Nothing)
            } else if spec_is_first_key(ev) {
                (s.spec_select_first(), ListEvent::Nothing)
            } else if spec_is_last_key(ev) {
                (s.spec_select_last(), ListEvent::Nothing)
            } else {
                (s, ListEvent::Nothing)
            }
        }
    }
}

fn saturating_add_signed(idx: usize, offset: isize) -> (r: usize)
    ensures
        r == sat_add_signed(idx, offset),
{
    if offset >= 0 {
        idx.saturating_add(offset as usize)
    } else {
        let m: usize = ((-(offset + 1)) as usize) + 1;
        idx.saturating_sub(m)
    }
}

impl Default for List {
    fn default() -> (l: List)
        ensures
            l@.index == Some(0usize),
            l@.len == 0,
            !l@.focused,
            l@.area == None::<Rect>,
            l@.hit == HitEvent::Nothing,
    {
        List {
            index: Some(0),
            len: 0,
            focused: false,
            area_ref: AreaRef::empty(),
            hit_test: HitTest::empty(),
        }
    }
}

impl List {
    /// An empty, unfocused list with the first item selected.
    pub fn new() -> (l: List)
        ensures
            l@.index == Some(0usize),
            l@.len == 0,
            !l@.focused,
            l@.area == None::<Rect>,
            l@.hit == HitEvent::Nothing,
    {
        List::default()
    }

    /// The selected item, if any.
    pub fn selected(&self) -> (r: Option<usize>)
        ensures
            r == self@.index,
    {
        self.index
    }

    /// The item the view highlights: the selected one, while the list is focused.
    pub fn highlighted(&self) -> (r: Option<usize>)
        ensures
            r == (if self@.focused { self@.index } else { None }),
    {
        if self.focused {
            self.index
        } else {
            None
        }
    }

    /// Records the number of items, as the list view does when it draws them.
    pub fn set_len(&mut self, len: usize)
        ensures
            final(self)@ == (ListView { len, ..old(self)@ }),
    {
        self.len = len;
    }

    /// Records the area the list was drawn in, as the renderer does.
    pub fn set_area(&mut self, area: Rect)
        ensures
            final(self)@ == (ListView { area: Some(area), ..old(self)@ }),
    {
        self.area_ref.set(area);
    }

    /// Records the last hit event of the list, as the renderer does.
    pub fn set_hit(&mut self, hit: HitEvent)
        ensures
            final(self)@ == (ListView { hit, ..old(self)@ }),
    {
        self.hit_test.set(hit);
    }

    pub fn select(self, idx: Option<usize>) -> (r: List)
        ensures
            r@ == self@.spec_select(idx),
    {
        List { index: idx, ..self }
    }

    /// Whether `idx` is the index of an item.
    pub fn contains(&self, idx: usize) -> (b: bool)
        ensures
            b == (idx < self@.len),
    {
        idx < self.len
    }

    /// Moves the selection by `offset`, clamped to the list.
    pub fn select_offset(self, offset: isize) -> (r: List)
        requires
            self@.index is Some ==> self@.len > 0,
        ensures
            r@ == self@.spec_select_offset(offset),
    {
        let len = self.len;
        let new_idx = match self.index {
            Some(idx) => {
                let j = saturating_add_signed(idx, offset);
                let hi = len - 1;
                Some(
                    if j > hi {
                        hi
                    } else {
                        j
                    },
                )
            },
            None => None,
        };
        self.select(new_idx)
    }

    pub fn select_next(self) -> (r: List)
        requires
            self@.index is Some ==> self@.len > 0,
        ensures
            r@ == self@.spec_select_offset(1isize),
    {
        self.select_offset(1)
    }

    pub fn select_prev(self) -> (r: List)
        requires
            self@.index is Some ==> self@.len > 0,
        ensures
            r@ == self@.spec_select_offset(-1isize),
    {
        self.select_offset(-1)
    }

    pub fn select_first(self) -> (r: List)
        ensures
            r@ == self@.spec_select_first(),
    {
        List { index: Some(0), ..self }
    }

    pub fn select_last(self) -> (r: List)
        requires
            self@.len > 0,
        ensures
            r@ == self@.spec_select_last(),
    {
        self.select_first().select_offset(isize::MAX)
    }

    /// Moves the selection with `j`/Down/Tab and `k`/Up/Shift+BackTab, asking the
    /// focus group to move on at either end; `g` and Shift+`g` select the first
    /// and the last item.
    pub fn update(self, event: &Event) -> (r: (List, ListEvent))
        requires
            !self@.spec_update_fails(*event),
        ensures
            (r.0@, r.1) == self@.spec_update(*event),
    {
        if !self.focused {
            return (self, ListEvent::Nothing);
        }
        let mut s = self;
        if s.index.is_none() {
            s = s.select_first();
        }
        let down = event.is_plain_press(KeyCode::Char('j')) || event.is_plain_press(KeyCode::Down)
            || event.is_plain_press(KeyCode::Tab);
        let up = event.is_plain_press(KeyCode::Char('k')) || event.is_plain_press(KeyCode::Up)
            || event.is_press(KeyCode::BackTab, KeyModifiers::shift());
        if down && s.index == Some(s.len - 1) {
            (s, ListEvent::FocusNext)
        } else if up && s.index == Some(0) {
            (s, ListEvent::FocusPrev)
        } else if down {
            (s.select_next(), ListEvent::Nothing)
        } else if up {
            (s.select_prev(), ListEvent::Nothing)
        } else if event.is_plain_press(KeyCode::Char('g')) {
            (s.select_first(), ListEvent::Nothing)
        } else if event.is_press(KeyCode::Char('g'), KeyModifiers::shift()) {
            (s.select_last(), ListEvent::Nothing)
        } else {
            (s, ListEvent::Nothing)
        }
    }
}

impl ListEvent {
    pub open spec fn spec_focus_event(self) -> FocusEvent {
        match self {
            ListEvent::FocusNext => FocusEvent::Next,
            ListEvent::FocusPrev => FocusEvent::Prev,
            ListEvent::Nothing => FocusEvent::Nothing,
        }
    }
}

impl From<ListEvent> for FocusEvent {
    fn from(value: ListEvent) -> (r: FocusEvent) {
        match value {
            ListEvent::FocusNext => FocusEvent::Next,
            ListEvent::FocusPrev => FocusEvent::Prev,
            ListEvent::Nothing => FocusEvent::Nothing,
        }
    }
}

impl vstd::std_specs::convert::FromSpecImpl<ListEvent> for FocusEvent {
    open spec fn obeys_from_spec() -> bool {
        true
    }

    open spec fn from_spec(v: ListEvent) -> FocusEvent {
        v.spec_focus_event()
    }
}

impl Focus for List {
    closed spec fn spec_focus(&self) -> bool {
        self.focused
    }

    closed spec fn spec_rect(&self) -> Option<Rect> {
        self.area_ref@
    }

    closed spec fn spec_keymaps(&self) -> Seq<KeyMap> {
        seq![spec_vim_ctrl_keymap_no_cycle()]
    }

    closed spec fn spec_hit(&self) -> HitEvent {
        self.hit_test@
    }

    fn set_focus(&mut self, value: bool)
        ensures
            final(self)@ == (ListView { focused: value, ..old(self)@ }),
    {
        self.focused = value;
    }

    fn focus(&self) -> (b: bool) {
        self.focused
    }

    fn rect(&self) -> (r: Option<Rect>) {
        self.area_ref.get()
    }

    fn keymaps(&self) -> (r: Vec<KeyMap>) {
        let mut v = Vec::new();
        v.push(vim_ctrl_keymap_no_cycle());
        v
    }

    fn hit_test(&self) -> (r: HitEvent) {
        self.hit_test.get()
    }
}

/// The sum of the numbers.
pub open spec fn seq_sum(s: Seq<usize>) -> int
    decreases s.len(),
{
    if s.len() == 0 {
        0
    } else {
        seq_sum(s.drop_last()) + s.last()
    }
}

/// The largest of the numbers, zero for none.
pub open spec fn seq_max(s: Seq<usize>) -> int
    decreases s.len(),
{
    if s.len() == 0 {
        0
    } else if seq_max(s.drop_last()) < s.last() {
        s.last() as int
    } else {
        seq_max(s.drop_last())
    }
}

/// The cells that a compact list view takes, as `(width, height)`: its items
/// stacked, as wide as the widest item and as high as all items together, each
/// count cut to 16 bits.
pub fn compact_size(widths: &Vec<usize>, heights: &Vec<usize>) -> (r: (u16, u16))
    requires
        seq_sum(heights@) <= usize::MAX,
    ensures
        r.0 == seq_max(widths@) % 0x10000,
        r.1 == seq_sum(heights@) % 0x10000,
{
    let mut height: usize = 0;
    let mut i: usize = 0;
    while i < heights.len()
        invariant
            i <= heights@.len(),
            height == seq_sum(heights@.take(i as int)),
            seq_sum(heights@) <= usize::MAX,
        decreases heights@.len() - i,
    {
        proof {
            assert(heights@.take(i as int + 1).drop_last() =~= heights@.take(i as int));
            lemma_seq_sum_prefix(heights@, i as int + 1);
        }
        height = height + heights[i];
        i = i + 1;
    }
    assert(heights@.take(heights@.len() as int) =~= heights@);
    let mut width: usize = 0;
    let mut j: usize = 0;
    while j < widths.len()
        invariant
            j <= widths@.len(),
            width == seq_max(widths@.take(j as int)),
        decreases widths@.len() - j,
    {
        proof {
            assert(widths@.take(j as int + 1).drop_last() =~= widths@.take(j as int));
        }
        if width < widths[j] {
            width = widths[j];
        }
        j = j + 1;
    }
    assert(widths@.take(widths@.len() as int) =~= widths@);
    let w = width as u16;
    let h = height as u16;
    assert(w == width % 0x10000) by (bit_vector)
        requires
            w == width as u16,
    ;
    assert(h == height % 0x10000) by (bit_vector)
        requires
            h == height as u16,
    ;
    (w, h)
}

/// A prefix of the numbers sums to no more than all of them.
proof fn lemma_seq_sum_prefix(s: Seq<usize>, n: int)
    requires
        0 <= n <= s.len(),
    ensures
        seq_sum(s.take(n)) <= seq_sum(s),
    decreases s.len() - n,
{
    if n < s.len() {
        lemma_seq_sum_prefix(s, n + 1);
        assert(s.take(n + 1).drop_last() =~= s.take(n));
    } else {
        assert(s.take(n) =~= s);
    }
}

} // verus!
