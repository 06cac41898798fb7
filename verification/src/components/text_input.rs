use vstd::prelude::*;
use crate::event::{Event, KeyCode, KeyEventKind, KeyModifiers, spec_is_ascii, spec_is_press, spec_to_ascii_uppercase};
use crate::focus::{ctrl_keymap, spec_ctrl_keymap, spec_vim_ctrl_keymap, vim_ctrl_keymap, Focus, FocusEvent, KeyMap};
use crate::geometry::{sat_add_u16, sat_sub_u16, Rect};
use crate::observe::{AreaRef, HitEvent, HitTest};
use crate::components::utf8::{
    char_index, lemma_boundary_order, lemma_utf8_full, spec_char_index, spec_is_boundary, spec_utf8_len,
    utf8_len,
};

verus! {

/// A one-line text input with a cursor and a mouse or keyboard selection.
///
/// Positions count bytes of the text in UTF-8, as a `String`'s indices do. A
/// copy or cut leaves the text to put on the clipboard in the input, for
/// [`TextInput::take_clipboard`].
#[derive(Debug, Default)]
pub struct TextInput {
    text: Vec<char>,
    focused: bool,
    cursor: u16,
    area_ref: AreaRef,
    hit_test: HitTest,
    selection: Option<Selection>,
    clipboard: Option<Vec<char>>,
}

/// A selection from `start` to `end`, both included.
#[derive(Clone, Copy, Debug, PartialEq, Eq, Structural)]
pub struct Selection {
    pub start: u16,
    pub end: u16,
}

/// The state of a text input, as a mathematical value.
pub struct TextInputView {
    pub text: Seq<char>,
    pub focused: bool,
    pub cursor: u16,
    pub area: Option<Rect>,
    pub hit: HitEvent,
    pub selection: Option<(u16, u16)>,
    pub clipboard: Option<Seq<char>>,
}

/// What a text input reports of an event.
#[derive(Clone, Copy, Debug, PartialEq, Eq, Structural)]
pub enum TextInputEvent {
    Nothing,
    Confirm,
}

impl View for TextInput {
    type V = TextInputView;

    closed spec fn view(&self) -> TextInputView {
        TextInputView {
            text: self.text@,
            focused: self.focused,
            cursor: self.cursor,
            area: self.area_ref@,
            hit: self.hit_test@,
            selection: match self.selection {
                Some(s) => Some((s.start, s.end)),
                None => None,
            },
            clipboard: match self.clipboard {
                Some(c) => Some(c@),
                None => None,
            },
        }
    }
}

/// The characters of `c` in upper case, as `char::to_uppercase` gives them.
pub uninterp spec fn spec_char_to_uppercase(c: char) -> Seq<char>;

/// Calls `char::to_uppercase`. Its result is named: it comes from the Unicode
/// case tables of the standard library. As its documentation says, it is one or
/// more characters; for an ASCII character it is that character's ASCII
/// capital (a small letter becomes its capital, any other ASCII character
/// stays as it is), which is what Unicode maps ASCII to.
#[verifier::external_body]
fn char_to_uppercase(c: char) -> (r: Vec<char>)
    ensures
        r@ == spec_char_to_uppercase(c),
        r@.len() >= 1,
        spec_is_ascii(c) ==> r@ == seq![spec_to_ascii_uppercase(c)],
{
    c.to_uppercase().collect()
}

/// The characters that Shift turns `c` into: the ASCII capital of an ASCII
/// character, else what `char::to_uppercase` gives.
pub open spec fn spec_shifted(c: char) -> Seq<char> {
    if spec_is_ascii(c) {
        seq![spec_to_ascii_uppercase(c)]
    } else {
        spec_char_to_uppercase(c)
    }
}

/// Collects characters into a `String` (`FromIterator<char>` for `String`),
/// which holds exactly those characters in that order.
#[verifier::external_body]
fn chars_to_string(v: &Vec<char>) -> (s: String)
    ensures
        s@ == v@,
{
    v.iter().collect()
}

/// `a + off`, saturating at both ends of `u16`.
pub open spec fn sat_add_signed_u16(a: u16, off: i16) -> u16 {
    let s = a + off;
    if s < 0 {
        0
    } else if s > u16::MAX {
        u16::MAX
    } else {
        s as u16
    }
}

fn saturating_add_signed_u16(a: u16, off: i16) -> (r: u16)
    ensures
        r == sat_add_signed_u16(a, off),
{
    if off >= 0 {
        a.saturating_add(off as u16)
    } else {
        let m: u16 = ((-(off + 1)) as u16) + 1;
        a.saturating_sub(m)
    }
}

pub open spec fn min_u16(a: u16, b: u16) -> u16 {
    if a < b { a } else { b }
}

/// The key is a press of Left or Right (whatever the modifiers).
pub open spec fn spec_is_arrow(ev: Event, code: KeyCode) -> bool {
    ev matches Event::Key(k) && k.code == code && k.kind == KeyEventKind::Press
}

/// The modifiers ask for a clipboard operation: Super with Shift, or Control.
pub open spec fn spec_clipboard_mods(m: KeyModifiers) -> bool {
    m.spec_contains(KeyModifiers::spec_super().spec_union(KeyModifiers::spec_shift()))
        || m.spec_contains(KeyModifiers::spec_control())
}

/// A press of `lower` or `upper` with clipboard modifiers.
pub open spec fn spec_is_clipboard_key(ev: Event, lower: char, upper: char) -> bool {
    ev matches Event::Key(k) && (k.code == KeyCode::Char(lower) || k.code == KeyCode::Char(upper))
        && k.kind == KeyEventKind::Press && spec_clipboard_mods(k.modifiers)
}

/// Backspace with exactly Control or exactly Meta, of any kind.
pub open spec fn spec_is_clear_key(ev: Event) -> bool {
    ev matches Event::Key(k) && k.code == KeyCode::Backspace && (k.modifiers
        == KeyModifiers::spec_control() || k.modifiers == KeyModifiers::spec_meta())
}

/// Backspace, of any kind and with any modifiers.
pub open spec fn spec_is_backspace(ev: Event) -> bool {
    ev matches Event::Key(k) && k.code == KeyCode::Backspace
}

impl TextInputView {
    /// The length of the text in bytes, as a position.
    pub open spec fn len16(self) -> u16 {
        spec_utf8_len(self.text) as u16
    }

    pub open spec fn spec_no_selection(self) -> TextInputView {
        TextInputView { selection: None, ..self }
    }

    pub open spec fn spec_move_cursor_at(self, c: u16) -> TextInputView {
        TextInputView { cursor: min_u16(c, self.len16()), ..self }
    }

    pub open spec fn spec_move_cursor(self, off: i16) -> TextInputView {
        self.spec_move_cursor_at(sat_add_signed_u16(self.cursor, off))
    }

    pub open spec fn spec_ensure_selection(self) -> TextInputView {
        if self.selection is None {
            TextInputView { selection: Some((self.cursor, self.cursor)), ..self }
        } else {
            self
        }
    }

    /// The selection stretched to the screen column `x`, read against the area
    /// of the input (two columns of prompt come first).
    pub open spec fn spec_update_selection(self, x: u16) -> TextInputView {
        match self.area {
            None => self,
            Some(rect) => {
                let x2 = sat_sub_u16(x, (rect.x + 2) as u16);
                match self.selection {
                    Some((s, e)) => {
                        if x2 < s {
                            TextInputView { selection: Some((x2, min_u16(e, self.len16()))), ..self }
                        } else {
                            TextInputView { selection: Some((s, min_u16(x2, self.len16()))), ..self }
                        }
                    },
                    None => TextInputView { selection: Some((x2, x2)), ..self },
                }
            },
        }
    }

    pub open spec fn spec_move_selection(self, off: i16) -> TextInputView {
        if self.selection is None {
            self
        } else {
            self.spec_update_selection(sat_add_signed_u16(self.cursor, off))
        }
    }

    /// Whether removing the selection (from its start up to, not including, its
    /// end) cuts the text between characters.
    pub open spec fn spec_delete_ok(self) -> bool {
        match self.selection {
            Some((s, e)) => s <= e && spec_is_boundary(self.text, s as int) && spec_is_boundary(self.text, e as int),
            None => true,
        }
    }

    /// The text from the selection's start up to, not including, its end,
    /// removed; the cursor at the start.
    pub open spec fn spec_delete_selection(self) -> TextInputView {
        match self.selection {
            None => self,
            Some((s, e)) => TextInputView {
                text: self.text.subrange(0, spec_char_index(self.text, s as int)) + self.text.subrange(
                    spec_char_index(self.text, e as int),
                    self.text.len() as int,
                ),
                cursor: s,
                selection: None,
                ..self
            },
        }
    }

    /// The selected text, both ends included, held for the clipboard; empty when
    /// the selection does not cut the text between characters.
    pub open spec fn spec_copy(self) -> TextInputView {
        match self.selection {
            None => self,
            Some((s, e)) => TextInputView {
                clipboard: Some(
                    if s <= e + 1 && spec_is_boundary(self.text, s as int) && spec_is_boundary(
                        self.text,
                        e + 1,
                    ) {
                        self.text.subrange(spec_char_index(self.text, s as int), spec_char_index(self.text, e + 1))
                    } else {
                        Seq::empty()
                    },
                ),
                ..self
            },
        }
    }

    /// The rectangle's left column is too large for the prompt offset.
    pub open spec fn spec_area_overflows(self) -> bool {
        self.area matches Some(r) && r.x > u16::MAX - 2
    }

    /// The effect of the last hit event: a drag moves the cursor and stretches
    /// the selection, a click puts the cursor and an empty selection there, a
    /// click with no area drops the selection.
    pub open spec fn spec_after_hit(self) -> TextInputView {
        match self.hit {
            HitEvent::Drag(x, _) => match self.area {
                Some(rect) => self.spec_move_cursor_at(sat_sub_u16(x, (rect.x + 2) as u16)).spec_update_selection(x),
                None => self,
            },
            HitEvent::Clicked(x, _) => match self.area {
                Some(rect) => {
                    let c = min_u16(sat_sub_u16(x, (rect.x + 2) as u16), self.len16());
                    TextInputView { cursor: c, selection: Some((c, c)), ..self }
                },
                None => self.spec_no_selection(),
            },
            _ => self,
        }
    }

    /// The text after typing `ins` at the cursor; the cursor moves one byte.
    pub open spec fn spec_insert(self, ins: Seq<char>) -> TextInputView {
        TextInputView {
            text: self.text.subrange(0, spec_char_index(self.text, self.cursor as int)) + ins
                + self.text.subrange(spec_char_index(self.text, self.cursor as int), self.text.len() as int),
            cursor: (self.cursor + 1) as u16,
            ..self
        }
    }

    /// The input before inserting a typed character: the selection removed.
    pub open spec fn spec_before_char(self) -> TextInputView {
        if self.selection is Some {
            self.spec_delete_selection().spec_no_selection()
        } else {
            self
        }
    }

    /// `update` stops with a panic on this event: the prompt offset overflows,
    /// the selection to remove does not cut the text between characters, or
    /// the cursor to type at does not lie between characters or is at the last
    /// position.
    pub open spec fn spec_update_fails(self, ev: Event) -> bool {
        &&& self.focused
        &&& {
            ||| ((self.hit is Drag || self.hit is Clicked) && self.spec_area_overflows())
            ||| {
                let v1 = self.spec_after_hit();
                match ev {
                    Event::Key(k) => {
                        if spec_is_arrow(ev, KeyCode::Left) || spec_is_arrow(ev, KeyCode::Right) {
                            k.modifiers.shift && v1.spec_area_overflows()
                        } else if spec_is_press(ev, KeyCode::Enter, KeyModifiers::spec_none()) {
                            false
                        } else if spec_is_clipboard_key(ev, 'c', 'C') {
                            false
                        } else if spec_is_clipboard_key(ev, 'x', 'X') {
                            !v1.spec_delete_ok()
                        } else if spec_is_clear_key(ev) {
                            false
                        } else if spec_is_backspace(ev) {
                            v1.selection is Some && !v1.spec_delete_ok()
                        } else {
                            match k.code {
                                KeyCode::Char(_) => {
                                    ||| (v1.selection is Some && !v1.spec_delete_ok())
                                    ||| {
                                        let v2 = v1.spec_before_char();
                                        &&& k.modifiers.spec_difference(KeyModifiers::spec_shift()).spec_is_empty()
                                        &&& (!spec_is_boundary(v2.text, v2.cursor as int) || v2.cursor == u16::MAX)
                                    }
                                },
                                _ => false,
                            }
                        }
                    },
                    _ => false,
                }
            }
        }
    }

    /// The input and its report after an event.
    pub open spec fn spec_update(self, ev: Event) -> (TextInputView, TextInputEvent) {
        if !self.focused {
            (self, TextInputEvent::Nothing)
        } else {
            let v1 = self.spec_after_hit();
            match ev {
                Event::Key(k) => {
                    if spec_is_arrow(ev, KeyCode::Left) {
                        let v2 = if k.modifiers.shift {
                            v1.spec_ensure_selection().spec_move_selection(-1i16)
                        } else {
                            v1
                        };
                        (v2.spec_move_cursor(-1i16), TextInputEvent::Nothing)
                    } else if spec_is_arrow(ev, KeyCode::Right) {
                        let v2 = if k.modifiers.shift {
                            v1.spec_ensure_selection().spec_move_selection(1i16)
                        } else {
                            v1
                        };
                        (v2.spec_move_cursor(1i16), TextInputEvent::Nothing)
                    } else if spec_is_press(ev, KeyCode::Enter, KeyModifiers::spec_none()) {
                        (v1.spec_no_selection(), TextInputEvent::Confirm)
                    } else if spec_is_clipboard_key(ev, 'c', 'C') {
                        (v1.spec_copy(), TextInputEvent::Nothing)
                    } else if spec_is_clipboard_key(ev, 'x', 'X') {
                        (v1.spec_copy().spec_delete_selection(), TextInputEvent::Nothing)
                    } else if spec_is_clear_key(ev) {
                        (TextInputView { text: Seq::empty(), cursor: 0, ..v1 }, TextInputEvent::Nothing)
                    } else if spec_is_backspace(ev) {
                        if v1.selection is None {
                            (
                                TextInputView {
                                    text: if v1.text.len() > 0 { v1.text.drop_last() } else { v1.text },
                                    cursor: sat_sub_u16(v1.cursor, 1),
                                    ..v1
                                },
                                TextInputEvent::Nothing,
                            )
                        } else {
                            (v1.spec_delete_selection(), TextInputEvent::Nothing)
                        }
                    } else {
                        match k.code {
                            KeyCode::Char(ch) => {
                                let v2 = v1.spec_before_char();
                                if !k.modifiers.spec_difference(KeyModifiers::spec_shift()).spec_is_empty() {
                                    (v2, TextInputEvent::Nothing)
                                } else if k.modifiers.shift {
                                    (v2.spec_insert(spec_shifted(ch)), TextInputEvent::Nothing)
                                } else {
                                    (v2.spec_insert(seq![ch]), TextInputEvent::Nothing)
                                }
                            },
                            _ => (v1, TextInputEvent::Nothing),
                        }
                    }
                },
                _ => (v1, TextInputEvent::Nothing),
            }
        }
    }
}

/// `v[0..s] + ins + v[e..]`.
fn splice(v: &Vec<char>, s: usize, e: usize, ins: &Vec<char>) -> (r: Vec<char>)
    requires
        s <= e <= v@.len(),
    ensures
        r@ == v@.subrange(0, s as int) + ins@ + v@.subrange(e as int, v@.len() as int),
{
    let mut r: Vec<char> = Vec::new();
    let mut i: usize = 0;
    while i < s
        invariant
            i <= s <= e <= v@.len(),
            r@ == v@.subrange(0, i as int),
        decreases s - i,
    {
        r.push(v[i]);
        i = i + 1;
        assert(r@ =~= v@.subrange(0, i as int));
    }
    let mut j: usize = 0;
    while j < ins.len()
        invariant
            j <= ins@.len(),
            r@ == v@.subrange(0, s as int) + ins@.subrange(0, j as int),
        decreases ins.len() - j,
    {
        r.push(ins[j]);
        j = j + 1;
        assert(r@ =~= v@.subrange(0, s as int) + ins@.subrange(0, j as int));
    }
    assert(ins@.subrange(0, ins@.len() as int) =~= ins@);
    let mut k: usize = e;
    while k < v.len()
        invariant
            e <= k <= v@.len(),
            r@ == v@.subrange(0, s as int) + ins@ + v@.subrange(e as int, k as int),
        decreases v.len() - k,
    {
        r.push(v[k]);
        k = k + 1;
        assert(r@ =~= v@.subrange(0, s as int) + ins@ + v@.subrange(e as int, k as int));
    }
    r
}

/// `v[s..e]`.
fn slice_of(v: &Vec<char>, s: usize, e: usize) -> (r: Vec<char>)
    requires
        s <= e <= v@.len(),
    ensures
        r@ == v@.subrange(s as int, e as int),
{
    let mut r: Vec<char> = Vec::new();
    let mut i: usize = s;
    while i < e
        invariant
            s <= i <= e <= v@.len(),
            r@ == v@.subrange(s as int, i as int),
        decreases e - i,
    {
        r.push(v[i]);
        i = i + 1;
        assert(r@ =~= v@.subrange(s as int, i as int));
    }
    r
}


impl TextInput {
    /// An empty, unfocused input.
    pub fn new() -> (r: TextInput)
        ensures
            r@.text == Seq::<char>::empty(),
            !r@.focused,
            r@.cursor == 0,
            r@.area == None::<Rect>,
            r@.hit == HitEvent::Nothing,
            r@.selection == None::<(u16, u16)>,
            r@.clipboard == None::<Seq<char>>,
    {
        TextInput {
            text: Vec::new(),
            focused: false,
            cursor: 0,
            area_ref: AreaRef::empty(),
            hit_test: HitTest::empty(),
            selection: None,
            clipboard: None,
        }
    }

    /// Drops the selection.
    pub fn no_selection(self) -> (r: TextInput)
        ensures
            r@ == self@.spec_no_selection(),
    {
        TextInput { selection: None, ..self }
    }

    /// The text typed so far.
    pub fn value(&self) -> (s: String)
        ensures
            s@ == self@.text,
    {
        chars_to_string(&self.text)
    }

    /// The cursor position.
    pub fn cursor(&self) -> (c: u16)
        ensures
            c == self@.cursor,
    {
        self.cursor
    }

    /// The selection, both ends included.
    pub fn selection(&self) -> (r: Option<Selection>)
        ensures
            r matches Some(sel) ==> self@.selection == Some((sel.start, sel.end)),
            r is None ==> self@.selection is None,
    {
        self.selection
    }

    /// Hands out the text that the last copy or cut left for the clipboard.
    pub fn take_clipboard(&mut self) -> (r: Option<String>)
        ensures
            match old(self)@.clipboard {
                Some(c) => r matches Some(s) && s@ == c,
                None => r is None,
            },
            final(self)@ == (TextInputView { clipboard: None, ..old(self)@ }),
    {
        let taken = self.clipboard.take();
        match taken {
            Some(c) => Some(chars_to_string(&c)),
            None => None,
        }
    }

    /// Records the area the input was drawn in, as the renderer does.
    pub fn set_area(&mut self, area: Rect)
        ensures
            final(self)@ == (TextInputView { area: Some(area), ..old(self)@ }),
    {
        self.area_ref.set(area);
    }

    /// Records the last hit event of the input, as the renderer does.
    pub fn set_hit(&mut self, hit: HitEvent)
        ensures
            final(self)@ == (TextInputView { hit, ..old(self)@ }),
    {
        self.hit_test.set(hit);
    }

    fn len16(&self) -> (n: u16)
        ensures
            n == self@.len16(),
    {
        utf8_len(&self.text) as u16
    }

    fn move_cursor_at(self, cursor: u16) -> (r: TextInput)
        ensures
            r@ == self@.spec_move_cursor_at(cursor),
    {
        let len = self.len16();
        let c = if cursor < len {
            cursor
        } else {
            len
        };
        TextInput { cursor: c, ..self }
    }

    fn move_cursor(self, offset: i16) -> (r: TextInput)
        ensures
            r@ == self@.spec_move_cursor(offset),
    {
        let cursor = saturating_add_signed_u16(self.cursor, offset);
        self.move_cursor_at(cursor)
    }

    fn ensure_selection(self) -> (r: TextInput)
        ensures
            r@ == self@.spec_ensure_selection(),
    {
        if self.selection.is_none() {
            let c = self.cursor;
            TextInput { selection: Some(Selection { start: c, end: c }), ..self }
        } else {
            self
        }
    }

    fn update_selection(self, x: u16) -> (r: TextInput)
        requires
            !self@.spec_area_overflows(),
        ensures
            r@ == self@.spec_update_selection(x),
    {
        match self.area_ref.get() {
            None => self,
            Some(rect) => {
                let len = self.len16();
                let x2 = x.saturating_sub(rect.x + 2);
                match self.selection {
                    Some(sel) => {
                        if x2 < sel.start {
                            let e = if sel.end < len {
                                sel.end
                            } else {
                                len
                            };
                            TextInput { selection: Some(Selection { start: x2, end: e }), ..self }
                        } else {
                            let e = if x2 < len {
                                x2
                            } else {
                                len
                            };
                            TextInput { selection: Some(Selection { start: sel.start, end: e }), ..self }
                        }
                    },
                    None => TextInput { selection: Some(Selection { start: x2, end: x2 }), ..self },
                }
            },
        }
    }

    fn move_selection(self, offset: i16) -> (r: TextInput)
        requires
            self@.selection is Some ==> !self@.spec_area_overflows(),
        ensures
            r@ == self@.spec_move_selection(offset),
    {
        if self.selection.is_none() {
            return self;
        }
        let cursor = self.cursor;
        self.update_selection(saturating_add_signed_u16(cursor, offset))
    }

    fn delete_selection(self) -> (r: TextInput)
        requires
            self@.spec_delete_ok(),
        ensures
            r@ == self@.spec_delete_selection(),
    {
        match self.selection {
            None => self,
            Some(sel) => {
                let ks = char_index(&self.text, sel.start as usize);
                let ke = char_index(&self.text, sel.end as usize);
                match (ks, ke) {
                    (Some(ks), Some(ke)) => {
                        proof {
                            lemma_boundary_order(self@.text, sel.start as int, ks as int, sel.end as int, ke as int);
                        }
                        let empty: Vec<char> = Vec::new();
                        let text = splice(&self.text, ks, ke, &empty);
                        assert(self@.text.subrange(0, ks as int) + empty@ =~= self@.text.subrange(0, ks as int));
                        TextInput { text, cursor: sel.start, selection: None, ..self }
                    },
                    _ => self,
                }
            },
        }
    }

    /// Leaves the selected text for the clipboard.
    fn selection_to_clipboard(self) -> (r: TextInput)
        ensures
            r@ == self@.spec_copy(),
    {
        match self.selection {
            None => self,
            Some(sel) => {
                let s = sel.start as usize;
                let e1 = sel.end as usize + 1;
                let mut copied: Vec<char> = Vec::new();
                if s <= e1 {
                    match (char_index(&self.text, s), char_index(&self.text, e1)) {
                        (Some(ks), Some(ke)) => {
                            proof {
                                lemma_boundary_order(self@.text, s as int, ks as int, e1 as int, ke as int);
                            }
                            copied = slice_of(&self.text, ks, ke);
                        },
                        _ => {},
                    }
                }
                TextInput { clipboard: Some(copied), ..self }
            },
        }
    }

    fn after_hit(self) -> (r: TextInput)
        requires
            (self@.hit is Drag || self@.hit is Clicked) ==> !self@.spec_area_overflows(),
        ensures
            r@ == self@.spec_after_hit(),
    {
        match (self.hit_test.get(), self.area_ref.get()) {
            (HitEvent::Drag(x, _), Some(rect)) => {
                let s = self.move_cursor_at(x.saturating_sub(rect.x + 2));
                s.update_selection(x)
            },
            (HitEvent::Clicked(x, _), Some(rect)) => {
                let len = self.len16();
                let c0 = x.saturating_sub(rect.x + 2);
                let c = if c0 < len {
                    c0
                } else {
                    len
                };
                TextInput { cursor: c, selection: Some(Selection { start: c, end: c }), ..self }
            },
            (HitEvent::Clicked(_, _), None) => TextInput { selection: None, ..self },
            _ => self,
        }
    }
}

impl TextInput {
    /// Handles an event while focused: the last hit event first moves the
    /// cursor or the selection; then Left and Right move the cursor (with Shift,
    /// the selection too), Enter confirms, Control+C or Super+Shift+C copies the
    /// selection, the same with X cuts it, Control or Meta with Backspace clears
    /// the text, Backspace removes the last character or the selection, and a
    /// character (alone or with Shift, in upper case) replaces the selection and
    /// is typed at the cursor.
    pub fn update(self, event: &Event) -> (r: (TextInput, TextInputEvent))
        requires
            !self@.spec_update_fails(*event),
        ensures
            (r.0@, r.1) == self@.spec_update(*event),
    {
        if !self.focused {
            return (self, TextInputEvent::Nothing);
        }
        let mut s = self.after_hit();
        match event {
            Event::Key(k) => {
                if k.code == KeyCode::Left && k.kind == KeyEventKind::Press {
                    if k.modifiers.shift {
                        s = s.ensure_selection().move_selection(-1);
                    }
                    return (s.move_cursor(-1), TextInputEvent::Nothing);
                }
                if k.code == KeyCode::Right && k.kind == KeyEventKind::Press {
                    if k.modifiers.shift {
                        s = s.ensure_selection().move_selection(1);
                    }
                    return (s.move_cursor(1), TextInputEvent::Nothing);
                }
                if event.is_plain_press(KeyCode::Enter) {
                    return (s.no_selection(), TextInputEvent::Confirm);
                }
                let clip = k.modifiers.contains(KeyModifiers::super_().union(KeyModifiers::shift()))
                    || k.modifiers.contains(KeyModifiers::control());
                let press = k.kind == KeyEventKind::Press;
                if (k.code == KeyCode::Char('c') || k.code == KeyCode::Char('C')) && press && clip {
                    return (s.selection_to_clipboard(), TextInputEvent::Nothing);
                }
                if (k.code == KeyCode::Char('x') || k.code == KeyCode::Char('X')) && press && clip {
                    let s2 = s.selection_to_clipboard();
                    return (s2.delete_selection(), TextInputEvent::Nothing);
                }
                if k.code == KeyCode::Backspace && (k.modifiers == KeyModifiers::control()
                    || k.modifiers == KeyModifiers::meta()) {
                    s.text.clear();
                    s.cursor = 0;
                    return (s, TextInputEvent::Nothing);
                }
                if k.code == KeyCode::Backspace {
                    if s.selection.is_none() {
                        s.text.pop();
                        s.cursor = s.cursor.saturating_sub(1);
                        return (s, TextInputEvent::Nothing);
                    } else {
                        return (s.delete_selection(), TextInputEvent::Nothing);
                    }
                }
                match k.code {
                    KeyCode::Char(ch) => {
                        if s.selection.is_some() {
                            s = s.delete_selection().no_selection();
                        }
                        if !k.modifiers.difference(KeyModifiers::shift()).is_empty() {
                            return (s, TextInputEvent::Nothing);
                        }
                        let ins = if k.modifiers.shift {
                            char_to_uppercase(ch)
                        } else {
                            let mut one = Vec::new();
                            one.push(ch);
                            one
                        };
                        match char_index(&s.text, s.cursor as usize) {
                            Some(c) => {
                                let text = splice(&s.text, c, c, &ins);
                                s.text = text;
                                s.cursor = s.cursor + 1;
                                (s, TextInputEvent::Nothing)
                            },
                            None => (s, TextInputEvent::Nothing),
                        }
                    },
                    _ => (s, TextInputEvent::Nothing),
                }
            },
            _ => (s, TextInputEvent::Nothing),
        }
    }
}

impl TextInputEvent {
    pub open spec fn spec_focus_event(self) -> FocusEvent {
        match self {
            TextInputEvent::Nothing => FocusEvent::Nothing,
            TextInputEvent::Confirm => FocusEvent::Next,
        }
    }
}

impl From<TextInputEvent> for FocusEvent {
    fn from(value: TextInputEvent) -> (r: FocusEvent) {
        match value {
            TextInputEvent::Nothing => FocusEvent::Nothing,
            TextInputEvent::Confirm => FocusEvent::Next,
        }
    }
}

impl vstd::std_specs::convert::FromSpecImpl<TextInputEvent> for FocusEvent {
    open spec fn obeys_from_spec() -> bool {
        true
    }

    open spec fn from_spec(v: TextInputEvent) -> FocusEvent {
        v.spec_focus_event()
    }
}

impl Focus for TextInput {
    closed spec fn spec_focus(&self) -> bool {
        self.focused
    }

    closed spec fn spec_rect(&self) -> Option<Rect> {
        self.area_ref@
    }

    closed spec fn spec_keymaps(&self) -> Seq<KeyMap> {
        seq![spec_ctrl_keymap(), spec_vim_ctrl_keymap()]
    }

    closed spec fn spec_hit(&self) -> HitEvent {
        self.hit_test@
    }

    fn set_focus(&mut self, value: bool)
        ensures
            final(self)@ == (TextInputView { focused: value, ..old(self)@ }),
    {
        self.focused = value;
    }

    fn focus(&self) -> (b: bool) {
        self.focused
    }

    fn rect(&self) -> (r: Option<Rect>) {
        self.area_ref.get()
    }

    fn keymaps(&self) -> (r: Vec<KeyMap>) {
        let mut v = Vec::new();
        v.push(ctrl_keymap());
        v.push(vim_ctrl_keymap());
        assert(v@ =~= seq![spec_ctrl_keymap(), spec_vim_ctrl_keymap()]);
        v
    }

    fn hit_test(&self) -> (r: HitEvent) {
        self.hit_test.get()
    }
}

/// The byte positions at which [`split_three_split_at`] cuts `s`: `start` and
/// `end` clamped into the text, and `end` kept at or after `start`.
pub open spec fn spec_split_points(s: Seq<char>, start: u16, end: u16) -> (int, int) {
    let n = spec_utf8_len(s) as int;
    let a = if start < n { start as int } else { n };
    let e0 = if end < n { end as int } else { n };
    (a, if e0 < a { a } else { e0 })
}

/// Both cuts fall between characters (else splitting panics).
pub open spec fn spec_split_ok(s: Seq<char>, start: u16, end: u16) -> bool {
    spec_is_boundary(s, spec_split_points(s, start, end).0) && spec_is_boundary(
        s,
        spec_split_points(s, start, end).1,
    )
}

/// `s` cut at the byte positions of [`spec_split_points`]: the part before,
/// the part between and the part after.
pub open spec fn spec_split_three(s: Seq<char>, start: u16, end: u16) -> (Seq<char>, Seq<char>, Seq<char>) {
    let a = spec_char_index(s, spec_split_points(s, start, end).0);
    let b = spec_char_index(s, spec_split_points(s, start, end).1);
    (s.subrange(0, a), s.subrange(a, b), s.subrange(b, s.len() as int))
}

/// Splits the text in three at the ends of a selection, given in bytes,
/// clamping them so that no position lies outside the text.
pub fn split_three_split_at(s: &Vec<char>, start: u16, end: u16) -> (r: (Vec<char>, Vec<char>, Vec<char>))
    requires
        spec_split_ok(s@, start, end),
    ensures
        (r.0@, r.1@, r.2@) == spec_split_three(s@, start, end),
{
    let n = utf8_len(s);
    let a: usize = if (start as u128) < n {
        start as usize
    } else {
        n as usize
    };
    let e0: usize = if (end as u128) < n {
        end as usize
    } else {
        n as usize
    };
    let b = if e0 < a {
        a
    } else {
        e0
    };
    match (char_index(s, a), char_index(s, b)) {
        (Some(ka), Some(kb)) => {
            proof {
                lemma_boundary_order(s@, a as int, ka as int, b as int, kb as int);
            }
            (slice_of(s, 0, ka), slice_of(s, ka, kb), slice_of(s, kb, s.len()))
        },
        _ => (Vec::new(), Vec::new(), Vec::new()),
    }
}

impl TextInput {
    /// The text split at the selection, as the view shows it (the middle part
    /// highlighted); the whole text first when there is no selection.
    pub fn display_parts(&self) -> (r: (Vec<char>, Vec<char>, Vec<char>))
        requires
            self@.selection matches Some((s, e)) ==> spec_split_ok(self@.text, s, e),
        ensures
            match self@.selection {
                Some((s, e)) => (r.0@, r.1@, r.2@) == spec_split_three(self@.text, s, e),
                None => r.0@ == self@.text && r.1@.len() == 0 && r.2@.len() == 0,
            },
    {
        match self.selection {
            Some(sel) => split_three_split_at(&self.text, sel.start, sel.end),
            None => {
                let all = slice_of(&self.text, 0, self.text.len());
                assert(self@.text.subrange(0, self@.text.len() as int) =~= self@.text);
                (all, Vec::new(), Vec::new())
            },
        }
    }

    /// Whether the view shows the placeholder in place of the text: when the
    /// text is empty.
    pub fn shows_placeholder(&self) -> (b: bool)
        ensures
            b == (self@.text.len() == 0),
    {
        self.text.len() == 0
    }

    /// Where the view draws the cursor: two cells of prompt right of the
    /// input's left edge plus the cursor position, on its top row; nowhere when
    /// the input is unfocused or not drawn yet.
    pub fn cursor_cell(&self) -> (r: Option<(u16, u16)>)
        requires
            self@.focused ==> (self@.area matches Some(rect) ==> rect.x + self@.cursor + 2 <= u16::MAX),
        ensures
            r == (if self@.focused && self@.area is Some {
                Some(((self@.area->0.x + self@.cursor + 2) as u16, self@.area->0.y))
            } else {
                None
            }),
    {
        if !self.focused {
            return None;
        }
        match self.area_ref.get() {
            Some(rect) => Some((rect.x + self.cursor + 2, rect.y)),
            None => None,
        }
    }
}

} // verus!
