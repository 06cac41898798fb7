//! Properties that hold across the operations of the library.

use vstd::prelude::*;
use crate::components::button::{ButtonEvent, ButtonView};
use crate::components::list::{ListEvent, ListView, spec_is_down_key};
use crate::components::pager::PagerView;
use crate::components::text_input::{spec_split_ok, spec_split_points, spec_split_three, TextInputEvent, TextInputView};
use crate::components::utf8::{
    lemma_ascii_len, lemma_ascii_utf8, lemma_boundary_order, lemma_char_index, lemma_utf8_concat, lemma_utf8_full,
    spec_boundary_at, spec_char_index, spec_is_boundary, spec_utf8_len,
};
use crate::event::{spec_is_ascii, spec_is_ascii_text, Event, KeyCode, KeyEvent, KeyEventKind, KeyEventState, KeyModifiers};
use crate::focus::{is_nearest, last_index, spec_keymaps_match, FocusEvent, FocusGroupView, FocusItem, Heading, KeyMapSlot};
use crate::geometry::{Position, Rect};
use crate::observe::{node_reaches, spec_hit_for, spec_hits_after, HitEvent, HitNode, HitTest};
use crate::event::{spec_is_press, MouseEvent, MouseEventKind};
use crate::element::{is_path, is_subtree, reaches, Element};
use crate::ui::{parented_as, spawned_as, ui_child, ui_parent, ui_slot, ui_well_formed, UiNode};

verus! {

/// Equality of key events is reflexive.
pub proof fn law_key_eq_reflexive(a: KeyEvent)
    ensures
        a.spec_eq(a),
{
}

/// Equality of key events is symmetric.
pub proof fn law_key_eq_symmetric(a: KeyEvent, b: KeyEvent)
    ensures
        a.spec_eq(b) == b.spec_eq(a),
{
}

/// Equality of key events is transitive.
pub proof fn law_key_eq_transitive(a: KeyEvent, b: KeyEvent, c: KeyEvent)
    requires
        a.spec_eq(b),
        b.spec_eq(c),
    ensures
        a.spec_eq(c),
{
}

/// A capital letter equals the same letter typed small with Shift held.
pub proof fn law_key_eq_shifted_letter(c: char, kind: KeyEventKind, state: KeyEventState)
    requires
        'a' <= c <= 'z',
    ensures
        (KeyEvent { code: KeyCode::Char(c), modifiers: KeyModifiers::spec_shift(), kind, state }).spec_eq(
            KeyEvent {
                code: KeyCode::Char(((c as int) - 32) as char),
                modifiers: KeyModifiers::spec_none(),
                kind,
                state,
            },
        ),
{
}

/// A point inside a rectangle means the rectangle is not empty.
pub proof fn law_contains_nonempty(r: Rect, p: Position)
    requires
        r.spec_contains(p),
    ensures
        r.width > 0,
        r.height > 0,
{
}

/// Every move of the focus keeps it inside the group.
pub proof fn law_focus_stays_in_group<T>(v: FocusGroupView<T>, i: usize, ev: Event, fe: FocusEvent)
    requires
        v.index <= last_index(v.len),
    ensures
        v.spec_focus_at(i).index <= last_index(v.len),
        v.spec_update(ev).1.index <= last_index(v.len),
        v.spec_handle_event(fe).index <= last_index(v.len),
{
}

/// Moving forward then back returns to the start, unless the focus was on the
/// last element.
pub proof fn law_focus_next_then_prev<T>(v: FocusGroupView<T>)
    requires
        v.index < last_index(v.len),
    ensures
        v.spec_focus_next().spec_focus_prev() == v,
{
}

/// Moving back then forward returns to the start, unless the focus was on the
/// first element.
pub proof fn law_focus_prev_then_next<T>(v: FocusGroupView<T>)
    requires
        0 < v.index <= last_index(v.len),
    ensures
        v.spec_focus_prev().spec_focus_next() == v,
{
}

/// An update only moves the focus: the length, key maps, transitions and tag
/// stay as they were.
pub proof fn law_update_moves_only_focus<T>(v: FocusGroupView<T>, ev: Event)
    ensures
        v.spec_update(ev).1.len == v.len,
        v.spec_update(ev).1.keymaps == v.keymaps,
        v.spec_update(ev).1.transitions == v.transitions,
        v.spec_update(ev).1.tag == v.tag,
{
}

/// Events other than keys pass through a focus group untouched.
pub proof fn law_update_ignores_non_keys<T>(v: FocusGroupView<T>, ev: Event)
    requires
        !(ev is Key),
    ensures
        v.spec_update(ev) == (false, v),
{
}

/// A request for nothing leaves the focus where it is.
pub proof fn law_handle_nothing<T>(v: FocusGroupView<T>)
    ensures
        v.spec_handle_event(FocusEvent::Nothing) == v,
{
}

/// Moving the selection keeps it on an item of the list.
pub proof fn law_select_offset_in_list(v: ListView, offset: isize)
    requires
        v.index is Some,
        v.len > 0,
    ensures
        v.spec_select_offset(offset).index matches Some(i) && i < v.len,
{
}

/// Selecting the next item and then the previous one returns to the start,
/// unless the selection was on the last item.
pub proof fn law_select_next_then_prev(v: ListView)
    requires
        v.index matches Some(i) && i + 1 < v.len,
    ensures
        v.spec_select_offset(1isize).spec_select_offset(-1isize) == v,
{
}

/// An unfocused list ignores every event.
pub proof fn law_list_unfocused(v: ListView, ev: Event)
    requires
        !v.focused,
    ensures
        v.spec_update(ev) == (v, ListEvent::Nothing),
{
}

/// Moving down from the last item asks the focus group for the next element,
/// and keeps the selection.
pub proof fn law_list_down_at_end_moves_focus(v: ListView, ev: Event)
    requires
        v.focused,
        v.len > 0,
        v.index == Some((v.len - 1) as usize),
        spec_is_down_key(ev),
    ensures
        v.spec_update(ev) == (v, ListEvent::FocusNext),
{
}

/// Scrolling down and then up by the same amount returns to the start, unless
/// the offset hit the bottom.
pub proof fn law_pager_down_then_up(v: PagerView, n: usize)
    requires
        v.offset.y + n <= u16::MAX,
    ensures
        v.spec_scroll_down_by(n).spec_scroll_up_by(n) == v,
{
}

/// Scrolling down twice is scrolling down by the sum.
pub proof fn law_pager_down_adds(v: PagerView, a: usize, b: usize)
    requires
        a + b <= usize::MAX,
    ensures
        v.spec_scroll_down_by(a).spec_scroll_down_by(b) == v.spec_scroll_down_by((a + b) as usize),
{
}

/// The three parts of a split text make up the text again.
pub proof fn law_split_three_concat(s: Seq<char>, start: u16, end: u16)
    requires
        spec_split_ok(s, start, end),
    ensures
        spec_split_three(s, start, end).0 + spec_split_three(s, start, end).1 + spec_split_three(
            s,
            start,
            end,
        ).2 == s,
{
    let (pa, pb) = spec_split_points(s, start, end);
    let ka = spec_char_index(s, pa);
    let kb = spec_char_index(s, pb);
    assert(spec_boundary_at(s, pa, ka));
    assert(spec_boundary_at(s, pb, kb));
    lemma_boundary_order(s, pa, ka, pb, kb);
    let (a, b, c) = spec_split_three(s, start, end);
    assert(a + b + c =~= s);
}

/// An unfocused text input ignores every event.
pub proof fn law_text_input_unfocused(v: TextInputView, ev: Event)
    requires
        !v.focused,
    ensures
        v.spec_update(ev) == (v, TextInputEvent::Nothing),
{
}

/// Typing a character with no modifier, with nothing selected and no mouse
/// event pending, puts it before the `i`-th character, where the cursor's
/// byte position lies, and moves the cursor one byte on.
pub proof fn law_text_input_types_at_cursor(v: TextInputView, k: KeyEvent, c: char, i: int)
    requires
        v.focused,
        v.hit == HitEvent::Nothing,
        v.selection is None,
        k.code == KeyCode::Char(c),
        k.modifiers == KeyModifiers::spec_none(),
        spec_boundary_at(v.text, v.cursor as int, i),
        v.cursor < u16::MAX,
    ensures
        !v.spec_update_fails(Event::Key(k)),
        v.spec_update(Event::Key(k)).0.text == v.text.subrange(0, i).push(c) + v.text.subrange(
            i,
            v.text.len() as int,
        ),
        v.spec_update(Event::Key(k)).0.cursor == v.cursor + 1,
{
    lemma_char_index(v.text, v.cursor as int, i);
    assert(v.text.subrange(0, i) + seq![c] =~= v.text.subrange(0, i).push(c));
}

/// Control with Backspace empties the text and puts the cursor at the start.
pub proof fn law_text_input_clear(v: TextInputView, k: KeyEvent)
    requires
        v.focused,
        v.hit == HitEvent::Nothing,
        k.code == KeyCode::Backspace,
        k.modifiers == KeyModifiers::spec_control(),
    ensures
        v.spec_update(Event::Key(k)).0.text.len() == 0,
        v.spec_update(Event::Key(k)).0.cursor == 0,
{
}

/// Removing a selection shortens the text by the bytes of the selection.
pub proof fn law_delete_selection_length(v: TextInputView)
    requires
        v.selection is Some,
        v.spec_delete_ok(),
    ensures
        match v.selection {
            Some((s, e)) => spec_utf8_len(v.spec_delete_selection().text) == spec_utf8_len(v.text) - (e - s),
            None => true,
        },
{
    if let Some((s, e)) = v.selection {
        let t = v.text;
        let ks = spec_char_index(t, s as int);
        let ke = spec_char_index(t, e as int);
        assert(spec_boundary_at(t, s as int, ks));
        assert(spec_boundary_at(t, e as int, ke));
        lemma_boundary_order(t, s as int, ks, e as int, ke);
        let head = t.subrange(0, ks);
        let tail = t.subrange(ke, t.len() as int);
        assert(head =~= t.take(ks));
        lemma_utf8_concat(head, tail);
        lemma_utf8_concat(t.take(ke), tail);
        assert(t.take(ke) + tail =~= t);
    }
}

/// Pressing and then releasing Enter on a focused button clicks it twice and
/// leaves the key up again; the mouse state is untouched.
pub proof fn law_button_enter_press_release(v: ButtonView, press: KeyEvent, release: KeyEvent)
    requires
        v.focused,
        press.code == KeyCode::Enter,
        press.kind == KeyEventKind::Press,
        release.code == KeyCode::Enter,
        release.kind == KeyEventKind::Release,
    ensures
        v.spec_update(Event::Key(press)).1 == ButtonEvent::Clicked,
        v.spec_update(Event::Key(press)).0.spec_update(Event::Key(release)).1 == ButtonEvent::Clicked,
        v.spec_update(Event::Key(press)).0.spec_update(Event::Key(release)).0.key_down is None,
        v.spec_update(Event::Key(press)).0.spec_update(Event::Key(release)).0.btn_down == v.btn_down,
{
}

/// A button without the focus lets go of every key and mouse button and
/// reports nothing.
pub proof fn law_button_unfocused(v: ButtonView, ev: Event)
    requires
        !v.focused,
    ensures
        !v.spec_update(ev).0.spec_is_down(),
        v.spec_update(ev).0.key_down is None,
        v.spec_update(ev).0.btn_down is None,
        v.spec_update(ev).1 == ButtonEvent::Nothing,
{
}

/// The event types only ASCII characters, if it types any.
pub open spec fn spec_event_ascii(ev: Event) -> bool {
    match ev {
        Event::Key(k) => match k.code {
            KeyCode::Char(c) => spec_is_ascii(c),
            _ => true,
        },
        _ => true,
    }
}

/// The preconditions of the ASCII law, spelled out for the text before a
/// typed character: ASCII text in which bytes and characters coincide.
pub open spec fn spec_ascii_ready(v: TextInputView) -> bool {
    &&& v.hit == HitEvent::Nothing
    &&& spec_is_ascii_text(v.text)
    &&& v.text.len() < u16::MAX
    &&& v.cursor <= v.text.len()
    &&& (v.selection matches Some((s, e)) ==> s <= e <= v.text.len())
    &&& (v.area matches Some(r) ==> r.x < u16::MAX - 1)
}

proof fn lemma_ascii_ready(v: TextInputView)
    requires
        spec_ascii_ready(v),
    ensures
        v.spec_after_hit() == v,
        v.len16() == v.text.len(),
        !v.spec_area_overflows(),
        v.spec_delete_ok(),
        spec_is_ascii_text(v.spec_delete_selection().text),
        v.spec_delete_selection().cursor <= v.spec_delete_selection().text.len(),
        spec_is_ascii_text(v.spec_before_char().text),
        v.spec_before_char().cursor <= v.spec_before_char().text.len(),
        spec_is_boundary(v.spec_before_char().text, v.spec_before_char().cursor as int),
        spec_char_index(v.spec_before_char().text, v.spec_before_char().cursor as int)
            == v.spec_before_char().cursor,
{
    lemma_ascii_len(v.text);
    if let Some((s, e)) = v.selection {
        let t2 = v.text.subrange(0, s as int) + v.text.subrange(e as int, v.text.len() as int);
        assert forall|i: int| 0 <= i < t2.len() implies spec_is_ascii(#[trigger] t2[i]) by {
            if i < s {
                assert(t2[i] == v.text[i]);
            } else {
                assert(t2[i] == v.text[i - s + e]);
            }
        }
        lemma_ascii_utf8(v.text, s as int);
        lemma_ascii_utf8(v.text, e as int);
        assert(v.spec_delete_selection().text == t2);
        lemma_ascii_utf8(t2, s as int);
    } else {
        lemma_ascii_utf8(v.text, v.cursor as int);
    }
}

/// On ASCII text shorter than the largest position, with the cursor and the
/// selection inside it, no mouse event pending, room for the prompt and an
/// event that types only ASCII, an update never fails, keeps the cursor inside
/// the text and keeps the text ASCII (so its bytes are its characters).
pub proof fn law_text_input_ascii_update(v: TextInputView, ev: Event)
    requires
        v.hit == HitEvent::Nothing,
        spec_is_ascii_text(v.text),
        v.text.len() < u16::MAX,
        v.cursor <= v.text.len(),
        v.selection matches Some((s, e)) ==> s <= e <= v.text.len(),
        v.area matches Some(r) ==> r.x < u16::MAX - 1,
        spec_event_ascii(ev),
    ensures
        !v.spec_update_fails(ev),
        v.spec_update(ev).0.cursor <= v.spec_update(ev).0.text.len(),
        spec_is_ascii_text(v.spec_update(ev).0.text),
        spec_utf8_len(v.spec_update(ev).0.text) == v.spec_update(ev).0.text.len(),
{
    lemma_ascii_ready(v);
    lemma_ascii_update_text(v, ev);
    lemma_ascii_len(v.spec_update(ev).0.text);
}

#[verifier::rlimit(80)]
proof fn lemma_ascii_update_text(v: TextInputView, ev: Event)
    requires
        spec_ascii_ready(v),
        spec_event_ascii(ev),
        v.spec_after_hit() == v,
        v.len16() == v.text.len(),
        !v.spec_area_overflows(),
        v.spec_delete_ok(),
        spec_is_ascii_text(v.spec_delete_selection().text),
        v.spec_delete_selection().cursor <= v.spec_delete_selection().text.len(),
        spec_is_ascii_text(v.spec_before_char().text),
        v.spec_before_char().cursor <= v.spec_before_char().text.len(),
        spec_is_boundary(v.spec_before_char().text, v.spec_before_char().cursor as int),
        spec_char_index(v.spec_before_char().text, v.spec_before_char().cursor as int)
            == v.spec_before_char().cursor,
    ensures
        !v.spec_update_fails(ev),
        v.spec_update(ev).0.cursor <= v.spec_update(ev).0.text.len(),
        spec_is_ascii_text(v.spec_update(ev).0.text),
{
    let r = v.spec_update(ev).0;
    assert forall|i: int| 0 <= i < r.text.len() implies spec_is_ascii(#[trigger] r.text[i]) by {
        if let Event::Key(k) = ev {
            if let KeyCode::Char(c) = k.code {
                assert(spec_is_ascii(c));
            }
        }
    }
}

/// Equal key events agree on everything but letter case: the same kind and
/// state, the same Control, Alt, Super, Hyper and Meta modifiers, and, unless
/// they are characters, the same key.
pub proof fn law_key_eq_keeps_modifiers(a: KeyEvent, b: KeyEvent)
    requires
        a.spec_eq(b),
    ensures
        a.kind == b.kind,
        a.state == b.state,
        a.modifiers.control == b.modifiers.control,
        a.modifiers.alt == b.modifiers.alt,
        a.modifiers.super_key == b.modifiers.super_key,
        a.modifiers.hyper == b.modifiers.hyper,
        a.modifiers.meta == b.modifiers.meta,
        !(a.code is Char) ==> a.code == b.code && a.modifiers.shift == b.modifiers.shift,
{
}

/// A mouse event leaves a hit only on an area it is over: outside the area it
/// gives nothing; inside, a press of a button is a click and a move is a hover
/// at the mouse's cell.
pub proof fn law_hit_only_inside(area: Rect, m: MouseEvent)
    ensures
        !area.spec_contains(Position { x: m.column, y: m.row }) ==> spec_hit_for(area, m) == HitEvent::Nothing,
        spec_hit_for(area, m) != HitEvent::Nothing ==> area.spec_contains(Position { x: m.column, y: m.row }),
        area.spec_contains(Position { x: m.column, y: m.row }) && m.kind is Down ==> spec_hit_for(area, m)
            == HitEvent::Clicked(m.column, m.row),
        area.spec_contains(Position { x: m.column, y: m.row }) && m.kind is Moved ==> spec_hit_for(area, m)
            == HitEvent::Hovered(m.column, m.row),
{
}

/// Hit testing marks an element of the tree with a hit test only when the
/// mouse is over its area (a release leaves every mark as it was).
pub proof fn law_hit_test_outside_is_nothing(
    nodes: Seq<HitNode>,
    hits: Seq<Option<HitTest>>,
    root: usize,
    m: MouseEvent,
    i: int,
)
    requires
        0 <= i < nodes.len(),
        i < hits.len(),
        !(m.kind is Up),
        node_reaches(nodes, root, i as usize),
        hits[i] is Some,
        !nodes[i].area.spec_contains(Position { x: m.column, y: m.row }),
    ensures
        spec_hits_after(nodes, hits, root, m, i) == Some(HitEvent::Nothing),
{
}

/// The place of a key slot in the order in which a focus group tries them.
pub open spec fn slot_rank(s: KeyMapSlot) -> int {
    match s {
        KeyMapSlot::Next => 0,
        KeyMapSlot::Prev => 1,
        KeyMapSlot::Down => 2,
        KeyMapSlot::Right => 3,
        KeyMapSlot::Left => 4,
        KeyMapSlot::Up => 5,
    }
}

/// The key slot of a direction.
pub open spec fn heading_slot(d: Heading) -> KeyMapSlot {
    match d {
        Heading::Down => KeyMapSlot::Down,
        Heading::Up => KeyMapSlot::Up,
        Heading::Left => KeyMapSlot::Left,
        Heading::Right => KeyMapSlot::Right,
    }
}

/// In a group whose transitions were found by a commit over `items`, a key of
/// direction `d` (when no slot tried before it matches) is consumed and moves
/// the focus to the nearest element in direction `d` of the focused one, or
/// leaves it where it is when there is none.
pub proof fn law_focus_direction_key_goes_that_way<T>(
    v: FocusGroupView<T>,
    items: Seq<(FocusItem, T)>,
    d: Heading,
    k: KeyEvent,
)
    requires
        v.len == items.len(),
        v.index < items.len(),
        forall|e: Heading|
            is_nearest(items, v.index as int, e, items.len() as int, #[trigger] v.transitions.spec_get(e) as int),
        spec_keymaps_match(v.keymaps, heading_slot(d), k),
        forall|s: KeyMapSlot| slot_rank(s) < slot_rank(heading_slot(d)) ==> !#[trigger] spec_keymaps_match(v.keymaps, s, k),
    ensures
        v.spec_update(Event::Key(k)).0,
        is_nearest(items, v.index as int, d, items.len() as int, v.spec_update(Event::Key(k)).1.index as int),
        v.spec_update(Event::Key(k)).1.len == v.len,
{
    assert(is_nearest(items, v.index as int, d, items.len() as int, v.transitions.spec_get(d) as int));
    assert(!spec_keymaps_match(v.keymaps, KeyMapSlot::Next, k) ==> true);
    match d {
        Heading::Down => {
            assert(!spec_keymaps_match(v.keymaps, KeyMapSlot::Next, k));
            assert(!spec_keymaps_match(v.keymaps, KeyMapSlot::Prev, k));
        },
        Heading::Right => {
            assert(!spec_keymaps_match(v.keymaps, KeyMapSlot::Next, k));
            assert(!spec_keymaps_match(v.keymaps, KeyMapSlot::Prev, k));
            assert(!spec_keymaps_match(v.keymaps, KeyMapSlot::Down, k));
        },
        Heading::Left => {
            assert(!spec_keymaps_match(v.keymaps, KeyMapSlot::Next, k));
            assert(!spec_keymaps_match(v.keymaps, KeyMapSlot::Prev, k));
            assert(!spec_keymaps_match(v.keymaps, KeyMapSlot::Down, k));
            assert(!spec_keymaps_match(v.keymaps, KeyMapSlot::Right, k));
        },
        Heading::Up => {
            assert(!spec_keymaps_match(v.keymaps, KeyMapSlot::Next, k));
            assert(!spec_keymaps_match(v.keymaps, KeyMapSlot::Prev, k));
            assert(!spec_keymaps_match(v.keymaps, KeyMapSlot::Down, k));
            assert(!spec_keymaps_match(v.keymaps, KeyMapSlot::Right, k));
            assert(!spec_keymaps_match(v.keymaps, KeyMapSlot::Left, k));
        },
    }
}

/// Moving up from the first item (or from no selection, which selects the
/// first) with `k`, Up or Shift+BackTab asks the focus group for the previous
/// element and keeps the selection on the first item.
pub proof fn law_list_up_at_start_moves_focus(v: ListView, ev: Event)
    requires
        v.focused,
        v.len > 0,
        v.index is None || v.index == Some(0usize),
        spec_is_press(ev, KeyCode::Char('k'), KeyModifiers::spec_none()) || spec_is_press(
            ev,
            KeyCode::Up,
            KeyModifiers::spec_none(),
        ) || spec_is_press(ev, KeyCode::BackTab, KeyModifiers::spec_shift()),
    ensures
        v.spec_update(ev).1 == ListEvent::FocusPrev,
        v.spec_update(ev).0 == (ListView { index: Some(0usize), ..v }),
{
}

/// Backspace (without Control or Meta) while something is selected removes the
/// selection, from its start up to its end, and puts the cursor at its start;
/// the selection is gone.
pub proof fn law_text_input_backspace_removes_selection(v: TextInputView, k: KeyEvent)
    requires
        v.focused,
        v.hit == HitEvent::Nothing,
        k.code == KeyCode::Backspace,
        k.modifiers != KeyModifiers::spec_control(),
        k.modifiers != KeyModifiers::spec_meta(),
        v.selection matches Some((s, e)) && s <= e && spec_is_boundary(v.text, s as int) && spec_is_boundary(
            v.text,
            e as int,
        ),
    ensures
        !v.spec_update_fails(Event::Key(k)),
        match v.selection {
            Some((s, e)) => {
                &&& v.spec_update(Event::Key(k)).0.text == v.text.subrange(0, spec_char_index(v.text, s as int))
                    + v.text.subrange(spec_char_index(v.text, e as int), v.text.len() as int)
                &&& v.spec_update(Event::Key(k)).0.cursor == s
            },
            None => false,
        },
        v.spec_update(Event::Key(k)).0.selection is None,
        v.spec_update(Event::Key(k)).1 == TextInputEvent::Nothing,
{
}

/// Backspace (without Control or Meta) with nothing selected removes the last
/// character and moves the cursor one back.
pub proof fn law_text_input_backspace_pops(v: TextInputView, k: KeyEvent)
    requires
        v.focused,
        v.hit == HitEvent::Nothing,
        k.code == KeyCode::Backspace,
        k.modifiers != KeyModifiers::spec_control(),
        k.modifiers != KeyModifiers::spec_meta(),
        v.selection is None,
        v.text.len() > 0,
        v.cursor > 0,
    ensures
        v.spec_update(Event::Key(k)).0.text == v.text.subrange(0, v.text.len() - 1),
        v.spec_update(Event::Key(k)).0.cursor == v.cursor - 1,
        v.spec_update(Event::Key(k)).0.selection is None,
{
    assert(v.text.drop_last() =~= v.text.subrange(0, v.text.len() - 1));
}

/// While a list has items, an update keeps its selection on one of them.
pub proof fn law_list_selection_stays_in_list(v: ListView, ev: Event)
    requires
        v.len > 0,
        v.index matches Some(i) ==> i < v.len,
    ensures
        v.spec_update(ev).0.len == v.len,
        v.spec_update(ev).0.index matches Some(j) ==> j < v.len,
{
}

/// Spawning a user interface and then despawning its root gives back the
/// element world as it was before the spawn: the same elements, with the same
/// children and the same parents.
pub proof fn law_spawn_then_despawn(
    before: Map<Element, Option<Seq<Element>>>,
    spawned: Map<Element, Option<Seq<Element>>>,
    after: Map<Element, Option<Seq<Element>>>,
    before_parents: Map<Element, Element>,
    spawned_parents: Map<Element, Element>,
    after_parents: Map<Element, Element>,
    nodes: Seq<UiNode>,
    m: Seq<Element>,
)
    requires
        ui_well_formed(nodes),
        before_parents.dom().subset_of(before.dom()),
        spawned_as(before, spawned, nodes, m),
        parented_as(before_parents, spawned_parents, nodes, m),
        is_subtree(after, spawned),
        forall|e: Element|
            #![trigger spawned.dom().contains(e)]
            spawned.dom().contains(e) ==> (!after.dom().contains(e) <==> reaches(spawned, m[0], e)),
        after_parents == spawned_parents.restrict(after.dom()),
    ensures
        after == before,
        after_parents == before_parents,
{
    assert forall|e: Element| #[trigger] before.dom().contains(e) implies !reaches(spawned, m[0], e) by {
        if reaches(spawned, m[0], e) {
            let p = choose|p: Seq<Element>| is_path(spawned, p) && p[0] == m[0] && p.last() == e;
            lemma_path_stays_spawned(before, spawned, nodes, m, p);
        }
    }
    assert forall|i: int| 0 <= i < nodes.len() implies reaches(spawned, m[0], #[trigger] m[i]) by {
        lemma_spawned_reached(before, spawned, nodes, m, i);
    }
    assert forall|e: Element| after.dom().contains(e) <==> before.dom().contains(e) by {
        if after.dom().contains(e) {
            assert(spawned.dom().contains(e));
            if !before.dom().contains(e) {
                let i = m.index_of(e);
                assert(reaches(spawned, m[0], m[i]));
            }
        }
        if before.dom().contains(e) {
            assert(spawned.dom().contains(e));
        }
    }
    assert(after =~= before);
    let rest = m.subrange(1, m.len() as int);
    assert forall|x: Element| #[trigger] before.dom().contains(x) implies !rest.contains(x) by {
        if rest.contains(x) {
            let j = rest.index_of(x);
            assert(m[j + 1] == x);
        }
    }
    assert(after_parents =~= before_parents);
}

/// A path through a freshly spawned user interface that starts at a spawned
/// element stays among the spawned elements.
proof fn lemma_path_stays_spawned(
    before: Map<Element, Option<Seq<Element>>>,
    spawned: Map<Element, Option<Seq<Element>>>,
    nodes: Seq<UiNode>,
    m: Seq<Element>,
    p: Seq<Element>,
)
    requires
        ui_well_formed(nodes),
        spawned_as(before, spawned, nodes, m),
        is_path(spawned, p),
        m.contains(p[0]),
    ensures
        m.contains(p.last()),
        !before.dom().contains(p.last()),
    decreases p.len(),
{
    if p.len() > 1 {
        let i = m.index_of(p[0]);
        assert(spawned.dom().contains(p[0]) && spawned[p[0]] is Some && spawned[p[0]]->0.contains(p[1]));
        let cs = nodes[i].children->0;
        let k = spawned[p[0]]->0.index_of(p[1]);
        assert(spawned[m[i]]->0 == cs@.map_values(|c: usize| m[c as int]));
        assert(ui_slot(nodes, i, k));
        assert(p[1] == m[cs@[k] as int]);
        let q = p.subrange(1, p.len() as int);
        assert forall|j: int| 0 <= j < q.len() - 1 implies spawned.dom().contains(#[trigger] q[j])
            && spawned[q[j]] is Some && spawned[q[j]]->0.contains(q[j + 1]) by {
            assert(q[j] == p[j + 1]);
            assert(q[j + 1] == p[j + 2]);
        }
        assert(q[0] == m[cs@[k] as int]);
        assert(m.contains(q[0]));
        lemma_path_stays_spawned(before, spawned, nodes, m, q);
        assert(q.last() == p.last());
    } else {
        let i = m.index_of(p[0]);
        assert(m[i] == p.last());
    }
}

/// Every spawned element is reached from the spawned root.
proof fn lemma_spawned_reached(
    before: Map<Element, Option<Seq<Element>>>,
    spawned: Map<Element, Option<Seq<Element>>>,
    nodes: Seq<UiNode>,
    m: Seq<Element>,
    i: int,
)
    requires
        ui_well_formed(nodes),
        spawned_as(before, spawned, nodes, m),
        0 <= i < nodes.len(),
    ensures
        reaches(spawned, m[0], m[i]),
    decreases i,
{
    if i == 0 {
        let p = seq![m[0]];
        assert(is_path(spawned, p) && p[0] == m[0] && p.last() == m[0]);
    } else {
        let k = crate::ui::lemma_ui_parent_of(nodes, i);
        let par = ui_parent(nodes, i);
        lemma_spawned_reached(before, spawned, nodes, m, par);
        let p = choose|p: Seq<Element>| is_path(spawned, p) && p[0] == m[0] && p.last() == m[par];
        let cs = nodes[par].children->0;
        assert(ui_slot(nodes, par, k) && ui_child(nodes, par, k) == i);
        assert(spawned[m[par]]->0 == cs@.map_values(|c: usize| m[c as int]));
        assert(spawned[m[par]]->0[k] == m[i]);
        let q = p.push(m[i]);
        assert forall|j: int| 0 <= j < q.len() - 1 implies spawned.dom().contains(#[trigger] q[j])
            && spawned[q[j]] is Some && spawned[q[j]]->0.contains(q[j + 1]) by {
            if j < p.len() - 1 {
                assert(q[j] == p[j] && q[j + 1] == p[j + 1]);
            } else {
                assert(q[j] == m[par] && q[j + 1] == m[i]);
                assert(spawned[m[par]]->0[k] == m[i]);
            }
        }
        assert(is_path(spawned, q) && q[0] == m[0] && q.last() == m[i]);
    }
}

} // verus!
