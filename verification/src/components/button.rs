use vstd::prelude::*;
use crate::components::common::FocusItemState;
use crate::event::{Event, KeyCode, KeyEventKind, MouseButton, MouseEventKind};
use crate::focus::{
    ctrl_keymap, default_keymap, spec_ctrl_keymap, spec_default_keymap, spec_vim_ctrl_keymap,
    spec_vim_keymap, vim_ctrl_keymap, vim_keymap, Focus, KeyMap,
};
use crate::geometry::{Position, Rect};
use crate::observe::HitEvent;

verus! {

/// A button that can be pressed with Enter or a mouse button.
#[derive(Debug, Default)]
pub struct Button {
    focus_item: FocusItemState,
    btn_down: Option<MouseButton>,
    key_down: Option<KeyCode>,
}

/// The state of a button, as a mathematical value.
pub struct ButtonView {
    pub focused: bool,
    pub area: Option<Rect>,
    pub hit: HitEvent,
    pub btn_down: Option<MouseButton>,
    pub key_down: Option<KeyCode>,
}

/// What a button reports of an event.
#[derive(Clone, Copy, Debug, PartialEq, Eq, Structural)]
pub enum ButtonEvent {
    Clicked,
    Nothing,
}

impl View for Button {
    type V = ButtonView;

    closed spec fn view(&self) -> ButtonView {
        ButtonView {
            focused: self.focus_item.focused,
            area: self.focus_item.area_ref@,
            hit: self.focus_item.hit_test@,
            btn_down: self.btn_down,
            key_down: self.key_down,
        }
    }
}

impl ButtonView {
    /// The button and its report after an event.
    pub open spec fn spec_update(self, ev: Event) -> (ButtonView, ButtonEvent) {
        if !self.focused {
            (ButtonView { btn_down: None, key_down: None, ..self }, ButtonEvent::Nothing)
        } else {
            match ev {
                Event::Key(k) => {
                    if k.code == KeyCode::Enter && k.kind == KeyEventKind::Press {
                        (ButtonView { key_down: Some(KeyCode::Enter), ..self }, ButtonEvent::Clicked)
                    } else if k.code == KeyCode::Enter && k.kind == KeyEventKind::Release {
                        if self.key_down == Some(KeyCode::Enter) {
                            (ButtonView { key_down: None, ..self }, ButtonEvent::Clicked)
                        } else {
                            (self, ButtonEvent::Clicked)
                        }
                    } else {
                        (self, ButtonEvent::Nothing)
                    }
                },
                Event::Mouse(m) => {
                    match self.area {
                        None => (self, ButtonEvent::Nothing),
                        Some(rect) => {
                            if !rect.spec_contains(Position { x: m.column, y: m.row }) {
                                (self, ButtonEvent::Nothing)
                            } else {
                                match m.kind {
                                    MouseEventKind::Down(b) => (
                                        ButtonView { btn_down: Some(b), ..self },
                                        ButtonEvent::Clicked,
                                    ),
                                    MouseEventKind::Up(b) => {
                                        if self.btn_down == Some(b) {
                                            (ButtonView { btn_down: None, ..self }, ButtonEvent::Nothing)
                                        } else {
                                            (self, ButtonEvent::Nothing)
                                        }
                                    },
                                    _ => (self, ButtonEvent::Nothing),
                                }
                            }
                        },
                    }
                },
                _ => (self, ButtonEvent::Nothing),
            }
        }
    }

    pub open spec fn spec_is_down(self) -> bool {
        (self.key_down is Some || self.btn_down is Some) && self.focused
    }
}

impl Button {
    /// An unfocused button that is not down.
    pub fn new() -> (b: Button)
        ensures
            !b@.focused,
            b@.area == None::<Rect>,
            b@.hit == HitEvent::Nothing,
            b@.btn_down == None::<MouseButton>,
            b@.key_down == None::<KeyCode>,
    {
        Button {
            focus_item: FocusItemState {
                focused: false,
                area_ref: crate::observe::AreaRef::empty(),
                hit_test: crate::observe::HitTest::empty(),
            },
            btn_down: None,
            key_down: None,
        }
    }

    /// Records the area the button was drawn in, as the renderer does.
    pub fn set_area(&mut self, area: Rect)
        ensures
            final(self)@ == (ButtonView { area: Some(area), ..old(self)@ }),
    {
        self.focus_item.area_ref.set(area);
    }

    /// Records the last hit event of the button, as the renderer does.
    pub fn set_hit(&mut self, hit: HitEvent)
        ensures
            final(self)@ == (ButtonView { hit, ..old(self)@ }),
    {
        self.focus_item.hit_test.set(hit);
    }

    /// Enter and a mouse button inside the button's area press it; an
    /// unfocused button lets go of every key and button.
    pub fn update(self, event: &Event) -> (r: (Button, ButtonEvent))
        ensures
            (r.0@, r.1) == self@.spec_update(*event),
    {
        let mut s = self;
        if !s.focus_item.focused {
            s.btn_down = None;
            s.key_down = None;
            return (s, ButtonEvent::Nothing);
        }
        match event {
            Event::Key(k) => {
                if k.code == KeyCode::Enter && k.kind == KeyEventKind::Press {
                    s.key_down = Some(KeyCode::Enter);
                    (s, ButtonEvent::Clicked)
                } else if k.code == KeyCode::Enter && k.kind == KeyEventKind::Release {
                    if s.key_down == Some(KeyCode::Enter) {
                        s.key_down = None;
                    }
                    (s, ButtonEvent::Clicked)
                } else {
                    (s, ButtonEvent::Nothing)
                }
            },
            Event::Mouse(m) => {
                let pos = Position::new(m.column, m.row);
                let rect = match s.focus_item.area_ref.get() {
                    Some(rect) => rect,
                    None => {
                        return (s, ButtonEvent::Nothing);
                    },
                };
                if !rect.contains(pos) {
                    return (s, ButtonEvent::Nothing);
                }
                match m.kind {
                    MouseEventKind::Down(btn) => {
                        s.btn_down = Some(btn);
                        (s, ButtonEvent::Clicked)
                    },
                    MouseEventKind::Up(btn) => {
                        if s.btn_down == Some(btn) {
                            s.btn_down = None;
                        }
                        (s, ButtonEvent::Nothing)
                    },
                    _ => (s, ButtonEvent::Nothing),
                }
            },
            _ => (s, ButtonEvent::Nothing),
        }
    }

    /// Whether the button is focused and held down by a key or a mouse button.
    pub fn is_down(&self) -> (b: bool)
        ensures
            b == self@.spec_is_down(),
    {
        (self.key_down.is_some() || self.btn_down.is_some()) && self.focus_item.focused
    }
}

impl Focus for Button {
    closed spec fn spec_focus(&self) -> bool {
        self.focus_item.focused
    }

    closed spec fn spec_rect(&self) -> Option<Rect> {
        self.focus_item.area_ref@
    }

    closed spec fn spec_keymaps(&self) -> Seq<KeyMap> {
        seq![spec_vim_keymap(), spec_default_keymap(), spec_vim_ctrl_keymap(), spec_ctrl_keymap()]
    }

    closed spec fn spec_hit(&self) -> HitEvent {
        self.focus_item.hit_test@
    }

    fn set_focus(&mut self, value: bool)
        ensures
            final(self)@ == (ButtonView { focused: value, ..old(self)@ }),
    {
        self.focus_item.focused = value;
    }

    fn focus(&self) -> (b: bool) {
        self.focus_item.focused
    }

    fn rect(&self) -> (r: Option<Rect>) {
        self.focus_item.area_ref.get()
    }

    fn keymaps(&self) -> (r: Vec<KeyMap>) {
        let mut v = Vec::new();
        v.push(vim_keymap());
        v.push(default_keymap());
        v.push(vim_ctrl_keymap());
        v.push(ctrl_keymap());
        assert(v@ =~= seq![spec_vim_keymap(), spec_default_keymap(), spec_vim_ctrl_keymap(), spec_ctrl_keymap()]);
        v
    }

    fn hit_test(&self) -> (r: HitEvent) {
        self.focus_item.hit_test.get()
    }
}

/// How the button view draws a button.
#[derive(Clone, Copy, Debug, PartialEq, Eq, Structural)]
pub enum ButtonLook {
    Normal,
    Hovered,
    Pressed,
}

impl ButtonView {
    /// Pressed while held down; hovered while under the mouse or focused.
    pub open spec fn spec_look(self) -> ButtonLook {
        if self.spec_is_down() {
            ButtonLook::Pressed
        } else if self.hit is Hovered || self.focused {
            ButtonLook::Hovered
        } else {
            ButtonLook::Normal
        }
    }
}

impl Button {
    /// The style the button view picks: the clicked style while the button is
    /// down, the hover style while it is hovered or focused.
    pub fn look(&self) -> (r: ButtonLook)
        ensures
            r == self@.spec_look(),
    {
        let is_hover = match self.focus_item.hit_test.get() {
            HitEvent::Hovered(_, _) => true,
            _ => false,
        };
        let is_down = self.is_down();
        if is_down {
            ButtonLook::Pressed
        } else if is_hover || self.focus_item.focused {
            ButtonLook::Hovered
        } else {
            ButtonLook::Normal
        }
    }
}

} // verus!
