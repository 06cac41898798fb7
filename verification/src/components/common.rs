use vstd::prelude::*;
use crate::focus::{Focus, KeyMap};
use crate::geometry::Rect;
use crate::observe::{AreaRef, HitEvent, HitTest};

verus! {

/// The focus, area and hit test that a focusable element keeps.
#[derive(Clone, Copy, Debug, Default)]
pub struct FocusItemState {
    pub focused: bool,
    pub area_ref: AreaRef,
    pub hit_test: HitTest,
}

impl Focus for FocusItemState {
    open spec fn spec_focus(&self) -> bool {
        self.focused
    }

    open spec fn spec_rect(&self) -> Option<Rect> {
        self.area_ref@
    }

    open spec fn spec_keymaps(&self) -> Seq<KeyMap> {
        Seq::empty()
    }

    open spec fn spec_hit(&self) -> HitEvent {
        self.hit_test@
    }

    fn set_focus(&mut self, value: bool) {
        self.focused = value;
    }

    fn focus(&self) -> (b: bool) {
        self.focused
    }

    fn rect(&self) -> (r: Option<Rect>) {
        self.area_ref.get()
    }

    fn keymaps(&self) -> (r: Vec<KeyMap>) {
        Vec::new()
    }

    fn hit_test(&self) -> (r: HitEvent) {
        self.hit_test.get()
    }
}

} // verus!
