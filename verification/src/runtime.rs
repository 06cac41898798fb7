use vstd::prelude::*;

verus! {


/// Why the application runtime stopped; each of these is fatal.
#[derive(Debug)]
pub enum RuntimeErr {
    ChannelClosed,
    PropagateEventError,
    /// Navigation failed; holds the failure's message.
    NaviagtionError(String),
    InitErr,
    CleanupError,
}

/// Marker component: while an element carries it, the runtime redraws in a
/// hot loop instead of waiting for the next event.
#[derive(Clone, Copy, Debug, Default)]
pub struct HotLoop;

/// Marker component: the terminal cursor is shown at this column and row.
#[derive(Clone, Copy, Debug, Default, PartialEq, Eq, Structural, Hash)]
pub struct CursorAt(pub u16, pub u16);

/// What the runtime loop received.
#[derive(Clone, Copy, Debug, PartialEq, Eq, Structural)]
pub enum Incoming {
    /// Nothing arrived within a frame of a hot loop.
    FrameElapsed,
    /// A message of the application; `more_queued` when others wait behind it.
    App { quit: bool, more_queued: bool },
    /// A terminal event.
    Terminal,
}

/// What the runtime loop does next.
#[derive(Clone, Copy, Debug, PartialEq, Eq, Structural)]
pub enum RuntimeAction {
    /// Stop: the quit signal holds for the message.
    Quit,
    /// Redraw the view, with no update.
    Rerender,
    /// Update the model with the message, then redraw.
    UpdateAndRerender,
    /// Update the model with the message; redraw once the queue is drained.
    UpdateOnly,
    /// Hand the terminal event to the application and to the focus system.
    HandleTerminal,
}

pub open spec fn spec_runtime_action(incoming: Incoming) -> RuntimeAction {
    match incoming {
        Incoming::FrameElapsed => RuntimeAction::Rerender,
        Incoming::App { quit, more_queued } => {
            if quit {
                RuntimeAction::Quit
            } else if more_queued {
                RuntimeAction::UpdateOnly
            } else {
                RuntimeAction::UpdateAndRerender
            }
        },
        Incoming::Terminal => RuntimeAction::HandleTerminal,
    }
}

/// The decision of one turn of the runtime loop: a quitting message stops it,
/// a message with more queued behind it updates without redrawing, any other
/// message updates and redraws, an elapsed frame redraws.
pub fn runtime_action(incoming: Incoming) -> (a: RuntimeAction)
    ensures
        a == spec_runtime_action(incoming),
{
    match incoming {
        Incoming::FrameElapsed => RuntimeAction::Rerender,
        Incoming::App { quit, more_queued } => {
            if quit {
                RuntimeAction::Quit
            } else if more_queued {
                RuntimeAction::UpdateOnly
            } else {
                RuntimeAction::UpdateAndRerender
            }
        },
        Incoming::Terminal => RuntimeAction::HandleTerminal,
    }
}

/// Whether the runtime runs in a hot loop: some element carries [`HotLoop`].
pub fn is_hot_loop(hot_loop_elements: usize) -> (b: bool)
    ensures
        b == (hot_loop_elements != 0),
{
    hot_loop_elements != 0
}

/// How the runtime waits for its next message.
#[derive(Clone, Copy, Debug, PartialEq, Eq, Structural)]
pub enum Receive {
    /// At most one frame: in a hot loop the view is redrawn when nothing came.
    WithinFrame,
    /// Until something comes.
    Wait,
}

/// The runtime waits at most one frame while some element carries
/// [`HotLoop`], and otherwise until a message or a terminal event comes.
pub fn receive_mode(hot_loop_elements: usize) -> (r: Receive)
    ensures
        r == (if hot_loop_elements != 0 { Receive::WithinFrame } else { Receive::Wait }),
{
    if is_hot_loop(hot_loop_elements) {
        Receive::WithinFrame
    } else {
        Receive::Wait
    }
}

/// The row the terminal cursor is put on after an inline viewport of
/// `height` rows is left: one below the row `height` rows above `row`.
pub fn inline_exit_row(row: u16, height: u16) -> (r: u16)
    requires
        row < u16::MAX || height > 0,
    ensures
        r == (if row < height { 1 } else { row - height + 1 }),
{
    row.saturating_sub(height) + 1
}

/// The terminal cursor to show: the first one that an element asks for, if
/// any; with none the cursor stays hidden.
pub fn shown_cursor(cursors: &Vec<CursorAt>) -> (r: Option<CursorAt>)
    ensures
        r == (if cursors@.len() > 0 { Some(cursors@[0]) } else { None::<CursorAt> }),
{
    if cursors.len() > 0 {
        Some(cursors[0])
    } else {
        None
    }
}

} // verus!
