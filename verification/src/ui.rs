//! The data vocabulary of the widget layer, and the input decisions that are
//! plain functions of plain values. Window events, widget layout and GPU
//! rendering work on floating-point geometry and windowing-library types and
//! live with the surrounding application.
use vstd::prelude::*;

use crate::errors::LiminalError;

verus! {

/// The modifier keys held during a key press.
#[derive(Debug, Clone, PartialEq, Eq, Structural)]
pub struct Modifiers {
    pub ctrl: bool,
    pub alt: bool,
    pub shift: bool,
    pub cmd: bool,
}

impl Default for Modifiers {
    /// No modifier held.
    fn default() -> (m: Modifiers)
        ensures
            m == (Modifiers { ctrl: false, alt: false, shift: false, cmd: false }),
    {
        Modifiers { ctrl: false, alt: false, shift: false, cmd: false }
    }
}

/// How a container arranges its widgets.
#[derive(Debug, Clone)]
pub enum LayoutType {
    Vertical,
    Horizontal,
    Grid { columns: u32, rows: u32 },
    Absolute,
    Flex,
}

/// How a widget aligns itself inside the space it is given.
#[derive(Debug, Clone)]
pub enum Alignment {
    Start,
    Center,
    End,
    Stretch,
}

/// The kinds of widget the interface is built from.
#[derive(Debug, Clone)]
pub enum WidgetType {
    TerminalBlock,
    Button,
    TextInput,
    AIPanel,
    StatusBar,
    ScrollView,
}

/// The lifecycle state of one executed command.
#[derive(Debug, Clone)]
pub enum CommandStatus {
    Running,
    Success,
    Error,
    Cancelled,
}

/// The visual role of a button.
#[derive(Debug, Clone)]
pub enum ButtonStyle {
    Primary,
    Secondary,
    Danger,
    AI,
}

/// Who speaks in an assistant conversation.
#[derive(Debug, Clone)]
pub enum AIRole {
    User,
    Assistant,
    System,
}

/// One click registered against the click counter: within the double-click
/// window the count grows, otherwise it restarts at one; reaching two
/// reports a double click and resets the counter for the next sequence.
pub fn register_click(click_count: u32, elapsed_millis: u64) -> (r: (u32, bool))
    requires
        click_count < u32::MAX,
    ensures
        r.1 == (elapsed_millis < 300 && click_count + 1 == 2),
        r.0 == if r.1 {
            0int
        } else if elapsed_millis < 300 {
            click_count + 1
        } else {
            1int
        },
{
    let count = if elapsed_millis < 300 {
        click_count + 1
    } else {
        1
    };
    if count == 2 && elapsed_millis < 300 {
        (0, true)
    } else {
        (count, false)
    }
}

/// The frame boundaries of the widget renderer. The GPU resources live with
/// the surrounding application; the core tracks only that frames are begun
/// and ended without error.
#[derive(Debug)]
pub struct UiRenderer {
    frames_begun: u64,
    frames_ended: u64,
}

impl UiRenderer {
    /// How many frames have been begun.
    pub closed spec fn spec_frames_begun(&self) -> nat {
        self.frames_begun as nat
    }

    /// How many frames have been ended.
    pub closed spec fn spec_frames_ended(&self) -> nat {
        self.frames_ended as nat
    }

    /// A renderer with no frame begun.
    pub fn new() -> (r: UiRenderer)
        ensures
            r.spec_frames_begun() == 0,
            r.spec_frames_ended() == 0,
    {
        UiRenderer { frames_begun: 0, frames_ended: 0 }
    }

    /// Begins a frame; never fails.
    pub fn begin_frame(&mut self) -> (r: Result<(), LiminalError>)
        requires
            old(self).spec_frames_begun() < u64::MAX,
        ensures
            r is Ok,
            final(self).spec_frames_begun() == old(self).spec_frames_begun() + 1,
            final(self).spec_frames_ended() == old(self).spec_frames_ended(),
    {
        self.frames_begun = self.frames_begun + 1;
        Ok(())
    }

    /// Ends a frame; never fails.
    pub fn end_frame(&mut self) -> (r: Result<(), LiminalError>)
        requires
            old(self).spec_frames_ended() < u64::MAX,
        ensures
            r is Ok,
            final(self).spec_frames_ended() == old(self).spec_frames_ended() + 1,
            final(self).spec_frames_begun() == old(self).spec_frames_begun(),
    {
        self.frames_ended = self.frames_ended + 1;
        Ok(())
    }
}

} // verus!
