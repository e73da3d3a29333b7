//! A byte-at-a-time state machine for the terminal control-sequence
//! protocol.
//!
//! Each input byte is classified, in the current state, into a semantic
//! [`Action`]: print a character, execute a control code, or dispatch a
//! complete CSI sequence with its numeric parameters. Escape sequences that
//! carry no grid effect (bare ESC dispatches, operating-system-command
//! strings, device-control strings, and private or intermediate bytes inside
//! a CSI) are consumed so the state stays correct, and any byte that does
//! not fit the current state's grammar returns the machine to ground: the
//! parser can never become permanently stuck.
use vstd::prelude::*;

verus! {

/// The most numeric parameters one control sequence may carry; further
/// parameters are consumed and dropped.
pub const CSI_MAX_PARAMS: usize = 32;

/// The position of the state machine.
#[derive(Debug, Clone, Copy, PartialEq, Eq, Structural)]
pub enum ParserState {
    /// The default, idle state: printable bytes print, control bytes execute.
    Ground,
    /// An ESC byte has been seen.
    Escape,
    /// Inside `ESC [ ...`: numeric parameters are accumulating. Private
    /// markers and intermediate bytes are consumed without effect.
    CsiParam,
    /// Inside `ESC ] ...`: an operating-system-command string is consumed
    /// without effect until its terminator.
    OscString,
    /// Inside `ESC P ...`: a device-control string is consumed without
    /// effect until an escape ends it.
    DcsString,
}

/// A semantic action decoded from one input byte.
#[derive(Debug, Clone, PartialEq, Eq)]
pub enum Action {
    /// Write this character at the cursor.
    Print(char),
    /// Perform this C0 control code.
    Execute(u8),
    /// A complete CSI sequence: its numeric parameters and its final byte.
    CsiDispatch(Vec<u16>, u8),
    /// The byte only moved the state machine.
    Ignore,
}

/// The mathematical counterpart of [`Action`].
pub ghost enum ActionView {
    Print(char),
    Execute(u8),
    CsiDispatch(Seq<u16>, u8),
    Ignore,
}

impl View for Action {
    type V = ActionView;

    open spec fn view(&self) -> ActionView {
        match self {
            Action::Print(c) => ActionView::Print(*c),
            Action::Execute(b) => ActionView::Execute(*b),
            Action::CsiDispatch(params, fin) => ActionView::CsiDispatch(params@, *fin),
            Action::Ignore => ActionView::Ignore,
        }
    }
}

/// The mathematical state of the parser: its position, the parameters
/// accumulated so far, the parameter being read, and whether that parameter
/// has been begun (by a digit or a separator).
pub ghost struct ParserView {
    pub state: ParserState,
    pub params: Seq<u16>,
    pub current: u16,
    pub pending: bool,
}

/// The parser state entered initially and at the end of every sequence.
pub open spec fn ground_view() -> ParserView {
    ParserView { state: ParserState::Ground, params: Seq::empty(), current: 0, pending: false }
}

/// Appends a finished parameter, dropping it if the sequence already carries
/// the most parameters allowed.
pub open spec fn csi_push(params: Seq<u16>, v: u16) -> Seq<u16> {
    if params.len() < CSI_MAX_PARAMS {
        params.push(v)
    } else {
        params
    }
}

/// One decimal digit accumulated into a parameter, saturating at the largest
/// parameter value.
pub open spec fn spec_param_accum(current: u16, digit: u8) -> u16 {
    if current as int * 10 + digit as int > u16::MAX as int {
        u16::MAX
    } else {
        (current * 10 + digit) as u16
    }
}

/// The parameters a CSI dispatch carries: the accumulated ones, together
/// with the parameter being read if one was begun.
pub open spec fn csi_final_params(p: ParserView) -> Seq<u16> {
    if p.pending {
        csi_push(p.params, p.current)
    } else {
        p.params
    }
}

/// The state transition of the machine on one byte.
pub open spec fn parser_step(p: ParserView, b: u8) -> ParserView {
    match p.state {
        ParserState::Ground => {
            if b == 0x1b {
                ParserView { state: ParserState::Escape, ..ground_view() }
            } else {
                p
            }
        },
        ParserState::Escape => {
            if b == 0x5b {
                ParserView { state: ParserState::CsiParam, ..ground_view() }
            } else if b == 0x5d {
                ParserView { state: ParserState::OscString, ..ground_view() }
            } else if b == 0x50 {
                ParserView { state: ParserState::DcsString, ..ground_view() }
            } else {
                ground_view()
            }
        },
        ParserState::CsiParam => {
            if 0x30 <= b && b <= 0x39 {
                ParserView {
                    current: spec_param_accum(p.current, (b - 0x30) as u8),
                    pending: true,
                    ..p
                }
            } else if b == 0x3b {
                ParserView { params: csi_push(p.params, p.current), current: 0, pending: true, ..p }
            } else if 0x20 <= b && b <= 0x3f {
                p
            } else if b == 0x1b {
                ParserView { state: ParserState::Escape, ..ground_view() }
            } else {
                ground_view()
            }
        },
        ParserState::OscString => {
            if b == 0x07 {
                ground_view()
            } else if b == 0x1b {
                ParserView { state: ParserState::Escape, ..ground_view() }
            } else {
                p
            }
        },
        ParserState::DcsString => {
            if b == 0x1b {
                ParserView { state: ParserState::Escape, ..ground_view() }
            } else {
                p
            }
        },
    }
}

/// The action the machine emits on one byte.
pub open spec fn parser_action(p: ParserView, b: u8) -> ActionView {
    match p.state {
        ParserState::Ground => {
            if 0x20 <= b && b <= 0x7e {
                ActionView::Print(b as char)
            } else if b <= 0x1f && b != 0x1b {
                ActionView::Execute(b)
            } else {
                ActionView::Ignore
            }
        },
        ParserState::Escape => ActionView::Ignore,
        ParserState::CsiParam => {
            if 0x40 <= b && b <= 0x7e {
                ActionView::CsiDispatch(csi_final_params(p), b)
            } else {
                ActionView::Ignore
            }
        },
        ParserState::OscString => ActionView::Ignore,
        ParserState::DcsString => ActionView::Ignore,
    }
}

/// The state machine of the escape-sequence interpreter.
#[derive(Debug)]
pub struct Parser {
    state: ParserState,
    params: Vec<u16>,
    current: u16,
    pending: bool,
}

impl View for Parser {
    type V = ParserView;

    closed spec fn view(&self) -> ParserView {
        ParserView {
            state: self.state,
            params: self.params@,
            current: self.current,
            pending: self.pending,
        }
    }
}

impl Parser {
    /// Well-formedness: the accumulated parameters never exceed the cap.
    pub open spec fn wf(&self) -> bool {
        self@.params.len() <= CSI_MAX_PARAMS
    }

    /// A parser in the ground state.
    pub fn new() -> (p: Parser)
        ensures
            p@ == ground_view(),
            p.wf(),
    {
        Parser { state: ParserState::Ground, params: Vec::new(), current: 0, pending: false }
    }

    /// Consumes one byte: moves the state machine and returns the semantic
    /// action the byte carries.
    pub fn advance(&mut self, b: u8) -> (a: Action)
        requires
            old(self).wf(),
        ensures
            final(self)@ == parser_step(old(self)@, b),
            final(self).wf(),
            a@ == parser_action(old(self)@, b),
    {
        match self.state {
            ParserState::Ground => {
                if b == 0x1b {
                    self.reset_to(ParserState::Escape);
                    Action::Ignore
                } else if 0x20 <= b && b <= 0x7e {
                    Action::Print(b as char)
                } else if b <= 0x1f {
                    Action::Execute(b)
                } else {
                    Action::Ignore
                }
            },
            ParserState::Escape => {
                if b == 0x5b {
                    self.reset_to(ParserState::CsiParam);
                } else if b == 0x5d {
                    self.reset_to(ParserState::OscString);
                } else if b == 0x50 {
                    self.reset_to(ParserState::DcsString);
                } else {
                    self.reset_to(ParserState::Ground);
                }
                Action::Ignore
            },
            ParserState::CsiParam => {
                if 0x30 <= b && b <= 0x39 {
                    self.current = param_accum(self.current, b - 0x30);
                    self.pending = true;
                    Action::Ignore
                } else if b == 0x3b {
                    if self.params.len() < CSI_MAX_PARAMS {
                        let v = self.current;
                        self.params.push(v);
                    }
                    self.current = 0;
                    self.pending = true;
                    Action::Ignore
                } else if 0x20 <= b && b <= 0x3f {
                    Action::Ignore
                } else if b == 0x1b {
                    self.reset_to(ParserState::Escape);
                    Action::Ignore
                } else if 0x40 <= b && b <= 0x7e {
                    if self.pending && self.params.len() < CSI_MAX_PARAMS {
                        let v = self.current;
                        self.params.push(v);
                    }
                    let params = self.params.split_off(0);
                    let ghost finished = params@;
                    self.reset_to(ParserState::Ground);
                    proof {
                        assert(finished == csi_final_params(old(self)@));
                    }
                    Action::CsiDispatch(params, b)
                } else {
                    self.reset_to(ParserState::Ground);
                    Action::Ignore
                }
            },
            ParserState::OscString => {
                if b == 0x07 {
                    self.reset_to(ParserState::Ground);
                } else if b == 0x1b {
                    self.reset_to(ParserState::Escape);
                }
                Action::Ignore
            },
            ParserState::DcsString => {
                if b == 0x1b {
                    self.reset_to(ParserState::Escape);
                }
                Action::Ignore
            },
        }
    }

    /// Enters the given state with no accumulated parameters.
    fn reset_to(&mut self, state: ParserState)
        ensures
            final(self)@ == (ParserView { state, ..ground_view() }),
    {
        self.state = state;
        self.params = Vec::new();
        self.current = 0;
        self.pending = false;
    }
}

/// One decimal digit accumulated into a parameter, saturating at the largest
/// parameter value.
fn param_accum(current: u16, digit: u8) -> (r: u16)
    requires
        digit <= 9,
    ensures
        r == spec_param_accum(current, digit),
{
    let v: u32 = current as u32 * 10 + digit as u32;
    if v > u16::MAX as u32 {
        u16::MAX
    } else {
        v as u16
    }
}

} // verus!
