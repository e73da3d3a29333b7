//! The error taxonomy of the library.
//!
//! Every variant carries a human-readable cause. Failures that originate in
//! an outer transport (I/O, HTTP, serialisation) are carried as their
//! rendered message.
use vstd::prelude::*;

verus! {

/// An error surfaced by the terminal core or its surrounding application.
#[derive(Debug, Clone, PartialEq, Eq)]
pub enum LiminalError {
    /// Buffer or resize misuse.
    Terminal(String),
    /// A rendering-layer failure.
    Renderer(String),
    /// A shell-process failure: spawn, I/O, wait, or a double start.
    Shell(String),
    /// An assistant-integration failure.
    Ai(String),
    /// A configuration failure.
    Config(String),
    /// A propagated transport failure.
    Io(String),
    /// A propagated HTTP failure.
    Http(String),
    /// A propagated serialisation failure.
    Json(String),
    /// A window-creation failure.
    Window(String),
    /// A GPU-layer failure.
    Wgpu(String),
}

impl LiminalError {
    /// The human-readable cause the error carries.
    pub fn detail(&self) -> (m: &String)
        ensures
            m@ == self.spec_detail(),
    {
        match self {
            LiminalError::Terminal(m) => m,
            LiminalError::Renderer(m) => m,
            LiminalError::Shell(m) => m,
            LiminalError::Ai(m) => m,
            LiminalError::Config(m) => m,
            LiminalError::Io(m) => m,
            LiminalError::Http(m) => m,
            LiminalError::Json(m) => m,
            LiminalError::Window(m) => m,
            LiminalError::Wgpu(m) => m,
        }
    }

    /// The cause the error carries, as a sequence of characters.
    pub open spec fn spec_detail(&self) -> Seq<char> {
        match self {
            LiminalError::Terminal(m) => m@,
            LiminalError::Renderer(m) => m@,
            LiminalError::Shell(m) => m@,
            LiminalError::Ai(m) => m@,
            LiminalError::Config(m) => m@,
            LiminalError::Io(m) => m@,
            LiminalError::Http(m) => m@,
            LiminalError::Json(m) => m@,
            LiminalError::Window(m) => m@,
            LiminalError::Wgpu(m) => m@,
        }
    }
}

} // verus!
