//! A terminal emulation core: a byte-driven escape-sequence interpreter that
//! maintains a styled character grid with scrollback, together with the
//! session bookkeeping for the shell process whose output it interprets.
pub mod ai;
pub mod buffer;
pub mod cell;
pub mod config;
pub mod errors;
pub mod parser;
pub mod shell;
pub mod terminal;
pub mod ui;

pub use buffer::TerminalBuffer;
pub use cell::Rgb;
pub use cell::TerminalCell;
pub use config::TerminalConfig;
pub use errors::LiminalError;
pub use terminal::Terminal;
