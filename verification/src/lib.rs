//! Command-interpretation core of a line-oriented shell: a tokenizer over the
//! shell's small lexical language, a recursive-descent parser producing a
//! command tree, and an execution planner that maps the tree to an ordered
//! sequence of process-spawn requests with their stream wiring.

pub mod token;
pub mod parser;
pub mod engine;
pub mod keystroke;
pub mod dimensions;
pub mod linefeed;
pub mod keyboard;
pub mod term_interface;
pub mod shell;
