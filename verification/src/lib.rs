//! A graph-driven, line-oriented command interpreter core.
//!
//! Consumers define a directed graph of token nodes (a [`diagram::Diagram`]),
//! register handler functions ("controllers"), and feed input lines to
//! [`line_parser::LineParser`]. The engine owns token matching, path
//! selection, the cross-line cursor ([`diagram_player::DiagramPlayer`]) and
//! the control signals handed back to the host loop.

pub mod alist;
pub mod diagram;
pub mod diagram_json;
pub mod diagram_player;
pub mod line_parser;
pub mod regexp;
pub mod shell;
pub mod text;
