//! Detection of shadowed local variables.
//!
//! A function or method body is one flat scope. Every local binding found in
//! it is recorded in source order; the first binding of a name is the
//! original, each later binding of that name is a shadow.

pub mod binding;
pub mod engine;
pub mod layout;
pub mod paint;
pub mod report;
pub mod scope;
pub mod visitor;

pub use binding::{Case, Count};
pub use engine::{analyze, Event, Step};
pub use report::{join, paint_each, Piece, Span, Tone};
pub use scope::{Function, History, Scope, Variable};
pub use visitor::{get_idents, Analysis, Binding, Declaration, LogicError, Pattern, ShadowCounter};
