//! Adapts structured log events to the host's centralized event log:
//! a visitor accumulates an event's typed fields into an identifier,
//! a primary message and extra fields; a renderer assembles them into
//! one flat record (identifier, native category, message body) ready
//! for a single native write call.
//!
//! Identifier defaulting policy: the event's own identifier wins, else
//! the single configured default, else zero.

pub mod severity;
pub mod text;
pub mod trail;
pub mod visitor;

pub use severity::{category_of, Category, Level};
pub use trail::ancestry_trail;
pub use visitor::{EventVisitor, RenderedRecord};
