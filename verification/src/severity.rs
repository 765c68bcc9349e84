//! Severity levels and the three native event-log categories they
//! collapse into.

use vstd::prelude::*;

verus! {

/// Severity of a log event, from least to most important.
#[derive(Clone, Copy, Debug, PartialEq, Eq, Structural)]
pub enum Level {
    Trace,
    Debug,
    Info,
    Warn,
    Error,
}

/// The native event-log facility knows only three severity buckets.
#[derive(Clone, Copy, Debug, PartialEq, Eq, Structural)]
pub enum Category {
    Error,
    Warning,
    Informational,
}

/// The bucket a severity level falls into: `error` keeps its own
/// category, `warn` becomes a warning, everything below is
/// informational.
pub open spec fn category_of_spec(level: Level) -> Category {
    match level {
        Level::Error => Category::Error,
        Level::Warn => Category::Warning,
        Level::Info => Category::Informational,
        Level::Debug => Category::Informational,
        Level::Trace => Category::Informational,
    }
}

/// Maps a severity level to the native category it is reported under.
pub fn category_of(level: &Level) -> (c: Category)
    ensures
        c == category_of_spec(*level),
{
    match level {
        Level::Error => Category::Error,
        Level::Warn => Category::Warning,
        Level::Info => Category::Informational,
        Level::Debug => Category::Informational,
        Level::Trace => Category::Informational,
    }
}

/// Law: the severity buckets are fixed. `error` alone maps to the
/// error category, `warn` alone to the warning category, and the three
/// lower levels all map to the informational category.
pub proof fn lemma_category_buckets()
    ensures
        category_of_spec(Level::Error) == Category::Error,
        category_of_spec(Level::Warn) == Category::Warning,
        category_of_spec(Level::Info) == Category::Informational,
        category_of_spec(Level::Debug) == Category::Informational,
        category_of_spec(Level::Trace) == Category::Informational,
        forall|l: Level| category_of_spec(l) == Category::Error ==> l == Level::Error,
        forall|l: Level| category_of_spec(l) == Category::Warning ==> l == Level::Warn,
{
}

} // verus!
