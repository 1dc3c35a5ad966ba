//! Severity levels of log records and the filters that select among them.

use vstd::prelude::*;

verus! {

/// How severe a record is, from the most severe to the most verbose.
#[derive(Clone, Copy, Debug, PartialEq, Eq, Structural)]
pub enum Level {
    /// Something failed.
    Error,
    /// Something may go wrong.
    Warn,
    /// Something worth knowing.
    Info,
    /// Something of use to whoever looks for a fault.
    Debug,
    /// Every step.
    Trace,
}

/// How much a destination lets through: nothing, or every record up to a level.
#[derive(Clone, Copy, Debug, PartialEq, Eq, Structural)]
pub enum LevelFilter {
    /// Nothing.
    Off,
    /// Errors.
    Error,
    /// Warnings and what is more severe.
    Warn,
    /// Information and what is more severe.
    Info,
    /// Everything but traces.
    Debug,
    /// Everything.
    Trace,
}

impl Level {
    /// Position of the level on the verbosity scale; a larger number is more verbose.
    pub open spec fn verbosity(self) -> nat {
        match self {
            Level::Error => 1,
            Level::Warn => 2,
            Level::Info => 3,
            Level::Debug => 4,
            Level::Trace => 5,
        }
    }

    /// Whether a destination with the given filter takes records of this level.
    pub open spec fn passes_spec(self, filter: LevelFilter) -> bool {
        self.verbosity() <= filter.verbosity()
    }

    /// Whether a destination with the given filter takes records of this level.
    pub fn passes(self, filter: LevelFilter) -> (taken: bool)
        ensures
            taken == self.passes_spec(filter),
    {
        match filter {
            LevelFilter::Off => false,
            LevelFilter::Error => self == Level::Error,
            LevelFilter::Warn => self == Level::Error || self == Level::Warn,
            LevelFilter::Info => self != Level::Debug && self != Level::Trace,
            LevelFilter::Debug => self != Level::Trace,
            LevelFilter::Trace => true,
        }
    }
}

impl LevelFilter {
    /// Position of the filter on the verbosity scale of [`Level::verbosity`].
    pub open spec fn verbosity(self) -> nat {
        match self {
            LevelFilter::Off => 0,
            LevelFilter::Error => 1,
            LevelFilter::Warn => 2,
            LevelFilter::Info => 3,
            LevelFilter::Debug => 4,
            LevelFilter::Trace => 5,
        }
    }

    /// The more verbose of two filters.
    pub open spec fn max_spec(self, other: LevelFilter) -> LevelFilter {
        if self.verbosity() < other.verbosity() {
            other
        } else {
            self
        }
    }

    /// The verbosity as a machine number.
    fn rank(self) -> (rank: u8)
        ensures
            rank == self.verbosity(),
    {
        match self {
            LevelFilter::Off => 0,
            LevelFilter::Error => 1,
            LevelFilter::Warn => 2,
            LevelFilter::Info => 3,
            LevelFilter::Debug => 4,
            LevelFilter::Trace => 5,
        }
    }

    /// The more verbose of two filters.
    pub fn max(self, other: LevelFilter) -> (loosest: LevelFilter)
        ensures
            loosest == self.max_spec(other),
    {
        if self.rank() < other.rank() {
            other
        } else {
            self
        }
    }
}

/// A filter that is off takes nothing, and one that takes a level takes every more severe level,
/// as does every filter that is at least as verbose.
pub proof fn law_filters_are_thresholds(
    level: Level,
    severer: Level,
    filter: LevelFilter,
    looser: LevelFilter,
)
    requires
        severer.verbosity() <= level.verbosity(),
        filter.verbosity() <= looser.verbosity(),
    ensures
        !level.passes_spec(LevelFilter::Off),
        level.passes_spec(filter) ==> severer.passes_spec(looser),
{
}

/// Which levels a filter takes: none if it is off, otherwise those that are not more verbose than
/// the level after which it is named.
pub proof fn law_filters_take(level: Level, filter: LevelFilter)
    ensures
        filter is Off ==> !level.passes_spec(filter),
        filter is Error ==> (level.passes_spec(filter) <==> level is Error),
        filter is Warn ==> (level.passes_spec(filter) <==> level is Error || level is Warn),
        filter is Info ==> (level.passes_spec(filter) <==> !(level is Debug || level is Trace)),
        filter is Debug ==> (level.passes_spec(filter) <==> !(level is Trace)),
        filter is Trace ==> level.passes_spec(filter),
{
}

/// The more verbose of two filters is one of them, and takes a level if and only if one of them
/// does.
pub proof fn law_max_takes_what_either_takes(level: Level, one: LevelFilter, other: LevelFilter)
    ensures
        one.max_spec(other) == one || one.max_spec(other) == other,
        level.passes_spec(one.max_spec(other)) <==> level.passes_spec(one) || level.passes_spec(
            other,
        ),
        one.max_spec(other) == LevelFilter::Off <==> one == LevelFilter::Off && other
            == LevelFilter::Off,
{
}

} // verus!
