//! File-system change events, before and after normalisation.

use vstd::prelude::*;

verus! {

/// What happened to a path.
#[derive(Clone, Copy, Debug, PartialEq, Eq, Structural)]
pub enum EventKind {
    Created,
    Modified,
    Removed,
}

/// A notification as the watch source delivers it.
#[derive(Debug)]
pub struct RawEvent {
    pub path: String,
    pub kind: EventKind,
    /// Milliseconds on the clock that stamps every event and every timer.
    pub observed_at: u64,
    /// Whether the source knows the path to be a directory.
    pub directory: bool,
}

/// Mathematical content of a [`RawEvent`].
pub struct RawEventView {
    pub path: Seq<char>,
    pub kind: EventKind,
    pub observed_at: u64,
    pub directory: bool,
}

impl View for RawEvent {
    type V = RawEventView;

    open spec fn view(&self) -> RawEventView {
        RawEventView {
            path: self.path@,
            kind: self.kind,
            observed_at: self.observed_at,
            directory: self.directory,
        }
    }
}

/// A notification that passed the filters: one per raw event at most.
#[derive(Debug)]
pub struct NormalizedEvent {
    pub path: String,
    pub kind: EventKind,
    pub at: u64,
}

/// Mathematical content of a [`NormalizedEvent`].
pub struct NormalizedEventView {
    pub path: Seq<char>,
    pub kind: EventKind,
    pub at: u64,
}

impl View for NormalizedEvent {
    type V = NormalizedEventView;

    open spec fn view(&self) -> NormalizedEventView {
        NormalizedEventView { path: self.path@, kind: self.kind, at: self.at }
    }
}

impl RawEvent {
    /// A raw event for a path that is not known to be a directory.
    pub fn new(path: String, kind: EventKind, observed_at: u64) -> (e: RawEvent)
        ensures
            e@ == (RawEventView { path: path@, kind, observed_at, directory: false }),
    {
        RawEvent { path, kind, observed_at, directory: false }
    }

    /// A raw event for a path that the source knows to be a directory.
    pub fn for_directory(path: String, kind: EventKind, observed_at: u64) -> (e: RawEvent)
        ensures
            e@ == (RawEventView { path: path@, kind, observed_at, directory: true }),
    {
        RawEvent { path, kind, observed_at, directory: true }
    }
}

} // verus!
