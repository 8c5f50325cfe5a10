//! The decisions of one sweep: which feed waits for the anchor, which imports,
//! when the search index must be rebuilt.
use vstd::prelude::*;

use crate::file_meta::FileMeta;
use crate::importers::{feed_feeds_search, feed_scheduling, Feed, ImporterScheduling};

verus! {

/// A one-shot latch: once the anchor fires it, it stays fired for the sweep.
pub struct AnchorLatch {
    fired: bool,
}

impl View for AnchorLatch {
    type V = bool;

    closed spec fn view(&self) -> bool {
        self.fired
    }
}

impl AnchorLatch {
    pub fn new() -> (r: AnchorLatch)
        ensures
            !r@,
    {
        AnchorLatch { fired: false }
    }

    pub fn fire(&mut self)
        ensures
            final(self)@,
    {
        self.fired = true;
    }

    pub fn is_fired(&self) -> (r: bool)
        ensures
            r == self@,
    {
        self.fired
    }

    /// Whether a feed must wait before importing: only dependents do, and
    /// only until the latch fires.
    pub fn must_wait(&self, scheduling: ImporterScheduling) -> (r: bool)
        ensures
            r == (scheduling == ImporterScheduling::WaitForBasics && !self@),
    {
        scheduling == ImporterScheduling::WaitForBasics && !self.fired
    }
}

/// What one feed's task does after its fetch.
#[derive(Clone, Copy, PartialEq, Eq, Debug, Structural)]
pub struct FeedPlan {
    /// Import the cached file.
    pub import: bool,
    /// The import calls for a search-index rebuild.
    pub marks_search_update: bool,
    /// Fire the anchor latch when done (with or without an import).
    pub fires_latch: bool,
}

pub open spec fn feed_plan(f: Feed, imported: bool) -> FeedPlan {
    FeedPlan {
        import: !imported,
        marks_search_update: !imported && feed_feeds_search(f),
        fires_latch: feed_scheduling(f) == ImporterScheduling::IsBasics,
    }
}

/// The plan for feed `f`, whose sidecar is `meta` after the fetch: import when
/// `imported_at` is absent; the anchor fires the latch in any case.
pub fn plan_feed(f: Feed, meta: &FileMeta) -> (r: FeedPlan)
    ensures
        r == feed_plan(f, meta.imported_at is Some),
{
    let import = meta.needs_import();
    FeedPlan {
        import,
        marks_search_update: import && f.feeds_search(),
        fires_latch: f.get_scheduling() == ImporterScheduling::IsBasics,
    }
}

/// What the sweep has learnt from its feeds' tasks.
pub struct SweepStatus {
    pub needs_search_update: bool,
}

impl SweepStatus {
    pub fn new() -> (r: SweepStatus)
        ensures
            !r.needs_search_update,
    {
        SweepStatus { needs_search_update: false }
    }

    /// Records a finished feed task.
    pub fn record(&mut self, plan: FeedPlan)
        ensures
            final(self).needs_search_update == (old(self).needs_search_update
                || plan.marks_search_update),
    {
        if plan.marks_search_update {
            self.needs_search_update = true;
        }
    }
}

/// A feed whose file is already imported never asks for a search-index
/// rebuild, and the basics feed is the one feed that fires the latch.
pub proof fn lemma_no_import_no_rebuild(f: Feed, imported: bool)
    ensures
        imported ==> !feed_plan(f, imported).marks_search_update,
        feed_plan(f, imported).fires_latch <==> f == Feed::Basics,
{
}

} // verus!
