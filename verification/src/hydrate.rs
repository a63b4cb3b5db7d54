//! Hydration as one call.

use crate::boundary::BoundaryTracker;
use crate::equivalence::{hydration_of, run_finds_the_hydration};
use crate::mismatch::record_views;
use crate::node::{DomNode, Template};
use crate::walker::{pairing_views, HydrationReport, Walker};
use vstd::prelude::*;

verus! {

/// Hydrates the document `live` against the expected tree `templates`,
/// with the client's beliefs about the boundaries in `tracker`: walks both
/// to the end, and hands out every pair and every mismatch.
pub fn hydrate(
    templates: &Vec<Template>,
    live: &Vec<DomNode>,
    tracker: &BoundaryTracker,
) -> (report: HydrationReport)
    ensures
        pairing_views(report.pairings@) == hydration_of(templates@, live@, tracker@).pairings,
        record_views(report.mismatches@) == hydration_of(
            templates@,
            live@,
            tracker@,
        ).diagnostics,
{
    let mut walker = Walker::new(templates, live);
    walker.run(tracker);
    proof {
        assert(templates@.len() == templates.len() && live@.len() == live.len());
        run_finds_the_hydration(templates@, live@, tracker@);
    }
    walker.into_report()
}

} // verus!
