//! The filter that decides which titles are kept.

use crate::steam::{App, Platforms};
use vstd::prelude::*;

verus! {

/// What a title has to meet to be kept.
#[derive(Debug, Clone, Copy, PartialEq, Eq)]
pub struct FilterCriteria {
    /// The highest final price accepted, in minor currency units.
    pub max_price_minor_units: u64,
    /// The highest total number of reviews accepted.
    pub max_total_reviews: usize,
    /// The platforms that a title must support: each flag set here must be set on the title.
    pub required_platforms: Platforms,
}

/// The title has no more reviews in total than the criteria allow.
pub open spec fn within_review_limit(record: App, criteria: FilterCriteria) -> bool {
    record.reviews.total_reviews <= criteria.max_total_reviews
}

/// The title is free, or its final price is no higher than the criteria allow.
pub open spec fn within_price_limit(record: App, criteria: FilterCriteria) -> bool {
    match record.data.price_overview {
        None => true,
        Some(price) => price.final_price <= criteria.max_price_minor_units,
    }
}

/// Every platform in `required` is among `offered`.
pub open spec fn covers(offered: Platforms, required: Platforms) -> bool {
    &&& required.windows ==> offered.windows
    &&& required.mac ==> offered.mac
    &&& required.linux ==> offered.linux
}

/// The title supports every platform that the criteria require.
pub open spec fn on_required_platforms(record: App, criteria: FilterCriteria) -> bool {
    covers(record.data.platforms, criteria.required_platforms)
}

/// The title meets all three conditions.
pub open spec fn passes_filter(record: App, criteria: FilterCriteria) -> bool {
    &&& within_review_limit(record, criteria)
    &&& within_price_limit(record, criteria)
    &&& on_required_platforms(record, criteria)
}

/// A title without a price meets the price condition under every criteria, a ceiling of
/// zero included.
pub proof fn lemma_free_title_within_price_limit(record: App, criteria: FilterCriteria)
    requires
        record.data.price_overview is None,
    ensures
        within_price_limit(record, criteria),
{
}

/// The platform condition does not depend on the order in which the platforms are looked at:
/// it fails exactly when some required platform is missing.
pub proof fn lemma_platforms_fail_on_any_missing(record: App, criteria: FilterCriteria)
    ensures
        !on_required_platforms(record, criteria) <==> {
            ||| criteria.required_platforms.windows && !record.data.platforms.windows
            ||| criteria.required_platforms.mac && !record.data.platforms.mac
            ||| criteria.required_platforms.linux && !record.data.platforms.linux
        },
{
}

/// The platforms chosen by a selection of indices: 0 for Windows, 1 for macOS, 2 for Linux.
pub open spec fn selected_platforms(selection: Seq<usize>) -> Platforms {
    Platforms {
        windows: selection.contains(0),
        mac: selection.contains(1),
        linux: selection.contains(2),
    }
}

/// Every index of the selection names a platform.
pub open spec fn names_platforms(selection: Seq<usize>) -> bool {
    forall|i: int| 0 <= i < selection.len() ==> selection[i] < 3
}

impl Platforms {
    /// Turns a selection of platform indices into flags. There is no result exactly when
    /// some index names no platform.
    pub fn from_selection(selection: &[usize]) -> (chosen: Option<Platforms>)
        ensures
            names_platforms(selection@) ==> chosen == Some(selected_platforms(selection@)),
            !names_platforms(selection@) ==> chosen is None,
    {
        let mut platforms = Platforms { windows: false, mac: false, linux: false };
        let mut at: usize = 0;
        while at < selection.len()
            invariant
                at <= selection@.len(),
                names_platforms(selection@.take(at as int)),
                platforms == selected_platforms(selection@.take(at as int)),
            decreases selection@.len() - at,
        {
            let index = selection[at];
            proof {
                let seen = selection@.take(at as int);
                let grown = selection@.take(at + 1);
                assert(grown =~= seen.push(index));
                assert(grown[at as int] == index);
                assert forall|wanted: usize| grown.contains(wanted) <==> seen.contains(wanted)
                    || wanted == index by {
                    if seen.contains(wanted) {
                        let k = choose|k: int| 0 <= k < seen.len() && seen[k] == wanted;
                        assert(grown[k] == wanted);
                    }
                    if grown.contains(wanted) && wanted != index {
                        let k = choose|k: int| 0 <= k < grown.len() && grown[k] == wanted;
                        assert(seen[k] == wanted);
                    }
                }
            }
            if index == 0 {
                platforms.windows = true;
            } else if index == 1 {
                platforms.mac = true;
            } else if index == 2 {
                platforms.linux = true;
            } else {
                return None;
            }
            at = at + 1;
        }
        proof {
            assert(selection@.take(selection@.len() as int) =~= selection@);
        }
        Some(platforms)
    }
}

/// Checks the review condition.
pub fn review_check(record: &App, criteria: &FilterCriteria) -> (ok: bool)
    ensures
        ok == within_review_limit(*record, *criteria),
{
    record.reviews.total_reviews <= criteria.max_total_reviews
}

/// Checks the price condition. A title without a price always meets it.
pub fn price_check(record: &App, criteria: &FilterCriteria) -> (ok: bool)
    ensures
        ok == within_price_limit(*record, *criteria),
        record.data.price_overview is None ==> ok,
{
    match &record.data.price_overview {
        None => true,
        Some(price) => price.final_price as u64 <= criteria.max_price_minor_units,
    }
}

/// Checks the platform condition, stopping at the first required platform that is missing.
pub fn platform_check(record: &App, criteria: &FilterCriteria) -> (ok: bool)
    ensures
        ok == on_required_platforms(*record, *criteria),
{
    let offered = &record.data.platforms;
    let required = &criteria.required_platforms;
    if required.windows && !offered.windows {
        return false;
    }
    if required.mac && !offered.mac {
        return false;
    }
    if required.linux && !offered.linux {
        return false;
    }
    true
}

/// Decides whether a title is kept: exactly when it meets the review, the price and the
/// platform condition.
pub fn passes(record: &App, criteria: &FilterCriteria) -> (ok: bool)
    ensures
        ok == passes_filter(*record, *criteria),
        ok == (within_review_limit(*record, *criteria) && within_price_limit(*record, *criteria)
            && on_required_platforms(*record, *criteria)),
{
    review_check(record, criteria) && price_check(record, criteria) && platform_check(
        record,
        criteria,
    )
}

} // verus!
