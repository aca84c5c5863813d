//! The four dashboard tabs, ordered and cyclic.

use vstd::prelude::*;

verus! {

/// One of the four fixed dashboard views.
#[derive(Clone, Copy, PartialEq, Eq, Structural, Hash, Debug)]
pub enum Tab {
    Endpoints,
    Insights,
    Metrics,
    Errors,
}

/// Number of tabs.
pub const TAB_COUNT: usize = 4;

/// Position of a tab in the tab strip.
pub open spec fn tab_index(t: Tab) -> int {
    match t {
        Tab::Endpoints => 0,
        Tab::Insights => 1,
        Tab::Metrics => 2,
        Tab::Errors => 3,
    }
}

/// The tab at a position of the tab strip (taken modulo the tab count).
pub open spec fn tab_at(i: int) -> Tab {
    let k = i % 4;
    if k == 0 {
        Tab::Endpoints
    } else if k == 1 {
        Tab::Insights
    } else if k == 2 {
        Tab::Metrics
    } else {
        Tab::Errors
    }
}

/// Display name of a tab.
pub open spec fn tab_name(t: Tab) -> Seq<char> {
    match t {
        Tab::Endpoints => "Endpoints"@,
        Tab::Insights => "Insights"@,
        Tab::Metrics => "Metrics"@,
        Tab::Errors => "Errors"@,
    }
}

impl Tab {
    /// Display name of the tab.
    pub fn as_str(self) -> (r: &'static str)
        ensures
            r@ == tab_name(self),
    {
        match self {
            Tab::Endpoints => "Endpoints",
            Tab::Insights => "Insights",
            Tab::Metrics => "Metrics",
            Tab::Errors => "Errors",
        }
    }

    /// All tabs, in tab-strip order.
    pub fn all() -> (r: [Tab; 4])
        ensures
            forall|i: int| 0 <= i < 4 ==> #[trigger] r@[i] == tab_at(i),
    {
        [Tab::Endpoints, Tab::Insights, Tab::Metrics, Tab::Errors]
    }

    /// Position of the tab in the tab strip.
    pub fn index(self) -> (r: usize)
        ensures
            r == tab_index(self),
            r < TAB_COUNT,
    {
        match self {
            Tab::Endpoints => 0,
            Tab::Insights => 1,
            Tab::Metrics => 2,
            Tab::Errors => 3,
        }
    }

    /// The following tab, wrapping from the last to the first.
    pub fn next(self) -> (r: Tab)
        ensures
            r == tab_at(tab_index(self) + 1),
    {
        match self {
            Tab::Endpoints => Tab::Insights,
            Tab::Insights => Tab::Metrics,
            Tab::Metrics => Tab::Errors,
            Tab::Errors => Tab::Endpoints,
        }
    }

    /// The preceding tab, wrapping from the first to the last.
    pub fn prev(self) -> (r: Tab)
        ensures
            r == tab_at(tab_index(self) + 3),
    {
        match self {
            Tab::Endpoints => Tab::Errors,
            Tab::Insights => Tab::Endpoints,
            Tab::Metrics => Tab::Insights,
            Tab::Errors => Tab::Metrics,
        }
    }
}

/// Stepping forward then back, or back then forward, returns to the same tab.
pub proof fn lemma_next_prev_inverse(t: Tab)
    ensures
        tab_at(tab_index(tab_at(tab_index(t) + 1)) + 3) == t,
        tab_at(tab_index(tab_at(tab_index(t) + 3)) + 1) == t,
{
}

} // verus!
