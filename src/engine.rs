//! The dashboard engine: which screen is shown, which loads are in flight,
//! and how keys, ticks and finished loads change that.
//!
//! The engine does no I/O. It hands out commands (fetch a dataset, fetch a
//! metric series, abort a fetch, quit) and is told when a fetch finishes.
//! Every fetch carries a ticket; a result is applied only while its ticket
//! is still the one the engine waits for and its application is still open.

use crate::apps::{
    filtered_app_indices, matching_indices, resolve_app, Application,
};
use crate::datasets::{dataset_for, dataset_spec, tab_rows, well_formed_data, TabData};
use crate::json::JsonValue;
use crate::search::SearchState;
use crate::view::{tab_at, tab_index, Tab};
use vstd::prelude::*;

verus! {

/// Options that shape a session: the application to open first (identifier
/// or name), the tab to open it on, the auto-refresh interval in seconds
/// (0 for none), and whether times are shown in UTC.
#[derive(Clone, Debug)]
pub struct Options {
    pub app: Option<String>,
    pub tab: Tab,
    pub refresh_secs: u64,
    pub use_utc: bool,
}

/// One fetchable dataset: an application and one of its tabs.
#[derive(Clone, Copy, PartialEq, Eq, Structural, Hash, Debug)]
pub struct CacheKey {
    pub app_id: u64,
    pub tab: Tab,
}

/// What the event loop must do for the engine.
#[derive(Debug)]
pub enum Command {
    /// Fetch the dataset of `key`; report it with `complete_load`.
    Fetch { ticket: u64, key: CacheKey },
    /// Fetch a metric series; report it with `complete_series`.
    FetchSeries { ticket: u64, app_id: u64, metric_type: String },
    /// Abort the fetch with this ticket; its result will be ignored.
    Abort { ticket: u64 },
    /// End the session.
    Quit,
}

/// A key press, as the terminal reports it.
#[derive(Clone, Copy, PartialEq, Eq, Structural, Debug)]
pub enum Key {
    Esc,
    Left,
    Right,
    Up,
    Down,
    Enter,
    Backspace,
    Char(char),
    Other,
}

/// The application whose tabs are shown.
#[derive(Clone, Debug)]
pub struct ActiveApp {
    pub id: u64,
    pub name: String,
}

/// Content of the detail overlay.
#[derive(Debug)]
pub enum DrillContent {
    /// Text ready to show.
    Preformatted(String),
    /// A metric series, charted when drawn.
    MetricSeries(JsonValue),
    /// A metric series still being fetched.
    Loading,
}

/// The detail overlay: its breadcrumb label and content.
#[derive(Debug)]
pub struct Drill {
    pub label: String,
    pub content: DrillContent,
}

/// What the engine holds for one tab of the open application.
#[derive(Debug)]
pub struct Slot {
    /// The last dataset loaded.
    pub data: Option<TabData>,
    /// The ticket of the fetch in flight.
    pub pending: Option<u64>,
    /// The message of the last failed fetch, until a fetch succeeds.
    pub error: Option<String>,
}

/// The engine: one exclusively owned session state.
#[derive(Debug)]
pub struct Engine {
    /// The applications, as listed once per session.
    pub apps: Vec<Application>,
    /// The open application; none in the picker.
    pub current: Option<ActiveApp>,
    /// The tab shown for the open application.
    pub tab: Tab,
    /// The cursor of the picker, over the visible applications.
    pub app_selected: usize,
    /// The cursor of the current tab, over its rows.
    pub selected: usize,
    /// The picker's search box.
    pub search: SearchState,
    /// What is held for each tab of the open application, in tab order.
    pub slots: Vec<Slot>,
    /// The detail overlay.
    pub drill: Option<Drill>,
    /// The ticket of the metric series fetch in flight.
    pub series_ticket: Option<u64>,
    /// The ticket the next fetch gets.
    pub next_ticket: u64,
    /// The auto-refresh interval in milliseconds (0 for none).
    pub refresh_ms: u64,
    /// When the current tab was last refreshed, in milliseconds.
    pub last_refresh_ms: u64,
}

/// `i` is a valid cursor into a list of `len` rows (0 when it is empty).
pub open spec fn clamped(i: int, len: int) -> bool {
    i == 0 || (0 <= i < len)
}

/// The cursor `i` moved back into a list of `len` rows if it fell outside.
pub open spec fn kept_in(i: int, len: int) -> int {
    if i < len {
        i
    } else if len == 0 {
        0
    } else {
        len - 1
    }
}

/// An empty slot.
pub open spec fn empty_slot(s: Slot) -> bool {
    s.data is None && s.pending is None && s.error is None
}

/// A loaded dataset of the slot is well formed.
pub open spec fn slot_well_formed(s: Slot) -> bool {
    s.data matches Some(d) ==> well_formed_data(d)
}

impl Engine {
    /// The slot of a tab.
    pub open spec fn slot(&self, t: Tab) -> Slot {
        self.slots@[tab_index(t)]
    }

    /// The indices of the applications the picker shows.
    pub open spec fn visible_apps(&self) -> Seq<usize> {
        matching_indices(self.apps@, self.search.committed@)
    }

    /// The number of rows the current tab shows.
    pub open spec fn tab_len(&self) -> nat {
        match self.slot(self.tab).data {
            Some(d) => tab_rows(d).len(),
            None => 0,
        }
    }

    /// The application is open.
    pub open spec fn in_app(&self) -> bool {
        self.current is Some
    }

    /// The dataset of `key` is loaded.
    pub open spec fn loaded(&self, key: CacheKey) -> bool {
        self.current matches Some(a) && a.id == key.app_id && self.slot(key.tab).data is Some
    }

    /// A fetch of `key` is in flight.
    pub open spec fn loading(&self, key: CacheKey) -> bool {
        self.current matches Some(a) && a.id == key.app_id && self.slot(key.tab).pending is Some
    }

    /// The engine's invariant: one slot per tab, cursors within their lists,
    /// loaded datasets well formed, and nothing held for a closed application.
    pub open spec fn wf(&self) -> bool {
        &&& self.slots@.len() == 4
        &&& forall|i: int|
            0 <= i < 4 ==> slot_well_formed(#[trigger] self.slots@[i])
        &&& self.current is None ==> {
            &&& clamped(self.app_selected as int, self.visible_apps().len() as int)
            &&& forall|i: int| 0 <= i < 4 ==> empty_slot(#[trigger] self.slots@[i])
            &&& self.drill is None
            &&& self.series_ticket is None
        }
        &&& self.current is Some ==> clamped(self.selected as int, self.tab_len() as int)
        &&& self.drill is None ==> self.series_ticket is None
        &&& self.series_ticket matches Some(t) ==> t < self.next_ticket
    }
}

/// The largest valid cursor into a list of `len` rows.
pub fn last_index(len: usize) -> (r: usize)
    ensures
        len == 0 ==> r == 0,
        len > 0 ==> r == len - 1,
{
    if len == 0 {
        0
    } else {
        len - 1
    }
}

/// A cursor kept within a list of `len` rows.
pub fn clamp_selection(i: usize, len: usize) -> (r: usize)
    ensures
        clamped(r as int, len as int),
        i < len ==> r == i,
        i >= len ==> r == if len == 0 {
            0
        } else {
            len - 1
        },
{
    let m = last_index(len);
    if i < m {
        i
    } else {
        m
    }
}

fn empty_slots() -> (r: Vec<Slot>)
    ensures
        r@.len() == 4,
        forall|i: int| 0 <= i < 4 ==> empty_slot(#[trigger] r@[i]),
{
    let mut v: Vec<Slot> = Vec::new();
    let mut i: usize = 0;
    while i < 4
        invariant
            i <= 4,
            v@.len() == i,
            forall|j: int| 0 <= j < i ==> empty_slot(#[trigger] v@[j]),
        decreases 4 - i,
    {
        v.push(Slot { data: None, pending: None, error: None });
        i = i + 1;
    }
    v
}

/// Abort commands for the fetches in flight among the first `n` slots, in tab order.
pub open spec fn slot_aborts(slots: Seq<Slot>, n: int) -> Seq<Command>
    decreases n,
{
    if n <= 0 {
        Seq::empty()
    } else {
        let prev = slot_aborts(slots, n - 1);
        match slots[n - 1].pending {
            Some(t) => prev.push(Command::Abort { ticket: t }),
            None => prev,
        }
    }
}

/// Abort commands for every fetch in flight: the tabs' in tab order, then
/// the metric series'.
pub open spec fn all_aborts(e: Engine) -> Seq<Command> {
    let s = slot_aborts(e.slots@, 4);
    match e.series_ticket {
        Some(t) => s.push(Command::Abort { ticket: t }),
        None => s,
    }
}

/// Leaving the open application for the picker: its datasets, errors and
/// loads are dropped (loads aborted), the overlay closed, the tab reset to
/// Endpoints with the cursor on the first row, and the search emptied.
pub open spec fn left_app(o: Engine, n: Engine, cmds: Seq<Command>) -> bool {
    &&& n.current is None
    &&& n.tab == Tab::Endpoints
    &&& n.selected == 0
    &&& forall|i: int| 0 <= i < 4 ==> empty_slot(#[trigger] n.slots@[i])
    &&& n.drill is None
    &&& n.series_ticket is None
    &&& n.search.pending@.len() == 0
    &&& n.search.committed@.len() == 0
    &&& n.search.last_typed_ms is None
    &&& cmds == all_aborts(o)
    &&& n.apps == o.apps
    &&& n.next_ticket == o.next_ticket
    &&& n.refresh_ms == o.refresh_ms
}

/// Closing the overlay: the metric series in flight, if any, is aborted;
/// everything else stays.
pub open spec fn closed_drill(o: Engine, n: Engine, cmds: Seq<Command>) -> bool {
    &&& n.drill is None
    &&& n.series_ticket is None
    &&& cmds == match o.series_ticket {
        Some(t) => seq![Command::Abort { ticket: t }],
        None => Seq::empty(),
    }
    &&& n.current == o.current
    &&& n.tab == o.tab
    &&& n.selected == o.selected
    &&& n.app_selected == o.app_selected
    &&& n.slots == o.slots
    &&& n.search == o.search
    &&& n.apps == o.apps
    &&& n.next_ticket == o.next_ticket
}

/// Starting a fetch of tab `t` for the open application, unless one is in
/// flight (or, when `even_if_loaded` is false, its dataset is loaded): the
/// next ticket is taken and a fetch command issued.
pub open spec fn started_load(o: Engine, n: Engine, t: Tab, even_if_loaded: bool, cmds: Seq<Command>) -> bool {
    let s = o.slot(t);
    let go = s.pending is None && (even_if_loaded || s.data is None) && o.next_ticket < u64::MAX;
    &&& o.current matches Some(a) && (if go {
        &&& n.slot(t) == Slot { pending: Some(o.next_ticket), ..s }
        &&& n.next_ticket == o.next_ticket + 1
        &&& cmds == seq![Command::Fetch { ticket: o.next_ticket, key: CacheKey { app_id: a.id, tab: t } }]
    } else {
        &&& n.slot(t) == s
        &&& n.next_ticket == o.next_ticket
        &&& cmds == Seq::<Command>::empty()
    })
    &&& forall|u: Tab| u != t ==> n.slot(u) == o.slot(u)
    &&& n.slots@.len() == 4
    &&& n.current == o.current
    &&& n.tab == o.tab
    &&& n.selected == o.selected
    &&& n.app_selected == o.app_selected
    &&& n.drill == o.drill
    &&& n.series_ticket == o.series_ticket
    &&& n.search == o.search
    &&& n.apps == o.apps
    &&& n.refresh_ms == o.refresh_ms
    &&& n.last_refresh_ms == o.last_refresh_ms
}

impl Engine {
    /// Issues a fetch of tab `t` for the open application unless one is in
    /// flight or, when `even_if_loaded` is false, its dataset is loaded.
    fn start_load(&mut self, t: Tab, even_if_loaded: bool) -> (cmds: Vec<Command>)
        requires
            old(self).wf(),
            old(self).current is Some,
        ensures
            final(self).wf(),
            started_load(*old(self), *final(self), t, even_if_loaded, cmds@),
    {
        let i = t.index();
        let app_id = match &self.current {
            Some(a) => a.id,
            None => 0,
        };
        let mut cmds: Vec<Command> = Vec::new();
        if self.slots[i].pending.is_none() && (even_if_loaded || self.slots[i].data.is_none())
            && self.next_ticket < u64::MAX {
            let ticket = self.next_ticket;
            self.slots[i].pending = Some(ticket);
            self.next_ticket = ticket + 1;
            cmds.push(Command::Fetch { ticket, key: CacheKey { app_id, tab: t } });
        }
        proof {
            assert forall|u: Tab| u != t implies final(self).slot(u) == old(self).slot(u) by {
                assert(tab_index(u) != tab_index(t));
            }
        }
        cmds
    }

    /// Aborts every fetch in flight and forgets their tickets.
    fn abort_all(&mut self) -> (cmds: Vec<Command>)
        requires
            old(self).slots@.len() == 4,
        ensures
            cmds@ == all_aborts(*old(self)),
            final(self).slots@.len() == 4,
            forall|i: int|
                0 <= i < 4 ==> (#[trigger] final(self).slots@[i]).pending is None
                    && final(self).slots@[i].data == old(self).slots@[i].data
                    && final(self).slots@[i].error == old(self).slots@[i].error,
            final(self).series_ticket is None,
            final(self).current == old(self).current,
            final(self).drill == old(self).drill,
            final(self).apps == old(self).apps,
            final(self).next_ticket == old(self).next_ticket,
            final(self).refresh_ms == old(self).refresh_ms,
    {
        let mut cmds: Vec<Command> = Vec::new();
        let mut i: usize = 0;
        while i < 4
            invariant
                i <= 4,
                self.slots@.len() == 4,
                cmds@ == slot_aborts(old(self).slots@, i as int),
                forall|j: int|
                    0 <= j < i ==> (#[trigger] self.slots@[j]).pending is None
                        && self.slots@[j].data == old(self).slots@[j].data
                        && self.slots@[j].error == old(self).slots@[j].error,
                forall|j: int| i <= j < 4 ==> #[trigger] self.slots@[j] == old(self).slots@[j],
                self.series_ticket == old(self).series_ticket,
                self.current == old(self).current,
                self.drill == old(self).drill,
                self.apps == old(self).apps,
                self.next_ticket == old(self).next_ticket,
                self.refresh_ms == old(self).refresh_ms,
            decreases 4 - i,
        {
            match self.slots[i].pending {
                Some(t) => {
                    cmds.push(Command::Abort { ticket: t });
                },
                None => {},
            }
            self.slots[i].pending = None;
            i = i + 1;
        }
        match self.series_ticket {
            Some(t) => {
                cmds.push(Command::Abort { ticket: t });
            },
            None => {},
        }
        self.series_ticket = None;
        cmds
    }
}

/// The cursor after one step up or down a list of `len` rows; it never
/// leaves the list.
pub open spec fn stepped(i: int, len: int, up: bool) -> int {
    let last = if len > 0 {
        len - 1
    } else {
        0
    };
    let j = if up {
        if i > 0 {
            i - 1
        } else {
            0
        }
    } else {
        i + 1
    };
    if j < last {
        j
    } else {
        last
    }
}

/// A step of the cursor: in the picker it moves over the visible
/// applications, in a tab over its rows; nothing moves under the overlay.
pub open spec fn moved(o: Engine, n: Engine, up: bool) -> bool {
    &&& n.drill == o.drill
    &&& n.current == o.current
    &&& n.tab == o.tab
    &&& n.slots == o.slots
    &&& n.search == o.search
    &&& n.next_ticket == o.next_ticket
    &&& n.series_ticket == o.series_ticket
    &&& if o.drill is Some {
        n.selected == o.selected && n.app_selected == o.app_selected
    } else if o.current is None {
        n.selected == o.selected && n.app_selected == stepped(
            o.app_selected as int,
            o.visible_apps().len() as int,
            up,
        )
    } else {
        n.app_selected == o.app_selected && n.selected == stepped(
            o.selected as int,
            o.tab_len() as int,
            up,
        )
    }
}

/// Switching to tab `t` of the open application: the cursor goes to the
/// first row and the tab's dataset is fetched unless loaded or in flight.
pub open spec fn switched_tab(o: Engine, n: Engine, t: Tab, cmds: Seq<Command>) -> bool {
    started_load(Engine { tab: t, selected: 0, ..o }, n, t, false, cmds)
}

impl Engine {
    /// Closes the overlay, aborting its metric series fetch if one is in flight.
    fn close_drill(&mut self) -> (cmds: Vec<Command>)
        requires
            old(self).wf(),
            old(self).current is Some,
        ensures
            final(self).wf(),
            closed_drill(*old(self), *final(self), cmds@),
    {
        let mut cmds: Vec<Command> = Vec::new();
        match self.series_ticket {
            Some(t) => cmds.push(Command::Abort { ticket: t }),
            None => {},
        }
        self.series_ticket = None;
        self.drill = None;
        cmds
    }

    /// Leaves the open application for the picker.
    fn leave_app(&mut self) -> (cmds: Vec<Command>)
        requires
            old(self).wf(),
        ensures
            final(self).wf(),
            left_app(*old(self), *final(self), cmds@),
    {
        let cmds = self.abort_all();
        self.slots = empty_slots();
        self.current = None;
        self.tab = Tab::Endpoints;
        self.selected = 0;
        self.search.clear();
        self.drill = None;
        let n = filtered_app_indices(&self.apps, self.search.committed.as_str()).len();
        self.app_selected = clamp_selection(self.app_selected, n);
        cmds
    }

    /// The "back" action: closes the overlay, or else returns from an
    /// application to the picker; nothing happens in the picker.
    pub fn back(&mut self) -> (cmds: Vec<Command>)
        requires
            old(self).wf(),
        ensures
            final(self).wf(),
            went_back(*old(self), *final(self), cmds@),
    {
        if self.drill.is_some() {
            self.close_drill()
        } else if self.current.is_some() {
            self.leave_app()
        } else {
            Vec::new()
        }
    }

    /// Moves to the next (`forward`) or previous tab, wrapping around; under
    /// the overlay this acts as "back" and closes it.
    pub fn switch_tab(&mut self, forward: bool) -> (cmds: Vec<Command>)
        requires
            old(self).wf(),
        ensures
            final(self).wf(),
            tab_switched(*old(self), *final(self), forward, cmds@),
    {
        if self.drill.is_some() {
            self.close_drill()
        } else if self.current.is_some() {
            let t = if forward {
                self.tab.next()
            } else {
                self.tab.prev()
            };
            self.tab = t;
            self.selected = 0;
            self.start_load(t, false)
        } else {
            Vec::new()
        }
    }

    /// Moves the cursor one row up or down, within the list shown; ignored
    /// under the overlay.
    pub fn move_cursor(&mut self, up: bool)
        requires
            old(self).wf(),
        ensures
            final(self).wf(),
            moved(*old(self), *final(self), up),
    {
        if self.drill.is_some() {
            return;
        }
        let len = match &self.current {
            None => filtered_app_indices(&self.apps, self.search.committed.as_str()).len(),
            Some(_) => {
                let i = self.tab.index();
                match &self.slots[i].data {
                    Some(d) => d.list_len(),
                    None => 0,
                }
            },
        };
        let cur = if self.current.is_none() {
            self.app_selected
        } else {
            self.selected
        };
        let last = last_index(len);
        let j = if up {
            if cur > 0 {
                cur - 1
            } else {
                0
            }
        } else if cur < last {
            cur + 1
        } else {
            last
        };
        let next = if j < last {
            j
        } else {
            last
        };
        if self.current.is_none() {
            self.app_selected = next;
        } else {
            self.selected = next;
        }
    }
}

/// Opening the application at position `pos` of the picker: it becomes the
/// open application, on the Endpoints tab with the cursor on the first row,
/// and its endpoints are fetched.
pub open spec fn opened_app(o: Engine, n: Engine, cmds: Seq<Command>) -> bool {
    let app = o.apps@[o.visible_apps()[o.app_selected as int] as int];
    &&& n.current matches Some(a) && a.id == app.id && a.name@ == app.name@
    &&& started_load(
        Engine {
            current: n.current,
            tab: Tab::Endpoints,
            selected: 0,
            ..o
        },
        n,
        Tab::Endpoints,
        false,
        cmds,
    )
}

/// Opening the overlay on a metric series: the series in flight, if any, is
/// aborted, and the named series is fetched under a fresh ticket while the
/// overlay shows a placeholder.
pub open spec fn requested_series(o: Engine, n: Engine, metric: Seq<char>, cmds: Seq<Command>) -> bool {
    let fetch = Command::FetchSeries {
        ticket: o.next_ticket,
        app_id: o.current->0.id,
        metric_type: cmds.last()->FetchSeries_metric_type,
    };
    &&& o.next_ticket < u64::MAX
    &&& n.series_ticket == Some(o.next_ticket)
    &&& n.next_ticket == o.next_ticket + 1
    &&& n.drill matches Some(d) && d.label@ == metric && d.content is Loading
    &&& cmds.len() >= 1
    &&& cmds.last() is FetchSeries
    &&& cmds.last()->FetchSeries_metric_type@ == metric
    &&& cmds.last() == fetch
    &&& cmds.drop_last() == match o.series_ticket {
        Some(t) => seq![Command::Abort { ticket: t }],
        None => Seq::empty(),
    }
    &&& n.current == o.current
    &&& n.tab == o.tab
    &&& n.selected == o.selected
    &&& n.slots == o.slots
    &&& n.search == o.search
}

/// How a finished fetch of the metric series with `ticket` changes the
/// engine: only the series the overlay waits for is applied.
pub open spec fn series_done(o: Engine, n: Engine, ticket: u64, result: Result<JsonValue, String>) -> bool {
    if o.series_ticket == Some(ticket) && o.drill is Some {
        &&& n.series_ticket is None
        &&& n.drill matches Some(d) && d.label == o.drill->0.label && match result {
            Ok(v) => d.content == DrillContent::MetricSeries(v),
            Err(e) => d.content matches DrillContent::Preformatted(t) && t@ == "Error: "@ + e@,
        }
        &&& n.current == o.current
        &&& n.tab == o.tab
        &&& n.selected == o.selected
        &&& n.slots == o.slots
        &&& n.next_ticket == o.next_ticket
    } else {
        n == o
    }
}

/// How a finished fetch of `key` with `ticket` changes the engine. It is
/// applied only while `key`'s application is open and `ticket` is the fetch
/// its tab waits for; then the fetch is no longer in flight, and a dataset
/// replaces the tab's dataset and clears its error, while a failure records
/// its message. Otherwise nothing changes.
pub open spec fn load_done(
    o: Engine,
    n: Engine,
    ticket: u64,
    key: CacheKey,
    result: Result<JsonValue, String>,
) -> bool {
    if o.current matches Some(a) && a.id == key.app_id && o.slot(key.tab).pending == Some(ticket) {
        &&& n.slot(key.tab).pending is None
        &&& match result {
            Ok(v) => n.slot(key.tab).data matches Some(d) && dataset_spec(key.tab, v, d)
                && n.slot(key.tab).error is None,
            Err(e) => n.slot(key.tab).data == o.slot(key.tab).data && n.slot(key.tab).error
                == Some(e),
        }
        &&& forall|u: Tab| u != key.tab ==> n.slot(u) == o.slot(u)
        &&& n.current == o.current
        &&& n.tab == o.tab
        &&& n.drill == o.drill
        &&& n.series_ticket == o.series_ticket
        &&& n.next_ticket == o.next_ticket
        &&& (key.tab != o.tab || result is Err ==> n.selected == o.selected)
        &&& (key.tab == o.tab && result is Ok ==> n.selected == kept_in(o.selected as int, n.tab_len() as int))
    } else {
        n == o
    }
}

/// The "back" action: the overlay closes, or else the open application is
/// left for the picker; in the picker nothing happens.
pub open spec fn went_back(o: Engine, n: Engine, cmds: Seq<Command>) -> bool {
    &&& o.drill is Some ==> closed_drill(o, n, cmds)
    &&& o.drill is None && o.current is Some ==> left_app(o, n, cmds)
    &&& o.current is None ==> n == o && cmds.len() == 0
}

/// The "next/previous tab" action: under the overlay it closes it; in an
/// application it moves to the following (`forward`) or preceding tab,
/// wrapping around; in the picker nothing happens.
pub open spec fn tab_switched(o: Engine, n: Engine, forward: bool, cmds: Seq<Command>) -> bool {
    &&& o.drill is Some ==> closed_drill(o, n, cmds)
    &&& o.drill is None && o.current is Some ==> switched_tab(
        o,
        n,
        if forward {
            tab_at(tab_index(o.tab) + 1)
        } else {
            tab_at(tab_index(o.tab) + 3)
        },
        cmds,
    )
    &&& o.current is None ==> n == o && cmds.len() == 0
}

/// The "confirm" action: in the picker the highlighted application opens
/// (nothing happens when no application is highlighted); under the overlay
/// it closes; on the Metrics tab the highlighted series is requested; on
/// the other tabs the highlighted record opens in the overlay. With nothing
/// highlighted, or no ticket left, nothing happens.
pub open spec fn confirmed(o: Engine, n: Engine, cmds: Seq<Command>) -> bool {
    &&& o.current is None && o.app_selected < o.visible_apps().len() ==> opened_app(o, n, cmds)
    &&& o.current is None && o.app_selected >= o.visible_apps().len() ==> n == o && cmds.len()
        == 0
    &&& o.current is Some && o.drill is Some ==> closed_drill(o, n, cmds)
    &&& o.current is Some && o.drill is None && o.tab == Tab::Metrics
        && o.highlighted_metric() is Some && o.next_ticket < u64::MAX ==> requested_series(
        o,
        n,
        o.highlighted_metric()->0,
        cmds,
    )
    &&& o.current is Some && o.drill is None && o.tab == Tab::Metrics && (
    o.highlighted_metric() is None || o.next_ticket == u64::MAX) ==> n == o && cmds.len() == 0
    &&& o.current is Some && o.drill is None && o.tab != Tab::Metrics
        && !o.has_highlighted_record() ==> n == o && cmds.len() == 0
    &&& o.current is Some && o.drill is None && o.tab != Tab::Metrics
        && o.has_highlighted_record() ==> {
        &&& cmds.len() == 0
        &&& n.drill matches Some(d) && shows_record(o, d)
        &&& n.slots == o.slots
        &&& n.current == o.current
        &&& n.tab == o.tab
        &&& n.selected == o.selected
        &&& n.series_ticket == o.series_ticket
    }
}

/// The overlay shows the record under the cursor: labelled by its row (or
/// `Error #n` on the Errors tab), with the record's detail table.
pub open spec fn shows_record(o: Engine, d: Drill) -> bool {
    match o.slot(o.tab).data {
        Some(TabData::Records(l)) => {
            let row = l.rows@[o.selected as int];
            let rec = l.records@[row.record as int];
            &&& d.label@ == if o.tab == Tab::Errors {
                "Error #"@ + crate::text::decimal((o.selected + 1) as nat)
            } else {
                row.label@
            }
            &&& d.content matches DrillContent::Preformatted(t) && exists|p: Seq<usize>|
                {
                    &&& crate::order::is_permutation(p, crate::datasets::members(rec).len())
                    &&& crate::order::sorted_by(
                        crate::datasets::member_keys(crate::datasets::members(rec)),
                        p,
                        false,
                    )
                    &&& t@ == crate::datasets::detail_text(rec, p)
                }
        },
        _ => false,
    }
}

impl Engine {
    /// The metric type under the cursor of the Metrics tab.
    pub open spec fn highlighted_metric(&self) -> Option<Seq<char>> {
        match self.slot(Tab::Metrics).data {
            Some(d) => if d is MetricTypes && self.selected < tab_rows(d).len() {
                Some(tab_rows(d)[self.selected as int])
            } else {
                None
            },
            None => None,
        }
    }

    /// The current tab lists records and the cursor is on one.
    pub open spec fn has_highlighted_record(&self) -> bool {
        match self.slot(self.tab).data {
            Some(d) => d is Records && self.selected < tab_rows(d).len(),
            None => false,
        }
    }

    /// Asks for a metric series in the overlay, aborting the one in flight.
    fn request_series(&mut self, metric_type: String) -> (cmds: Vec<Command>)
        requires
            old(self).wf(),
            old(self).current is Some,
            old(self).next_ticket < u64::MAX,
        ensures
            final(self).wf(),
            requested_series(*old(self), *final(self), metric_type@, cmds@),
    {
        let mut cmds: Vec<Command> = Vec::new();
        match self.series_ticket {
            Some(t) => cmds.push(Command::Abort { ticket: t }),
            None => {},
        }
        let ticket = self.next_ticket;
        self.next_ticket = ticket + 1;
        self.series_ticket = Some(ticket);
        let app_id = match &self.current {
            Some(a) => a.id,
            None => 0,
        };
        let label = metric_type.clone();
        self.drill = Some(Drill { label, content: DrillContent::Loading });
        let ghost before = cmds@;
        cmds.push(Command::FetchSeries { ticket, app_id, metric_type });
        proof {
            assert(cmds@.drop_last() == before);
        }
        cmds
    }

    /// The "confirm" action: in the picker opens the highlighted
    /// application; under the overlay closes it; on the Metrics tab fetches
    /// the highlighted series; on other tabs shows the highlighted record.
    pub fn confirm(&mut self) -> (cmds: Vec<Command>)
        requires
            old(self).wf(),
        ensures
            final(self).wf(),
            confirmed(*old(self), *final(self), cmds@),
    {
        if self.current.is_none() {
            let indices = filtered_app_indices(&self.apps, self.search.committed.as_str());
            proof {
                assert(self.apps@.len() == self.apps.len());
            }
            if self.app_selected < indices.len() {
                let idx = indices[self.app_selected];
                proof {
                    crate::apps::lemma_filter_exact(
                        self.apps@,
                        self.search.committed@,
                    );
                    assert(indices@.contains(idx));
                }
                let id = self.apps[idx].id;
                let name = self.apps[idx].name.clone();
                self.current = Some(ActiveApp { id, name });
                self.tab = Tab::Endpoints;
                self.selected = 0;
                return self.start_load(Tab::Endpoints, false);
            }
            return Vec::new();
        }
        if self.drill.is_some() {
            return self.close_drill();
        }
        let i = self.tab.index();
        if self.tab == Tab::Metrics {
            let mt = match &self.slots[i].data {
                Some(d) => match d.get_metric_type(self.selected) {
                    Some(m) => Some(m.to_owned()),
                    None => None,
                },
                None => None,
            };
            match mt {
                Some(m) => {
                    if self.next_ticket < u64::MAX {
                        return self.request_series(m);
                    }
                    Vec::new()
                },
                None => Vec::new(),
            }
        } else {
            let tab = self.tab;
            let selected = self.selected;
            let item = match &self.slots[i].data {
                Some(d) => if selected < d.list_len() {
                    d.get_item(selected)
                } else {
                    None
                },
                None => None,
            };
            let drill = match item {
                Some((label, rec)) => {
                    let text = crate::datasets::format_endpoint_table(rec);
                    let l = if tab == Tab::Errors {
                        error_label(selected)
                    } else {
                        label.to_owned()
                    };
                    Some(Drill { label: l, content: DrillContent::Preformatted(text) })
                },
                None => None,
            };
            if drill.is_some() {
                self.drill = drill;
            }
            Vec::new()
        }
    }

    /// Applies a finished fetch of the metric series with `ticket`.
    pub fn complete_series(&mut self, ticket: u64, result: Result<JsonValue, String>)
        requires
            old(self).wf(),
        ensures
            final(self).wf(),
            series_done(*old(self), *final(self), ticket, result),
    {
        if self.series_ticket != Some(ticket) || self.drill.is_none() {
            return;
        }
        let label = match self.drill.take() {
            Some(d) => d.label,
            None => String::new(),
        };
        let content = match result {
            Ok(v) => DrillContent::MetricSeries(v),
            Err(e) => {
                let mut t = String::from_str("Error: ");
                t.append(e.as_str());
                DrillContent::Preformatted(t)
            },
        };
        self.series_ticket = None;
        self.drill = Some(Drill { label, content });
    }

    /// Applies a finished fetch of `key` with `ticket`; stale results (of an
    /// application no longer open, or of a fetch no longer awaited) are dropped.
    pub fn complete_load(&mut self, ticket: u64, key: CacheKey, result: Result<JsonValue, String>)
        requires
            old(self).wf(),
        ensures
            final(self).wf(),
            load_done(*old(self), *final(self), ticket, key, result),
    {
        let i = key.tab.index();
        let open = match &self.current {
            Some(a) => a.id == key.app_id,
            None => false,
        };
        if !open || self.slots[i].pending != Some(ticket) {
            return;
        }
        self.slots[i].pending = None;
        match result {
            Ok(v) => {
                let d = dataset_for(key.tab, v);
                let len = d.list_len();
                self.slots[i].data = Some(d);
                self.slots[i].error = None;
                if key.tab == self.tab {
                    self.selected = clamp_selection(self.selected, len);
                }
            },
            Err(e) => {
                self.slots[i].error = Some(e);
            },
        }
        proof {
            assert forall|u: Tab| u != key.tab implies final(self).slot(u) == old(self).slot(u) by {
                assert(tab_index(u) != tab_index(key.tab));
            }
        }
    }
}

/// The overlay label of the error group at row `i`: `Error #` and its
/// position counted from one.
pub fn error_label(i: usize) -> (r: String)
    requires
        i < usize::MAX,
    ensures
        r@ == "Error #"@ + crate::text::decimal((i + 1) as nat),
{
    let mut s = String::from_str("Error #");
    let n = crate::text::decimal_string(i as u64 + 1);
    s.append(n.as_str());
    s
}

/// What a key press asks for.
#[derive(Clone, Copy, PartialEq, Eq, Structural, Debug)]
pub enum Action {
    Quit,
    Back,
    PrevTab,
    NextTab,
    Up,
    Down,
    Confirm,
    Erase,
    Type(char),
    Nothing,
}

/// The action of a key: `q` quits, Esc goes back, Left/`h` and Right/`l`
/// change tab, Up/`k` and Down/`j` move the cursor, Enter confirms,
/// Backspace erases and any other character is typed into the search.
pub open spec fn key_action(k: Key) -> Action {
    match k {
        Key::Char('q') => Action::Quit,
        Key::Esc => Action::Back,
        Key::Left | Key::Char('h') => Action::PrevTab,
        Key::Right | Key::Char('l') => Action::NextTab,
        Key::Up | Key::Char('k') => Action::Up,
        Key::Down | Key::Char('j') => Action::Down,
        Key::Enter => Action::Confirm,
        Key::Backspace => Action::Erase,
        Key::Char(c) => Action::Type(c),
        Key::Other => Action::Nothing,
    }
}

/// The action of a key.
pub fn action_of(k: Key) -> (r: Action)
    ensures
        r == key_action(k),
{
    match k {
        Key::Char('q') => Action::Quit,
        Key::Esc => Action::Back,
        Key::Left | Key::Char('h') => Action::PrevTab,
        Key::Right | Key::Char('l') => Action::NextTab,
        Key::Up | Key::Char('k') => Action::Up,
        Key::Down | Key::Char('j') => Action::Down,
        Key::Enter => Action::Confirm,
        Key::Backspace => Action::Erase,
        Key::Char(c) => Action::Type(c),
        Key::Other => Action::Nothing,
    }
}

/// Only the search box changes, and only in the picker.
pub open spec fn search_only(o: Engine, n: Engine) -> bool {
    &&& o.current is Some ==> n == o
    &&& o.current is None ==> n == Engine { search: n.search, ..o }
}

/// The refresh interval has elapsed at `now`.
pub open spec fn refresh_due(e: Engine, now_ms: u64) -> bool {
    e.current is Some && e.refresh_ms > 0 && now_ms - e.last_refresh_ms >= e.refresh_ms
}

/// A tick at `now`: in the picker the debounced search may commit (and the
/// cursor is kept within the list); in an application whose refresh is due
/// the current tab is fetched again unless a fetch is in flight.
pub open spec fn ticked_engine(o: Engine, n: Engine, now_ms: u64, cmds: Seq<Command>) -> bool {
    &&& o.current is None ==> {
        &&& n.search.model() == crate::search::ticked(o.search.model(), now_ms)
        &&& cmds.len() == 0
        &&& n.current is None
        &&& n.slots == o.slots
        &&& n.app_selected == if n.search.committed@ != o.search.committed@ {
            kept_in(o.app_selected as int, n.visible_apps().len() as int)
        } else {
            o.app_selected as int
        }
    }
    &&& o.current is Some && refresh_due(o, now_ms) ==> started_load(
        Engine { last_refresh_ms: now_ms, ..o },
        n,
        o.tab,
        true,
        cmds,
    )
    &&& o.current is Some && !refresh_due(o, now_ms) ==> n == o && cmds.len() == 0
}

impl Engine {
    /// Starts a session over the listed applications. When the options name
    /// an application that the list holds, it opens on the chosen tab and
    /// that tab is fetched; otherwise the picker shows.
    pub fn new(apps: Vec<Application>, opts: &Options, now_ms: u64) -> (r: (Engine, Vec<Command>))
        ensures
            r.0.wf(),
            r.0.apps@ == apps@,
            r.0.drill is None,
            r.0.refresh_ms == (if opts.refresh_secs <= u64::MAX / 1000 {
                opts.refresh_secs * 1000
            } else {
                u64::MAX as int
            }),
            r.0.current is None ==> r.1@.len() == 0 && r.0.app_selected == 0,
            r.0.current matches Some(a) ==> r.0.tab == opts.tab && r.0.selected == 0 && exists|
                i: int,
            |
                0 <= i < apps@.len() && apps@[i].id == a.id && apps@[i].name@ == a.name@
                    && opts.app is Some && crate::apps::names_app(opts.app->0@, apps@[i])
                    && r.1@ == seq![
                    Command::Fetch {
                        ticket: 0,
                        key: CacheKey { app_id: a.id, tab: opts.tab },
                    },
                ],
            opts.app is None ==> r.0.current is None,
            opts.app is Some ==> ((r.0.current is Some) == (crate::text::trim_of(opts.app->0@).len()
                > 0 && exists|j: int|
                0 <= j < apps@.len() && crate::apps::names_app(opts.app->0@, #[trigger] apps@[j]))),
            r.0.search.pending@.len() == 0 && r.0.search.committed@.len() == 0,
            r.0.current is None ==> r.0.tab == Tab::Endpoints,
    {
        let resolved = match &opts.app {
            Some(a) => resolve_app(&apps, a.as_str()),
            None => None,
        };
        let refresh_ms = if opts.refresh_secs <= u64::MAX / 1000 {
            opts.refresh_secs * 1000
        } else {
            u64::MAX
        };
        let mut e = Engine {
            apps,
            current: None,
            tab: opts.tab,
            app_selected: 0,
            selected: 0,
            search: SearchState::new(),
            slots: empty_slots(),
            drill: None,
            series_ticket: None,
            next_ticket: 0,
            refresh_ms,
            last_refresh_ms: now_ms,
        };
        match resolved {
            Some((i, id, name)) => {
                e.current = Some(ActiveApp { id, name });
                e.app_selected = i;
                let cmds = e.start_load(opts.tab, false);
                (e, cmds)
            },
            None => {
                e.tab = Tab::Endpoints;
                (e, Vec::new())
            },
        }
    }

    /// Appends a character to the search box of the picker; ignored in an
    /// application.
    pub fn type_char(&mut self, c: char, now_ms: u64)
        requires
            old(self).wf(),
        ensures
            final(self).wf(),
            search_only(*old(self), *final(self)),
            old(self).current is None ==> final(self).search.model() == crate::search::typed(
                old(self).search.model(),
                c,
                now_ms,
            ),
    {
        if self.current.is_none() {
            self.search.type_char(c, now_ms);
        }
    }

    /// Erases the last character of the search box of the picker; ignored
    /// in an application.
    pub fn backspace(&mut self, now_ms: u64)
        requires
            old(self).wf(),
        ensures
            final(self).wf(),
            search_only(*old(self), *final(self)),
            old(self).current is None ==> {
                &&& final(self).search.committed@ == old(self).search.committed@
                &&& final(self).search.last_typed_ms == Some(now_ms)
                &&& final(self).search.pending@ == (if old(self).search.pending@.len() == 0 {
                    old(self).search.pending@
                } else {
                    old(self).search.pending@.drop_last()
                })
            },
    {
        if self.current.is_none() {
            self.search.backspace(now_ms);
        }
    }

    /// One turn of the clock: commits a settled search query, or refreshes
    /// the current tab when its interval has elapsed.
    pub fn tick(&mut self, now_ms: u64) -> (cmds: Vec<Command>)
        requires
            old(self).wf(),
        ensures
            final(self).wf(),
            ticked_engine(*old(self), *final(self), now_ms, cmds@),
    {
        if self.current.is_none() {
            let changed = self.search.tick(now_ms);
            if changed {
                let n = filtered_app_indices(&self.apps, self.search.committed.as_str()).len();
                self.app_selected = clamp_selection(self.app_selected, n);
            }
            return Vec::new();
        }
        if self.refresh_ms > 0 && now_ms >= self.last_refresh_ms && now_ms - self.last_refresh_ms
            >= self.refresh_ms {
            self.last_refresh_ms = now_ms;
            let t = self.tab;
            return self.start_load(t, true);
        }
        Vec::new()
    }

    /// Handles one key press; see `key_action` for what each key does.
    pub fn handle_key(&mut self, k: Key, now_ms: u64) -> (cmds: Vec<Command>)
        requires
            old(self).wf(),
        ensures
            final(self).wf(),
            match key_action(k) {
                Action::Quit => *final(self) == *old(self) && cmds@ == seq![Command::Quit],
                Action::Back => went_back(*old(self), *final(self), cmds@),
                Action::PrevTab => tab_switched(*old(self), *final(self), false, cmds@),
                Action::NextTab => tab_switched(*old(self), *final(self), true, cmds@),
                Action::Up => moved(*old(self), *final(self), true) && cmds@.len() == 0,
                Action::Down => moved(*old(self), *final(self), false) && cmds@.len() == 0,
                Action::Confirm => confirmed(*old(self), *final(self), cmds@),
                Action::Erase => search_only(*old(self), *final(self)) && cmds@.len() == 0,
                Action::Type(c) => search_only(*old(self), *final(self)) && cmds@.len() == 0 && (
                old(self).current is None ==> final(self).search.model() == crate::search::typed(
                    old(self).search.model(),
                    c,
                    now_ms,
                )),
                Action::Nothing => *final(self) == *old(self) && cmds@.len() == 0,
            },
    {
        match action_of(k) {
            Action::Quit => {
                let mut cmds: Vec<Command> = Vec::new();
                cmds.push(Command::Quit);
                cmds
            },
            Action::Back => self.back(),
            Action::PrevTab => self.switch_tab(false),
            Action::NextTab => self.switch_tab(true),
            Action::Up => {
                self.move_cursor(true);
                Vec::new()
            },
            Action::Down => {
                self.move_cursor(false);
                Vec::new()
            },
            Action::Confirm => self.confirm(),
            Action::Erase => {
                self.backspace(now_ms);
                Vec::new()
            },
            Action::Type(c) => {
                self.type_char(c, now_ms);
                Vec::new()
            },
            Action::Nothing => Vec::new(),
        }
    }
}

/// What the terminal shows: breadcrumb, tab strip (absent in the picker),
/// a titled list with its cursor or a text block, and how many fetches are
/// in flight.
#[derive(Debug)]
pub struct Screen {
    pub breadcrumb: Vec<String>,
    pub tab_names: Vec<String>,
    pub active_tab: Option<Tab>,
    pub title: String,
    pub rows: Vec<String>,
    pub selected: usize,
    pub text: Option<String>,
    pub busy: usize,
}

/// The picker's row for an application: its identifier, two spaces, its name.
pub open spec fn picker_row(app: Application) -> Seq<char> {
    crate::text::decimal(app.id as nat) + "  "@ + app.name@
}

/// The rows of the picker: one per visible application, in order.
pub open spec fn picker_rows(e: Engine) -> Seq<Seq<char>> {
    e.visible_apps().map_values(|i: usize| picker_row(e.apps@[i as int]))
}

/// The text shown while something loads.
pub open spec fn loading_text(what: Seq<char>) -> Seq<char> {
    "\u{27f3}  Loading "@ + what + "\u{2026}\n\nUsually 1\u{2013}3 seconds depending on network.\n\nPlease wait\u{2026}"@
}

/// Number of fetches in flight among the first `n` slots.
pub open spec fn pending_count(slots: Seq<Slot>, n: int) -> nat
    decreases n,
{
    if n <= 0 {
        0
    } else {
        pending_count(slots, n - 1) + if slots[n - 1].pending is Some {
            1nat
        } else {
            0nat
        }
    }
}

/// The optional text holds exactly `v`.
pub open spec fn text_is(t: Option<String>, v: Seq<char>) -> bool {
    t matches Some(x) && x@ == v
}

/// The screen of an engine.
pub open spec fn screen_spec(e: Engine, s: Screen) -> bool {
    &&& crate::order::views(s.tab_names@) == seq![
        "Endpoints"@,
        "Insights"@,
        "Metrics"@,
        "Errors"@,
    ]
    &&& s.busy == pending_count(e.slots@, 4) + if e.series_ticket is Some {
        1nat
    } else {
        0nat
    }
    &&& match e.current {
        None => {
            &&& crate::order::views(s.breadcrumb@) == seq!["Select app"@]
            &&& s.active_tab is None
            &&& crate::order::views(s.rows@) == picker_rows(e)
            &&& s.selected == e.app_selected
            &&& s.text is None
            &&& s.title@ == if e.search.committed@.len() == 0 {
                " Select an app (Enter to open, type to search) "@
            } else {
                " Select an app \u{2014} filter: \""@ + e.search.committed@ + "\" (Enter to open) "@
            }
        },
        Some(a) => {
            &&& s.active_tab == Some(e.tab)
            &&& s.selected == e.selected
            &&& match e.drill {
                Some(d) => {
                    &&& crate::order::views(s.breadcrumb@) == seq![
                        a.name@,
                        crate::view::tab_name(e.tab),
                        d.label@,
                    ]
                    &&& s.title@ == " "@ + d.label@ + " "@
                    &&& s.rows@.len() == 0
                    &&& match d.content {
                        DrillContent::Preformatted(t) => text_is(s.text, t@),
                        DrillContent::Loading => text_is(s.text, loading_text("metric "@ + d.label@)),
                        DrillContent::MetricSeries(_) => s.text is None,
                    }
                },
                None => {
                    let slot = e.slot(e.tab);
                    &&& crate::order::views(s.breadcrumb@) == seq![
                        a.name@,
                        crate::view::tab_name(e.tab),
                    ]
                    &&& s.title@ == " "@ + crate::view::tab_name(e.tab) + " "@
                    &&& match slot.error {
                        Some(msg) => s.rows@.len() == 0 && text_is(s.text, "Error: "@ + msg@),
                        None => match slot.data {
                            Some(d) => crate::order::views(s.rows@) == tab_rows(d) && s.text is None,
                            None => s.rows@.len() == 0 && if slot.pending is Some {
                                text_is(
                                    s.text,
                                    loading_text(crate::text::lower_of(crate::view::tab_name(e.tab))),
                                )
                            } else {
                                s.text is None
                            },
                        },
                    }
                },
            }
        },
    }
}

/// The text shown while something loads.
fn loading_message(what: &str) -> (r: String)
    ensures
        r@ == loading_text(what@),
{
    let mut s = String::from_str("\u{27f3}  Loading ");
    s.append(what);
    s.append("\u{2026}\n\nUsually 1\u{2013}3 seconds depending on network.\n\nPlease wait\u{2026}");
    s
}

/// The text between single spaces.
fn spaced(t: &str) -> (r: String)
    ensures
        r@ == " "@ + t@ + " "@,
{
    let mut s = String::from_str(" ");
    s.append(t);
    s.append(" ");
    s
}

impl Engine {
    /// Number of fetches in flight, the metric series included.
    pub fn busy(&self) -> (r: usize)
        requires
            self.wf(),
        ensures
            r == pending_count(self.slots@, 4) + if self.series_ticket is Some {
                1nat
            } else {
                0nat
            },
    {
        let mut n: usize = 0;
        let mut i: usize = 0;
        while i < 4
            invariant
                i <= 4,
                self.slots@.len() == 4,
                n == pending_count(self.slots@, i as int),
                n <= i,
            decreases 4 - i,
        {
            if self.slots[i].pending.is_some() {
                n = n + 1;
            }
            i = i + 1;
        }
        if self.series_ticket.is_some() {
            n = n + 1;
        }
        n
    }

    /// Rows of the picker.
    fn picker_lines(&self) -> (r: Vec<String>)
        ensures
            crate::order::views(r@) == picker_rows(*self),
    {
        let indices = filtered_app_indices(&self.apps, self.search.committed.as_str());
        proof {
            assert(self.apps@.len() == self.apps.len());
        }
        proof {
            crate::apps::lemma_filter_exact(self.apps@, self.search.committed@);
        }
        let mut rows: Vec<String> = Vec::new();
        let mut j: usize = 0;
        while j < indices.len()
            invariant
                j <= indices@.len(),
                indices@ == self.visible_apps(),
                forall|x: usize| indices@.contains(x) ==> x < self.apps@.len(),
                crate::order::views(rows@) == picker_rows(*self).subrange(0, j as int),
            decreases indices@.len() - j,
        {
            let idx = indices[j];
            assert(indices@.contains(idx));
            let app = &self.apps[idx];
            let mut line = crate::text::decimal_string(app.id);
            line.append("  ");
            line.append(app.name.as_str());
            let ghost rb = rows@;
            let ghost lv = line@;
            rows.push(line);
            j = j + 1;
            proof {
                assert(crate::order::views(rows@) =~= crate::order::views(rb).push(lv));
                assert(crate::order::views(rows@) =~= picker_rows(*self).subrange(0, j as int));
            }
        }
        proof {
            assert(picker_rows(*self).subrange(0, j as int) =~= picker_rows(*self));
        }
        rows
    }

    /// What the terminal shows for the current state.
    pub fn screen(&self) -> (r: Screen)
        requires
            self.wf(),
        ensures
            screen_spec(*self, r),
    {
        let mut tab_names: Vec<String> = Vec::new();
        tab_names.push(String::from_str("Endpoints"));
        tab_names.push(String::from_str("Insights"));
        tab_names.push(String::from_str("Metrics"));
        tab_names.push(String::from_str("Errors"));
        proof {
            assert(crate::order::views(tab_names@) =~= seq![
                "Endpoints"@,
                "Insights"@,
                "Metrics"@,
                "Errors"@,
            ]);
        }
        let busy = self.busy();
        match &self.current {
            None => {
                let mut breadcrumb: Vec<String> = Vec::new();
                breadcrumb.push(String::from_str("Select app"));
                proof {
                    assert(crate::order::views(breadcrumb@) =~= seq!["Select app"@]);
                }
                let title = if self.search.committed.as_str().is_empty() {
                    String::from_str(" Select an app (Enter to open, type to search) ")
                } else {
                    let mut t = String::from_str(" Select an app \u{2014} filter: \"");
                    t.append(self.search.committed.as_str());
                    t.append("\" (Enter to open) ");
                    t
                };
                Screen {
                    breadcrumb,
                    tab_names,
                    active_tab: None,
                    title,
                    rows: self.picker_lines(),
                    selected: self.app_selected,
                    text: None,
                    busy,
                }
            },
            Some(a) => {
                let mut breadcrumb: Vec<String> = Vec::new();
                breadcrumb.push(a.name.clone());
                breadcrumb.push(String::from_str(self.tab.as_str()));
                match &self.drill {
                    Some(d) => {
                        breadcrumb.push(d.label.clone());
                        proof {
                            assert(crate::order::views(breadcrumb@) =~= seq![
                                a.name@,
                                crate::view::tab_name(self.tab),
                                d.label@,
                            ]);
                        }
                        let text = match &d.content {
                            DrillContent::Preformatted(t) => Some(t.clone()),
                            DrillContent::Loading => {
                                let mut what = String::from_str("metric ");
                                what.append(d.label.as_str());
                                Some(loading_message(what.as_str()))
                            },
                            DrillContent::MetricSeries(_) => None,
                        };
                        Screen {
                            breadcrumb,
                            tab_names,
                            active_tab: Some(self.tab),
                            title: spaced(d.label.as_str()),
                            rows: Vec::new(),
                            selected: self.selected,
                            text,
                            busy,
                        }
                    },
                    None => {
                        proof {
                            assert(crate::order::views(breadcrumb@) =~= seq![
                                a.name@,
                                crate::view::tab_name(self.tab),
                            ]);
                        }
                        let slot = &self.slots[self.tab.index()];
                        let mut rows: Vec<String> = Vec::new();
                        let text = match &slot.error {
                            Some(msg) => {
                                let mut t = String::from_str("Error: ");
                                t.append(msg.as_str());
                                Some(t)
                            },
                            None => match &slot.data {
                                Some(d) => {
                                    rows = data_lines(d);
                                    None
                                },
                                None => if slot.pending.is_some() {
                                    let what = crate::text::lowercase(self.tab.as_str());
                                    Some(loading_message(what.as_str()))
                                } else {
                                    None
                                },
                            },
                        };
                        Screen {
                            breadcrumb,
                            tab_names,
                            active_tab: Some(self.tab),
                            title: spaced(self.tab.as_str()),
                            rows,
                            selected: self.selected,
                            text,
                            busy,
                        }
                    },
                }
            },
        }
    }
}

/// The labels a dataset lists.
fn data_lines(d: &TabData) -> (r: Vec<String>)
    ensures
        crate::order::views(r@) == tab_rows(*d),
{
    let n = d.list_len();
    let mut rows: Vec<String> = Vec::new();
    let mut i: usize = 0;
    while i < n
        invariant
            i <= n,
            n == tab_rows(*d).len(),
            crate::order::views(rows@) == tab_rows(*d).subrange(0, i as int),
        decreases n - i,
    {
        let line = d.row_label(i).to_owned();
        let ghost rb = rows@;
        let ghost lv = line@;
        rows.push(line);
        i = i + 1;
        proof {
            assert(crate::order::views(rows@) =~= crate::order::views(rb).push(lv));
            assert(crate::order::views(rows@) =~= tab_rows(*d).subrange(0, i as int));
        }
    }
    proof {
        assert(tab_rows(*d).subrange(0, n as int) =~= tab_rows(*d));
    }
    rows
}


/// In every reachable state the cursor lies within the list shown: the
/// visible applications in the picker, the current tab's rows otherwise (0
/// when the list is empty).
pub proof fn lemma_cursor_in_list(e: Engine)
    requires
        e.wf(),
    ensures
        e.current is None ==> clamped(e.app_selected as int, e.visible_apps().len() as int),
        e.current is Some ==> clamped(e.selected as int, e.tab_len() as int),
{
}

/// A finished fetch is applied only to the open application's tab that
/// waits for its ticket: a result for an application that is no longer open,
/// or for a fetch no longer awaited, changes nothing.
pub proof fn lemma_stale_result_discarded(
    o: Engine,
    n: Engine,
    ticket: u64,
    key: CacheKey,
    result: Result<JsonValue, String>,
)
    requires
        load_done(o, n, ticket, key, result),
        !(o.current matches Some(a) && a.id == key.app_id) || o.slot(key.tab).pending != Some(
            ticket,
        ),
    ensures
        n == o,
{
}

/// Once the open application is left, no fetch dispatched before can be
/// applied any more, whatever its key.
pub proof fn lemma_results_after_leaving_discarded(
    o: Engine,
    m: Engine,
    cmds: Seq<Command>,
    n: Engine,
    ticket: u64,
    key: CacheKey,
    result: Result<JsonValue, String>,
)
    requires
        left_app(o, m, cmds),
        load_done(m, n, ticket, key, result),
    ensures
        n == m,
{
}

/// A fetch applied to the open application writes only the tab of its own
/// key: every other tab keeps its dataset.
pub proof fn lemma_result_touches_own_tab_only(
    o: Engine,
    n: Engine,
    ticket: u64,
    key: CacheKey,
    result: Result<JsonValue, String>,
    u: Tab,
)
    requires
        load_done(o, n, ticket, key, result),
        u != key.tab,
    ensures
        n.slot(u) == o.slot(u),
{
}

/// Requesting a metric series while another is in flight aborts the first;
/// afterwards the first one's result is ignored and only the second one's
/// is applied.
pub proof fn lemma_single_slot_series(
    o: Engine,
    m: Engine,
    metric: Seq<char>,
    cmds: Seq<Command>,
    first: u64,
    late: Result<JsonValue, String>,
    n1: Engine,
    fresh: Result<JsonValue, String>,
    n2: Engine,
)
    requires
        o.wf(),
        o.series_ticket == Some(first),
        requested_series(o, m, metric, cmds),
        series_done(m, n1, first, late),
        series_done(m, n2, m.series_ticket->0, fresh),
    ensures
        cmds[0] == (Command::Abort { ticket: first }),
        n1 == m,
        n2.series_ticket is None,
        n2.drill matches Some(d) && match fresh {
            Ok(v) => d.content == DrillContent::MetricSeries(v),
            Err(e) => d.content is Preformatted,
        },
{
    assert(cmds.drop_last() == seq![Command::Abort { ticket: first }]);
    assert(cmds[0] == cmds.drop_last()[0]);
}

/// The whole single-slot exchange: with a metric series in flight, the
/// overlay is closed (aborting it) and a second series is requested; a late
/// result of the first then changes nothing, and the second's result is the
/// one applied.
pub proof fn lemma_second_series_wins(
    o: Engine,
    closing: Seq<Command>,
    m1: Engine,
    metric: Seq<char>,
    cmds: Seq<Command>,
    m2: Engine,
    first: u64,
    late: Result<JsonValue, String>,
    n1: Engine,
    fresh: Result<JsonValue, String>,
    n2: Engine,
)
    requires
        o.wf(),
        o.series_ticket == Some(first),
        closed_drill(o, m1, closing),
        requested_series(m1, m2, metric, cmds),
        series_done(m2, n1, first, late),
        series_done(m2, n2, m2.series_ticket->0, fresh),
    ensures
        closing == seq![Command::Abort { ticket: first }],
        m2.series_ticket != Some(first),
        n1 == m2,
        n2.drill matches Some(d) && d.label@ == metric && match fresh {
            Ok(v) => d.content == DrillContent::MetricSeries(v),
            Err(e) => d.content matches DrillContent::Preformatted(t) && t@ == "Error: "@ + e@,
        },
{
}

} // verus!
