//! The state of the application window and the decisions it takes: which
//! events the log shows and in what order, how column headers cycle the
//! sort, and how menu, close and relaunch requests change the state.
use vstd::prelude::*;
use vstd::string::StringExecFns;
use crate::event::FocusEvent;
use crate::order::{in_shown_order, same_key, shown_before, sort_shown, SortKey};
use crate::settings::{SearchScope, Settings};
use crate::tray::MenuAction;
use crate::text::{chars_of, contains_fragment, has_fragment, lowercase_of, to_lowercase};
use crate::timestamp::{format_rfc3339, local_time_text, offset_time_text, rfc3339_text};

verus! {

/// The tab the window shows.
#[derive(Clone, Copy, Debug, PartialEq, Eq, Structural)]
pub enum Tab {
    Logs,
    Settings,
}

/// The search `search` finds `e` in the columns of `scope`: the search is
/// empty, or its lowercase form occurs in the lowercase form of one of
/// those columns.
pub open spec fn event_matches(e: FocusEvent, search: Seq<char>, scope: SearchScope) -> bool {
    let q = lowercase_of(search);
    let app = has_fragment(lowercase_of(e.app_name@), q);
    let title = has_fragment(lowercase_of(e.window_title@), q);
    let prev = has_fragment(lowercase_of(e.previous_app@), q);
    let bundle = has_fragment(lowercase_of(e.bundle_id@), q);
    let time = has_fragment(lowercase_of(rfc3339_text(e.ts.secs, e.ts.nanos)), q);
    search.len() == 0 || match scope {
        SearchScope::All => app || title || prev || bundle || time,
        SearchScope::Time => time,
        SearchScope::App => app || bundle,
        SearchScope::Title => title,
        SearchScope::Prev => prev,
    }
}

/// `order` lists the events that the search finds, each once, in the order
/// that `sort` shows them.
pub open spec fn is_view_order(
    events: Seq<FocusEvent>,
    search: Seq<char>,
    scope: SearchScope,
    sort: Option<(SortKey, bool)>,
    order: Seq<usize>,
) -> bool {
    &&& forall|x: usize|
        #![trigger order.contains(x)]
        order.contains(x) <==> (x < events.len() && event_matches(events[x as int], search, scope))
    &&& in_shown_order(events, sort, order)
}

/// The indices of the events the log shows, top to bottom.
pub open spec fn view_order(
    events: Seq<FocusEvent>,
    search: Seq<char>,
    scope: SearchScope,
    sort: Option<(SortKey, bool)>,
) -> Seq<usize> {
    choose|order: Seq<usize>| is_view_order(events, search, scope, sort, order)
}

/// Whether the lowercase form of `s` holds the fragment `q`.
fn lowercase_has(s: &str, q: &Vec<char>) -> (res: bool)
    ensures
        res == has_fragment(lowercase_of(s@), q@),
{
    let lower = to_lowercase(s);
    let chars = chars_of(lower.as_str());
    contains_fragment(&chars, q)
}

/// Whether the search whose lowercase form is `q` finds `e`.
fn matches_search(e: &FocusEvent, search: &String, q: &Vec<char>, scope: SearchScope) -> (res: bool)
    requires
        e.wf(),
        q@ == lowercase_of(search@),
        q@.len() == 0 <==> search@.len() == 0,
    ensures
        res == event_matches(*e, search@, scope),
{
    if q.len() == 0 {
        return true;
    }
    match scope {
        SearchScope::All => {
            if lowercase_has(e.app_name.as_str(), q) || lowercase_has(e.window_title.as_str(), q)
                || lowercase_has(e.previous_app.as_str(), q) || lowercase_has(
                e.bundle_id.as_str(),
                q,
            ) {
                true
            } else {
                let t = format_rfc3339(e.ts);
                lowercase_has(t.as_str(), q)
            }
        },
        SearchScope::Time => {
            let t = format_rfc3339(e.ts);
            lowercase_has(t.as_str(), q)
        },
        SearchScope::App => lowercase_has(e.app_name.as_str(), q) || lowercase_has(
            e.bundle_id.as_str(),
            q,
        ),
        SearchScope::Title => lowercase_has(e.window_title.as_str(), q),
        SearchScope::Prev => lowercase_has(e.previous_app.as_str(), q),
    }
}

/// What the application remembers and decides, apart from its database,
/// channels and menu-bar icon.
#[derive(Debug)]
pub struct AppState {
    /// The logged events, newest first.
    pub events: Vec<FocusEvent>,
    /// The text of the search field.
    pub search: String,
    /// The columns the search looks in.
    pub search_scope: SearchScope,
    /// The column the log is sorted by and whether ascending.
    pub sort: Option<(SortKey, bool)>,
    /// The tab on show.
    pub tab: Tab,
    /// The user's settings.
    pub settings: Settings,
    /// Quit was asked for.
    pub quitting: bool,
    /// Logging is paused.
    pub paused: bool,
    /// The window was hidden by closing it.
    pub window_hidden: bool,
}

impl AppState {
    /// Every logged event has an instant that `chrono` represents.
    pub open spec fn wf(&self) -> bool {
        forall|i: int| 0 <= i < self.events.len() ==> (#[trigger] self.events@[i]).wf()
    }

    /// The indices of the events the log shows, top to bottom.
    pub open spec fn shown(&self) -> Seq<usize> {
        view_order(self.events@, self.search@, self.search_scope, self.sort)
    }

    /// The indices of the events the log shows, top to bottom: those the
    /// search finds, each once, in the order of the sort.
    pub fn visible_indices(&self) -> (res: Vec<usize>)
        requires
            self.wf(),
        ensures
            res@ == self.shown(),
            is_view_order(self.events@, self.search@, self.search_scope, self.sort, res@),
    {
        let q_text = to_lowercase(self.search.as_str());
        let q = chars_of(q_text.as_str());
        let n = self.events.len();
        let mut found: Vec<usize> = Vec::new();
        for i in 0..n
            invariant
                n == self.events.len(),
                self.wf(),
                q@ == lowercase_of(self.search@),
                q@.len() == 0 <==> self.search@.len() == 0,
                forall|k: int| 0 <= k < found.len() ==> (#[trigger] found@[k]) < i,
                forall|p: int, q: int| 0 <= p < q < found.len() ==> found@[p] < found@[q],
                forall|x: usize|
                    #![trigger found@.contains(x)]
                    found@.contains(x) <==> (x < i && event_matches(
                        self.events@[x as int],
                        self.search@,
                        self.search_scope,
                    )),
        {
            let hit = matches_search(&self.events[i], &self.search, &q, self.search_scope);
            let ghost before = found@;
            if hit {
                found.push(i);
            }
            proof {
                assert forall|x: usize|
                    #![trigger found@.contains(x)]
                    found@.contains(x) <==> (x < i + 1 && event_matches(
                        self.events@[x as int],
                        self.search@,
                        self.search_scope,
                    )) by {
                    if hit {
                        if found@.contains(x) && x != i {
                            let k = choose|k: int| 0 <= k < found@.len() && found@[k] == x;
                            assert(before[k] == x);
                        }
                        if before.contains(x) {
                            let k = choose|k: int| 0 <= k < before.len() && before[k] == x;
                            assert(found@[k] == x);
                        }
                        assert(found@[before.len() as int] == i);
                    }
                }
            }
        }
        let res = match self.sort {
            None => found,
            Some((key, asc)) => {
                assert(crate::order::indices_below(found@, n as int)) by {
                    assert forall|k: int| 0 <= k < found@.len() implies (#[trigger] found@[k])
                        < n by {}
                }
                sort_shown(&self.events, key, asc, &found)
            },
        };
        proof {
            assert(is_view_order(self.events@, self.search@, self.search_scope, self.sort, res@));
            crate::order::lemma_shown_order_unique(self.events@, self.sort, res@, self.shown());
        }
        res
    }

    /// The events the log shows, top to bottom.
    pub fn filtered_sorted(&self) -> (res: Vec<&FocusEvent>)
        requires
            self.wf(),
        ensures
            res@.len() == self.shown().len(),
            forall|k: int|
                0 <= k < res@.len() ==> *res@[k] == self.events@[self.shown()[k] as int],
    {
        let order = self.visible_indices();
        let mut rows: Vec<&FocusEvent> = Vec::new();
        for k in 0..order.len()
            invariant
                order@ == self.shown(),
                is_view_order(self.events@, self.search@, self.search_scope, self.sort, order@),
                rows.len() == k,
                forall|p: int|
                    0 <= p < k ==> *(#[trigger] rows@[p]) == self.events@[order@[p] as int],
        {
            assert(order@.contains(order@[k as int]));
            rows.push(&self.events[order[k]]);
        }
        rows
    }
}

/// What the application must do besides changing its state after a menu
/// action.
#[derive(Clone, Copy, Debug, PartialEq, Eq, Structural)]
pub enum MenuEffect {
    /// Nothing more.
    Nothing,
    /// Show and focus the window.
    ShowWindow,
    /// Delete every event from the database, then from the log.
    ClearLogs,
}

/// The sort after a click on the header of `key`: ascending on the first
/// click, descending on the second, no sort on the third.
pub open spec fn next_sort(sort: Option<(SortKey, bool)>, key: SortKey) -> Option<(SortKey, bool)> {
    match sort {
        Some((k, asc)) => if k == key {
            if asc {
                Some((key, false))
            } else {
                None
            }
        } else {
            Some((key, true))
        },
        None => Some((key, true)),
    }
}

/// The header of the column `key` named `name`: the name, marked ` ^`
/// where the log is sorted by it ascending and ` v` where descending.
pub open spec fn header_text(sort: Option<(SortKey, bool)>, key: SortKey, name: Seq<char>) -> Seq<
    char,
> {
    match sort {
        Some((k, asc)) => if k == key {
            if asc {
                name + " ^"@
            } else {
                name + " v"@
            }
        } else {
            name
        },
        None => name,
    }
}

/// The label of a search scope in the scope menu.
pub open spec fn scope_label_text(s: SearchScope) -> Seq<char> {
    match s {
        SearchScope::All => "All columns"@,
        SearchScope::Time => "Time"@,
        SearchScope::App => "App"@,
        SearchScope::Title => "Window Title"@,
        SearchScope::Prev => "Previous App"@,
    }
}

/// The label of a search scope in the scope menu.
pub fn scope_label(s: SearchScope) -> (res: &'static str)
    ensures
        res@ == scope_label_text(s),
{
    match s {
        SearchScope::All => "All columns",
        SearchScope::Time => "Time",
        SearchScope::App => "App",
        SearchScope::Title => "Window Title",
        SearchScope::Prev => "Previous App",
    }
}

/// The transition column of an event: the previous app (`-` where there is
/// none), an arrow, and the app.
pub open spec fn transition_text(previous_app: Seq<char>, app_name: Seq<char>) -> Seq<char> {
    let prev = if previous_app.len() == 0 {
        "-"@
    } else {
        previous_app
    };
    prev + " -> "@ + app_name
}

/// The transition column of an event.
pub fn transition_label(e: &FocusEvent) -> (res: String)
    ensures
        res@ == transition_text(e.previous_app@, e.app_name@),
{
    let mut out = if e.previous_app.as_str().is_empty() {
        String::from_str("-")
    } else {
        e.previous_app.clone()
    };
    out.append(" -> ");
    out.append(e.app_name.as_str());
    out
}

/// The texts of a row of the log table.
#[derive(Debug)]
pub struct RowTexts {
    /// The date and time in the machine's time zone.
    pub time: String,
    /// The app.
    pub app: String,
    /// The window title.
    pub title: String,
    /// The transition from the previous app.
    pub transition: String,
}

/// The texts of the log table's row for an event. The date and time are
/// those of the event's instant in the machine's time zone; which offset
/// from UTC that zone gives is not stated.
pub fn row_texts(e: &FocusEvent) -> (res: RowTexts)
    requires
        e.wf(),
    ensures
        exists|offset: i32|
            -86400 < offset < 86400 && res.time@ == offset_time_text(
                e.ts.secs,
                e.ts.nanos,
                offset,
                "%Y-%m-%d %H:%M:%S"@,
            ),
        res.app@ == e.app_name@,
        res.title@ == e.window_title@,
        res.transition@ == transition_text(e.previous_app@, e.app_name@),
{
    let (time, offset) = local_time_text(e.ts, "%Y-%m-%d %H:%M:%S");
    RowTexts {
        time,
        app: e.app_name.clone(),
        title: e.window_title.clone(),
        transition: transition_label(e),
    }
}

impl AppState {
    /// `self` and `other` hold the same log, search, sort, tab and settings.
    pub open spec fn same_view(&self, other: &AppState) -> bool {
        &&& self.events@ == other.events@
        &&& self.search@ == other.search@
        &&& self.search_scope == other.search_scope
        &&& self.sort == other.sort
        &&& self.tab == other.tab
        &&& self.settings == other.settings
    }

    /// `self` and `other` hold the same quit, pause and window flags.
    pub open spec fn same_flags(&self, other: &AppState) -> bool {
        &&& self.quitting == other.quitting
        &&& self.paused == other.paused
        &&& self.window_hidden == other.window_hidden
    }

    /// The state at start-up: the stored events, the settings read, an
    /// empty search in the scope the settings name, no sort, the log tab,
    /// not quitting, not paused, and the window hidden exactly where the
    /// settings ask to start minimized.
    pub fn new(events: Vec<FocusEvent>, settings: Settings) -> (res: AppState)
        requires
            forall|i: int| 0 <= i < events.len() ==> (#[trigger] events@[i]).wf(),
        ensures
            res.wf(),
            res.events@ == events@,
            res.search@ == Seq::<char>::empty(),
            res.search_scope == settings.search_scope,
            res.sort is None,
            res.tab == Tab::Logs,
            res.settings == settings,
            !res.quitting,
            !res.paused,
            res.window_hidden == settings.start_minimized,
    {
        AppState {
            events,
            search: String::new(),
            search_scope: settings.search_scope,
            sort: None,
            tab: Tab::Logs,
            settings,
            quitting: false,
            paused: false,
            window_hidden: settings.start_minimized,
        }
    }

    /// A click on the header of `key` moves the sort on by `next_sort`.
    pub fn cycle_sort(&mut self, key: SortKey)
        ensures
            final(self).sort == next_sort(old(self).sort, key),
            final(self).events@ == old(self).events@,
            final(self).search@ == old(self).search@,
            final(self).search_scope == old(self).search_scope,
            final(self).tab == old(self).tab,
            final(self).settings == old(self).settings,
            final(self).same_flags(old(self)),
    {
        self.sort = match self.sort {
            Some((k, asc)) => if k == key {
                if asc {
                    Some((key, false))
                } else {
                    None
                }
            } else {
                Some((key, true))
            },
            None => Some((key, true)),
        };
    }

    /// The header of the column `key` named `name`.
    pub fn header_label(&self, key: SortKey, name: &str) -> (res: String)
        ensures
            res@ == header_text(self.sort, key, name@),
    {
        match self.sort {
            Some((k, asc)) => if k == key {
                if asc {
                    String::from_str(name).concat(" ^")
                } else {
                    String::from_str(name).concat(" v")
                }
            } else {
                String::from_str(name)
            },
            None => String::from_str(name),
        }
    }

    /// Whether an incoming event is stored: not while logging is paused.
    pub fn accepts_events(&self) -> (res: bool)
        ensures
            res == !self.paused,
    {
        !self.paused
    }

    /// Puts an event that the database stored under `id` at the top of the
    /// log. Nothing is stored while logging is paused: the caller asks
    /// `accepts_events` first, and this may not be called while paused.
    pub fn record_stored(&mut self, ev: FocusEvent, id: i64)
        requires
            old(self).wf(),
            !old(self).paused,
            ev.wf(),
        ensures
            final(self).wf(),
            final(self).events@ == seq![FocusEvent { id: id, ..ev }] + old(self).events@,
            final(self).search@ == old(self).search@,
            final(self).search_scope == old(self).search_scope,
            final(self).sort == old(self).sort,
            final(self).tab == old(self).tab,
            final(self).settings == old(self).settings,
            final(self).same_flags(old(self)),
    {
        let mut ev = ev;
        ev.id = id;
        self.events.insert(0, ev);
        proof {
            assert(self.events@ =~= seq![FocusEvent { id: id, ..ev }] + old(self).events@);
            assert forall|i: int| 0 <= i < self.events.len() implies (#[trigger] self.events@[i]).wf() by {
                if i > 0 {
                    assert(self.events@[i] == old(self).events@[i - 1]);
                }
            }
        }
    }

    /// Applies a menu action: `Open` shows the window, `Quit` asks to quit,
    /// `Pause(p)` pauses or resumes logging, and `Clear` asks for the logs to
    /// be deleted.
    pub fn apply_menu_action(&mut self, action: MenuAction) -> (res: MenuEffect)
        ensures
            final(self).same_view(old(self)),
            res == match action {
                MenuAction::Open => MenuEffect::ShowWindow,
                MenuAction::Clear => MenuEffect::ClearLogs,
                _ => MenuEffect::Nothing,
            },
            final(self).quitting == (old(self).quitting || action == MenuAction::Quit),
            final(self).paused == match action {
                MenuAction::Pause(p) => p,
                _ => old(self).paused,
            },
            final(self).window_hidden == (old(self).window_hidden && action != MenuAction::Open),
    {
        match action {
            MenuAction::Open => {
                self.window_hidden = false;
                MenuEffect::ShowWindow
            },
            MenuAction::Quit => {
                self.quitting = true;
                MenuEffect::Nothing
            },
            MenuAction::Pause(p) => {
                self.paused = p;
                MenuEffect::Nothing
            },
            MenuAction::Clear => MenuEffect::ClearLogs,
        }
    }

    /// The database deleted every event: the log is emptied too.
    pub fn logs_cleared(&mut self)
        ensures
            final(self).wf(),
            final(self).events@ == Seq::<FocusEvent>::empty(),
            final(self).search@ == old(self).search@,
            final(self).search_scope == old(self).search_scope,
            final(self).sort == old(self).sort,
            final(self).tab == old(self).tab,
            final(self).settings == old(self).settings,
            final(self).same_flags(old(self)),
    {
        self.events.clear();
    }

    /// The application was launched again (`pending`): the window is shown
    /// again only where closing hid it. Returns whether to show it.
    pub fn reopen_requested(&mut self, pending: bool) -> (res: bool)
        ensures
            res == (pending && old(self).window_hidden),
            final(self).window_hidden == (old(self).window_hidden && !res),
            final(self).quitting == old(self).quitting,
            final(self).paused == old(self).paused,
            final(self).same_view(old(self)),
    {
        if pending && self.window_hidden {
            self.window_hidden = false;
            true
        } else {
            false
        }
    }

    /// The window's close button was pressed (`requested`): unless quitting,
    /// the window is hidden and the application keeps running. Returns
    /// whether to cancel the close and hide the window.
    pub fn close_requested(&mut self, requested: bool) -> (res: bool)
        ensures
            res == (requested && !old(self).quitting),
            final(self).window_hidden == (old(self).window_hidden || res),
            final(self).quitting == old(self).quitting,
            final(self).paused == old(self).paused,
            final(self).same_view(old(self)),
    {
        if requested && !self.quitting {
            self.window_hidden = true;
            true
        } else {
            false
        }
    }

    /// The user picked the search scope `scope`; a new scope is kept in the
    /// settings as well. Returns whether it changed (and the settings need
    /// saving).
    pub fn select_scope(&mut self, scope: SearchScope) -> (res: bool)
        ensures
            res == (scope != old(self).search_scope),
            final(self).search_scope == scope,
            final(self).settings == (if res {
                Settings { search_scope: scope, ..old(self).settings }
            } else {
                old(self).settings
            }),
            final(self).events@ == old(self).events@,
            final(self).search@ == old(self).search@,
            final(self).sort == old(self).sort,
            final(self).tab == old(self).tab,
            final(self).same_flags(old(self)),
    {
        let changed = scope != self.search_scope;
        self.search_scope = scope;
        if changed {
            self.settings.search_scope = scope;
        }
        changed
    }

    /// Turns start at login on or off. Returns whether the setting changed
    /// (and the settings need saving and the launch agent writing or
    /// removing).
    pub fn set_autostart(&mut self, on: bool) -> (res: bool)
        ensures
            res == (on != old(self).settings.autostart),
            final(self).settings == (Settings { autostart: on, ..old(self).settings }),
            final(self).events@ == old(self).events@,
            final(self).search@ == old(self).search@,
            final(self).search_scope == old(self).search_scope,
            final(self).sort == old(self).sort,
            final(self).tab == old(self).tab,
            final(self).same_flags(old(self)),
    {
        let changed = on != self.settings.autostart;
        self.settings.autostart = on;
        changed
    }

    /// Turns starting with the window hidden on or off. Returns whether the
    /// setting changed (and the settings need saving).
    pub fn set_start_minimized(&mut self, on: bool) -> (res: bool)
        ensures
            res == (on != old(self).settings.start_minimized),
            final(self).settings == (Settings { start_minimized: on, ..old(self).settings }),
            final(self).events@ == old(self).events@,
            final(self).search@ == old(self).search@,
            final(self).search_scope == old(self).search_scope,
            final(self).sort == old(self).sort,
            final(self).tab == old(self).tab,
            final(self).same_flags(old(self)),
    {
        let changed = on != self.settings.start_minimized;
        self.settings.start_minimized = on;
        changed
    }

    /// Shows or hides the menu-bar icon. Returns whether the setting
    /// changed (and the settings need saving and the icon showing or
    /// hiding).
    pub fn set_show_tray(&mut self, on: bool) -> (res: bool)
        ensures
            res == (on != old(self).settings.show_tray),
            final(self).settings == (Settings { show_tray: on, ..old(self).settings }),
            final(self).events@ == old(self).events@,
            final(self).search@ == old(self).search@,
            final(self).search_scope == old(self).search_scope,
            final(self).sort == old(self).sort,
            final(self).tab == old(self).tab,
            final(self).same_flags(old(self)),
    {
        let changed = on != self.settings.show_tray;
        self.settings.show_tray = on;
        changed
    }

    /// The quit button was pressed: the application is to quit.
    pub fn request_quit(&mut self)
        ensures
            final(self).quitting,
            final(self).paused == old(self).paused,
            final(self).window_hidden == old(self).window_hidden,
            final(self).same_view(old(self)),
    {
        self.quitting = true;
    }
}

/// Three clicks on the header of the column the log is sorted by (or of
/// any column when it is not sorted) bring the sort back to where it was.
pub proof fn lemma_cycle_sort_returns(sort: Option<(SortKey, bool)>, key: SortKey)
    requires
        sort matches Some((k, _)) ==> k == key,
    ensures
        next_sort(next_sort(next_sort(sort, key), key), key) == sort,
{
}

/// A search in one column finds only events that a search in all columns
/// finds too.
pub proof fn lemma_scope_within_all(e: FocusEvent, search: Seq<char>, scope: SearchScope)
    requires
        event_matches(e, search, scope),
    ensures
        event_matches(e, search, SearchScope::All),
{
}

/// With an empty search and no sort, the log shows every event, in the
/// order of the log.
pub proof fn lemma_empty_search_shows_all(
    events: Seq<FocusEvent>,
    search: Seq<char>,
    scope: SearchScope,
)
    requires
        search.len() == 0,
        events.len() <= usize::MAX,
    ensures
        is_view_order(
            events,
            search,
            scope,
            None,
            Seq::new(events.len(), |i: int| i as usize),
        ),
{
    let all = Seq::new(events.len(), |i: int| i as usize);
    assert forall|x: usize| #![trigger all.contains(x)] all.contains(x) <==> (x < events.len() && event_matches(events[x as int], search, scope)) by {
        if x < events.len() {
            assert(all[x as int] == x);
        }
    }
}

/// Sorting only reorders: whatever the sort, the log shows the same events.
pub proof fn lemma_sort_only_reorders(
    events: Seq<FocusEvent>,
    search: Seq<char>,
    scope: SearchScope,
    sort_a: Option<(SortKey, bool)>,
    sort_b: Option<(SortKey, bool)>,
    a: Seq<usize>,
    b: Seq<usize>,
)
    requires
        is_view_order(events, search, scope, sort_a, a),
        is_view_order(events, search, scope, sort_b, b),
    ensures
        forall|x: usize| a.contains(x) <==> b.contains(x),
{
    assert forall|x: usize| a.contains(x) <==> b.contains(x) by {
        assert(a.contains(x) <==> (x < events.len() && event_matches(events[x as int], search, scope)));
        assert(b.contains(x) <==> (x < events.len() && event_matches(events[x as int], search, scope)));
    }
}

/// The view order is unique: the shown events and their order are fixed by
/// the events, the search, its scope and the sort.
pub proof fn lemma_view_order_unique(
    events: Seq<FocusEvent>,
    search: Seq<char>,
    scope: SearchScope,
    sort: Option<(SortKey, bool)>,
    a: Seq<usize>,
    b: Seq<usize>,
)
    requires
        is_view_order(events, search, scope, sort, a),
        is_view_order(events, search, scope, sort, b),
    ensures
        a == b,
{
    lemma_sort_only_reorders(events, search, scope, sort, sort, a, b);
    crate::order::lemma_shown_order_unique(events, sort, a, b);
}

/// Where no two shown events hold the same value in the column `key`, the
/// descending order is the ascending order reversed. (Events that tie keep
/// their log order in both directions, so with ties it is not.)
pub proof fn lemma_descending_reverses_ascending(
    events: Seq<FocusEvent>,
    search: Seq<char>,
    scope: SearchScope,
    key: SortKey,
    ascending: Seq<usize>,
)
    requires
        is_view_order(events, search, scope, Some((key, true)), ascending),
        forall|p: int, q: int|
            0 <= p < q < ascending.len() ==> !same_key(
                key,
                events[ascending[p] as int],
                events[ascending[q] as int],
            ),
    ensures
        is_view_order(events, search, scope, Some((key, false)), ascending.reverse()),
{
    let r = ascending.reverse();
    let n = ascending.len();
    assert forall|x: usize| #![trigger r.contains(x)] r.contains(x) <==> ascending.contains(x) by {
        if r.contains(x) {
            let k = choose|k: int| 0 <= k < r.len() && r[k] == x;
            assert(ascending[n - 1 - k] == x);
        }
        if ascending.contains(x) {
            let k = choose|k: int| 0 <= k < n && ascending[k] == x;
            assert(r[n - 1 - k] == x);
        }
    }
    assert forall|x: usize| #![trigger r.contains(x)] r.contains(x) <==> (x < events.len() && event_matches(events[x as int], search, scope)) by {
        assert(ascending.contains(x) <==> (x < events.len() && event_matches(events[x as int], search, scope)));
    }
    assert forall|a: int, b: int|
        #![trigger r[a], r[b]]
        0 <= a < b < r.len() implies shown_before(events, Some((key, false)), r[a] as int, r[b] as int) by {
        let p = n - 1 - b;
        let q = n - 1 - a;
        assert(r[a] == ascending[q] && r[b] == ascending[p]);
        assert(shown_before(events, Some((key, true)), ascending[p] as int, ascending[q] as int));
        assert(!same_key(key, events[ascending[p] as int], events[ascending[q] as int]));
    }
}

/// A click on the header of a column other than the one the log is sorted
/// by sorts by that column ascending, whatever the previous direction; a
/// click on the sorted column only turns its direction or the sort off.
pub proof fn lemma_click_other_column_sorts_ascending(
    sorted_by: SortKey,
    asc: bool,
    clicked: SortKey,
)
    ensures
        sorted_by != clicked ==> next_sort(Some((sorted_by, asc)), clicked) == Some((clicked, true)),
        next_sort(None, clicked) == Some((clicked, true)),
        sorted_by == clicked && asc ==> next_sort(Some((sorted_by, asc)), clicked) == Some(
            (clicked, false),
        ),
        sorted_by == clicked && !asc ==> next_sort(Some((sorted_by, asc)), clicked) is None,
{
}

/// A search in the App scope finds an event exactly when the lowercase
/// search occurs in the lowercase app name or the lowercase bundle id (or
/// the search is empty); neither column's case matters.
pub proof fn lemma_app_scope_searches_app_and_bundle(e: FocusEvent, search: Seq<char>)
    ensures
        has_fragment(lowercase_of(e.bundle_id@), lowercase_of(search)) ==> event_matches(
            e,
            search,
            SearchScope::App,
        ),
        has_fragment(lowercase_of(e.app_name@), lowercase_of(search)) ==> event_matches(
            e,
            search,
            SearchScope::App,
        ),
        event_matches(e, search, SearchScope::App) ==> search.len() == 0 || has_fragment(
            lowercase_of(e.app_name@),
            lowercase_of(search),
        ) || has_fragment(lowercase_of(e.bundle_id@), lowercase_of(search)),
{
}

/// Every search scope looks at the lowercase forms of its columns: an event
/// whose columns have the same lowercase forms as another's is found by the
/// same searches.
pub proof fn lemma_search_ignores_case_of_columns(
    e: FocusEvent,
    f: FocusEvent,
    search: Seq<char>,
    scope: SearchScope,
)
    requires
        lowercase_of(e.app_name@) == lowercase_of(f.app_name@),
        lowercase_of(e.bundle_id@) == lowercase_of(f.bundle_id@),
        lowercase_of(e.window_title@) == lowercase_of(f.window_title@),
        lowercase_of(e.previous_app@) == lowercase_of(f.previous_app@),
        e.ts == f.ts,
    ensures
        event_matches(e, search, scope) == event_matches(f, search, scope),
{
}

} // verus!
