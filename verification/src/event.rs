//! Focus events: what one switch of the active application records, how it
//! is stored as a database row and read back, and how the previous
//! application is tracked across switches.
use vstd::prelude::*;
use crate::timestamp::{
    clock_instant, format_rfc3339, now, parse_rfc3339, rfc3339_reading, rfc3339_text,
    system_clock, timestamp_from_clock, Timestamp,
};

verus! {

/// One switch of the active application.
#[derive(Clone, Debug)]
pub struct FocusEvent {
    /// The row id the database gave the event (0 before it is stored).
    pub id: i64,
    /// When the switch happened.
    pub ts: Timestamp,
    /// The localized name of the application that became active.
    pub app_name: String,
    /// Its bundle identifier.
    pub bundle_id: String,
    /// The title of its focused window, empty where none could be read.
    pub window_title: String,
    /// The name of the application that was active before.
    pub previous_app: String,
}

impl FocusEvent {
    /// The event's instant is one that `chrono` represents.
    pub open spec fn wf(&self) -> bool {
        self.ts.valid()
    }
}

/// The columns of a row of the `focus_events` table other than its id, as
/// the database holds them: the instant as RFC 3339 text.
#[derive(Debug)]
pub struct StoredRow {
    pub ts: String,
    pub app_name: String,
    pub bundle_id: String,
    pub window_title: String,
    pub previous_app: String,
}

impl FocusEvent {
    /// The row that stores this event.
    ///
    /// Reading the row back gives the same instant, for every instant in
    /// years 0000 to 9999, whatever instant stands in for unreadable text.
    pub fn to_row(&self) -> (res: StoredRow)
        requires
            self.wf(),
        ensures
            res.ts@ == rfc3339_text(self.ts.secs, self.ts.nanos),
            res.app_name@ == self.app_name@,
            res.bundle_id@ == self.bundle_id@,
            res.window_title@ == self.window_title@,
            res.previous_app@ == self.previous_app@,
            self.ts.in_rfc3339_years() ==> forall|fallback: Timestamp|
                #[trigger] stored_instant(res.ts@, fallback) == self.ts,
    {
        let ts = format_rfc3339(self.ts);
        StoredRow {
            ts,
            app_name: self.app_name.clone(),
            bundle_id: self.bundle_id.clone(),
            window_title: self.window_title.clone(),
            previous_app: self.previous_app.clone(),
        }
    }

    /// The event that a row with id `id` stores, where the instant of a row
    /// whose text cannot be read is `fallback`.
    pub fn from_row_or(id: i64, row: StoredRow, fallback: Timestamp) -> (res: FocusEvent)
        requires
            fallback.valid(),
        ensures
            res.wf(),
            res.id == id,
            res.ts == stored_instant(row.ts@, fallback),
            res.app_name@ == row.app_name@,
            res.bundle_id@ == row.bundle_id@,
            res.window_title@ == row.window_title@,
            res.previous_app@ == row.previous_app@,
    {
        let ts = match parse_rfc3339(row.ts.as_str()) {
            Some(t) => t,
            None => fallback,
        };
        FocusEvent {
            id,
            ts,
            app_name: row.app_name,
            bundle_id: row.bundle_id,
            window_title: row.window_title,
            previous_app: row.previous_app,
        }
    }

    /// The event that a row with id `id` stores; the instant of a row whose
    /// text cannot be read is the current one, and there is no event where
    /// the clock cannot be read either.
    pub fn from_row(id: i64, row: StoredRow) -> (res: Option<FocusEvent>)
        ensures
            rfc3339_reading(row.ts@) is Some ==> res is Some,
            res matches Some(e) ==> {
                &&& e.wf()
                &&& e.id == id
                &&& e.app_name@ == row.app_name@
                &&& e.bundle_id@ == row.bundle_id@
                &&& e.window_title@ == row.window_title@
                &&& e.previous_app@ == row.previous_app@
                &&& match rfc3339_reading(row.ts@) {
                    Some((secs, nanos)) => e.ts == Timestamp { secs, nanos },
                    None => e.ts.nanos < 1_000_000_000,
                }
            },
    {
        match parse_rfc3339(row.ts.as_str()) {
            Some(t) => Some(FocusEvent::from_row_or(id, row, t)),
            None => match now() {
                Some(fallback) => Some(FocusEvent::from_row_or(id, row, fallback)),
                None => None,
            },
        }
    }
}

/// The instant that a stored RFC 3339 text names, or `fallback` where the
/// text cannot be read.
pub open spec fn stored_instant(s: Seq<char>, fallback: Timestamp) -> Timestamp {
    match rfc3339_reading(s) {
        Some((secs, nanos)) => Timestamp { secs, nanos },
        None => fallback,
    }
}

/// Remembers which application was active last, so that each new switch
/// can name the one it came from.
#[derive(Debug)]
pub struct FocusTracker {
    pub last_app: String,
}

impl FocusTracker {
    /// A tracker that has seen no switch yet.
    pub fn new() -> (res: FocusTracker)
        ensures
            res.last_app@ == Seq::<char>::empty(),
    {
        FocusTracker { last_app: String::new() }
    }

    /// Records a switch to `app_name` at `ts`: the event names the
    /// application that was active before, and the tracker now remembers
    /// `app_name`.
    pub fn switch_at(
        &mut self,
        app_name: String,
        bundle_id: String,
        window_title: String,
        ts: Timestamp,
    ) -> (res: FocusEvent)
        ensures
            res.id == 0,
            res.ts == ts,
            res.app_name@ == app_name@,
            res.bundle_id@ == bundle_id@,
            res.window_title@ == window_title@,
            res.previous_app@ == old(self).last_app@,
            final(self).last_app@ == app_name@,
    {
        let mut previous = app_name.clone();
        std::mem::swap(&mut previous, &mut self.last_app);
        FocusEvent { id: 0, ts, app_name, bundle_id, window_title, previous_app: previous }
    }

    /// Records a switch to `app_name` at the instant the clock reading
    /// `reading` gives, as `switch_at` does; where the reading gives no
    /// instant there is no event and the tracker is unchanged.
    pub fn switch_at_reading(
        &mut self,
        app_name: String,
        bundle_id: String,
        window_title: String,
        reading: Option<(u64, u32)>,
    ) -> (res: Option<FocusEvent>)
        ensures
            match clock_instant(reading) {
                Some(ts) => res matches Some(e) && {
                    &&& e.id == 0
                    &&& e.ts == ts
                    &&& e.app_name@ == app_name@
                    &&& e.bundle_id@ == bundle_id@
                    &&& e.window_title@ == window_title@
                    &&& e.previous_app@ == old(self).last_app@
                    &&& final(self).last_app@ == app_name@
                },
                None => res is None && final(self).last_app@ == old(self).last_app@,
            },
    {
        match timestamp_from_clock(reading) {
            Some(ts) => Some(self.switch_at(app_name, bundle_id, window_title, ts)),
            None => None,
        }
    }

    /// Records a switch to `app_name` now: as `switch_at_reading` does with
    /// the system clock's reading. Which reading the clock gives is not
    /// stated.
    pub fn switch(&mut self, app_name: String, bundle_id: String, window_title: String) -> (res:
        Option<FocusEvent>)
        ensures
            exists|reading: Option<(u64, u32)>|
                (reading matches Some((_, nanos)) ==> nanos < 1_000_000_000) && match clock_instant(
                    reading,
                ) {
                    Some(ts) => res matches Some(e) && e.ts == ts,
                    None => res is None,
                },
            res is None ==> final(self).last_app@ == old(self).last_app@,
            res matches Some(e) ==> {
                &&& e.wf()
                &&& e.id == 0
                &&& e.app_name@ == app_name@
                &&& e.bundle_id@ == bundle_id@
                &&& e.window_title@ == window_title@
                &&& e.previous_app@ == old(self).last_app@
                &&& final(self).last_app@ == app_name@
            },
    {
        let reading = system_clock();
        let res = self.switch_at_reading(app_name, bundle_id, window_title, reading);
        assert((reading matches Some((_, nanos)) ==> nanos < 1_000_000_000) && match clock_instant(
            reading,
        ) {
            Some(ts) => res matches Some(e) && e.ts == ts,
            None => res is None,
        });
        res
    }
}

/// The previous applications that a tracker remembering `last` reports for
/// switches to `apps`, one after another: each switch reports what the
/// tracker remembers and leaves it remembering the new application, as
/// `FocusTracker::switch_at` states.
pub open spec fn reported_previous(last: Seq<char>, apps: Seq<Seq<char>>) -> Seq<Seq<char>>
    decreases apps.len(),
{
    if apps.len() == 0 {
        Seq::empty()
    } else {
        seq![last] + reported_previous(apps[0], apps.drop_first())
    }
}

/// Over a run of switches, each event names as its previous application
/// the application of the switch before it; the first names what the
/// tracker remembered at the start (nothing, for a new tracker).
pub proof fn lemma_previous_is_last_switch(last: Seq<char>, apps: Seq<Seq<char>>, k: int)
    requires
        0 <= k < apps.len(),
    ensures
        reported_previous(last, apps).len() == apps.len(),
        reported_previous(last, apps)[k] == if k == 0 {
            last
        } else {
            apps[k - 1]
        },
    decreases apps.len(),
{
    if k == 0 {
        if apps.len() > 1 {
            lemma_previous_is_last_switch(apps[0], apps.drop_first(), 0);
        } else {
            assert(apps.drop_first().len() == 0);
            assert(reported_previous(apps[0], apps.drop_first()).len() == 0);
        }
    } else {
        lemma_previous_is_last_switch(apps[0], apps.drop_first(), k - 1);
        if k - 1 > 0 {
            assert(apps.drop_first()[k - 2] == apps[k - 1]);
        }
    }
}

} // verus!
