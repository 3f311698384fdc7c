//! The menu-bar menu: what its items do, and the recent-activity lines it
//! shows.
use vstd::prelude::*;
use vstd::string::{StrSliceExecFns, StringExecFns};
use crate::event::FocusEvent;
use crate::timestamp::{local_time_text, offset_time_text};

verus! {

/// How many recent events the menu lists.
pub const RECENT_SLOTS: usize = 8;

/// How many characters of a window title a recent-activity line keeps.
pub const TITLE_CHARS: usize = 48;

/// What a click on a menu item asks for.
#[derive(Clone, Copy, Debug, PartialEq, Eq, Structural)]
pub enum MenuAction {
    /// Show the window.
    Open,
    /// Quit the application.
    Quit,
    /// Delete every logged event.
    Clear,
    /// Pause logging (`true`) or resume it (`false`).
    Pause(bool),
}

/// The ids of the menu items that act.
#[derive(Debug)]
pub struct MenuIds {
    pub open: String,
    pub quit: String,
    pub clear: String,
    pub pause: String,
}

/// What a click on the item with id `id` asks for; `pause_checked` is the
/// state of the pause item's check mark after the click.
pub open spec fn menu_action_of(
    ids: MenuIds,
    id: Seq<char>,
    pause_checked: bool,
) -> Option<MenuAction> {
    if id == ids.open@ {
        Some(MenuAction::Open)
    } else if id == ids.quit@ {
        Some(MenuAction::Quit)
    } else if id == ids.clear@ {
        Some(MenuAction::Clear)
    } else if id == ids.pause@ {
        Some(MenuAction::Pause(pause_checked))
    } else {
        None
    }
}

/// What a click on the item with id `id` asks for, or `None` for an item
/// that does not act.
pub fn menu_action_for(ids: &MenuIds, id: &String, pause_checked: bool) -> (res: Option<
    MenuAction,
>)
    ensures
        res == menu_action_of(*ids, id@, pause_checked),
{
    if *id == ids.open {
        Some(MenuAction::Open)
    } else if *id == ids.quit {
        Some(MenuAction::Quit)
    } else if *id == ids.clear {
        Some(MenuAction::Clear)
    } else if *id == ids.pause {
        Some(MenuAction::Pause(pause_checked))
    } else {
        None
    }
}

/// The first `n` characters of `s` (all of them where it has fewer).
pub open spec fn first_chars(s: Seq<char>, n: nat) -> Seq<char> {
    if s.len() <= n {
        s
    } else {
        s.take(n as int)
    }
}

/// The recent-activity line of an event at the time of day `clock`: the
/// time, two spaces, the app's name (`(unknown)` where it is empty), and,
/// where there is a window title, ` — ` and its first 48 characters.
pub open spec fn recent_line_text(clock: Seq<char>, app: Seq<char>, title: Seq<char>) -> Seq<
    char,
> {
    let name = if app.len() == 0 {
        "(unknown)"@
    } else {
        app
    };
    let head = clock + "  "@ + name;
    if title.len() == 0 {
        head
    } else {
        head + " — "@ + first_chars(title, TITLE_CHARS as nat)
    }
}

/// The text of a menu slot that lists no event.
pub open spec fn empty_slot_text() -> Seq<char> {
    "—"@
}

/// The recent-activity line of an event at the time of day `clock`.
pub fn recent_line(clock: &str, app: &str, title: &str) -> (res: String)
    ensures
        res@ == recent_line_text(clock@, app@, title@),
{
    let mut line = String::from_str(clock);
    line.append("  ");
    if app.unicode_len() == 0 {
        line.append("(unknown)");
    } else {
        line.append(app);
    }
    let n = title.unicode_len();
    if n > 0 {
        line.append(" — ");
        let keep = if n <= TITLE_CHARS {
            n
        } else {
            TITLE_CHARS
        };
        let part = title.substring_char(0, keep);
        proof {
            if n <= TITLE_CHARS {
                assert(title@.subrange(0, n as int) =~= title@);
            }
        }
        line.append(part);
    }
    line
}

/// The time of day (`%H:%M:%S`) of an event's instant at `offset` seconds
/// east of UTC.
pub open spec fn clock_text(e: FocusEvent, offset: i32) -> Seq<char> {
    offset_time_text(e.ts.secs, e.ts.nanos, offset, "%H:%M:%S"@)
}

/// The line `line` is what slot `i` shows for `events` (newest first): event
/// `i` at its time of day in a time zone less than a day off UTC, or `—`
/// where there is no event `i`.
pub open spec fn slot_shows(line: Seq<char>, events: Seq<FocusEvent>, i: int) -> bool {
    if i < events.len() {
        exists|offset: i32|
            -86400 < offset < 86400 && line == recent_line_text(
                #[trigger] clock_text(events[i], offset),
                events[i].app_name@,
                events[i].window_title@,
            )
    } else {
        line == empty_slot_text()
    }
}

/// The texts of the menu's recent-activity slots for the events, newest
/// first: slot `i` lists event `i` at its time of day in the machine's time
/// zone, and a slot with no event shows `—`. Which offset from UTC the
/// machine's time zone gives is not stated.
pub fn recent_texts(events: &Vec<FocusEvent>) -> (res: Vec<String>)
    requires
        forall|i: int| 0 <= i < events.len() ==> (#[trigger] events@[i]).wf(),
    ensures
        res.len() == RECENT_SLOTS,
        forall|i: int| 0 <= i < RECENT_SLOTS ==> slot_shows((#[trigger] res@[i])@, events@, i),
{
    let mut out: Vec<String> = Vec::new();
    for i in 0..RECENT_SLOTS
        invariant
            forall|k: int| 0 <= k < events.len() ==> (#[trigger] events@[k]).wf(),
            out.len() == i,
            forall|k: int| 0 <= k < i ==> slot_shows((#[trigger] out@[k])@, events@, k),
    {
        let ghost before = out@;
        if i < events.len() {
            let e = &events[i];
            let (clock, offset) = local_time_text(e.ts, "%H:%M:%S");
            let line = recent_line(clock.as_str(), e.app_name.as_str(), e.window_title.as_str());
            assert(clock@ == clock_text(events@[i as int], offset));
            assert(slot_shows(line@, events@, i as int));
            out.push(line);
        } else {
            let line = String::from_str("—");
            out.push(line);
        }
        assert forall|k: int| 0 <= k < i + 1 implies slot_shows((#[trigger] out@[k])@, events@, k) by {
            if k < i {
                assert(out@[k] == before[k]);
            }
        }
    }
    out
}

/// The first `n` characters of a text are its beginning: as many as it has,
/// up to `n`, each the character at the same place in the text.
pub proof fn lemma_first_chars_is_prefix(s: Seq<char>, n: nat)
    ensures
        first_chars(s, n).len() == if s.len() <= n {
            s.len()
        } else {
            n
        },
        forall|i: int| 0 <= i < first_chars(s, n).len() ==> #[trigger] first_chars(s, n)[i] == s[i],
{
}

/// A recent-activity line with a window title is the time, two spaces, the
/// app's name (or `(unknown)`), ` — ` and the title's first 48 characters.
pub proof fn lemma_recent_line_keeps_title_start(clock: Seq<char>, app: Seq<char>, title: Seq<char>)
    requires
        title.len() > 0,
    ensures
        recent_line_text(clock, app, title) == clock + "  "@ + (if app.len() == 0 {
            "(unknown)"@
        } else {
            app
        }) + " — "@ + title.take(if title.len() <= 48 {
            title.len() as int
        } else {
            48
        }),
{
    assert(title.len() <= 48 ==> title.take(title.len() as int) =~= title);
}

} // verus!
