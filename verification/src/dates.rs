//! Dates as the local clock and the remote board give them.
//!
//! The remote board sends timestamps in RFC 3339, or plain dates. Locally a
//! due date is shown as `YYYY-MM-DD HH:MM` in the machine's time zone, or as a
//! plain `YYYY-MM-DD`.

use vstd::prelude::*;
use crate::clock::day_shown;
use crate::clock::day_text;
use crate::clock::local_parts;
use crate::clock::local_time;
use crate::clock::local_today;
use crate::clock::minute_shown;
use crate::clock::minute_text;
use crate::clock::read_rfc3339;
use crate::clock::rfc3339_instant;
use crate::clock::today_shown;
use crate::clock::Clock;
use crate::clock::FIRST_INSTANT;
use crate::clock::LAST_INSTANT;
use crate::text::chars_of;
use crate::text::string_of;

verus! {

/// Whether a text has the shape of a date: at least ten characters, the fifth
/// a hyphen.
pub open spec fn looks_like_date(s: Seq<char>) -> bool {
    s.len() >= 10 && s[4] == '-'
}

/// The first ten characters of a text that has the shape of a date.
pub open spec fn plain_date_of(s: Seq<char>) -> Option<Seq<char>> {
    if looks_like_date(s) {
        Some(s.take(10))
    } else {
        None
    }
}

/// The first ten characters of a text that has the shape of a date.
pub fn plain_date(s: &str) -> (r: Option<String>)
    ensures
        r.deep_view() == plain_date_of(s@),
{
    let chars = chars_of(s);
    if chars.len() >= 10 && chars[4] == '-' {
        let date = string_of(&chars, 0, 10);
        assert(s@.take(10) =~= s@.subrange(0, 10));
        Some(date)
    } else {
        None
    }
}

/// The due date shown for what the remote board sent: the local rendering of a
/// full timestamp where there is one, else the plain date, else nothing.
pub open spec fn due_shown(raw: Seq<char>, local: Option<Seq<char>>) -> Option<Seq<char>> {
    match local {
        Some(l) => Some(l),
        None => plain_date_of(raw),
    }
}

/// The due date shown for `raw`, given the local rendering of its timestamp.
pub fn due_display(raw: &str, local: Option<String>) -> (r: Option<String>)
    ensures
        r.deep_view() == due_shown(raw@, local.deep_view()),
{
    match local {
        Some(l) => Some(l),
        None => plain_date(raw),
    }
}

/// The creation date shown for what the remote board sent: the local day of a
/// full timestamp where there is one, else the plain date, else today.
pub open spec fn created_shown(raw: Seq<char>, local: Option<Seq<char>>, today: Seq<char>) -> Seq<
    char,
> {
    match local {
        Some(l) => l,
        None => match plain_date_of(raw) {
            Some(d) => d,
            None => today,
        },
    }
}

/// The creation date shown for `raw`, given the local day of its timestamp and
/// today's date.
pub fn created_display(raw: &str, local: Option<String>, today: String) -> (r: String)
    ensures
        r@ == created_shown(raw@, local.deep_view(), today@),
{
    match local {
        Some(l) => l,
        None => match plain_date(raw) {
            Some(d) => d,
            None => today,
        },
    }
}

/// The instant of a full timestamp: what the text gives where it is written
/// in RFC 3339 and lies in the years 0 to 9999.
pub open spec fn instant_of(raw: Seq<char>) -> Option<i64> {
    match rfc3339_instant(raw) {
        Some(t) => if FIRST_INSTANT <= t <= LAST_INSTANT {
            Some(t)
        } else {
            None
        },
        None => None,
    }
}

/// The due date shown for `raw` whatever the time zone: a full timestamp as
/// some local minute is written, anything else by its text alone.
pub open spec fn due_agrees(raw: Seq<char>, shown: Option<Seq<char>>) -> bool {
    match instant_of(raw) {
        Some(_) => exists|t: (i32, u32, u32)| #[trigger]
            local_time(t) && shown == minute_shown(t.0 as int, t.1 as int, t.2 as int),
        None => shown == plain_date_of(raw),
    }
}

/// The creation date shown for `raw` whatever the clock and the time zone: a
/// full timestamp as some local day is written, a plain date by its text, and
/// anything else as the day of some clock.
pub open spec fn created_agrees(raw: Seq<char>, shown: Seq<char>) -> bool {
    match instant_of(raw) {
        Some(_) => exists|t: (i32, u32, u32)| #[trigger]
            local_time(t) && Some(shown) == day_shown(t.0 as int),
        None => match plain_date_of(raw) {
            Some(date) => shown == date,
            None => exists|clock: Clock| shown == #[trigger] today_shown(clock),
        },
    }
}

/// The local day, hour and minute of the timestamp in `raw`, where it holds
/// one. Which they are depends on the time zone.
pub fn local_of(raw: &str) -> (parts: Option<(i32, u32, u32)>)
    ensures
        match instant_of(raw@) {
            Some(_) => parts matches Some(t) && local_time(t),
            None => parts is None,
        },
{
    match read_rfc3339(raw) {
        Some(t) => if FIRST_INSTANT <= t && t <= LAST_INSTANT {
            local_parts(t)
        } else {
            None
        },
        None => None,
    }
}

/// The due date shown for what the remote board sent.
pub fn format_planka_due(s: &str) -> (r: Option<String>)
    ensures
        due_agrees(s@, r.deep_view()),
{
    let parts = local_of(s);
    let local = match parts {
        Some(t) => minute_text(t.0, t.1, t.2),
        None => None,
    };
    let r = due_display(s, local);
    proof {
        if let Some(t) = parts {
            assert(local_time(t));
        }
    }
    r
}

/// The creation date shown for what the remote board sent.
pub fn format_planka_created(s: &str) -> (r: String)
    ensures
        created_agrees(s@, r@),
{
    let parts = local_of(s);
    let local = match parts {
        Some(t) => day_text(t.0),
        None => None,
    };
    let today = local_today();
    let r = created_display(s, local, today);
    proof {
        if let Some(t) = parts {
            assert(local_time(t));
        }
    }
    r
}

} // verus!
