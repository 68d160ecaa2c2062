//! Texts shown for chart slots and sessions.
use vstd::prelude::*;
use vstd::string::*;

use crate::clock::{
    fields_in_range, local_fields, local_reading_of, utc_datetime_text, utc_text, ClockFields,
};
use crate::buckets::{hour_key, minute_key};
use crate::text::{digit_char, digits, format_two_digits, two_digits};

verus! {

/// The label of an hourly slot: `HH:00`.
pub open spec fn hour_label_text(h: nat) -> Seq<char> {
    two_digits(h) + seq![':', '0', '0']
}

/// The label of a ten-minute slot keyed by the minute of the day: `HH:MM`.
pub open spec fn minute_label_text(m: nat) -> Seq<char> {
    two_digits(m / 60) + seq![':'] + two_digits(m % 60)
}

/// `HH:MM` of a clock reading.
pub open spec fn time_text(f: ClockFields) -> Seq<char> {
    two_digits(f.hour as nat) + seq![':'] + two_digits(f.minute as nat)
}

/// `MM-DD` of a clock reading.
pub open spec fn date_text(f: ClockFields) -> Seq<char> {
    two_digits(f.month as nat) + seq!['-'] + two_digits(f.day as nat)
}

/// The label of the hourly slot with key `h`, as `%H:00` renders it.
pub fn hour_label(h: u32) -> (s: String)
    requires
        h < 24,
    ensures
        s@ == hour_label_text(h as nat),
{
    let mut s = format_two_digits(h);
    proof {
        reveal_strlit(":00");
    }
    s.append(":00");
    s
}

/// The label of the ten-minute slot keyed by minute of the day `m`, as `%H:%M` renders it.
pub fn minute_label(m: u32) -> (s: String)
    requires
        m < 1440,
    ensures
        s@ == minute_label_text(m as nat),
{
    let mut s = format_two_digits(m / 60);
    proof {
        reveal_strlit(":");
    }
    s.append(":");
    let tail = format_two_digits(m % 60);
    s.append(tail.as_str());
    s
}

/// The local start time and date of a session, as `%H:%M` and `%m-%d`.
pub struct SessionClockLabels {
    pub time: String,
    pub date: String,
}

/// Renders a clock reading as the local time (`HH:MM`) and date (`MM-DD`) of a session.
pub fn clock_labels(f: ClockFields) -> (l: SessionClockLabels)
    requires
        fields_in_range(f),
    ensures
        l.time@ == time_text(f),
        l.date@ == date_text(f),
{
    proof {
        reveal_strlit(":");
        reveal_strlit("-");
    }
    let mut time = format_two_digits(f.hour);
    time.append(":");
    let minute = format_two_digits(f.minute);
    time.append(minute.as_str());
    let mut date = format_two_digits(f.month);
    date.append("-");
    let day = format_two_digits(f.day);
    date.append(day.as_str());
    assert(time@ =~= time_text(f));
    assert(date@ =~= date_text(f));
    SessionClockLabels { time, date }
}

/// `f` is how a session that started at `ts` is read on the local clock: the
/// reading of `ts`, or the reading of the epoch when chrono has no date for `ts`.
pub open spec fn session_reading(ts: i64, f: ClockFields) -> bool {
    ||| local_reading_of(ts, Some(f))
    ||| local_reading_of(ts, None) && local_reading_of(0, Some(f))
}

/// Renders the local time (`HH:MM`) and date (`MM-DD`) at which a session
/// started, from one reading of the local clock: that of `started_at`, or that
/// of the epoch when chrono has no date for `started_at`.
pub fn session_clock_labels(started_at: i64) -> (l: SessionClockLabels)
    ensures
        exists|f: ClockFields|
            #![trigger time_text(f)]
            fields_in_range(f) && session_reading(started_at, f) && l.time@ == time_text(f)
                && l.date@ == date_text(f),
{
    let reading = match local_fields(started_at) {
        Some(f) => f,
        None => match local_fields(0) {
            Some(f) => f,
            None => ClockFields { month: 1, day: 1, hour: 0, minute: 0 },
        },
    };
    clock_labels(reading)
}

/// The UTC text of a start time; a start without a calendar date is shown as the epoch.
pub open spec fn started_text(ts: i64) -> Seq<char> {
    match utc_datetime_text(ts) {
        Some(s) => s,
        None => utc_datetime_text(0)->0,
    }
}

/// Renders when a running session started, in UTC as `%Y-%m-%d %H:%M:%S`.
pub fn started_at_text(started_at: i64) -> (s: String)
    ensures
        s@ == started_text(started_at),
{
    match utc_text(started_at) {
        Some(s) => s,
        None => match utc_text(0) {
            Some(s) => s,
            None => String::new(),
        },
    }
}

/// The model shown for a session: its model, or `unknown` when it has none.
pub fn display_model(model: Option<String>) -> (s: String)
    ensures
        s@ == (match model {
            Some(m) => m@,
            None => "unknown"@,
        }),
{
    match model {
        Some(m) => m,
        None => String::from_str("unknown"),
    }
}

/// The title shown for a running session: its title, or `Untitled` when it has none.
pub fn display_title(title: Option<String>) -> (s: String)
    ensures
        s@ == (match title {
            Some(t) => t@,
            None => "Untitled"@,
        }),
{
    match title {
        Some(t) => t,
        None => String::from_str("Untitled"),
    }
}

proof fn lemma_two_digits_shape(n: nat)
    requires
        n < 100,
    ensures
        two_digits(n) == seq![digit_char(n / 10), digit_char(n % 10)],
{
    if n < 10 {
        assert(two_digits(n) =~= seq![digit_char(n / 10), digit_char(n % 10)]);
    } else {
        assert(digits((n / 10) as nat) == seq![digit_char((n / 10) as nat)]);
        assert(two_digits(n) =~= seq![digit_char(n / 10), digit_char(n % 10)]);
    }
}

proof fn lemma_two_digits_injective(a: nat, b: nat)
    requires
        a < 100,
        b < 100,
        two_digits(a) == two_digits(b),
    ensures
        a == b,
{
    lemma_two_digits_shape(a);
    lemma_two_digits_shape(b);
    assert(two_digits(a)[0] == two_digits(b)[0]);
    assert(two_digits(a)[1] == two_digits(b)[1]);
    assert(a / 10 == b / 10);
    assert(a % 10 == b % 10);
}

/// Distinct slots get distinct labels: no two hours of a chart share an `HH:00`
/// label and no two minutes of the day share an `HH:MM` label, so labelling a
/// chart keeps every one of its buckets.
pub proof fn law_labels_distinct(a: u32, b: u32)
    requires
        a != b,
    ensures
        a < 24 && b < 24 ==> hour_label_text(a as nat) != hour_label_text(b as nat),
        a < 1440 && b < 1440 ==> minute_label_text(a as nat) != minute_label_text(b as nat),
{
    if a < 24 && b < 24 && hour_label_text(a as nat) == hour_label_text(b as nat) {
        lemma_two_digits_shape(a as nat);
        lemma_two_digits_shape(b as nat);
        assert(hour_label_text(a as nat).subrange(0, 2) =~= two_digits(a as nat));
        assert(hour_label_text(b as nat).subrange(0, 2) =~= two_digits(b as nat));
        lemma_two_digits_injective(a as nat, b as nat);
    }
    if a < 1440 && b < 1440 && minute_label_text(a as nat) == minute_label_text(b as nat) {
        let ha = (a / 60) as nat;
        let hb = (b / 60) as nat;
        let ma = (a % 60) as nat;
        let mb = (b % 60) as nat;
        lemma_two_digits_shape(ha);
        lemma_two_digits_shape(hb);
        lemma_two_digits_shape(ma);
        lemma_two_digits_shape(mb);
        assert(minute_label_text(a as nat).subrange(0, 2) =~= two_digits(ha));
        assert(minute_label_text(b as nat).subrange(0, 2) =~= two_digits(hb));
        assert(minute_label_text(a as nat).subrange(3, 5) =~= two_digits(ma));
        assert(minute_label_text(b as nat).subrange(3, 5) =~= two_digits(mb));
        lemma_two_digits_injective(ha, hb);
        lemma_two_digits_injective(ma, mb);
        assert(a == ha * 60 + ma);
        assert(b == hb * 60 + mb);
    }
}

/// The label of a chart key is the clock text of the reading it was filed
/// under: a reading at `HH:MM` lands in the ten-minute chart under the label
/// `HH:MM`, and in an hourly chart under `HH:00`.
pub proof fn law_key_labels_match_readings(f: ClockFields)
    requires
        fields_in_range(f),
    ensures
        minute_label_text(minute_key(Some(f)) as nat) == time_text(f),
        hour_label_text(hour_key(Some(f)) as nat) == two_digits(f.hour as nat) + seq![':', '0', '0'],
{
    let k = f.hour * 60 + f.minute;
    assert(k / 60 == f.hour && k % 60 == f.minute) by (nonlinear_arith)
        requires
            k == f.hour * 60 + f.minute,
            f.minute < 60,
    ;
    assert(minute_key(Some(f)) == k);
}

} // verus!
