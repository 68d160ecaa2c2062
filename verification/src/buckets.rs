//! Time-slot charts: hourly and ten-minute buckets of API calls and tokens.
//!
//! A chart is a map from slot keys to buckets. The slots are laid out first,
//! each with an empty bucket; then every usage row adds its calls and tokens to
//! the bucket of its own key, when there is one. Keys are readings of the local
//! clock: the hour (0..24) for hourly charts and the minute of the day
//! (0..1440) for ten-minute charts.
use std::collections::BTreeMap;
use vstd::prelude::*;

use crate::clock::{fields_in_range, local_fields, local_reading_of, ClockFields};
use crate::types::{Bucket, UsageRow};

verus! {

broadcast use vstd::laws_cmp::group_laws_cmp;

/// Seconds in a ten-minute slot.
pub const TEN_MINUTES: i64 = 600;

/// Seconds in an hourly slot.
pub const ONE_HOUR: i64 = 3600;

/// `(t / step) * step` in Rust's integer arithmetic: `t` rounded toward zero
/// to a multiple of `step`.
pub open spec fn align_down(t: int, step: int) -> int {
    if t >= 0 {
        (t / step) * step
    } else {
        -(((-t) / step) * step)
    }
}

/// The slot starts `first, first + step, ...` up to and including `last`.
pub open spec fn slot_starts(first: int, last: int, step: int) -> Seq<int> {
    if first <= last {
        Seq::new((((last - first) / step) + 1) as nat, |i: int| first + i * step)
    } else {
        Seq::empty()
    }
}

/// The sum of the calls of the first `n` rows whose key is `k`.
pub open spec fn calls_upto(rows: Seq<UsageRow>, keys: Seq<u32>, k: u32, n: int) -> int
    decreases n,
{
    if n <= 0 {
        0
    } else {
        calls_upto(rows, keys, k, n - 1) + (if keys[n - 1] == k {
            rows[n - 1].api_calls as int
        } else {
            0
        })
    }
}

/// The sum of the tokens of the first `n` rows whose key is `k`.
pub open spec fn tokens_upto(rows: Seq<UsageRow>, keys: Seq<u32>, k: u32, n: int) -> int
    decreases n,
{
    if n <= 0 {
        0
    } else {
        tokens_upto(rows, keys, k, n - 1) + (if keys[n - 1] == k {
            rows[n - 1].tokens as int
        } else {
            0
        })
    }
}

/// `m` is the chart of `rows` over `slots`: one bucket per slot key, holding
/// the totals of exactly the rows whose key (`keys[i]` for `rows[i]`) is that slot key.
pub open spec fn is_chart(
    m: Map<u32, Bucket>,
    slots: Seq<u32>,
    rows: Seq<UsageRow>,
    keys: Seq<u32>,
) -> bool {
    &&& m.dom() == slots.to_set()
    &&& forall|k: u32|
        #![trigger m[k]]
        m.dom().contains(k) ==> {
            &&& m[k].api_calls == calls_upto(rows, keys, k, rows.len() as int)
            &&& m[k].tokens == tokens_upto(rows, keys, k, rows.len() as int)
        }
}

/// No running total of any slot overflows an `i64` while the rows are added in order.
pub open spec fn sums_fit(slots: Seq<u32>, rows: Seq<UsageRow>, keys: Seq<u32>) -> bool {
    forall|k: u32, n: int|
        #![trigger calls_upto(rows, keys, k, n)]
        #![trigger tokens_upto(rows, keys, k, n)]
        slots.contains(k) && 0 <= n <= rows.len() ==> {
            &&& i64::MIN <= calls_upto(rows, keys, k, n) <= i64::MAX
            &&& i64::MIN <= tokens_upto(rows, keys, k, n) <= i64::MAX
        }
}

/// The minute of the day of a clock reading; midnight when there is none.
pub open spec fn minute_key(r: Option<ClockFields>) -> u32 {
    match r {
        Some(f) => (f.hour * 60 + f.minute) as u32,
        None => 0,
    }
}

/// The hour of a clock reading; midnight when there is none.
pub open spec fn hour_key(r: Option<ClockFields>) -> u32 {
    match r {
        Some(f) => f.hour,
        None => 0,
    }
}

/// The keys of the hourly chart of a day: the hours `0..24`.
pub open spec fn day_hours() -> Seq<u32> {
    Seq::new(24, |i: int| i as u32)
}

/// Rounds `t` toward zero to a multiple of `step`, as `(t / step) * step` does.
pub fn align(t: i64, step: i64) -> (r: i64)
    requires
        step > 0,
    ensures
        r == align_down(t as int, step as int),
{
    let q = t / step;
    proof {
        if t >= 0 {
            assert(q == (t as int) / (step as int));
            assert(0 <= q * step <= t) by (nonlinear_arith)
                requires
                    t >= 0,
                    step > 0,
                    q == (t as int) / (step as int),
            ;
        } else {
            let x = (-(t as int)) / (step as int);
            assert(q == -x);
            assert(0 <= x * step <= -t) by (nonlinear_arith)
                requires
                    t < 0,
                    step > 0,
                    x == (-(t as int)) / (step as int),
            ;
            assert(q * step == -(x * step)) by (nonlinear_arith)
                requires
                    q == -x,
            ;
        }
    }
    q * step
}

/// The start of every slot of width `step` from the one holding `from` to the
/// one holding `to`, oldest first.
pub fn slot_starts_between(from: i64, to: i64, step: i64) -> (v: Vec<i64>)
    requires
        step > 0,
        align_down(from as int, step as int) > align_down(to as int, step as int) || align_down(
            to as int,
            step as int,
        ) + step <= i64::MAX,
    ensures
        v@.map_values(|t: i64| t as int) == slot_starts(
            align_down(from as int, step as int),
            align_down(to as int, step as int),
            step as int,
        ),
{
    let first = align(from, step);
    let last = align(to, step);
    let ghost expected = slot_starts(first as int, last as int, step as int);
    let mut v: Vec<i64> = Vec::new();
    let mut t = first;
    let ghost mut count: int = 0;
    if first <= last {
        proof {
            assert((last - first) / (step as int) >= 0) by (nonlinear_arith)
                requires
                    last - first >= 0,
                    step > 0,
            ;
        }
    }
    while t <= last
        invariant
            step > 0,
            first <= last ==> last + step <= i64::MAX,
            first <= last ==> expected.len() == ((last - first) / (step as int)) + 1,
            first > last ==> expected.len() == 0,
            expected == slot_starts(first as int, last as int, step as int),
            count >= 0,
            t == first + count * step,
            v@.len() == count,
            forall|i: int| 0 <= i < count ==> v@[i] == first + i * step,
            first <= last ==> t <= last + step,
            first <= last ==> count <= expected.len(),
            t > last ==> count == expected.len(),
        decreases last + step - t,
    {
        v.push(t);
        proof {
            assert(count < expected.len()) by (nonlinear_arith)
                requires
                    t == first + count * step,
                    t <= last,
                    step > 0,
                    first <= last,
                    expected.len() == ((last - first) / (step as int)) + 1,
            ;
            assert(t + step > last ==> count + 1 == expected.len()) by (nonlinear_arith)
                requires
                    t == first + count * step,
                    t <= last,
                    step > 0,
                    first <= last,
                    expected.len() == ((last - first) / (step as int)) + 1,
            ;
        }
        t = t + step;
        proof {
            count = count + 1;
            assert(t == first + count * step) by (nonlinear_arith)
                requires
                    t == first + (count - 1) * step + step,
            ;
        }
    }
    assert(v@.map_values(|t: i64| t as int) =~= expected);
    v
}

/// Builds the chart of `rows` over `slots`, where `keys[i]` is the slot key of `rows[i]`:
/// every slot key gets a bucket, and each row adds its calls and tokens to the
/// bucket of its key when that key is a slot key. Rows of other keys are left out.
/// `None` exactly when a running total of some slot overflows an `i64` on the way.
pub fn fill_buckets(slots: &Vec<u32>, rows: &Vec<UsageRow>, keys: &Vec<u32>) -> (r: Option<
    BTreeMap<u32, Bucket>,
>)
    requires
        keys.len() == rows.len(),
    ensures
        r is Some <==> sums_fit(slots@, rows@, keys@),
        r matches Some(m) ==> is_chart(m@, slots@, rows@, keys@),
{
    let mut m: BTreeMap<u32, Bucket> = BTreeMap::new();
    let mut i: usize = 0;
    while i < slots.len()
        invariant
            i <= slots.len(),
            m@.dom() == slots@.take(i as int).to_set(),
            forall|k: u32| #[trigger] m@.dom().contains(k) ==> m@[k] == (Bucket { api_calls: 0, tokens: 0 }),
        decreases slots.len() - i,
    {
        m.insert(slots[i], Bucket { api_calls: 0, tokens: 0 });
        proof {
            assert(slots@.take(i + 1) =~= slots@.take(i as int).push(slots@[i as int]));
            slots@.take(i as int).lemma_push_to_set_commute(slots@[i as int]);
        }
        i = i + 1;
    }
    assert(slots@.take(slots.len() as int) =~= slots@);
    let mut j: usize = 0;
    while j < rows.len()
        invariant
            keys.len() == rows.len(),
            j <= rows.len(),
            m@.dom() == slots@.to_set(),
            forall|k: u32|
                #![trigger m@[k]]
                m@.dom().contains(k) ==> {
                    &&& m@[k].api_calls == calls_upto(rows@, keys@, k, j as int)
                    &&& m@[k].tokens == tokens_upto(rows@, keys@, k, j as int)
                },
            forall|k: u32, n: int|
                #![trigger calls_upto(rows@, keys@, k, n)]
                #![trigger tokens_upto(rows@, keys@, k, n)]
                slots@.contains(k) && 0 <= n <= j ==> {
                    &&& i64::MIN <= calls_upto(rows@, keys@, k, n) <= i64::MAX
                    &&& i64::MIN <= tokens_upto(rows@, keys@, k, n) <= i64::MAX
                },
        decreases rows.len() - j,
    {
        let k = keys[j];
        let row = rows[j];
        let found = match m.get(&k) {
            Some(b) => Some(*b),
            None => None,
        };
        if let Some(b) = found {
            proof {
                assert(slots@.contains(k));
                assert(calls_upto(rows@, keys@, k, j + 1) == b.api_calls + row.api_calls);
                assert(tokens_upto(rows@, keys@, k, j + 1) == b.tokens + row.tokens);
            }
            let calls = b.api_calls.checked_add(row.api_calls);
            let tokens = b.tokens.checked_add(row.tokens);
            match (calls, tokens) {
                (Some(c), Some(t)) => {
                    m.insert(k, Bucket { api_calls: c, tokens: t });
                },
                _ => {
                    proof {
                        assert(!sums_fit(slots@, rows@, keys@)) by {
                            assert(slots@.contains(k) && 0 <= j + 1 <= rows.len());
                            assert(calls_upto(rows@, keys@, k, j + 1) == b.api_calls + row.api_calls);
                            assert(tokens_upto(rows@, keys@, k, j + 1) == b.tokens + row.tokens);
                        }
                    }
                    return None;
                },
            }
        }
        proof {
            assert forall|k2: u32| #![trigger m@[k2]] m@.dom().contains(k2) implies {
                &&& m@[k2].api_calls == calls_upto(rows@, keys@, k2, j + 1)
                &&& m@[k2].tokens == tokens_upto(rows@, keys@, k2, j + 1)
            } by {
                if k2 != k {
                    assert(calls_upto(rows@, keys@, k2, j + 1) == calls_upto(rows@, keys@, k2, j as int));
                    assert(tokens_upto(rows@, keys@, k2, j + 1) == tokens_upto(rows@, keys@, k2, j as int));
                }
            }
            assert forall|k2: u32, n: int|
                #![trigger calls_upto(rows@, keys@, k2, n)]
                #![trigger tokens_upto(rows@, keys@, k2, n)]
                slots@.contains(k2) && 0 <= n <= j + 1 implies {
                &&& i64::MIN <= calls_upto(rows@, keys@, k2, n) <= i64::MAX
                &&& i64::MIN <= tokens_upto(rows@, keys@, k2, n) <= i64::MAX
            } by {
                if n == j + 1 {
                    assert(m@.dom().contains(k2));
                    if k2 != k {
                        assert(calls_upto(rows@, keys@, k2, j + 1) == calls_upto(rows@, keys@, k2, j as int));
                        assert(tokens_upto(rows@, keys@, k2, j + 1) == tokens_upto(rows@, keys@, k2, j as int));
                    }
                }
            }
        }
        j = j + 1;
    }
    Some(m)
}


/// Every reading lies in its calendar ranges.
pub open spec fn readings_in_range(r: Seq<Option<ClockFields>>) -> bool {
    forall|i: int| 0 <= i < r.len() ==> (#[trigger] r[i] matches Some(f) ==> fields_in_range(f))
}

/// The chart keys of clock readings: minutes of the day, or hours.
pub open spec fn clock_keys(r: Seq<Option<ClockFields>>, by_minute: bool) -> Seq<u32> {
    r.map_values(|x: Option<ClockFields>| if by_minute { minute_key(x) } else { hour_key(x) })
}

/// All values of `keys` lie below `bound`.
pub open spec fn keys_below(keys: Seq<u32>, bound: u32) -> bool {
    forall|i: int| 0 <= i < keys.len() ==> #[trigger] keys[i] < bound
}

/// `readings[i]` is a reading of the instant `times[i]` on the local clock, for every `i`.
pub open spec fn reads_each(times: Seq<i64>, readings: Seq<Option<ClockFields>>) -> bool {
    &&& readings.len() == times.len()
    &&& forall|i: int| 0 <= i < times.len() ==> #[trigger] local_reading_of(times[i], readings[i])
}

/// The instants at which the rows are read: their timestamps, rounded toward
/// zero to a multiple of `step` when `step` is given.
pub open spec fn row_instants(rows: Seq<UsageRow>, step: Option<i64>) -> Seq<i64> {
    Seq::new(
        rows.len(),
        |i: int|
            match step {
                Some(s) => align_down(rows[i].timestamp as int, s as int) as i64,
                None => rows[i].timestamp,
            },
    )
}

/// The starts of the slots of width `step` from the one holding `from` to the
/// one holding `to`, as instants.
pub open spec fn slot_instants(from: i64, to: i64, step: i64) -> Seq<i64> {
    slot_starts(align_down(from as int, step as int), align_down(to as int, step as int), step as int).map_values(
        |t: int| t as i64,
    )
}

/// Reads each of `times` on the local clock and keys it by minute of the day
/// or by hour.
fn read_clock_keys(times: &Vec<i64>, by_minute: bool) -> (res: (Vec<u32>, Ghost<Seq<Option<ClockFields>>>))
    ensures
        reads_each(times@, res.1@),
        readings_in_range(res.1@),
        res.0@ == clock_keys(res.1@, by_minute),
        keys_below(res.0@, if by_minute { 1440 } else { 24 }),
{
    let mut keys: Vec<u32> = Vec::new();
    let ghost mut readings: Seq<Option<ClockFields>> = Seq::empty();
    let mut i: usize = 0;
    while i < times.len()
        invariant
            i <= times.len(),
            readings.len() == i,
            forall|j: int| 0 <= j < i ==> #[trigger] local_reading_of(times@[j], readings[j]),
            readings_in_range(readings),
            keys@ == clock_keys(readings, by_minute),
            keys_below(keys@, if by_minute { 1440 } else { 24 }),
        decreases times.len() - i,
    {
        let reading = local_fields(times[i]);
        let key = match reading {
            Some(f) => if by_minute {
                f.hour * 60 + f.minute
            } else {
                f.hour
            },
            None => 0,
        };
        keys.push(key);
        proof {
            readings = readings.push(reading);
            assert(keys@ =~= clock_keys(readings, by_minute));
        }
        i = i + 1;
    }
    (keys, Ghost(readings))
}

/// The timestamps of the rows, each rounded toward zero to a multiple of `step`
/// when `step` is given.
fn row_times(rows: &Vec<UsageRow>, step: Option<i64>) -> (times: Vec<i64>)
    requires
        step matches Some(s) ==> s > 0,
    ensures
        times@ == row_instants(rows@, step),
{
    let mut times: Vec<i64> = Vec::new();
    let mut i: usize = 0;
    while i < rows.len()
        invariant
            step matches Some(s) ==> s > 0,
            i <= rows.len(),
            times@ == row_instants(rows@, step).take(i as int),
        decreases rows.len() - i,
    {
        let t = match step {
            Some(s) => align(rows[i].timestamp, s),
            None => rows[i].timestamp,
        };
        times.push(t);
        i = i + 1;
        assert(times@ =~= row_instants(rows@, step).take(i as int));
    }
    assert(times@ =~= row_instants(rows@, step));
    times
}

/// The slot starts of `slot_starts_between`, as instants.
fn slot_times(from: i64, to: i64, step: i64) -> (v: Vec<i64>)
    requires
        step > 0,
        align_down(from as int, step as int) > align_down(to as int, step as int) || align_down(
            to as int,
            step as int,
        ) + step <= i64::MAX,
    ensures
        v@ == slot_instants(from, to, step),
{
    let v = slot_starts_between(from, to, step);
    proof {
        let s = slot_starts(align_down(from as int, step as int), align_down(to as int, step as int), step as int);
        assert(v@.map_values(|t: i64| t as int) == s);
        let w = s.map_values(|t: int| t as i64);
        assert forall|i: int| 0 <= i < v@.len() implies v@[i] == #[trigger] w[i] by {
            assert(v@.map_values(|t: i64| t as int)[i] == v@[i] as int);
        }
        assert(v@ =~= w);
    }
    v
}

/// The hourly chart of today: one bucket for every hour `0..24` of the local
/// clock, each with the calls and tokens of the rows written in that hour.
/// Each row is keyed by the hour of its own timestamp on the local clock
/// (midnight when the clock has no reading for it). `None` when a running total
/// of an hour overflows an `i64`.
pub fn query_hourly_today(rows: &Vec<UsageRow>) -> (r: Option<BTreeMap<u32, Bucket>>)
    ensures
        r matches Some(m) ==> m@.dom() == day_hours().to_set(),
        exists|readings: Seq<Option<ClockFields>>|
            #![trigger clock_keys(readings, false)]
            {
                &&& reads_each(row_instants(rows@, None), readings)
                &&& readings_in_range(readings)
                &&& (r is Some <==> sums_fit(day_hours(), rows@, clock_keys(readings, false)))
                &&& (r matches Some(m) ==> is_chart(m@, day_hours(), rows@, clock_keys(readings, false)))
            },
{
    let mut hours: Vec<u32> = Vec::new();
    let mut h: u32 = 0;
    while h < 24
        invariant
            h <= 24,
            hours@ == day_hours().take(h as int),
        decreases 24 - h,
    {
        hours.push(h);
        h = h + 1;
        assert(hours@ =~= day_hours().take(h as int));
    }
    assert(hours@ =~= day_hours());
    let times = row_times(rows, None);
    let (keys, Ghost(readings)) = read_clock_keys(&times, false);
    fill_buckets(&hours, rows, &keys)
}

/// The ten-minute chart of today: one bucket for each ten-minute slot from the
/// slot holding `today_start` to the slot holding `now`, keyed by the local
/// minute of the day at which the slot starts. Each row goes to the key of the
/// start of its own ten-minute slot; rows whose key names no slot are left out.
/// Keys are read on the local clock (midnight when it has no reading).
/// `None` when a running total of a slot overflows an `i64`.
pub fn query_10min_buckets_today(today_start: i64, now: i64, rows: &Vec<UsageRow>) -> (r: Option<
    BTreeMap<u32, Bucket>,
>)
    requires
        align_down(today_start as int, 600) > align_down(now as int, 600) || align_down(
            now as int,
            600,
        ) + 600 <= i64::MAX,
    ensures
        exists|slot_readings: Seq<Option<ClockFields>>, row_readings: Seq<Option<ClockFields>>|
            #![trigger clock_keys(slot_readings, true), clock_keys(row_readings, true)]
            {
                &&& reads_each(slot_instants(today_start, now, 600), slot_readings)
                &&& reads_each(row_instants(rows@, Some(600)), row_readings)
                &&& readings_in_range(slot_readings)
                &&& readings_in_range(row_readings)
                &&& (r is Some <==> sums_fit(
                    clock_keys(slot_readings, true),
                    rows@,
                    clock_keys(row_readings, true),
                ))
                &&& (r matches Some(m) ==> is_chart(
                    m@,
                    clock_keys(slot_readings, true),
                    rows@,
                    clock_keys(row_readings, true),
                ))
            },
{
    let starts = slot_times(today_start, now, TEN_MINUTES);
    let (slots, Ghost(slot_readings)) = read_clock_keys(&starts, true);
    let times = row_times(rows, Some(TEN_MINUTES));
    let (keys, Ghost(row_readings)) = read_clock_keys(&times, true);
    fill_buckets(&slots, rows, &keys)
}

/// The hourly chart of the last day: one bucket for each hourly slot from the
/// hour holding `start_ts` to the hour holding `now`, keyed by the local hour at
/// which the slot starts (so the first and the last slot may share a key).
/// Each row goes to the key of the local hour of its own timestamp; rows whose
/// key names no slot are left out. Keys are read on the local clock (midnight
/// when it has no reading). `None` when a running total of a slot overflows an `i64`.
pub fn query_hourly_rolling_24h(start_ts: i64, now: i64, rows: &Vec<UsageRow>) -> (r: Option<
    BTreeMap<u32, Bucket>,
>)
    requires
        align_down(start_ts as int, 3600) > align_down(now as int, 3600) || align_down(
            now as int,
            3600,
        ) + 3600 <= i64::MAX,
    ensures
        exists|slot_readings: Seq<Option<ClockFields>>, row_readings: Seq<Option<ClockFields>>|
            #![trigger clock_keys(slot_readings, false), clock_keys(row_readings, false)]
            {
                &&& reads_each(slot_instants(start_ts, now, 3600), slot_readings)
                &&& reads_each(row_instants(rows@, None), row_readings)
                &&& readings_in_range(slot_readings)
                &&& readings_in_range(row_readings)
                &&& (r is Some <==> sums_fit(
                    clock_keys(slot_readings, false),
                    rows@,
                    clock_keys(row_readings, false),
                ))
                &&& (r matches Some(m) ==> is_chart(
                    m@,
                    clock_keys(slot_readings, false),
                    rows@,
                    clock_keys(row_readings, false),
                ))
            },
{
    let starts = slot_times(start_ts, now, ONE_HOUR);
    let (slots, Ghost(slot_readings)) = read_clock_keys(&starts, false);
    let times = row_times(rows, None);
    let (keys, Ghost(row_readings)) = read_clock_keys(&times, false);
    fill_buckets(&slots, rows, &keys)
}

proof fn lemma_prefix_sums_unchanged(
    rows: Seq<UsageRow>,
    keys: Seq<u32>,
    row: UsageRow,
    key: u32,
    k: u32,
    n: int,
)
    requires
        keys.len() == rows.len(),
        0 <= n <= rows.len(),
    ensures
        calls_upto(rows.push(row), keys.push(key), k, n) == calls_upto(rows, keys, k, n),
        tokens_upto(rows.push(row), keys.push(key), k, n) == tokens_upto(rows, keys, k, n),
    decreases n,
{
    if n > 0 {
        lemma_prefix_sums_unchanged(rows, keys, row, key, k, n - 1);
        assert(rows.push(row)[n - 1] == rows[n - 1]);
        assert(keys.push(key)[n - 1] == keys[n - 1]);
    }
}

/// A row added to the log changes the chart in one place only: the bucket of
/// the row's key gains the row's calls and tokens when that key is a slot, every
/// other bucket stays as it was, and no slot appears or disappears.
pub proof fn law_chart_add_row(
    before: Map<u32, Bucket>,
    after: Map<u32, Bucket>,
    slots: Seq<u32>,
    rows: Seq<UsageRow>,
    keys: Seq<u32>,
    row: UsageRow,
    key: u32,
)
    requires
        keys.len() == rows.len(),
        is_chart(before, slots, rows, keys),
        is_chart(after, slots, rows.push(row), keys.push(key)),
    ensures
        after.dom() == before.dom(),
        slots.contains(key) ==> after[key].api_calls == before[key].api_calls + row.api_calls,
        slots.contains(key) ==> after[key].tokens == before[key].tokens + row.tokens,
        forall|k: u32| #![trigger after[k]] k != key && before.dom().contains(k) ==> after[k] == before[k],
{
    let n = rows.len() as int;
    assert forall|k: u32| #![trigger after[k]] before.dom().contains(k) implies {
        &&& after[k].api_calls == calls_upto(rows, keys, k, n) + (if k == key {
            row.api_calls as int
        } else {
            0
        })
        &&& after[k].tokens == tokens_upto(rows, keys, k, n) + (if k == key {
            row.tokens as int
        } else {
            0
        })
    } by {
        lemma_prefix_sums_unchanged(rows, keys, row, key, k, n);
        assert(rows.push(row)[n] == row);
        assert(keys.push(key)[n] == key);
    }
    if slots.contains(key) {
        assert(before.dom().contains(key));
        assert(after[key].api_calls == before[key].api_calls + row.api_calls);
    }
}

/// `align_down(t, step)` is `c * step` for the returned `c`.
proof fn lemma_align_multiple(t: int, step: int) -> (c: int)
    requires
        step > 0,
    ensures
        align_down(t, step) == c * step,
{
    if t >= 0 {
        t / step
    } else {
        let q = (-t) / step;
        assert(-(q * step) == (-q) * step) by (nonlinear_arith);
        -q
    }
}

/// A multiple of `step` is its own slot start.
proof fn lemma_align_of_multiple(c: int, step: int)
    requires
        step > 0,
    ensures
        align_down(c * step, step) == c * step,
{
    if c >= 0 {
        assert(c * step >= 0) by (nonlinear_arith)
            requires
                c >= 0,
                step > 0,
        ;
        assert((c * step) / step == c) by (nonlinear_arith)
            requires
                step > 0,
        ;
    } else {
        assert(c * step < 0) by (nonlinear_arith)
            requires
                c < 0,
                step > 0,
        ;
        assert(-(c * step) == (-c) * step) by (nonlinear_arith);
        assert(((-c) * step) / step == -c) by (nonlinear_arith)
            requires
                step > 0,
        ;
    }
}

/// Rounding toward zero to a slot start keeps the order of instants.
proof fn lemma_align_monotone(a: int, b: int, step: int)
    requires
        step > 0,
        a <= b,
    ensures
        align_down(a, step) <= align_down(b, step),
{
    if a >= 0 {
        assert(a / step <= b / step) by (nonlinear_arith)
            requires
                0 <= a <= b,
                step > 0,
        ;
        assert((a / step) * step <= (b / step) * step) by (nonlinear_arith)
            requires
                a / step <= b / step,
                step > 0,
        ;
    } else if b < 0 {
        assert((-b) / step <= (-a) / step) by (nonlinear_arith)
            requires
                0 < -b <= -a,
                step > 0,
        ;
        assert(((-b) / step) * step <= ((-a) / step) * step) by (nonlinear_arith)
            requires
                (-b) / step <= (-a) / step,
                step > 0,
        ;
    } else {
        assert(((-a) / step) * step >= 0) by (nonlinear_arith)
            requires
                -a > 0,
                step > 0,
        ;
        assert((b / step) * step >= 0) by (nonlinear_arith)
            requires
                b >= 0,
                step > 0,
        ;
    }
}

/// The slots of a chart tile time without gaps: every slot start is a slot
/// start of its own (so a row written exactly at it falls into that slot), each
/// slot begins where the one before ends, the first holds `from` and the last
/// holds `to`, and there is at least one slot whenever `from <= to`.
pub proof fn law_slot_starts_tile(from: int, to: int, step: int)
    requires
        step > 0,
    ensures
        ({
            let s = slot_starts(align_down(from, step), align_down(to, step), step);
            &&& forall|i: int| 0 <= i < s.len() ==> align_down(#[trigger] s[i], step) == s[i]
            &&& forall|i: int| 0 <= i < s.len() - 1 ==> #[trigger] s[i + 1] == s[i] + step
            &&& s.len() > 0 ==> s[0] == align_down(from, step) && s[s.len() - 1] == align_down(to, step)
            &&& from <= to ==> s.len() > 0
        }),
{
    let first = align_down(from, step);
    let last = align_down(to, step);
    let s = slot_starts(first, last, step);
    let a = lemma_align_multiple(from, step);
    let b = lemma_align_multiple(to, step);
    if from <= to {
        lemma_align_monotone(from, to, step);
    }
    assert forall|i: int| 0 <= i < s.len() implies align_down(#[trigger] s[i], step) == s[i] by {
        assert(s[i] == (a + i) * step) by (nonlinear_arith)
            requires
                s[i] == first + i * step,
                first == a * step,
        ;
        lemma_align_of_multiple(a + i, step);
    }
    assert forall|i: int| 0 <= i < s.len() - 1 implies #[trigger] s[i + 1] == s[i] + step by {
        assert(first + (i + 1) * step == first + i * step + step) by (nonlinear_arith);
    }
    if s.len() > 0 {
        assert(first <= last);
        assert(last - first == (b - a) * step) by (nonlinear_arith)
            requires
                first == a * step,
                last == b * step,
        ;
        assert(((b - a) * step) / step == b - a) by (nonlinear_arith)
            requires
                step > 0,
        ;
        assert(first + ((last - first) / step) * step == last) by (nonlinear_arith)
            requires
                last - first == (b - a) * step,
                ((b - a) * step) / step == b - a,
                first == a * step,
                last == b * step,
        ;
    }
    if first <= last {
        assert((last - first) / step >= 0) by (nonlinear_arith)
            requires
                last - first >= 0,
                step > 0,
        ;
    }
}

/// The calls of the first `n` rows.
pub open spec fn calls_total(rows: Seq<UsageRow>, n: int) -> int
    decreases n,
{
    if n <= 0 {
        0
    } else {
        calls_total(rows, n - 1) + rows[n - 1].api_calls
    }
}

/// The tokens of the first `n` rows.
pub open spec fn tokens_total(rows: Seq<UsageRow>, n: int) -> int
    decreases n,
{
    if n <= 0 {
        0
    } else {
        tokens_total(rows, n - 1) + rows[n - 1].tokens
    }
}

/// The calls in the buckets of keys `0..h`.
pub open spec fn chart_calls_below(m: Map<u32, Bucket>, h: int) -> int
    decreases h,
{
    if h <= 0 {
        0
    } else {
        chart_calls_below(m, h - 1) + m[(h - 1) as u32].api_calls
    }
}

/// The tokens in the buckets of keys `0..h`.
pub open spec fn chart_tokens_below(m: Map<u32, Bucket>, h: int) -> int
    decreases h,
{
    if h <= 0 {
        0
    } else {
        chart_tokens_below(m, h - 1) + m[(h - 1) as u32].tokens
    }
}

/// The calls of the first `n` rows whose key is below `h`.
spec fn calls_keyed_below(rows: Seq<UsageRow>, keys: Seq<u32>, h: int, n: int) -> int
    decreases n,
{
    if n <= 0 {
        0
    } else {
        calls_keyed_below(rows, keys, h, n - 1) + (if keys[n - 1] < h {
            rows[n - 1].api_calls as int
        } else {
            0
        })
    }
}

/// The tokens of the first `n` rows whose key is below `h`.
spec fn tokens_keyed_below(rows: Seq<UsageRow>, keys: Seq<u32>, h: int, n: int) -> int
    decreases n,
{
    if n <= 0 {
        0
    } else {
        tokens_keyed_below(rows, keys, h, n - 1) + (if keys[n - 1] < h {
            rows[n - 1].tokens as int
        } else {
            0
        })
    }
}

proof fn lemma_keyed_below_step(rows: Seq<UsageRow>, keys: Seq<u32>, h: int, n: int)
    requires
        0 <= h < u32::MAX,
        0 <= n <= rows.len(),
        keys.len() == rows.len(),
    ensures
        calls_keyed_below(rows, keys, h + 1, n) == calls_keyed_below(rows, keys, h, n) + calls_upto(
            rows,
            keys,
            h as u32,
            n,
        ),
        tokens_keyed_below(rows, keys, h + 1, n) == tokens_keyed_below(rows, keys, h, n)
            + tokens_upto(rows, keys, h as u32, n),
    decreases n,
{
    if n > 0 {
        lemma_keyed_below_step(rows, keys, h, n - 1);
    }
}

proof fn lemma_keyed_below_none(rows: Seq<UsageRow>, keys: Seq<u32>, n: int)
    requires
        0 <= n <= rows.len(),
    ensures
        calls_keyed_below(rows, keys, 0, n) == 0,
        tokens_keyed_below(rows, keys, 0, n) == 0,
    decreases n,
{
    if n > 0 {
        lemma_keyed_below_none(rows, keys, n - 1);
    }
}

proof fn lemma_chart_sums_keyed_below(
    m: Map<u32, Bucket>,
    rows: Seq<UsageRow>,
    keys: Seq<u32>,
    h: int,
)
    requires
        0 <= h <= 24,
        keys.len() == rows.len(),
        is_chart(m, day_hours(), rows, keys),
    ensures
        chart_calls_below(m, h) == calls_keyed_below(rows, keys, h, rows.len() as int),
        chart_tokens_below(m, h) == tokens_keyed_below(rows, keys, h, rows.len() as int),
    decreases h,
{
    if h > 0 {
        lemma_chart_sums_keyed_below(m, rows, keys, h - 1);
        lemma_keyed_below_step(rows, keys, h - 1, rows.len() as int);
        assert(day_hours()[h - 1] == (h - 1) as u32);
        assert(day_hours().to_set().contains((h - 1) as u32));
        assert(m.dom().contains((h - 1) as u32));
    } else {
        lemma_keyed_below_none(rows, keys, rows.len() as int);
    }
}

proof fn lemma_all_keyed_below(rows: Seq<UsageRow>, keys: Seq<u32>, n: int)
    requires
        0 <= n <= rows.len(),
        keys.len() == rows.len(),
        keys_below(keys, 24),
    ensures
        calls_keyed_below(rows, keys, 24, n) == calls_total(rows, n),
        tokens_keyed_below(rows, keys, 24, n) == tokens_total(rows, n),
    decreases n,
{
    if n > 0 {
        lemma_all_keyed_below(rows, keys, n - 1);
        assert(keys[n - 1] < 24);
    }
}

/// Hour keys read on a clock lie below 24.
proof fn lemma_hour_keys_below_day(readings: Seq<Option<ClockFields>>)
    requires
        readings_in_range(readings),
    ensures
        keys_below(clock_keys(readings, false), 24),
{
    assert forall|i: int| 0 <= i < clock_keys(readings, false).len() implies #[trigger] clock_keys(
        readings,
        false,
    )[i] < 24 by {
        assert(readings[i] matches Some(f) ==> fields_in_range(f));
    }
}

/// Today's hourly chart loses nothing: when the rows are keyed by their hours on
/// a clock, as `query_hourly_today` keys them, the 24 buckets together hold all
/// the calls and all the tokens of the rows.
pub proof fn law_hourly_chart_keeps_every_row(
    m: Map<u32, Bucket>,
    rows: Seq<UsageRow>,
    readings: Seq<Option<ClockFields>>,
)
    requires
        readings.len() == rows.len(),
        readings_in_range(readings),
        is_chart(m, day_hours(), rows, clock_keys(readings, false)),
    ensures
        chart_calls_below(m, 24) == calls_total(rows, rows.len() as int),
        chart_tokens_below(m, 24) == tokens_total(rows, rows.len() as int),
{
    let keys = clock_keys(readings, false);
    lemma_hour_keys_below_day(readings);
    lemma_chart_sums_keyed_below(m, rows, keys, 24);
    lemma_all_keyed_below(rows, keys, rows.len() as int);
}

/// A reading is filed under its own local hour, and under its own minute of
/// the day on the 24-hour clock: the hour key of a reading is its hour, its
/// minute key is `hour * 60 + minute`, so the minute key gives back both the hour
/// and the minute, and readings at different times of day get different minute
/// keys. A missing reading is filed at midnight. In a chart, the key of the
/// `i`-th instant is the key of its own reading.
pub proof fn law_clock_keys_of_readings(
    f: ClockFields,
    g: ClockFields,
    readings: Seq<Option<ClockFields>>,
    i: int,
)
    requires
        fields_in_range(f),
        fields_in_range(g),
    ensures
        hour_key(Some(f)) == f.hour,
        minute_key(Some(f)) == f.hour * 60 + f.minute,
        minute_key(Some(f)) < 1440,
        minute_key(Some(f)) / 60 == f.hour,
        minute_key(Some(f)) % 60 == f.minute,
        f.hour != g.hour ==> hour_key(Some(f)) != hour_key(Some(g)),
        (f.hour != g.hour || f.minute != g.minute) ==> minute_key(Some(f)) != minute_key(Some(g)),
        hour_key(None) == 0,
        minute_key(None) == 0,
        0 <= i < readings.len() && readings[i] == Some(f) ==> clock_keys(readings, false)[i] == f.hour
            && clock_keys(readings, true)[i] == f.hour * 60 + f.minute,
{
    let k = f.hour * 60 + f.minute;
    assert(k / 60 == f.hour && k % 60 == f.minute) by (nonlinear_arith)
        requires
            k == f.hour * 60 + f.minute,
            f.minute < 60,
    ;
    let kg = g.hour * 60 + g.minute;
    assert(kg / 60 == g.hour && kg % 60 == g.minute) by (nonlinear_arith)
        requires
            kg == g.hour * 60 + g.minute,
            g.minute < 60,
    ;
}

/// Rounding to a slot start goes toward zero by less than one slot and lands on
/// a multiple of the slot width: an instant at or after the epoch moves back to
/// the start of its slot, one before the epoch moves forward, and an instant
/// that is already a slot start stays where it is.
pub proof fn law_align_rounds_toward_zero(t: int, step: int, c: int)
    requires
        step > 0,
    ensures
        t >= 0 ==> 0 <= t - align_down(t, step) < step,
        t < 0 ==> -step < t - align_down(t, step) <= 0,
        exists|q: int| align_down(t, step) == #[trigger] (q * step),
        align_down(c * step, step) == c * step,
{
    let q = lemma_align_multiple(t, step);
    lemma_align_of_multiple(c, step);
    if t >= 0 {
        assert(0 <= t - (t / step) * step < step) by (nonlinear_arith)
            requires
                t >= 0,
                step > 0,
        ;
    } else {
        let u = -t;
        assert(0 <= u - (u / step) * step < step) by (nonlinear_arith)
            requires
                u > 0,
                step > 0,
        ;
    }
    assert(align_down(t, step) == q * step);
}

/// Each chart instant is read where it should be: a row is read at its own
/// timestamp, or at the start of its slot when the chart rounds rows to slots;
/// each slot is read at its own start, which lies between the slot of `from` and
/// the slot of `to`; and a list of readings of some instants has one reading per
/// instant, each of that instant.
pub proof fn law_chart_instants(
    rows: Seq<UsageRow>,
    step: i64,
    from: i64,
    to: i64,
    times: Seq<i64>,
    readings: Seq<Option<ClockFields>>,
    i: int,
)
    requires
        step > 0,
    ensures
        0 <= i < rows.len() ==> row_instants(rows, None)[i] == rows[i].timestamp,
        0 <= i < rows.len() ==> row_instants(rows, Some(step))[i] as int == align_down(
            rows[i].timestamp as int,
            step as int,
        ),
        row_instants(rows, None).len() == rows.len(),
        row_instants(rows, Some(step)).len() == rows.len(),
        slot_instants(from, to, step).len() == slot_starts(
            align_down(from as int, step as int),
            align_down(to as int, step as int),
            step as int,
        ).len(),
        0 <= i < slot_instants(from, to, step).len() ==> {
            &&& slot_instants(from, to, step)[i] as int == align_down(from as int, step as int) + i
                * step
            &&& align_down(from as int, step as int) <= slot_instants(from, to, step)[i]
                <= align_down(to as int, step as int)
        },
        reads_each(times, readings) && 0 <= i < times.len() ==> readings.len() == times.len()
            && local_reading_of(times[i], readings[i]),
{
    let first = align_down(from as int, step as int);
    let last = align_down(to as int, step as int);
    law_align_rounds_toward_zero(from as int, step as int, 0);
    law_align_rounds_toward_zero(to as int, step as int, 0);
    if 0 <= i < rows.len() {
        let t = rows[i].timestamp as int;
        law_align_rounds_toward_zero(t, step as int, 0);
        let a = align_down(t, step as int);
        if t >= 0 {
            assert(0 <= a <= t) by {
                assert(a == (t / (step as int)) * step);
                assert((t / (step as int)) * step >= 0) by (nonlinear_arith)
                    requires
                        t >= 0,
                        step > 0,
                ;
            }
        } else {
            assert(t <= a <= 0) by {
                assert(((-t) / (step as int)) * step >= 0) by (nonlinear_arith)
                    requires
                        -t > 0,
                        step > 0,
                ;
            }
        }
        assert(row_instants(rows, Some(step))[i] == a as i64);
    }
    let sl = slot_starts(first, last, step as int);
    if 0 <= i < sl.len() {
        assert(first <= last);
        assert(i * step <= last - first) by (nonlinear_arith)
            requires
                0 <= i < ((last - first) / (step as int)) + 1,
                step > 0,
                last - first >= 0,
        ;
        assert(i * step >= 0) by (nonlinear_arith)
            requires
                i >= 0,
                step > 0,
        ;
        if from >= 0 {
            assert(0 <= first) by {
                assert((from / step) * step >= 0) by (nonlinear_arith)
                    requires
                        from >= 0,
                        step > 0,
                ;
            }
        } else {
            assert(from <= first);
        }
        if to >= 0 {
            assert(last <= to);
        } else {
            assert(last <= 0) by {
                assert(((-(to as int)) / (step as int)) * step >= 0) by (nonlinear_arith)
                    requires
                        -(to as int) > 0,
                        step > 0,
                ;
            }
        }
        assert(sl[i] == first + i * step);
        assert(slot_instants(from, to, step)[i] == sl[i] as i64);
    }
}

} // verus!
