//! The daily windows of the history charts.
use vstd::prelude::*;

verus! {

/// The window of the day `d` days back, given the starts of the days
/// (`day_starts[d]` is the start of the day `d` days back): from its own start
/// to the start of the day after it.
pub open spec fn day_window(day_starts: Seq<i64>, d: int) -> (i64, i64) {
    (day_starts[d], day_starts[d - 1])
}

/// The windows of the complete days before today, oldest first: with the starts
/// of today and of the `n` days before it, the window of the day `n` days back
/// comes first and the window of yesterday comes last.
pub fn daily_windows(day_starts: &Vec<i64>) -> (w: Vec<(i64, i64)>)
    requires
        day_starts.len() >= 1,
    ensures
        w.len() == day_starts.len() - 1,
        forall|i: int|
            0 <= i < w.len() ==> #[trigger] w@[i] == day_window(
                day_starts@,
                day_starts.len() - 1 - i,
            ),
{
    let n = day_starts.len();
    let mut w: Vec<(i64, i64)> = Vec::new();
    let mut d: usize = n - 1;
    while d >= 1
        invariant
            n == day_starts.len(),
            n >= 1,
            d <= n - 1,
            w.len() == n - 1 - d,
            forall|i: int|
                0 <= i < w.len() ==> #[trigger] w@[i] == day_window(day_starts@, n - 1 - i),
        decreases d,
    {
        w.push((day_starts[d], day_starts[d - 1]));
        d = d - 1;
    }
    w
}

/// The daily windows follow each other without gap or overlap: each one ends
/// where the next one starts, and the last one ends where today starts.
pub proof fn law_daily_windows_adjacent(day_starts: Seq<i64>, w: Seq<(i64, i64)>)
    requires
        day_starts.len() >= 1,
        w.len() == day_starts.len() - 1,
        forall|i: int|
            0 <= i < w.len() ==> #[trigger] w[i] == day_window(day_starts, day_starts.len() - 1 - i),
    ensures
        forall|i: int| 0 <= i < w.len() - 1 ==> (#[trigger] w[i]).1 == w[i + 1].0,
        w.len() > 0 ==> w[w.len() - 1].1 == day_starts[0],
{
    assert forall|i: int| 0 <= i < w.len() - 1 implies (#[trigger] w[i]).1 == w[i + 1].0 by {
        assert(w[i] == day_window(day_starts, day_starts.len() - 1 - i));
        assert(w[i + 1] == day_window(day_starts, day_starts.len() - 1 - (i + 1)));
    }
    if w.len() > 0 {
        assert(w[w.len() - 1] == day_window(day_starts, day_starts.len() - 1 - (w.len() - 1)));
    }
}

} // verus!
