//! Selection of the rows around the playback clock, and its throttle.
use vstd::prelude::*;
use crate::config::Config;
use crate::table::FeatureRow;

verus! {

/// `time` lies in the closed window of half-width `radius` around `elapsed`.
pub open spec fn in_window(time: int, elapsed: int, radius: int) -> bool {
    elapsed - radius <= time <= elapsed + radius
}

pub open spec fn window_pred(elapsed: int, radius: int) -> spec_fn(FeatureRow) -> bool {
    |r: FeatureRow| in_window(r.time as int, elapsed, radius)
}

/// The rows of `rows` that lie in the window, in table order.
pub open spec fn window_of(rows: Seq<FeatureRow>, elapsed: int, radius: int) -> Seq<FeatureRow> {
    rows.filter(window_pred(elapsed, radius))
}

/// Too little time has passed since the last recomputation for a new one.
pub open spec fn throttled(elapsed: int, last_sample_time: int, interval: int) -> bool {
    elapsed - last_sample_time < interval
}

/// The last recomputation time after a call of the selector at `elapsed`.
pub open spec fn sampled_at(elapsed: int, last_sample_time: int, interval: int) -> int {
    if throttled(elapsed, last_sample_time, interval) {
        last_sample_time
    } else {
        elapsed
    }
}

/// Tells whether `time` lies in the window of half-width `radius` around `elapsed`.
pub fn is_in_window(time: u64, elapsed: u64, radius: u32) -> (r: bool)
    ensures
        r == in_window(time as int, elapsed as int, radius as int),
{
    time as u128 + radius as u128 >= elapsed as u128 && time as u128 <= elapsed as u128
        + radius as u128
}

/// The rows whose time lies within `radius` of `elapsed`, both ends included,
/// in the order of the table.
pub fn select_window(rows: &Vec<FeatureRow>, elapsed: u64, radius: u32) -> (r: Vec<FeatureRow>)
    ensures
        r@ == window_of(rows@, elapsed as int, radius as int),
{
    let ghost pred = window_pred(elapsed as int, radius as int);
    let mut out: Vec<FeatureRow> = Vec::new();
    let mut i: usize = 0;
    while i < rows.len()
        invariant
            i <= rows@.len(),
            pred == window_pred(elapsed as int, radius as int),
            out@ == rows@.subrange(0, i as int).filter(pred),
        decreases rows@.len() - i,
    {
        let row = rows[i];
        proof {
            assert(rows@.subrange(0, i as int + 1) =~= rows@.subrange(0, i as int).push(row));
            rows@.subrange(0, i as int).lemma_filter_push(row, pred);
        }
        if is_in_window(row.time, elapsed, radius) {
            out.push(row);
        }
        i = i + 1;
    }
    proof {
        assert(rows@.subrange(0, rows@.len() as int) =~= rows@);
    }
    out
}

/// The throttled selector: when less than the throttle interval has passed
/// since `last_sample_time` it does nothing and returns `None`; otherwise it
/// records `elapsed` as the last recomputation and returns the window.
pub fn select(rows: &Vec<FeatureRow>, elapsed: u64, last_sample_time: &mut u64, config: &Config) -> (r:
    Option<Vec<FeatureRow>>)
    ensures
        r is None <==> throttled(
            elapsed as int,
            *old(last_sample_time) as int,
            config.throttle_interval as int,
        ),
        *final(last_sample_time) == sampled_at(
            elapsed as int,
            *old(last_sample_time) as int,
            config.throttle_interval as int,
        ),
        r is Some ==> r->Some_0@ == window_of(rows@, elapsed as int, config.window_radius as int),
{
    if (elapsed as u128) < (*last_sample_time as u128) + (config.throttle_interval as u128) {
        return None;
    }
    *last_sample_time = elapsed;
    Some(select_window(rows, elapsed, config.window_radius))
}

/// Two calls of the selector less than the throttle interval apart: when the
/// first one recomputed, the second is skipped and leaves the last
/// recomputation time as the first one set it.
pub proof fn lemma_throttle_idempotent(last_sample_time: int, elapsed1: int, elapsed2: int, interval: int)
    requires
        elapsed2 - elapsed1 < interval,
        !throttled(elapsed1, last_sample_time, interval),
    ensures
        throttled(elapsed2, sampled_at(elapsed1, last_sample_time, interval), interval),
        sampled_at(elapsed2, sampled_at(elapsed1, last_sample_time, interval), interval)
            == sampled_at(elapsed1, last_sample_time, interval),
{
}

/// A row of the table is selected if and only if its time lies in the window.
pub proof fn lemma_window_inclusion(rows: Seq<FeatureRow>, elapsed: int, radius: int, row: FeatureRow)
    ensures
        window_of(rows, elapsed, radius).contains(row) <==> rows.contains(row) && in_window(
            row.time as int,
            elapsed,
            radius,
        ),
{
    let pred = window_pred(elapsed, radius);
    let sel = window_of(rows, elapsed, radius);
    if sel.contains(row) {
        rows.lemma_filter_contains_rev(pred, row);
        let k = choose|k: int| 0 <= k < sel.len() && sel[k] == row;
        rows.lemma_filter_pred(pred, k);
    }
    if rows.contains(row) && in_window(row.time as int, elapsed, radius) {
        let i = choose|i: int| 0 <= i < rows.len() && rows[i] == row;
        rows.lemma_filter_contains(pred, i);
    }
}

/// `idx` places each element of `sel` at a position of `rows`, in increasing
/// order of position.
pub open spec fn embeds(sel: Seq<FeatureRow>, rows: Seq<FeatureRow>, idx: Seq<int>) -> bool {
    &&& idx.len() == sel.len()
    &&& forall|k: int| 0 <= k < idx.len() ==> 0 <= #[trigger] idx[k] < rows.len() && rows[idx[k]] == sel[k]
    &&& forall|a: int, b: int| 0 <= a < b < idx.len() ==> #[trigger] idx[a] < #[trigger] idx[b]
}

/// The selected rows appear in the same relative order as in the table.
pub proof fn lemma_window_order(rows: Seq<FeatureRow>, elapsed: int, radius: int)
    ensures
        exists|idx: Seq<int>| embeds(window_of(rows, elapsed, radius), rows, idx),
    decreases rows.len(),
{
    reveal(Seq::filter);
    let sel = window_of(rows, elapsed, radius);
    if rows.len() == 0 {
        assert(embeds(sel, rows, Seq::<int>::empty()));
    } else {
        let init = rows.drop_last();
        lemma_window_order(init, elapsed, radius);
        let idx0 = choose|idx: Seq<int>| embeds(window_of(init, elapsed, radius), init, idx);
        if window_pred(elapsed, radius)(rows.last()) {
            let idx = idx0.push(rows.len() - 1);
            assert(embeds(sel, rows, idx));
        } else {
            assert(embeds(sel, rows, idx0));
        }
    }
}

} // verus!
