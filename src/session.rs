//! The session: one tick per frame of the host, from playing to finished.
use vstd::prelude::*;
use crate::config::Config;
use crate::geometry::{circle_of, is_circle_of, DrawableCircle};
use crate::table::{compute_range_stats, stats_of, FeatureRow, RangeStats, StatsError};
use crate::window::{select, throttled, window_of};

verus! {

/// What a tick asks of the host.
pub enum TickAction {
    /// The window was not recomputed: keep the circles of the last redraw.
    Hold,
    /// Replace the circles on screen by these.
    Redraw(Vec<DrawableCircle>),
    /// Playback has reached its end: stop drawing and exit.
    Exit,
    /// The session has already finished: nothing to do.
    Idle,
}

/// The kind of a tick's action, without its circles.
#[derive(Clone, Copy, Debug, PartialEq, Eq, Structural)]
pub enum TickKind {
    Hold,
    Redraw,
    Exit,
    Idle,
}

impl TickAction {
    pub open spec fn kind(&self) -> TickKind {
        match self {
            TickAction::Hold => TickKind::Hold,
            TickAction::Redraw(_) => TickKind::Redraw,
            TickAction::Exit => TickKind::Exit,
            TickAction::Idle => TickKind::Idle,
        }
    }
}

/// The action of a tick at `elapsed`, from a session that has or has not
/// finished and last recomputed its window at `last`.
pub open spec fn tick_kind(finished: bool, last: u64, elapsed: u64, duration: u64, interval: u64) -> TickKind {
    if finished {
        TickKind::Idle
    } else if elapsed >= duration {
        TickKind::Exit
    } else if throttled(elapsed as int, last as int, interval as int) {
        TickKind::Hold
    } else {
        TickKind::Redraw
    }
}

/// Whether the session has finished, and when it last recomputed its window,
/// after such a tick.
pub open spec fn next_state(finished: bool, last: u64, elapsed: u64, duration: u64, interval: u64) -> (bool, u64) {
    match tick_kind(finished, last, elapsed, duration, interval) {
        TickKind::Idle | TickKind::Exit => (true, last),
        TickKind::Hold => (false, last),
        TickKind::Redraw => (false, elapsed),
    }
}

/// The actions of a run of ticks at the clock readings `elapsed`, in order.
pub open spec fn run_kinds(finished: bool, last: u64, elapsed: Seq<u64>, duration: u64, interval: u64) -> Seq<TickKind>
    decreases elapsed.len(),
{
    if elapsed.len() == 0 {
        Seq::empty()
    } else {
        let next = next_state(finished, last, elapsed[0], duration, interval);
        seq![tick_kind(finished, last, elapsed[0], duration, interval)]
            + run_kinds(next.0, next.1, elapsed.drop_first(), duration, interval)
    }
}

/// Tick `k` is the first whose clock reading has reached `duration`.
pub open spec fn first_end(elapsed: Seq<u64>, duration: u64, k: int) -> bool {
    &&& elapsed[k] >= duration
    &&& forall|j: int| 0 <= j < k ==> elapsed[j] < duration
}

/// Some tick before tick `k` had a clock reading that reached `duration`.
pub open spec fn ended_before(elapsed: Seq<u64>, duration: u64, k: int) -> bool {
    exists|j: int| 0 <= j < k && elapsed[j] >= duration
}

proof fn lemma_run_len(finished: bool, last: u64, elapsed: Seq<u64>, duration: u64, interval: u64)
    ensures
        run_kinds(finished, last, elapsed, duration, interval).len() == elapsed.len(),
    decreases elapsed.len(),
{
    if elapsed.len() > 0 {
        let next = next_state(finished, last, elapsed[0], duration, interval);
        lemma_run_len(next.0, next.1, elapsed.drop_first(), duration, interval);
    }
}

proof fn lemma_finished_idle(last: u64, elapsed: Seq<u64>, duration: u64, interval: u64)
    ensures
        forall|k: int| 0 <= k < elapsed.len() ==> #[trigger] run_kinds(true, last, elapsed, duration, interval)[k]
            == TickKind::Idle,
    decreases elapsed.len(),
{
    if elapsed.len() > 0 {
        let rest = elapsed.drop_first();
        lemma_finished_idle(last, rest, duration, interval);
        lemma_run_len(true, last, rest, duration, interval);
        let run = run_kinds(true, last, elapsed, duration, interval);
        let tail = run_kinds(true, last, rest, duration, interval);
        assert(run =~= seq![TickKind::Idle] + tail);
        assert forall|k: int| 0 <= k < elapsed.len() implies #[trigger] run[k] == TickKind::Idle by {
            if k > 0 {
                assert(run[k] == tail[k - 1]);
            }
        }
    }
}

/// A playing session exits exactly once, at the first tick whose clock
/// reading has reached the duration, and after that tick only idles: it never
/// draws again.
pub proof fn lemma_exits_once(last: u64, elapsed: Seq<u64>, duration: u64, interval: u64)
    ensures
        run_kinds(false, last, elapsed, duration, interval).len() == elapsed.len(),
        forall|k: int|
            0 <= k < elapsed.len() ==> (#[trigger] run_kinds(false, last, elapsed, duration, interval)[k]
                == TickKind::Exit <==> first_end(elapsed, duration, k)),
        forall|k: int|
            0 <= k < elapsed.len() && ended_before(elapsed, duration, k) ==> #[trigger] run_kinds(
                false,
                last,
                elapsed,
                duration,
                interval,
            )[k] == TickKind::Idle,
    decreases elapsed.len(),
{
    lemma_run_len(false, last, elapsed, duration, interval);
    if elapsed.len() > 0 {
        let run = run_kinds(false, last, elapsed, duration, interval);
        let rest = elapsed.drop_first();
        let next = next_state(false, last, elapsed[0], duration, interval);
        let tail = run_kinds(next.0, next.1, rest, duration, interval);
        lemma_run_len(next.0, next.1, rest, duration, interval);
        assert(run =~= seq![tick_kind(false, last, elapsed[0], duration, interval)] + tail);
        if elapsed[0] >= duration {
            lemma_finished_idle(next.1, rest, duration, interval);
            assert forall|k: int| 0 <= k < elapsed.len() implies (#[trigger] run[k] == TickKind::Exit
                <==> first_end(elapsed, duration, k)) by {
                if k > 0 {
                    assert(run[k] == tail[k - 1]);
                    assert(!(elapsed[0] < duration));
                }
            }
            assert forall|k: int|
                0 <= k < elapsed.len() && ended_before(elapsed, duration, k) implies #[trigger] run[k]
                == TickKind::Idle by {
                assert(run[k] == tail[k - 1]);
            }
        } else {
            lemma_exits_once(next.1, rest, duration, interval);
            assert forall|k: int| 0 <= k < elapsed.len() implies (#[trigger] run[k] == TickKind::Exit
                <==> first_end(elapsed, duration, k)) by {
                if k > 0 {
                    assert(run[k] == tail[k - 1]);
                    if first_end(elapsed, duration, k) {
                        assert forall|j: int| 0 <= j < k - 1 implies rest[j] < duration by {
                            assert(rest[j] == elapsed[j + 1]);
                        }
                        assert(first_end(rest, duration, k - 1));
                    }
                    if first_end(rest, duration, k - 1) {
                        assert forall|j: int| 0 <= j < k implies elapsed[j] < duration by {
                            if j > 0 {
                                assert(rest[j - 1] == elapsed[j]);
                            }
                        }
                    }
                }
            }
            assert forall|k: int|
                0 <= k < elapsed.len() && ended_before(elapsed, duration, k) implies #[trigger] run[k]
                == TickKind::Idle by {
                let j = choose|j: int| 0 <= j < k && elapsed[j] >= duration;
                assert(run[k] == tail[k - 1]);
                assert(j > 0);
                assert(rest[j - 1] == elapsed[j]);
                assert(ended_before(rest, duration, k - 1));
            }
        }
    }
}

/// A playing or finished visualisation of one feature table.
pub struct Session {
    table: Vec<FeatureRow>,
    stats: RangeStats,
    config: Config,
    duration: u64,
    last_sample_time: u64,
    finished: bool,
}

impl Session {
    pub closed spec fn rows(&self) -> Seq<FeatureRow> {
        self.table@
    }

    pub closed spec fn range_stats(&self) -> RangeStats {
        self.stats
    }

    pub closed spec fn settings(&self) -> Config {
        self.config
    }

    pub closed spec fn total(&self) -> u64 {
        self.duration
    }

    pub closed spec fn last_sample(&self) -> u64 {
        self.last_sample_time
    }

    pub closed spec fn has_finished(&self) -> bool {
        self.finished
    }

    pub closed spec fn wf(&self) -> bool {
        self.config.wf() && stats_of(self.table@, self.stats)
    }

    /// Starts playing `table` for `duration` milliseconds, or fails where the
    /// table is empty and has no statistics.
    pub fn start(table: Vec<FeatureRow>, duration: u64, config: Config) -> (r: Result<Session, StatsError>)
        requires
            config.wf(),
        ensures
            table@.len() == 0 <==> r is Err,
            r is Err ==> r == Err::<Session, StatsError>(StatsError::EmptyTable),
            r is Ok ==> {
                let s = r->Ok_0;
                &&& s.wf()
                &&& s.rows() == table@
                &&& stats_of(table@, s.range_stats())
                &&& s.settings() == config
                &&& s.total() == duration
                &&& s.last_sample() == 0
                &&& !s.has_finished()
            },
    {
        match compute_range_stats(&table) {
            Err(e) => Err(e),
            Ok(stats) => Ok(Session { table, stats, config, duration, last_sample_time: 0, finished: false }),
        }
    }

    /// Advances the session to the clock reading `elapsed`. Once the reading
    /// reaches the duration the session finishes and asks the host to exit;
    /// before that, at most once per throttle interval, it maps the rows in
    /// the window to circles.
    pub fn tick(&mut self, elapsed: u64) -> (r: TickAction)
        requires
            old(self).wf(),
        ensures
            final(self).wf(),
            final(self).rows() == old(self).rows(),
            final(self).range_stats() == old(self).range_stats(),
            final(self).settings() == old(self).settings(),
            final(self).total() == old(self).total(),
            r.kind() == tick_kind(
                old(self).has_finished(),
                old(self).last_sample(),
                elapsed,
                old(self).total(),
                old(self).settings().throttle_interval,
            ),
            (final(self).has_finished(), final(self).last_sample()) == next_state(
                old(self).has_finished(),
                old(self).last_sample(),
                elapsed,
                old(self).total(),
                old(self).settings().throttle_interval,
            ),
            r is Redraw ==> {
                let window = window_of(old(self).rows(), elapsed as int, old(self).settings().window_radius as int);
                &&& r->Redraw_0@.len() == window.len()
                &&& forall|i: int|
                    0 <= i < window.len() ==> is_circle_of(
                        #[trigger] r->Redraw_0@[i],
                        window[i],
                        elapsed as int,
                        old(self).range_stats(),
                        old(self).settings(),
                    )
            },
    {
        if self.finished {
            return TickAction::Idle;
        }
        if elapsed >= self.duration {
            self.finished = true;
            return TickAction::Exit;
        }
        let selected = match select(&self.table, elapsed, &mut self.last_sample_time, &self.config) {
            None => {
                return TickAction::Hold;
            },
            Some(rows) => rows,
        };
        let mut circles: Vec<DrawableCircle> = Vec::new();
        let mut i: usize = 0;
        while i < selected.len()
            invariant
                i <= selected@.len(),
                self.config.wf(),
                circles@.len() == i,
                forall|k: int|
                    0 <= k < i ==> is_circle_of(
                        #[trigger] circles@[k],
                        selected@[k],
                        elapsed as int,
                        self.stats,
                        self.config,
                    ),
            decreases selected@.len() - i,
        {
            let c = circle_of(&selected[i], elapsed, &self.stats, &self.config);
            circles.push(c);
            i = i + 1;
        }
        TickAction::Redraw(circles)
    }

    pub fn is_finished(&self) -> (r: bool)
        ensures
            r == self.has_finished(),
    {
        self.finished
    }

    pub fn last_sample_time(&self) -> (r: u64)
        ensures
            r == self.last_sample(),
    {
        self.last_sample_time
    }

    pub fn stats(&self) -> (r: RangeStats)
        ensures
            r == self.range_stats(),
    {
        self.stats
    }

    pub fn duration(&self) -> (r: u64)
        ensures
            r == self.total(),
    {
        self.duration
    }
}

} // verus!
