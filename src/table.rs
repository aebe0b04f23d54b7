//! The feature table and its range statistics.
use vstd::prelude::*;

verus! {

/// One analysed audio frame: its time in milliseconds, and its frequency and
/// loudness in the caller's fixed-point units.
#[derive(Clone, Copy, Debug, PartialEq, Eq, Structural)]
pub struct FeatureRow {
    pub time: u64,
    pub frequency: i32,
    pub loudness: i32,
}

/// The extremes of frequency and loudness over a whole table.
#[derive(Clone, Copy, Debug, PartialEq, Eq, Structural)]
pub struct RangeStats {
    pub min_frequency: i32,
    pub max_frequency: i32,
    pub min_loudness: i32,
    pub max_loudness: i32,
}

#[derive(Clone, Copy, Debug, PartialEq, Eq, Structural)]
pub enum StatsError {
    /// The table has no rows, so it has no minimum or maximum.
    EmptyTable,
}

#[derive(Clone, Copy, Debug, PartialEq, Eq, Structural)]
pub enum LoadError {
    /// The three columns do not have the same number of values.
    ColumnLengths,
    /// The value of some column in this row is missing or not a number.
    InvalidValue { row: usize },
}

/// Row `i` has a value in each of the three columns.
pub open spec fn row_complete(
    times: Seq<Option<u64>>,
    frequencies: Seq<Option<i32>>,
    loudnesses: Seq<Option<i32>>,
    i: int,
) -> bool {
    times[i] is Some && frequencies[i] is Some && loudnesses[i] is Some
}

/// Builds the table from its three columns, read in file order, where `None`
/// stands for a value that is missing or could not be read as a number. Fails
/// where the columns differ in length, and otherwise at the first incomplete
/// row.
pub fn rows_from_columns(
    times: &Vec<Option<u64>>,
    frequencies: &Vec<Option<i32>>,
    loudnesses: &Vec<Option<i32>>,
) -> (r: Result<Vec<FeatureRow>, LoadError>)
    ensures
        r == Err::<Vec<FeatureRow>, LoadError>(LoadError::ColumnLengths) <==> !(times@.len()
            == frequencies@.len() && times@.len() == loudnesses@.len()),
        r matches Err(LoadError::InvalidValue { row }) ==> {
            &&& row < times@.len()
            &&& !row_complete(times@, frequencies@, loudnesses@, row as int)
            &&& forall|i: int| 0 <= i < row ==> row_complete(times@, frequencies@, loudnesses@, i)
        },
        r is Ok <==> {
            &&& times@.len() == frequencies@.len() && times@.len() == loudnesses@.len()
            &&& forall|i: int| 0 <= i < times@.len() ==> row_complete(times@, frequencies@, loudnesses@, i)
        },
        r is Ok ==> {
            &&& r->Ok_0@.len() == times@.len()
            &&& forall|i: int|
                0 <= i < times@.len() ==> #[trigger] r->Ok_0@[i] == (FeatureRow {
                    time: times@[i]->Some_0,
                    frequency: frequencies@[i]->Some_0,
                    loudness: loudnesses@[i]->Some_0,
                })
        },
{
    if times.len() != frequencies.len() || times.len() != loudnesses.len() {
        return Err(LoadError::ColumnLengths);
    }
    let mut rows: Vec<FeatureRow> = Vec::new();
    let mut i: usize = 0;
    while i < times.len()
        invariant
            i <= times@.len(),
            times@.len() == frequencies@.len() && times@.len() == loudnesses@.len(),
            rows@.len() == i,
            forall|k: int| 0 <= k < i ==> row_complete(times@, frequencies@, loudnesses@, k),
            forall|k: int|
                0 <= k < i ==> #[trigger] rows@[k] == (FeatureRow {
                    time: times@[k]->Some_0,
                    frequency: frequencies@[k]->Some_0,
                    loudness: loudnesses@[k]->Some_0,
                }),
        decreases times@.len() - i,
    {
        match (times[i], frequencies[i], loudnesses[i]) {
            (Some(time), Some(frequency), Some(loudness)) => {
                rows.push(FeatureRow { time, frequency, loudness });
            },
            _ => {
                assert(!row_complete(times@, frequencies@, loudnesses@, i as int));
                return Err(LoadError::InvalidValue { row: i });
            },
        }
        i = i + 1;
    }
    Ok(rows)
}

/// `v` is the least of `vals`: it occurs in it and nothing in it is smaller.
pub open spec fn is_min_of(vals: Seq<i32>, v: i32) -> bool {
    &&& exists|i: int| 0 <= i < vals.len() && vals[i] == v
    &&& forall|i: int| 0 <= i < vals.len() ==> v <= vals[i]
}

/// `v` is the greatest of `vals`: it occurs in it and nothing in it is larger.
pub open spec fn is_max_of(vals: Seq<i32>, v: i32) -> bool {
    &&& exists|i: int| 0 <= i < vals.len() && vals[i] == v
    &&& forall|i: int| 0 <= i < vals.len() ==> vals[i] <= v
}

pub open spec fn frequencies(rows: Seq<FeatureRow>) -> Seq<i32> {
    rows.map_values(|r: FeatureRow| r.frequency)
}

pub open spec fn loudnesses(rows: Seq<FeatureRow>) -> Seq<i32> {
    rows.map_values(|r: FeatureRow| r.loudness)
}

/// `s` holds the extremes of frequency and loudness over `rows`.
pub open spec fn stats_of(rows: Seq<FeatureRow>, s: RangeStats) -> bool {
    &&& is_min_of(frequencies(rows), s.min_frequency)
    &&& is_max_of(frequencies(rows), s.max_frequency)
    &&& is_min_of(loudnesses(rows), s.min_loudness)
    &&& is_max_of(loudnesses(rows), s.max_loudness)
}

impl RangeStats {
    /// Each minimum is at most its maximum.
    pub open spec fn wf(self) -> bool {
        self.min_frequency <= self.max_frequency && self.min_loudness <= self.max_loudness
    }
}

/// Any statistics of a table are well formed.
pub proof fn lemma_stats_wf(rows: Seq<FeatureRow>, s: RangeStats)
    requires
        stats_of(rows, s),
    ensures
        s.wf(),
{
    let i = choose|i: int| 0 <= i < frequencies(rows).len() && frequencies(rows)[i] == s.max_frequency;
    let j = choose|j: int| 0 <= j < loudnesses(rows).len() && loudnesses(rows)[j] == s.max_loudness;
    assert(s.min_frequency <= frequencies(rows)[i]);
    assert(s.min_loudness <= loudnesses(rows)[j]);
}

/// Computes the extremes of frequency and loudness over `rows`, or fails on an
/// empty table.
pub fn compute_range_stats(rows: &Vec<FeatureRow>) -> (r: Result<RangeStats, StatsError>)
    ensures
        rows@.len() == 0 <==> r == Err::<RangeStats, StatsError>(StatsError::EmptyTable),
        r is Ok ==> stats_of(rows@, r->Ok_0) && r->Ok_0.wf(),
{
    if rows.len() == 0 {
        return Err(StatsError::EmptyTable);
    }
    let first = rows[0];
    let mut s = RangeStats {
        min_frequency: first.frequency,
        max_frequency: first.frequency,
        min_loudness: first.loudness,
        max_loudness: first.loudness,
    };
    proof {
        let init = rows@.subrange(0, 1);
        assert(frequencies(init) =~= seq![first.frequency]);
        assert(loudnesses(init) =~= seq![first.loudness]);
        assert(frequencies(init)[0] == first.frequency);
        assert(loudnesses(init)[0] == first.loudness);
    }
    let mut k: usize = 1;
    while k < rows.len()
        invariant
            1 <= k <= rows@.len(),
            stats_of(rows@.subrange(0, k as int), s),
        decreases rows@.len() - k,
    {
        let row = rows[k];
        let ghost prev = rows@.subrange(0, k as int);
        let ghost next = rows@.subrange(0, k as int + 1);
        proof {
            assert(frequencies(next) =~= frequencies(prev).push(row.frequency));
            assert(loudnesses(next) =~= loudnesses(prev).push(row.loudness));
        }
        let ghost old_s = s;
        if row.frequency < s.min_frequency {
            s.min_frequency = row.frequency;
        }
        if row.frequency > s.max_frequency {
            s.max_frequency = row.frequency;
        }
        if row.loudness < s.min_loudness {
            s.min_loudness = row.loudness;
        }
        if row.loudness > s.max_loudness {
            s.max_loudness = row.loudness;
        }
        proof {
            let fp = frequencies(prev);
            let lp = loudnesses(prev);
            lemma_extend_min(fp, row.frequency, old_s.min_frequency, s.min_frequency);
            lemma_extend_max(fp, row.frequency, old_s.max_frequency, s.max_frequency);
            lemma_extend_min(lp, row.loudness, old_s.min_loudness, s.min_loudness);
            lemma_extend_max(lp, row.loudness, old_s.max_loudness, s.max_loudness);
        }
        k = k + 1;
    }
    proof {
        assert(rows@.subrange(0, rows@.len() as int) =~= rows@);
        lemma_stats_wf(rows@, s);
    }
    Ok(s)
}

proof fn lemma_extend_min(vals: Seq<i32>, x: i32, m: i32, m2: i32)
    requires
        is_min_of(vals, m),
        m2 == if x < m { x } else { m },
    ensures
        is_min_of(vals.push(x), m2),
{
    let i = choose|i: int| 0 <= i < vals.len() && vals[i] == m;
    if x < m {
        assert(vals.push(x)[vals.len() as int] == m2);
    } else {
        assert(vals.push(x)[i] == m2);
    }
    assert forall|j: int| 0 <= j < vals.push(x).len() implies m2 <= vals.push(x)[j] by {
        if j < vals.len() {
            assert(vals.push(x)[j] == vals[j]);
        }
    }
}

proof fn lemma_extend_max(vals: Seq<i32>, x: i32, m: i32, m2: i32)
    requires
        is_max_of(vals, m),
        m2 == if x > m { x } else { m },
    ensures
        is_max_of(vals.push(x), m2),
{
    let i = choose|i: int| 0 <= i < vals.len() && vals[i] == m;
    if x > m {
        assert(vals.push(x)[vals.len() as int] == m2);
    } else {
        assert(vals.push(x)[i] == m2);
    }
    assert forall|j: int| 0 <= j < vals.push(x).len() implies vals.push(x)[j] <= m2 by {
        if j < vals.len() {
            assert(vals.push(x)[j] == vals[j]);
        }
    }
}

} // verus!
