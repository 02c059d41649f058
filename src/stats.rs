use vstd::prelude::*;

verus! {

/// Weight of grade bucket `i` (A, B, C, D score 4, 3, 2, 1; every later bucket 0).
pub open spec fn gpa_weight(i: int) -> int {
    if 0 <= i < 4 {
        4 - i
    } else {
        0
    }
}

/// Number of leading grade buckets that count as responses (A, B, C, D, F).
pub open spec fn gpa_included(len: int) -> int {
    if len < 5 {
        len
    } else {
        5
    }
}

/// Weight of bucket `i` of a four-bucket hours scale: 0, 5, 10, 15.
pub open spec fn short_hours_weight(i: int) -> int {
    5 * i
}

/// Weight of bucket `i` of an eleven-bucket hours scale: 1, 3, ..., 21.
pub open spec fn long_hours_weight(i: int) -> int {
    2 * i + 1
}

/// The weight vector of an hours scale of the given length, if that length is known.
pub open spec fn hours_weights_of(len: int) -> Option<Seq<int>> {
    if len == 4 {
        Some(Seq::new(4, |i: int| short_hours_weight(i)))
    } else if len == 11 {
        Some(Seq::new(11, |i: int| long_hours_weight(i)))
    } else {
        None
    }
}

/// Sum of the first `n` counts.
pub open spec fn total(counts: Seq<u32>, n: int) -> int
    decreases n,
{
    if n <= 0 {
        0
    } else {
        total(counts, n - 1) + counts[n - 1] as int
    }
}

/// Sum of `counts[i] * weights[i]` over the first `n` buckets.
pub open spec fn dot(counts: Seq<u32>, weights: Seq<int>, n: int) -> int
    decreases n,
{
    if n <= 0 {
        0
    } else {
        dot(counts, weights, n - 1) + counts[n - 1] as int * weights[n - 1]
    }
}

/// The GPA weights laid out over a distribution of length `len`.
pub open spec fn gpa_weights(len: int) -> Seq<int> {
    Seq::new(len as nat, |i: int| gpa_weight(i))
}

/// A weighted mean kept as an exact fraction, or the absence of any applicable response.
#[derive(Clone, Copy, Debug, PartialEq, Eq)]
pub enum WeightedMean {
    NoData,
    Ratio { points: u64, responses: u64 },
}

/// The mean with numerator `points` over `responses` included responses.
pub open spec fn mean_of(points: int, responses: int) -> WeightedMean {
    if responses == 0 {
        WeightedMean::NoData
    } else {
        WeightedMean::Ratio { points: points as u64, responses: responses as u64 }
    }
}

/// `points / responses` in hundredths, rounded half up.
pub open spec fn rounded_hundredths(points: int, responses: int) -> int {
    (200 * points + responses) / (2 * responses)
}

/// What a mean shows in hundredths: the sentinel -100 (that is, -1.00) when there is no data.
pub open spec fn hundredths_of(m: WeightedMean) -> int {
    match m {
        WeightedMean::NoData => -100,
        WeightedMean::Ratio { points, responses } => rounded_hundredths(
            points as int,
            responses as int,
        ),
    }
}

/// The GPA of a grade distribution.
pub open spec fn gpa_spec(counts: Seq<u32>) -> WeightedMean {
    mean_of(dot(counts, gpa_weights(counts.len() as int), counts.len() as int), total(counts, gpa_included(counts.len() as int)))
}

/// The mean hours of an hours distribution, or `None` for a length without a weight vector.
pub open spec fn hours_spec(counts: Seq<u32>) -> Option<WeightedMean> {
    match hours_weights_of(counts.len() as int) {
        Some(w) => Some(mean_of(dot(counts, w, counts.len() as int), total(counts, counts.len() as int))),
        None => None,
    }
}

/// Error of the statistics functions.
#[derive(Clone, Copy, Debug, PartialEq, Eq)]
pub enum StatsError {
    /// The distribution has a number of buckets for which no weight vector exists.
    UnrecognizedShape { len: usize },
}

pub const MAX_BUCKETS: usize = 11;

pub const MAX_WEIGHT: u64 = 21;

impl WeightedMean {
    /// Bounds that every mean produced by this module meets.
    pub open spec fn wf(self) -> bool {
        match self {
            WeightedMean::NoData => true,
            WeightedMean::Ratio { points, responses } => 0 < responses
                && responses <= 11 * 0xffff_ffffu64 && points <= 11 * 21 * 0xffff_ffffu64,
        }
    }

    /// The mean in hundredths, rounded half up; -100 when there is no data.
    pub fn hundredths(&self) -> (r: i64)
        requires
            self.wf(),
        ensures
            r as int == hundredths_of(*self),
    {
        match *self {
            WeightedMean::NoData => -100,
            WeightedMean::Ratio { points, responses } => {
                ((200 * points + responses) / (2 * responses)) as i64
            },
        }
    }

    pub fn is_no_data(&self) -> (r: bool)
        ensures
            r == (*self is NoData),
    {
        matches!(*self, WeightedMean::NoData)
    }
}

proof fn lemma_total_bound(counts: Seq<u32>, n: int)
    requires
        0 <= n <= counts.len(),
    ensures
        0 <= total(counts, n) <= n * 0xffff_ffff,
    decreases n,
{
    if n > 0 {
        lemma_total_bound(counts, n - 1);
    }
}

proof fn lemma_dot_bound(counts: Seq<u32>, weights: Seq<int>, n: int)
    requires
        0 <= n <= counts.len(),
        n <= weights.len(),
        forall|i: int| 0 <= i < n ==> 0 <= #[trigger] weights[i] <= 21,
    ensures
        0 <= dot(counts, weights, n) <= n * 21 * 0xffff_ffff,
    decreases n,
{
    if n > 0 {
        lemma_dot_bound(counts, weights, n - 1);
        let c = counts[n - 1] as int;
        let w = weights[n - 1];
        assert(0 <= c * w <= 21 * 0xffff_ffff) by (nonlinear_arith)
            requires
                0 <= c <= 0xffff_ffff,
                0 <= w <= 21,
        ;
    }
}

/// `dot` only reads the first `n` entries of each sequence.
proof fn lemma_dot_prefix(counts: Seq<u32>, w1: Seq<int>, w2: Seq<int>, n: int)
    requires
        0 <= n,
        forall|i: int| 0 <= i < n ==> w1[i] == w2[i],
    ensures
        dot(counts, w1, n) == dot(counts, w2, n),
    decreases n,
{
    if n > 0 {
        lemma_dot_prefix(counts, w1, w2, n - 1);
    }
}

/// `dot` over buckets whose weight is zero adds nothing.
proof fn lemma_dot_zero_tail(counts: Seq<u32>, weights: Seq<int>, k: int, n: int)
    requires
        0 <= k <= n,
        forall|i: int| k <= i < n ==> weights[i] == 0,
    ensures
        dot(counts, weights, n) == dot(counts, weights, k),
    decreases n - k,
{
    if n > k {
        lemma_dot_zero_tail(counts, weights, k, n - 1);
    }
}

/// Weighted mean of the first `weights.len()` buckets over the first `included` buckets.
fn weighted_mean(counts: &Vec<u32>, weights: &Vec<u64>, included: usize) -> (r: WeightedMean)
    requires
        weights@.len() <= counts@.len(),
        included <= counts@.len(),
        weights@.len() <= MAX_BUCKETS,
        included <= MAX_BUCKETS,
        forall|i: int| 0 <= i < weights@.len() ==> #[trigger] weights@[i] <= MAX_WEIGHT,
    ensures
        r == mean_of(
            dot(counts@, weights@.map_values(|w: u64| w as int), weights@.len() as int),
            total(counts@, included as int),
        ),
        r.wf(),
{
    let ghost ws = weights@.map_values(|w: u64| w as int);
    let mut points: u64 = 0;
    let mut i: usize = 0;
    while i < weights.len()
        invariant
            i <= weights@.len() <= counts@.len(),
            weights@.len() <= MAX_BUCKETS,
            ws == weights@.map_values(|w: u64| w as int),
            forall|j: int| 0 <= j < weights@.len() ==> #[trigger] weights@[j] <= MAX_WEIGHT,
            points as int == dot(counts@, ws, i as int),
        decreases weights@.len() - i,
    {
        proof {
            assert forall|j: int| 0 <= j < i + 1 implies 0 <= #[trigger] ws[j] <= 21 by {
                assert(weights@[j] <= MAX_WEIGHT);
            }
            lemma_dot_bound(counts@, ws, i + 1);
        }
        points = points + counts[i] as u64 * weights[i];
        i = i + 1;
    }
    let mut responses: u64 = 0;
    let mut k: usize = 0;
    while k < included
        invariant
            k <= included <= counts@.len(),
            included <= MAX_BUCKETS,
            responses as int == total(counts@, k as int),
        decreases included - k,
    {
        proof {
            lemma_total_bound(counts@, k + 1);
        }
        responses = responses + counts[k] as u64;
        k = k + 1;
    }
    proof {
        lemma_total_bound(counts@, included as int);
        assert forall|j: int| 0 <= j < weights@.len() implies 0 <= #[trigger] ws[j] <= 21 by {
            assert(weights@[j] <= MAX_WEIGHT);
        }
        lemma_dot_bound(counts@, ws, weights@.len() as int);
    }
    if responses == 0 {
        WeightedMean::NoData
    } else {
        WeightedMean::Ratio { points, responses }
    }
}


/// Grade-point average of a grade distribution (A, B, C, D, F, then non-letter buckets).
///
/// A, B, C, D score 4, 3, 2, 1 and F scores 0; buckets after F count neither as points
/// nor as responses. With no letter-graded response the result is `NoData`.
pub fn gpa_mean(counts: &Vec<u32>) -> (r: WeightedMean)
    ensures
        r == gpa_spec(counts@),
        r.wf(),
{
    let len = counts.len();
    let all: [u64; 4] = [4, 3, 2, 1];
    let mut weights: Vec<u64> = Vec::new();
    let mut i: usize = 0;
    while i < 4 && i < len
        invariant
            i <= 4,
            i <= len == counts@.len(),
            all@ == seq![4u64, 3u64, 2u64, 1u64],
            weights@.len() == i,
            forall|j: int| 0 <= j < i ==> #[trigger] weights@[j] as int == gpa_weight(j),
        decreases 4 - i,
    {
        weights.push(all[i]);
        i = i + 1;
    }
    let included: usize = if len < 5 { len } else { 5 };
    let r = weighted_mean(counts, &weights, included);
    proof {
        let n = len as int;
        let ws = weights@.map_values(|w: u64| w as int);
        let gw = gpa_weights(n);
        assert(i == if len < 4 { len } else { 4 });
        lemma_dot_zero_tail(counts@, gw, i as int, n);
        lemma_dot_prefix(counts@, gw, ws, i as int);
    }
    r
}

/// The weight vector of an hours distribution with `len` buckets.
///
/// Four buckets weigh 0, 5, 10, 15; eleven buckets weigh 1, 3, ..., 21; any other length
/// is an unrecognized shape.
pub fn hours_weights(len: usize) -> (r: Result<Vec<u64>, StatsError>)
    ensures
        match hours_weights_of(len as int) {
            Some(w) => r is Ok && r->Ok_0@.map_values(|x: u64| x as int) == w,
            None => r == Err::<Vec<u64>, StatsError>(StatsError::UnrecognizedShape { len }),
        },
        r is Ok ==> forall|i: int|
            0 <= i < r->Ok_0@.len() ==> #[trigger] r->Ok_0@[i] <= MAX_WEIGHT,
        len == 4 ==> r is Ok && r->Ok_0@ == seq![0u64, 5u64, 10u64, 15u64],
        len == 11 ==> r is Ok && r->Ok_0@ == seq![
            1u64,
            3u64,
            5u64,
            7u64,
            9u64,
            11u64,
            13u64,
            15u64,
            17u64,
            19u64,
            21u64,
        ],
{
    if len != 4 && len != 11 {
        return Err(StatsError::UnrecognizedShape { len });
    }
    let mut w: Vec<u64> = Vec::new();
    let mut i: u64 = 0;
    while (i as usize) < len
        invariant
            len == 4 || len == 11,
            i <= len,
            w@.len() == i,
            forall|j: int|
                0 <= j < i ==> #[trigger] w@[j] as int == if len == 4 {
                    short_hours_weight(j)
                } else {
                    long_hours_weight(j)
                },
        decreases len - i,
    {
        if len == 4 {
            w.push(5 * i);
        } else {
            w.push(2 * i + 1);
        }
        i = i + 1;
    }
    proof {
        let ws = w@.map_values(|x: u64| x as int);
        assert(ws =~= hours_weights_of(len as int)->Some_0);
        if len == 4 {
            assert(w@ =~= seq![0u64, 5u64, 10u64, 15u64]);
        } else {
            assert(w@ =~= seq![1u64, 3u64, 5u64, 7u64, 9u64, 11u64, 13u64, 15u64, 17u64, 19u64, 21u64]);
        }
    }
    Ok(w)
}

/// Mean weekly hours of an hours distribution, weighted by `hours_weights`.
pub fn hours_mean(counts: &Vec<u32>) -> (r: Result<WeightedMean, StatsError>)
    ensures
        match hours_spec(counts@) {
            Some(m) => r == Ok::<WeightedMean, StatsError>(m),
            None => r == Err::<WeightedMean, StatsError>(
                StatsError::UnrecognizedShape { len: counts@.len() as usize },
            ),
        },
        r is Ok ==> r->Ok_0.wf(),
{
    let weights = match hours_weights(counts.len()) {
        Ok(w) => w,
        Err(e) => return Err(e),
    };
    let m = weighted_mean(counts, &weights, counts.len());
    Ok(m)
}

/// An hours distribution, tagged by the scale it was read on.
#[derive(Clone, Debug, PartialEq, Eq)]
pub enum HoursCounts {
    /// Four buckets: 0, 5, 10, 15 hours.
    Short(Vec<u32>),
    /// Eleven buckets: 1, 3, ..., 21 hours.
    Long(Vec<u32>),
}

impl HoursCounts {
    pub open spec fn wf(&self) -> bool {
        match self {
            HoursCounts::Short(v) => v@.len() == 4,
            HoursCounts::Long(v) => v@.len() == 11,
        }
    }

    pub open spec fn counts_spec(&self) -> Seq<u32> {
        match self {
            HoursCounts::Short(v) => v@,
            HoursCounts::Long(v) => v@,
        }
    }

    /// The raw counts, in bucket order.
    pub fn counts(&self) -> (r: &Vec<u32>)
        ensures
            r@ == self.counts_spec(),
    {
        match self {
            HoursCounts::Short(v) => v,
            HoursCounts::Long(v) => v,
        }
    }

    /// Tags a distribution by its length; a length other than 4 or 11 is refused.
    pub fn from_counts(v: Vec<u32>) -> (r: Result<HoursCounts, StatsError>)
        ensures
            v@.len() == 4 ==> r == Ok::<HoursCounts, StatsError>(HoursCounts::Short(v)),
            v@.len() == 11 ==> r == Ok::<HoursCounts, StatsError>(HoursCounts::Long(v)),
            v@.len() != 4 && v@.len() != 11 ==> r == Err::<HoursCounts, StatsError>(
                StatsError::UnrecognizedShape { len: v@.len() as usize },
            ),
    {
        let len = v.len();
        if len == 4 {
            Ok(HoursCounts::Short(v))
        } else if len == 11 {
            Ok(HoursCounts::Long(v))
        } else {
            Err(StatsError::UnrecognizedShape { len })
        }
    }

    /// Mean weekly hours, with the weight vector of the tag.
    pub fn mean(&self) -> (r: WeightedMean)
        requires
            self.wf(),
        ensures
            hours_spec(self.counts_spec()) == Some(r),
            r.wf(),
    {
        match hours_mean(self.counts()) {
            Ok(m) => m,
            Err(_) => WeightedMean::NoData,
        }
    }
}

/// A grade distribution with no response at all has no GPA: it shows the sentinel -1.00,
/// whatever its length.
pub proof fn lemma_gpa_of_zeros_is_sentinel(counts: Seq<u32>)
    requires
        forall|i: int| 0 <= i < counts.len() ==> counts[i] == 0,
    ensures
        gpa_spec(counts) == WeightedMean::NoData,
        hundredths_of(gpa_spec(counts)) == -100,
{
    lemma_total_zeros(counts, gpa_included(counts.len() as int));
}

proof fn lemma_total_zeros(counts: Seq<u32>, n: int)
    requires
        0 <= n <= counts.len(),
        forall|i: int| 0 <= i < counts.len() ==> counts[i] == 0,
    ensures
        total(counts, n) == 0,
    decreases n,
{
    if n > 0 {
        lemma_total_zeros(counts, n - 1);
    }
}

} // verus!
