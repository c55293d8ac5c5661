//! The anomaly engine: for every feature a running mean, a running
//! deviation and a moving average, kept in thousandths; an observation is
//! scored against them first and joins them afterwards.

use vstd::prelude::*;
use crate::text::decimal_text;
use crate::text::str_eq;
use crate::text::u64_to_text;

verus! {

/// The largest magnitude of an observation, in thousandths.
pub const VALUE_LIMIT: i64 = 1_000_000_000_000;

/// The number of samples after which a profile stops learning.
pub const COUNT_LIMIT: u64 = 1_000_000_000;

/// The floor of the deviation: 0.01, in thousandths.
pub const EPSILON: u64 = 10;

/// One, in thousandths.
pub const MILLI: u64 = 1000;

/// The magnitude of a number.
pub open spec fn magnitude(v: int) -> int {
    if v >= 0 {
        v
    } else {
        -v
    }
}

/// Division that rounds towards zero, for a positive divisor.
pub open spec fn trunc_div(a: int, b: int) -> int {
    if a >= 0 {
        a / b
    } else {
        -((-a) / b)
    }
}

/// Whether `r` is the integer square root of `v`: the largest number whose
/// square is at most `v`.
pub open spec fn is_sqrt(r: int, v: int) -> bool {
    0 <= r && r * r <= v && v < (r + 1) * (r + 1)
}

/// The integer square root of a number that is not negative.
pub open spec fn int_sqrt(v: int) -> int {
    choose|r: int| is_sqrt(r, v)
}

/// A number has one integer square root at most.
pub proof fn lemma_sqrt_unique(a: int, b: int, v: int)
    requires
        is_sqrt(a, v),
        is_sqrt(b, v),
    ensures
        a == b,
{
    if a < b {
        assert((a + 1) * (a + 1) <= b * b) by (nonlinear_arith)
            requires
                0 <= a,
                a + 1 <= b,
        ;
    } else if b < a {
        assert((b + 1) * (b + 1) <= a * a) by (nonlinear_arith)
            requires
                0 <= b,
                b + 1 <= a,
        ;
    }
}

/// The integer square root of `v`, for `v` below 16 * 10^24.
pub fn isqrt(v: u128) -> (r: u64)
    requires
        v < 16_000_000_000_000_000_000_000_000,
    ensures
        r == int_sqrt(v as int),
        is_sqrt(r as int, v as int),
        r < 4_000_000_000_000,
{
    let mut lo: u128 = 0;
    let mut hi: u128 = 4_000_000_000_000;
    assert(hi * hi == 16_000_000_000_000_000_000_000_000) by (nonlinear_arith)
        requires
            hi == 4_000_000_000_000,
    ;
    while hi - lo > 1
        invariant
            lo < hi,
            hi <= 4_000_000_000_000,
            lo * lo <= v,
            v < hi * hi,
        decreases hi - lo,
    {
        let mid = lo + (hi - lo) / 2;
        assert(mid * mid <= 16_000_000_000_000_000_000_000_000) by (nonlinear_arith)
            requires
                mid <= 4_000_000_000_000,
        ;
        if mid * mid <= v {
            lo = mid;
        } else {
            hi = mid;
        }
    }
    proof {
        assert(hi == lo + 1);
        assert(is_sqrt(lo as int, v as int));
        let chosen = int_sqrt(v as int);
        assert(is_sqrt(chosen, v as int));
        lemma_sqrt_unique(lo as int, chosen, v as int);
    }
    lo as u64
}

/// What is kept for one feature.
#[derive(Debug, PartialEq, Eq)]
pub struct AnomalyProfile {
    pub feature: String,
    /// How many observations have joined the profile.
    pub count: u64,
    /// The running mean, in thousandths.
    pub mean: i64,
    /// The sum of the squared deviations from the mean.
    pub m2: u128,
    /// The exponentially weighted moving average, in thousandths.
    pub ewma: i64,
}

/// What an `AnomalyProfile` holds, as mathematical values.
pub struct ProfileView {
    pub feature: Seq<char>,
    pub count: u64,
    pub mean: i64,
    pub m2: u128,
    pub ewma: i64,
}

impl DeepView for AnomalyProfile {
    type V = ProfileView;

    open spec fn deep_view(&self) -> ProfileView {
        ProfileView {
            feature: self.feature@,
            count: self.count,
            mean: self.mean,
            m2: self.m2,
            ewma: self.ewma,
        }
    }
}

impl View for AnomalyProfile {
    type V = ProfileView;

    open spec fn view(&self) -> ProfileView {
        self.deep_view()
    }
}

/// How the engine scores: the warm-up, the threshold and the smoothing.
#[derive(Clone, Copy, Debug, PartialEq, Eq, Structural)]
pub struct AnomalyParams {
    /// An observation can be anomalous from this ordinal on.
    pub min_samples: u64,
    /// The threshold of the Z-score, in thousandths.
    pub z_threshold: u32,
    /// The smoothing factor of the moving average, in thousandths of one.
    pub ewma_alpha: u16,
}

/// The parameters as an engine takes them: the smoothing is held to one.
pub open spec fn limited(min_samples: u64, z_threshold: u32, ewma_alpha: u16) -> AnomalyParams {
    AnomalyParams {
        min_samples,
        z_threshold,
        ewma_alpha: if ewma_alpha > 1000 {
            1000
        } else {
            ewma_alpha
        },
    }
}

impl ProfileView {
    /// The profile's invariant: the statistics stay within the bounds that
    /// observations within `VALUE_LIMIT` give them.
    pub open spec fn wf(self) -> bool {
        &&& self.count <= COUNT_LIMIT
        &&& -VALUE_LIMIT <= self.mean <= VALUE_LIMIT
        &&& -VALUE_LIMIT <= self.ewma <= VALUE_LIMIT
        &&& self.m2 <= self.count * 4 * VALUE_LIMIT * VALUE_LIMIT
    }

    /// The variance of the observations, zero without any.
    pub open spec fn variance(self) -> int {
        if self.count == 0 {
            0
        } else {
            self.m2 as int / self.count as int
        }
    }

    /// The deviation that scores are measured in: the standard deviation,
    /// but `EPSILON` at least.
    pub open spec fn spread(self) -> int {
        if int_sqrt(self.variance()) > EPSILON {
            int_sqrt(self.variance())
        } else {
            EPSILON as int
        }
    }

    /// The mean that an observation is held against; the observation itself
    /// where the profile is empty.
    pub open spec fn baseline(self, x: i64) -> int {
        if self.count == 0 {
            x as int
        } else {
            self.mean as int
        }
    }

    /// The moving average that an observation is held against; the
    /// observation itself where the profile is empty.
    pub open spec fn trend(self, x: i64) -> int {
        if self.count == 0 {
            x as int
        } else {
            self.ewma as int
        }
    }

    /// The magnitude of the Z-score of an observation, in thousandths.
    pub open spec fn z_score(self, x: i64) -> int {
        magnitude(x - self.baseline(x)) * 1000 / self.spread()
    }

    /// How far an observation lies from the moving average.
    pub open spec fn ewma_deviation(self, x: i64) -> int {
        magnitude(x - self.trend(x))
    }

    /// The score of an observation: the larger of the magnitude of its
    /// Z-score and its distance from the moving average.
    pub open spec fn score(self, x: i64) -> int {
        if self.z_score(x) >= self.ewma_deviation(x) {
            self.z_score(x)
        } else {
            self.ewma_deviation(x)
        }
    }

    /// An observation is anomalous iff, counted with those before it, it is
    /// at least the `min_samples`-th of its feature, and its Z-score is
    /// above the threshold or its distance from the moving average is above
    /// the threshold times the deviation.
    pub open spec fn anomalous(self, x: i64, params: AnomalyParams) -> bool {
        &&& self.count + 1 >= params.min_samples
        &&& (self.z_score(x) > params.z_threshold || self.ewma_deviation(x) * 1000
            > params.z_threshold * self.spread())
    }

    /// The confidence in an anomaly: the score over the threshold, one at
    /// most, in thousandths.
    pub open spec fn confidence(self, x: i64, params: AnomalyParams) -> int {
        if params.z_threshold == 0 {
            1000
        } else if self.score(x) * 1000 / (params.z_threshold as int) > 1000 {
            1000
        } else {
            self.score(x) * 1000 / (params.z_threshold as int)
        }
    }

    /// The profile after an observation joined it. The first observation
    /// sets mean and moving average; every later one moves the mean by its
    /// share of the difference, adds to the squared deviations, and moves
    /// the moving average by the smoothing factor. A profile that has
    /// reached `COUNT_LIMIT` stays as it is.
    pub open spec fn updated(self, x: i64, params: AnomalyParams) -> ProfileView {
        if self.count >= COUNT_LIMIT {
            self
        } else if self.count == 0 {
            ProfileView { count: 1, mean: x, m2: 0, ewma: x, ..self }
        } else {
            let n = self.count + 1;
            let delta = x - self.mean;
            let mean = self.mean + trunc_div(delta, n);
            ProfileView {
                count: n as u64,
                mean: mean as i64,
                m2: (self.m2 + delta * (x - mean)) as u128,
                ewma: trunc_div(
                    params.ewma_alpha * x + (1000 - params.ewma_alpha) * self.ewma,
                    1000,
                ) as i64,
                ..self
            }
        }
    }
}

/// An empty profile scores nothing as far from itself.
pub proof fn lemma_empty_profile_scores_zero(p: ProfileView, x: i64)
    requires
        p.count == 0,
    ensures
        p.z_score(x) == 0,
        p.ewma_deviation(x) == 0,
        p.score(x) == 0,
{
    assert(0int * 1000 / p.spread() == 0) by (nonlinear_arith)
        requires
            p.spread() >= 10,
    ;
}

/// No observation is anomalous during warm-up: one that, counted with those
/// before it, is not yet the `min_samples`-th of its feature.
pub proof fn lemma_warm_up_is_never_anomalous(p: ProfileView, x: i64, params: AnomalyParams)
    requires
        p.count + 1 < params.min_samples,
    ensures
        !p.anomalous(x, params),
{
}

/// The distance between two numbers within `VALUE_LIMIT`.
pub fn distance(a: i64, b: i64) -> (r: u64)
    requires
        -VALUE_LIMIT <= a <= VALUE_LIMIT,
        -VALUE_LIMIT <= b <= VALUE_LIMIT,
    ensures
        r == magnitude(a - b),
        r <= 2 * VALUE_LIMIT,
{
    if a >= b {
        (a - b) as u64
    } else {
        (b - a) as u64
    }
}

/// What scoring an observation gave.
#[derive(Clone, Copy, Debug, PartialEq, Eq, Structural)]
pub struct AnomalyScore {
    /// The larger of Z-score and distance from the moving average.
    pub score: u64,
    pub is_anomaly: bool,
    /// Thousandths of one.
    pub confidence: u16,
    /// The magnitude of the Z-score, in thousandths.
    pub z_score: u64,
    /// The distance from the moving average, in thousandths.
    pub ewma_deviation: u64,
    /// The deviation the score was measured in, in thousandths.
    pub stddev: u64,
}

/// The score of an observation against a profile.
pub open spec fn score_of(p: ProfileView, x: i64, params: AnomalyParams) -> AnomalyScore {
    AnomalyScore {
        score: p.score(x) as u64,
        is_anomaly: p.anomalous(x, params),
        confidence: p.confidence(x, params) as u16,
        z_score: p.z_score(x) as u64,
        ewma_deviation: p.ewma_deviation(x) as u64,
        stddev: p.spread() as u64,
    }
}

impl AnomalyProfile {
    /// An empty profile for a feature.
    pub fn empty(feature: String) -> (r: AnomalyProfile)
        ensures
            r@ == (ProfileView { feature: feature@, count: 0, mean: 0, m2: 0, ewma: 0 }),
            r@.wf(),
    {
        AnomalyProfile { feature, count: 0, mean: 0, m2: 0, ewma: 0 }
    }

    /// The deviation that scores are measured in.
    pub fn spread(&self) -> (r: u64)
        requires
            self@.wf(),
        ensures
            r == self@.spread(),
            EPSILON <= r < 4_000_000_000_000,
    {
        if self.count == 0 {
            proof {
                assert(is_sqrt(0, 0));
                lemma_sqrt_unique(0, int_sqrt(0), 0);
            }
            return EPSILON;
        }
        let variance = self.m2 / (self.count as u128);
        proof {
            let limit = 4 * VALUE_LIMIT * VALUE_LIMIT;
            assert(self.m2 <= self.count * limit) by (nonlinear_arith)
                requires
                    self.m2 <= self.count * 4 * VALUE_LIMIT * VALUE_LIMIT,
                    limit == 4 * VALUE_LIMIT * VALUE_LIMIT,
            ;
            assert(self.m2 as int / self.count as int <= limit) by (nonlinear_arith)
                requires
                    self.m2 <= self.count * limit,
                    self.count >= 1,
            ;
            assert(limit == 4_000_000_000_000_000_000_000_000) by (nonlinear_arith)
                requires
                    limit == 4 * VALUE_LIMIT * VALUE_LIMIT,
                    VALUE_LIMIT == 1_000_000_000_000,
            ;
        }
        let root = isqrt(variance);
        if root > EPSILON {
            root
        } else {
            EPSILON
        }
    }

    /// Scores an observation against the profile, which stays as it is.
    pub fn score(&self, x: i64, params: &AnomalyParams) -> (r: AnomalyScore)
        requires
            self@.wf(),
            -VALUE_LIMIT <= x <= VALUE_LIMIT,
        ensures
            r == score_of(self@, x, *params),
            r.confidence <= 1000,
            r.score == self@.score(x),
            r.z_score == self@.z_score(x),
            r.ewma_deviation == self@.ewma_deviation(x),
            r.stddev == self@.spread(),
            r.confidence == self@.confidence(x, *params),
    {
        let spread = self.spread();
        let baseline = if self.count == 0 {
            x
        } else {
            self.mean
        };
        let trend = if self.count == 0 {
            x
        } else {
            self.ewma
        };
        let off = distance(x, baseline);
        let deviation = distance(x, trend);
        let scaled: u128 = off as u128 * 1000;
        let z: u128 = scaled / (spread as u128);
        proof {
            assert(z <= scaled) by (nonlinear_arith)
                requires
                    z == scaled / (spread as u128),
                    spread >= 1,
            ;
        }
        let score: u128 = if z >= deviation as u128 {
            z
        } else {
            deviation as u128
        };
        let over_z = z > params.z_threshold as u128;
        proof {
            assert(params.z_threshold as u128 * spread as u128 <= 0xffff_ffff
                * 4_000_000_000_000) by (nonlinear_arith)
                requires
                    params.z_threshold <= 0xffff_ffff,
                    spread < 4_000_000_000_000,
            ;
        }
        let bound: u128 = params.z_threshold as u128 * spread as u128;
        let over_trend = deviation as u128 * 1000 > bound;
        let warmed = self.count + 1 >= params.min_samples;
        let confidence: u16 = if params.z_threshold == 0 {
            1000
        } else {
            let ratio: u128 = score * 1000 / (params.z_threshold as u128);
            if ratio > 1000 {
                1000
            } else {
                ratio as u16
            }
        };
        AnomalyScore {
            score: score as u64,
            is_anomaly: warmed && (over_z || over_trend),
            confidence,
            z_score: z as u64,
            ewma_deviation: deviation,
            stddev: spread,
        }
    }

    /// Lets an observation join the profile.
    pub fn update(&mut self, x: i64, params: &AnomalyParams)
        requires
            old(self)@.wf(),
            -VALUE_LIMIT <= x <= VALUE_LIMIT,
            params.ewma_alpha <= 1000,
        ensures
            final(self)@ == old(self)@.updated(x, *params),
            final(self)@.wf(),
    {
        if self.count >= COUNT_LIMIT {
            return ;
        }
        if self.count == 0 {
            self.count = 1;
            self.mean = x;
            self.m2 = 0;
            self.ewma = x;
            return ;
        }
        let n: u64 = self.count + 1;
        let gap = distance(x, self.mean);
        let step: u64 = gap / n;
        proof {
            assert(step <= gap) by (nonlinear_arith)
                requires
                    step == gap / n,
                    n >= 1,
            ;
        }
        let rising = x >= self.mean;
        let mean: i64 = if rising {
            self.mean + step as i64
        } else {
            self.mean - step as i64
        };
        let rest: u64 = gap - step;
        proof {
            assert(gap as u128 * rest as u128 <= 4_000_000_000_000_000_000_000_000) by (nonlinear_arith)
                requires
                    rest <= gap,
                    gap <= 2_000_000_000_000,
            ;
        }
        let squares: u128 = gap as u128 * rest as u128;
        let ghost delta: int = x - self.mean;
        proof {
            assert(mean == self.mean + trunc_div(delta, n as int));
            assert(rest == magnitude(x - mean));
            assert(squares == delta * (x - mean)) by (nonlinear_arith)
                requires
                    squares == gap * rest,
                    gap == magnitude(delta),
                    rest == magnitude(x - mean),
                    (delta >= 0 && x - mean >= 0) || (delta <= 0 && x - mean <= 0),
            ;
            assert(squares <= 4 * VALUE_LIMIT * VALUE_LIMIT) by (nonlinear_arith)
                requires
                    squares == gap * rest,
                    rest <= gap,
                    gap <= 2 * VALUE_LIMIT,
                    VALUE_LIMIT == 1_000_000_000_000,
            ;
            assert(self.m2 + squares <= n * 4 * VALUE_LIMIT * VALUE_LIMIT) by (nonlinear_arith)
                requires
                    self.m2 <= self.count * 4 * VALUE_LIMIT * VALUE_LIMIT,
                    squares <= 4 * VALUE_LIMIT * VALUE_LIMIT,
                    n == self.count + 1,
            ;
            assert(n * 4 * VALUE_LIMIT * VALUE_LIMIT <= 4_000_000_000_000_000_000_000_000_000_000_000)
                by (nonlinear_arith)
                requires
                    n <= 1_000_000_000,
                    VALUE_LIMIT == 1_000_000_000_000,
            ;
        }
        let alpha: i64 = params.ewma_alpha as i64;
        proof {
            assert(-1_000_000_000_000_000 <= alpha * x <= 1_000_000_000_000_000) by (nonlinear_arith)
                requires
                    0 <= alpha <= 1000,
                    -1_000_000_000_000 <= x <= 1_000_000_000_000,
            ;
            assert(-1_000_000_000_000_000 <= (1000 - alpha) * self.ewma <= 1_000_000_000_000_000)
                by (nonlinear_arith)
                requires
                    0 <= alpha <= 1000,
                    -1_000_000_000_000 <= self.ewma <= 1_000_000_000_000,
            ;
            assert(-1_000_000_000_000_000 <= alpha * x + (1000 - alpha) * self.ewma
                <= 1_000_000_000_000_000) by (nonlinear_arith)
                requires
                    0 <= alpha <= 1000,
                    -1_000_000_000_000 <= x <= 1_000_000_000_000,
                    -1_000_000_000_000 <= self.ewma <= 1_000_000_000_000,
            ;
        }
        let weighted: i64 = alpha * x + (1000 - alpha) * self.ewma;
        let ewma: i64 = if weighted >= 0 {
            ((weighted as u64) / 1000) as i64
        } else {
            -((((-weighted) as u64) / 1000) as i64)
        };
        self.count = n;
        self.mean = mean;
        self.m2 = self.m2 + squares;
        self.ewma = ewma;
    }
}

/// A number written in decimal, with a minus sign where it is negative.
pub open spec fn signed_text(v: int) -> Seq<char> {
    if v < 0 {
        "-"@ + decimal_text((-v) as nat)
    } else {
        decimal_text(v as nat)
    }
}

/// Writes a number in decimal, with a minus sign where it is negative.
pub fn i64_to_text(v: i64) -> (r: String)
    requires
        v > i64::MIN,
    ensures
        r@ == signed_text(v as int),
{
    if v < 0 {
        let mut s = String::from_str("-");
        let digits = u64_to_text((-v) as u64);
        s.append(digits.as_str());
        s
    } else {
        u64_to_text(v as u64)
    }
}

/// The name of the model that scores.
pub open spec fn model_name() -> Seq<char> {
    "z-score+EWMA"@
}

/// What a score was measured against, name by name, each number written in
/// thousandths.
pub open spec fn details_of(p: ProfileView, x: i64) -> Seq<(Seq<char>, Seq<char>)> {
    seq![
        ("z_score"@, decimal_text(p.z_score(x) as nat)),
        ("ewma_dev"@, decimal_text(p.ewma_deviation(x) as nat)),
        ("mean"@, signed_text(p.baseline(x))),
        ("stddev"@, decimal_text(p.spread() as nat)),
        ("ewma"@, signed_text(p.trend(x))),
    ]
}

/// The verdict of the engine on one observation.
#[derive(Debug, PartialEq, Eq)]
pub struct MLAnomalyResult {
    /// The score, in thousandths.
    pub score: u64,
    pub is_anomaly: bool,
    /// Thousandths of one.
    pub confidence: u16,
    pub model: String,
    pub details: Vec<(String, String)>,
}

/// What an `MLAnomalyResult` holds, as mathematical values.
pub struct MLAnomalyResultView {
    pub score: u64,
    pub is_anomaly: bool,
    pub confidence: u16,
    pub model: Seq<char>,
    pub details: Seq<(Seq<char>, Seq<char>)>,
}

impl DeepView for MLAnomalyResult {
    type V = MLAnomalyResultView;

    open spec fn deep_view(&self) -> MLAnomalyResultView {
        MLAnomalyResultView {
            score: self.score,
            is_anomaly: self.is_anomaly,
            confidence: self.confidence,
            model: self.model@,
            details: self.details.deep_view(),
        }
    }
}

impl View for MLAnomalyResult {
    type V = MLAnomalyResultView;

    open spec fn view(&self) -> MLAnomalyResultView {
        self.deep_view()
    }
}

/// The verdict on an observation held against a profile.
pub open spec fn verdict(p: ProfileView, x: i64, params: AnomalyParams) -> MLAnomalyResultView {
    MLAnomalyResultView {
        score: score_of(p, x, params).score,
        is_anomaly: p.anomalous(x, params),
        confidence: score_of(p, x, params).confidence,
        model: model_name(),
        details: details_of(p, x),
    }
}

/// Whether an observation lies within `VALUE_LIMIT`.
pub open spec fn in_range(x: i64) -> bool {
    -VALUE_LIMIT <= x <= VALUE_LIMIT
}

/// Gives the verdict on an observation held against a profile.
pub fn judge(p: &AnomalyProfile, x: i64, params: &AnomalyParams) -> (r: MLAnomalyResult)
    requires
        p@.wf(),
        in_range(x),
    ensures
        r@ == verdict(p@, x, *params),
        r@.confidence <= 1000,
{
    let outcome = p.score(x, params);
    let baseline = if p.count == 0 {
        x
    } else {
        p.mean
    };
    let trend = if p.count == 0 {
        x
    } else {
        p.ewma
    };
    let mut details: Vec<(String, String)> = Vec::new();
    details.push((String::from_str("z_score"), u64_to_text(outcome.z_score)));
    details.push((String::from_str("ewma_dev"), u64_to_text(outcome.ewma_deviation)));
    details.push((String::from_str("mean"), i64_to_text(baseline)));
    details.push((String::from_str("stddev"), u64_to_text(outcome.stddev)));
    details.push((String::from_str("ewma"), i64_to_text(trend)));
    let r = MLAnomalyResult {
        score: outcome.score,
        is_anomaly: outcome.is_anomaly,
        confidence: outcome.confidence,
        model: String::from_str("z-score+EWMA"),
        details,
    };
    proof {
        assert(r@.details[0] == details_of(p@, x)[0]);
        assert(r@.details[1] == details_of(p@, x)[1]);
        assert(r@.details[2] == details_of(p@, x)[2]);
        assert(r@.details[3] == details_of(p@, x)[3]);
        assert(r@.details[4] == details_of(p@, x)[4]);
        assert(r@.details =~= details_of(p@, x));
    }
    r
}

/// The position of the first profile of this feature; the length of the
/// list where there is none.
pub open spec fn profile_index(profiles: Seq<ProfileView>, feature: Seq<char>) -> int
    decreases profiles.len(),
{
    if profiles.len() == 0 {
        0
    } else if profiles[0].feature == feature {
        0
    } else {
        1 + profile_index(profiles.drop_first(), feature)
    }
}

proof fn lemma_profile_index(profiles: Seq<ProfileView>, feature: Seq<char>, i: int)
    requires
        0 <= i <= profiles.len(),
        forall|j: int| 0 <= j < i ==> profiles[j].feature != feature,
        i == profiles.len() || profiles[i].feature == feature,
    ensures
        profile_index(profiles, feature) == i,
    decreases i,
{
    if i > 0 {
        let t = profiles.drop_first();
        assert forall|j: int| 0 <= j < i - 1 implies t[j].feature != feature by {
            assert(t[j] == profiles[j + 1]);
        }
        lemma_profile_index(t, feature, i - 1);
    }
}

/// The profile without observations.
pub open spec fn empty_profile(feature: Seq<char>) -> ProfileView {
    ProfileView { feature, count: 0, mean: 0, m2: 0, ewma: 0 }
}

/// The profile that an observation of a feature is held against: the
/// feature's profile, or an empty one where the feature is new.
pub open spec fn profile_for(profiles: Seq<ProfileView>, feature: Seq<char>) -> ProfileView {
    if profile_index(profiles, feature) < profiles.len() {
        profiles[profile_index(profiles, feature)]
    } else {
        empty_profile(feature)
    }
}

/// The state of the anomaly engine, as mathematical values.
pub struct AnomalyEngineView {
    pub profiles: Seq<ProfileView>,
    pub params: AnomalyParams,
}

impl AnomalyEngineView {
    /// The engine's invariant: every profile keeps its own, and the
    /// smoothing factor is one at most.
    pub open spec fn wf(self) -> bool {
        &&& forall|i: int| 0 <= i < self.profiles.len() ==> (#[trigger] self.profiles[i]).wf()
        &&& self.params.ewma_alpha <= 1000
    }

    /// The engine after an observation joined the profile of its feature; a
    /// new feature gets its profile at the end.
    pub open spec fn learned(self, feature: Seq<char>, x: i64) -> AnomalyEngineView {
        let i = profile_index(self.profiles, feature);
        AnomalyEngineView {
            profiles: if i < self.profiles.len() {
                self.profiles.update(i, self.profiles[i].updated(x, self.params))
            } else {
                self.profiles.push(empty_profile(feature).updated(x, self.params))
            },
            ..self
        }
    }
}

/// The anomaly engine.
pub struct MLAnomalyEngine {
    profiles: Vec<AnomalyProfile>,
    params: AnomalyParams,
}

impl View for MLAnomalyEngine {
    type V = AnomalyEngineView;

    closed spec fn view(&self) -> AnomalyEngineView {
        AnomalyEngineView { profiles: self.profiles.deep_view(), params: self.params }
    }
}

impl MLAnomalyEngine {
    /// An engine without profiles. The threshold is in thousandths; the
    /// smoothing factor is in thousandths of one and is cut to one.
    pub fn new(min_samples: u64, z_threshold: u32, ewma_alpha: u16) -> (r: Self)
        ensures
            r@.wf(),
            r@ == (AnomalyEngineView {
                profiles: Seq::empty(),
                params: limited(min_samples, z_threshold, ewma_alpha),
            }),
    {
        let r = MLAnomalyEngine {
            profiles: Vec::new(),
            params: AnomalyParams {
                min_samples,
                z_threshold,
                ewma_alpha: if ewma_alpha > 1000 {
                    1000
                } else {
                    ewma_alpha
                },
            },
        };
        proof {
            assert(r@.profiles =~= Seq::empty());
        }
        r
    }

    /// How the engine scores.
    pub fn params(&self) -> (r: AnomalyParams)
        ensures
            r == self@.params,
    {
        self.params
    }

    /// Where the profile of a feature stands.
    fn position(&self, feature: &str) -> (i: usize)
        ensures
            i as int == profile_index(self@.profiles, feature@),
            i <= self.profiles@.len(),
    {
        let mut i: usize = 0;
        while i < self.profiles.len()
            invariant
                i <= self.profiles@.len(),
                forall|j: int| 0 <= j < i ==> self@.profiles[j].feature != feature@,
            decreases self.profiles@.len() - i,
        {
            if str_eq(self.profiles[i].feature.as_str(), feature) {
                proof {
                    lemma_profile_index(self@.profiles, feature@, i as int);
                }
                return i;
            }
            i += 1;
        }
        proof {
            lemma_profile_index(self@.profiles, feature@, i as int);
        }
        i
    }

    /// Scores an observation of a feature; the profiles stay as they are.
    /// `None` for an observation beyond `VALUE_LIMIT`.
    pub fn score(&self, feature: &str, value: i64) -> (r: Option<MLAnomalyResult>)
        requires
            self@.wf(),
        ensures
            r is Some <==> in_range(value),
            r is Some ==> r->Some_0@ == verdict(
                profile_for(self@.profiles, feature@),
                value,
                self@.params,
            ),
    {
        if value < -VALUE_LIMIT || value > VALUE_LIMIT {
            return None;
        }
        let i = self.position(feature);
        if i < self.profiles.len() {
            proof {
                assert(self@.profiles[i as int].wf());
            }
            Some(judge(&self.profiles[i], value, &self.params))
        } else {
            let blank = AnomalyProfile::empty(String::from_str(feature));
            Some(judge(&blank, value, &self.params))
        }
    }

    /// Lets an observation join the profile of its feature. Says whether it
    /// did: an observation beyond `VALUE_LIMIT` changes nothing.
    pub fn update_stats(&mut self, feature: &str, value: i64) -> (r: bool)
        requires
            old(self)@.wf(),
        ensures
            final(self)@.wf(),
            r == in_range(value),
            r ==> final(self)@ == old(self)@.learned(feature@, value),
            !r ==> final(self)@ == old(self)@,
    {
        if value < -VALUE_LIMIT || value > VALUE_LIMIT {
            return false;
        }
        let i = self.position(feature);
        let params = self.params;
        let ghost before = self@.profiles;
        if i < self.profiles.len() {
            proof {
                assert(before[i as int].wf());
            }
            self.profiles[i].update(value, &params);
            proof {
                assert(self@.profiles =~= before.update(
                    i as int,
                    before[i as int].updated(value, params),
                ));
                assert forall|j: int| 0 <= j < self@.profiles.len() implies (
                #[trigger] self@.profiles[j]).wf() by {
                    if j != i {
                        assert(self@.profiles[j] == before[j]);
                    }
                }
            }
        } else {
            let mut fresh = AnomalyProfile::empty(String::from_str(feature));
            fresh.update(value, &params);
            self.profiles.push(fresh);
            proof {
                assert(self@.profiles =~= before.push(
                    empty_profile(feature@).updated(value, params),
                ));
                assert forall|j: int| 0 <= j < self@.profiles.len() implies (
                #[trigger] self@.profiles[j]).wf() by {
                    if j < before.len() {
                        assert(self@.profiles[j] == before[j]);
                    }
                }
            }
        }
        true
    }

    /// Takes an observation: it is scored first, against the statistics as
    /// they stood before it, and joins them afterwards. `None`, and nothing
    /// changed, for an observation beyond `VALUE_LIMIT`.
    pub fn observe(&mut self, feature: &str, value: i64) -> (r: Option<MLAnomalyResult>)
        requires
            old(self)@.wf(),
        ensures
            final(self)@.wf(),
            r is Some <==> in_range(value),
            r is Some ==> r->Some_0@ == verdict(
                profile_for(old(self)@.profiles, feature@),
                value,
                old(self)@.params,
            ) && final(self)@ == old(self)@.learned(feature@, value),
            r is None ==> final(self)@ == old(self)@,
    {
        let scored = self.score(feature, value);
        let _ = self.update_stats(feature, value);
        scored
    }

    /// Scores several observations, each of its own feature; the profiles
    /// stay as they are.
    pub fn batch_score(&self, features: &Vec<(String, i64)>) -> (r: Vec<Option<MLAnomalyResult>>)
        requires
            self@.wf(),
        ensures
            r@.len() == features@.len(),
            forall|i: int|
                0 <= i < features@.len() ==> ((#[trigger] r@[i]) is Some <==> in_range(
                    features@[i].1,
                )),
            forall|i: int|
                0 <= i < features@.len() && (#[trigger] r@[i]) is Some ==> r@[i]->Some_0@ == verdict(
                    profile_for(self@.profiles, features@[i].0@),
                    features@[i].1,
                    self@.params,
                ),
    {
        let mut results: Vec<Option<MLAnomalyResult>> = Vec::new();
        let mut i: usize = 0;
        while i < features.len()
            invariant
                i <= features@.len(),
                self@.wf(),
                results@.len() == i,
                forall|j: int|
                    0 <= j < i ==> ((#[trigger] results@[j]) is Some <==> in_range(features@[j].1)),
                forall|j: int|
                    0 <= j < i && (#[trigger] results@[j]) is Some ==> results@[j]->Some_0@
                        == verdict(
                        profile_for(self@.profiles, features@[j].0@),
                        features@[j].1,
                        self@.params,
                    ),
            decreases features@.len() - i,
        {
            let one = self.score(features[i].0.as_str(), features[i].1);
            results.push(one);
            i += 1;
        }
        results
    }

    /// How many features have a profile.
    pub fn profile_count(&self) -> (r: usize)
        ensures
            r == self@.profiles.len(),
    {
        self.profiles.len()
    }
}

/// A backend that gives a verdict on one observation of a feature and
/// learns nothing from it. The statistical engine is the backend of this
/// library; another backend answers through the same interface, and says
/// in `verdict_on` what it answers.
pub trait AnomalyScorer {
    /// What has to hold of the backend before it is asked.
    spec fn ready(&self) -> bool;

    /// The backend's verdict on an observation; none where it gives none.
    spec fn verdict_on(&self, feature: Seq<char>, value: i64) -> Option<MLAnomalyResultView>;

    /// Gives the verdict on an observation of a feature.
    fn score_observation(&self, feature: &str, value: i64) -> (r: Option<MLAnomalyResult>)
        requires
            self.ready(),
        ensures
            r.deep_view() == self.verdict_on(feature@, value),
    ;
}

impl AnomalyScorer for MLAnomalyEngine {
    open spec fn ready(&self) -> bool {
        self@.wf()
    }

    open spec fn verdict_on(&self, feature: Seq<char>, value: i64) -> Option<MLAnomalyResultView> {
        if in_range(value) {
            Some(verdict(profile_for(self@.profiles, feature), value, self@.params))
        } else {
            None
        }
    }

    fn score_observation(&self, feature: &str, value: i64) -> (r: Option<MLAnomalyResult>) {
        self.score(feature, value)
    }
}

} // verus!
