//! The two poles (Liangyyi) and the four images (Sixiang) of the state
//! evolution system, with the laws of their cycles.

use vstd::prelude::*;
use std::collections::VecDeque;
use crate::text::{chars_of, chars_equal};

verus! {

/// The two poles: Taiyin (still, inward) and Taiyang (active, outward).
#[derive(Debug, Clone, Copy, PartialEq, Eq, Hash, Structural)]
pub enum Liangyyi {
    /// 太阴 ☽
    Taiyin,
    /// 太阳 ☉
    Taiyang,
}

/// The opposite pole.
pub open spec fn opposite_of(l: Liangyyi) -> Liangyyi {
    match l {
        Liangyyi::Taiyin => Liangyyi::Taiyang,
        Liangyyi::Taiyang => Liangyyi::Taiyin,
    }
}

impl Liangyyi {
    /// The opposite pole.
    pub fn opposite(&self) -> (r: Liangyyi)
        ensures
            r == opposite_of(*self),
    {
        match self {
            Liangyyi::Taiyin => Liangyyi::Taiyang,
            Liangyyi::Taiyang => Liangyyi::Taiyin,
        }
    }

    /// The symbol of the pole.
    pub fn symbol(&self) -> (r: &'static str)
        ensures
            *self == Liangyyi::Taiyin ==> r@ == "☽"@,
            *self == Liangyyi::Taiyang ==> r@ == "☉"@,
    {
        match self {
            Liangyyi::Taiyin => "☽",
            Liangyyi::Taiyang => "☉",
        }
    }

    /// A short description of the pole.
    pub fn description(&self) -> (r: &'static str)
        ensures
            *self == Liangyyi::Taiyin ==> r@ == "太阴·静·收·聚·藏"@,
            *self == Liangyyi::Taiyang ==> r@ == "太阳·动·放·散·发"@,
    {
        match self {
            Liangyyi::Taiyin => "太阴·静·收·聚·藏",
            Liangyyi::Taiyang => "太阳·动·放·散·发",
        }
    }

    /// Whether this is the yin pole.
    pub fn is_yin(&self) -> (r: bool)
        ensures
            r == (*self == Liangyyi::Taiyin),
    {
        matches!(self, Liangyyi::Taiyin)
    }

    /// Whether this is the yang pole.
    pub fn is_yang(&self) -> (r: bool)
        ensures
            r == (*self == Liangyyi::Taiyang),
    {
        matches!(self, Liangyyi::Taiyang)
    }
}

/// Turning to the opposite twice gives back the pole, and no pole is its own
/// opposite; a pole is yin exactly when its opposite is yang.
pub proof fn law_opposite_involution(l: Liangyyi)
    ensures
        opposite_of(opposite_of(l)) == l,
        opposite_of(l) != l,
        (l == Liangyyi::Taiyin) <==> (opposite_of(l) == Liangyyi::Taiyang),
{
}

/// The four images: old yin, young yang, young yin, old yang.
#[derive(Debug, Clone, Copy, PartialEq, Eq, Hash, Structural)]
pub enum Sixiang {
    /// 老阴: utmost stillness.
    LaoYin,
    /// 少阳: movement within stillness.
    ShaoYang,
    /// 少阴: stillness within movement.
    ShaoYin,
    /// 老阳: utmost movement.
    LaoYang,
}

/// The natural successor in the cycle LaoYin → ShaoYang → LaoYang → ShaoYin → LaoYin.
pub open spec fn next_image(s: Sixiang) -> Sixiang {
    match s {
        Sixiang::LaoYin => Sixiang::ShaoYang,
        Sixiang::ShaoYang => Sixiang::LaoYang,
        Sixiang::LaoYang => Sixiang::ShaoYin,
        Sixiang::ShaoYin => Sixiang::LaoYin,
    }
}

/// The activity level of an image, 1 (stillest) to 4 (most active).
pub open spec fn level_of(s: Sixiang) -> u8 {
    match s {
        Sixiang::LaoYin => 1,
        Sixiang::ShaoYin => 2,
        Sixiang::ShaoYang => 3,
        Sixiang::LaoYang => 4,
    }
}

/// Whether an image is yin (LaoYin, ShaoYin).
pub open spec fn image_is_yin(s: Sixiang) -> bool {
    s == Sixiang::LaoYin || s == Sixiang::ShaoYin
}

/// Whether an image is old (LaoYin, LaoYang).
pub open spec fn image_is_lao(s: Sixiang) -> bool {
    s == Sixiang::LaoYin || s == Sixiang::LaoYang
}

impl Sixiang {
    /// The natural successor (see `next_image`).
    pub fn transition(&self) -> (r: Sixiang)
        ensures
            r == next_image(*self),
    {
        match self {
            Sixiang::LaoYin => Sixiang::ShaoYang,
            Sixiang::ShaoYang => Sixiang::LaoYang,
            Sixiang::LaoYang => Sixiang::ShaoYin,
            Sixiang::ShaoYin => Sixiang::LaoYin,
        }
    }

    /// A short description of the image.
    pub fn description(&self) -> (r: &'static str)
        ensures
            *self == Sixiang::LaoYin ==> r@ == "极静·深思·沉淀"@,
            *self == Sixiang::ShaoYang ==> r@ == "探索·尝试·初发"@,
            *self == Sixiang::ShaoYin ==> r@ == "蓄势·准备·确认"@,
            *self == Sixiang::LaoYang ==> r@ == "极动·快速·连续"@,
    {
        match self {
            Sixiang::LaoYin => "极静·深思·沉淀",
            Sixiang::ShaoYang => "探索·尝试·初发",
            Sixiang::ShaoYin => "蓄势·准备·确认",
            Sixiang::LaoYang => "极动·快速·连续",
        }
    }

    /// The line symbol of the image.
    pub fn symbol(&self) -> (r: &'static str)
        ensures
            *self == Sixiang::LaoYin ==> r@ == "▅▅ ▅▅ ▅▅"@,
            *self == Sixiang::ShaoYang ==> r@ == "▅▅▅▅▅ ▅▅ ▅▅"@,
            *self == Sixiang::ShaoYin ==> r@ == "▅▅ ▅▅ ▅▅▅▅▅"@,
            *self == Sixiang::LaoYang ==> r@ == "▅▅▅▅▅ ▅▅▅▅▅ ▅▅▅▅▅"@,
    {
        match self {
            Sixiang::LaoYin => "▅▅ ▅▅ ▅▅",
            Sixiang::ShaoYang => "▅▅▅▅▅ ▅▅ ▅▅",
            Sixiang::ShaoYin => "▅▅ ▅▅ ▅▅▅▅▅",
            Sixiang::LaoYang => "▅▅▅▅▅ ▅▅▅▅▅ ▅▅▅▅▅",
        }
    }

    /// Whether the image is yin.
    pub fn is_yin(&self) -> (r: bool)
        ensures
            r == image_is_yin(*self),
    {
        matches!(self, Sixiang::LaoYin | Sixiang::ShaoYin)
    }

    /// Whether the image is yang.
    pub fn is_yang(&self) -> (r: bool)
        ensures
            r == (*self == Sixiang::LaoYang || *self == Sixiang::ShaoYang),
    {
        matches!(self, Sixiang::LaoYang | Sixiang::ShaoYang)
    }

    /// Whether the image is old.
    pub fn is_lao(&self) -> (r: bool)
        ensures
            r == image_is_lao(*self),
    {
        matches!(self, Sixiang::LaoYin | Sixiang::LaoYang)
    }

    /// Whether the image is young.
    pub fn is_shao(&self) -> (r: bool)
        ensures
            r == (*self == Sixiang::ShaoYin || *self == Sixiang::ShaoYang),
    {
        matches!(self, Sixiang::ShaoYin | Sixiang::ShaoYang)
    }

    /// The activity level (see `level_of`).
    pub fn activity_level(&self) -> (r: u8)
        ensures
            r == level_of(*self),
    {
        match self {
            Sixiang::LaoYin => 1,
            Sixiang::ShaoYin => 2,
            Sixiang::ShaoYang => 3,
            Sixiang::LaoYang => 4,
        }
    }

    /// The four images in cycle order, starting from LaoYin.
    pub fn all() -> (r: [Sixiang; 4])
        ensures
            r@ == seq![Sixiang::LaoYin, Sixiang::ShaoYang, Sixiang::LaoYang, Sixiang::ShaoYin],
    {
        let r = [Sixiang::LaoYin, Sixiang::ShaoYang, Sixiang::LaoYang, Sixiang::ShaoYin];
        assert(r@ =~= seq![Sixiang::LaoYin, Sixiang::ShaoYang, Sixiang::LaoYang, Sixiang::ShaoYin]);
        r
    }
}

/// Four transitions lead back to the starting image, and no fewer do.
pub proof fn law_transition_cycle(s: Sixiang)
    ensures
        next_image(next_image(next_image(next_image(s)))) == s,
        next_image(s) != s,
        next_image(next_image(s)) != s,
        next_image(next_image(next_image(s))) != s,
{
}

/// Each step of the cycle follows the listing of `Sixiang::all`: the successor
/// of the image at position `i` is the image at position `i + 1` (mod 4).
pub proof fn law_all_follows_cycle(i: int)
    requires
        0 <= i < 4,
    ensures
        ({
            let a = seq![Sixiang::LaoYin, Sixiang::ShaoYang, Sixiang::LaoYang, Sixiang::ShaoYin];
            next_image(a[i]) == a[(i + 1) % 4]
        }),
{
}

/// Yin and yang split the images in two, and so do old and young; the activity
/// levels are distinct, yin images are the two lowest, and old images the two extremes.
pub proof fn law_image_classes(s: Sixiang, t: Sixiang)
    ensures
        1 <= level_of(s) <= 4,
        level_of(s) == level_of(t) ==> s == t,
        image_is_yin(s) <==> level_of(s) <= 2,
        image_is_lao(s) <==> (level_of(s) == 1 || level_of(s) == 4),
{
}

// ---------------------------------------------------------------------------
// Kinds of the state evolution system
// ---------------------------------------------------------------------------

/// The context a Taiji state was observed in.
#[derive(Debug, Clone, Copy, PartialEq, Eq, Structural)]
pub enum TaijiContext {
    /// User interaction.
    UserInteraction,
    /// The system running.
    SystemRunning,
    /// Learning.
    LearningProcess,
    /// Deciding.
    DecisionMaking,
}

/// Which energy dominates.
#[derive(Debug, Clone, Copy, PartialEq, Eq, Structural)]
pub enum EnergyType {
    /// Yin dominates.
    Yin,
    /// Yang dominates.
    Yang,
    /// Neither.
    Balanced,
}

/// An event that moves the state.
#[derive(Debug, Clone, Copy, PartialEq, Eq, Structural)]
pub enum Event {
    /// The user reads (documentation, help).
    UserRead,
    /// The user writes (edits, creates).
    UserWrite,
    /// The user runs commands.
    UserExecute,
    /// The user thinks (online, idle).
    UserThink,
    /// The system is idle.
    SystemIdle,
}

/// The direction of a dimension's trend.
#[derive(Debug, Clone, Copy, PartialEq, Eq, Structural)]
pub enum TrendDirection {
    /// Rising.
    Rising,
    /// Falling.
    Falling,
    /// Hardly changing.
    Stable,
}

/// Where the state is heading.
#[derive(Debug, Clone, Copy, PartialEq, Eq, Structural)]
pub enum StateTrend {
    /// Towards yin (calmer).
    TowardYin,
    /// Towards yang (busier).
    TowardYang,
    /// Steady.
    Stable,
}

/// The user's learning phase.
#[derive(Debug, Clone, Copy, PartialEq, Eq, Structural)]
pub enum LearningPhase {
    /// Trying new things: high volatility.
    Exploration,
    /// A settled way of working: low volatility.
    Stability,
    /// The way of working is changing.
    Transition,
}

/// What a recommendation asks for.
#[derive(Debug, Clone, Copy, PartialEq, Eq, Structural)]
pub enum RecommendationAction {
    /// Raise the dimension.
    Enhance,
    /// Lower the dimension.
    Reduce,
    /// Keep it (it is in range).
    Maintain,
}

/// How quickly the adaptive system adjusts.
#[derive(Debug, Clone, Copy, PartialEq, Eq, Structural)]
pub enum AdaptiveStrategy {
    /// Large steps.
    Aggressive,
    /// Medium steps (the default).
    Balanced,
    /// Small steps.
    Conservative,
}

// ---------------------------------------------------------------------------
// Optimization statistics
// ---------------------------------------------------------------------------

/// What one automatic optimization run did.
#[derive(Debug, Clone, Copy)]
pub struct OptimizationOutcome {
    /// Recommendations generated.
    pub recommendations_count: usize,
    /// High-priority recommendations among them.
    pub high_priority_count: usize,
    /// Whether they were applied.
    pub applied_successfully: bool,
    /// How long the run took, in milliseconds.
    pub duration_ms: u64,
}

/// Statistics over optimization runs.
#[derive(Debug, Clone)]
pub struct OptimizationStats {
    /// Runs.
    pub total_optimizations: usize,
    /// Runs whose recommendations were applied.
    pub successful_optimizations: usize,
    /// The other runs.
    pub failed_optimizations: usize,
    /// Mean duration, rounded down.
    pub avg_duration_ms: u64,
    /// Mean number of recommendations, rounded down.
    pub avg_recommendations_per_run: usize,
    /// High-priority recommendations of all runs.
    pub total_high_priority_recommendations: usize,
}

impl Default for OptimizationStats {
    fn default() -> (r: OptimizationStats)
        ensures
            r.total_optimizations == 0 && r.successful_optimizations == 0 && r.failed_optimizations == 0,
            r.avg_duration_ms == 0 && r.avg_recommendations_per_run == 0,
            r.total_high_priority_recommendations == 0,
    {
        OptimizationStats {
            total_optimizations: 0,
            successful_optimizations: 0,
            failed_optimizations: 0,
            avg_duration_ms: 0,
            avg_recommendations_per_run: 0,
            total_high_priority_recommendations: 0,
        }
    }
}

/// A sum over the runs: `which` 0 sums durations, 1 recommendation counts,
/// 2 high-priority counts, and otherwise successful runs.
pub open spec fn run_sum(h: Seq<OptimizationOutcome>, which: int) -> nat
    decreases h.len(),
{
    if h.len() == 0 {
        0
    } else {
        let r = h.last();
        run_sum(h.drop_last(), which) + if which == 0 {
            r.duration_ms as nat
        } else if which == 1 {
            r.recommendations_count as nat
        } else if which == 2 {
            r.high_priority_count as nat
        } else if r.applied_successfully {
            1nat
        } else {
            0nat
        }
    }
}

proof fn lemma_run_sum_prefix(h: Seq<OptimizationOutcome>, i: int, which: int)
    requires
        0 <= i <= h.len(),
    ensures
        run_sum(h.take(i), which) <= run_sum(h, which),
    decreases h.len() - i,
{
    if i < h.len() {
        lemma_run_sum_prefix(h, i + 1, which);
        assert(h.take(i + 1).drop_last() =~= h.take(i));
    } else {
        assert(h.take(i) =~= h);
    }
}

proof fn lemma_successes_bound(h: Seq<OptimizationOutcome>)
    ensures
        run_sum(h, 3) <= h.len(),
    decreases h.len(),
{
    if h.len() > 0 {
        lemma_successes_bound(h.drop_last());
    }
}

/// The statistics of optimization runs, all zero without runs.
pub fn optimization_stats(history: &[OptimizationOutcome]) -> (r: OptimizationStats)
    requires
        run_sum(history@, 0) <= u64::MAX,
        run_sum(history@, 1) <= usize::MAX,
        run_sum(history@, 2) <= usize::MAX,
    ensures
        history@.len() == 0 ==> r.total_optimizations == 0 && r.successful_optimizations == 0
            && r.failed_optimizations == 0 && r.avg_duration_ms == 0 && r.avg_recommendations_per_run == 0
            && r.total_high_priority_recommendations == 0,
        history@.len() > 0 ==> {
            &&& r.total_optimizations == history@.len()
            &&& r.successful_optimizations == run_sum(history@, 3)
            &&& r.failed_optimizations == history@.len() - run_sum(history@, 3)
            &&& r.avg_duration_ms == run_sum(history@, 0) / history@.len()
            &&& r.avg_recommendations_per_run == run_sum(history@, 1) / history@.len()
            &&& r.total_high_priority_recommendations == run_sum(history@, 2)
        },
{
    let n = history.len();
    if n == 0 {
        return OptimizationStats::default();
    }
    let mut ok: usize = 0;
    let mut dur: u64 = 0;
    let mut recs: usize = 0;
    let mut high: usize = 0;
    let mut i: usize = 0;
    proof {
        assert(history@.take(0) =~= Seq::<OptimizationOutcome>::empty());
    }
    while i < n
        invariant
            i <= n,
            n == history@.len(),
            run_sum(history@, 0) <= u64::MAX,
            run_sum(history@, 1) <= usize::MAX,
            run_sum(history@, 2) <= usize::MAX,
            ok == run_sum(history@.take(i as int), 3),
            dur == run_sum(history@.take(i as int), 0),
            recs == run_sum(history@.take(i as int), 1),
            high == run_sum(history@.take(i as int), 2),
        decreases n - i,
    {
        proof {
            let q = history@.take(i + 1);
            assert(q.drop_last() =~= history@.take(i as int));
            assert(q.last() == history@[i as int]);
            lemma_run_sum_prefix(history@, i + 1, 0);
            lemma_run_sum_prefix(history@, i + 1, 1);
            lemma_run_sum_prefix(history@, i + 1, 2);
            lemma_successes_bound(q);
        }
        let r = history[i];
        if r.applied_successfully {
            ok = ok + 1;
        }
        dur = dur + r.duration_ms;
        recs = recs + r.recommendations_count;
        high = high + r.high_priority_count;
        i = i + 1;
    }
    proof {
        assert(history@.take(n as int) =~= history@);
        lemma_successes_bound(history@);
    }
    OptimizationStats {
        total_optimizations: n,
        successful_optimizations: ok,
        failed_optimizations: n - ok,
        avg_duration_ms: dur / (n as u64),
        avg_recommendations_per_run: recs / n,
        total_high_priority_recommendations: high,
    }
}


// ---------------------------------------------------------------------------
// Applying recommendations to the observation settings
// ---------------------------------------------------------------------------

/// The snapshot interval (seconds) after a recommendation on the `load`
/// dimension: raising the load capacity shortens it to nine tenths, but not
/// below 10; lowering the load lengthens it by a tenth, but not beyond 300.
pub open spec fn adjusted_interval(action: RecommendationAction, interval: u64) -> u64 {
    match action {
        RecommendationAction::Enhance => {
            let v = interval * 9 / 10;
            if v < 10 { 10 } else { v as u64 }
        },
        RecommendationAction::Reduce => {
            let v = interval * 11 / 10;
            if v > 300 { 300 } else { v as u64 }
        },
        RecommendationAction::Maintain => interval,
    }
}

/// The history size after a recommendation on the `context` dimension: more
/// context keeps a tenth more states, but not beyond 500; less context keeps
/// nine tenths, but not below 20.
pub open spec fn adjusted_history(action: RecommendationAction, size: usize) -> usize {
    match action {
        RecommendationAction::Enhance => {
            let v = size * 11 / 10;
            if v > 500 { 500 } else { v as usize }
        },
        RecommendationAction::Reduce => {
            let v = size * 9 / 10;
            if v < 20 { 20 } else { v as usize }
        },
        RecommendationAction::Maintain => size,
    }
}

/// Applies one recommendation to the integer observation settings, the
/// snapshot interval and the history size: `load` adjusts the interval (see
/// `adjusted_interval`), `context` the history size (see
/// `adjusted_history`); any other dimension leaves both as they are.
pub fn adjust_observation_config(
    dimension: &str,
    action: RecommendationAction,
    snapshot_interval: u64,
    history_size: usize,
) -> (r: (u64, usize))
    requires
        dimension@ == "load"@ && action == RecommendationAction::Enhance ==> snapshot_interval * 9 <= u64::MAX,
        dimension@ == "load"@ && action == RecommendationAction::Reduce ==> snapshot_interval * 11 <= u64::MAX,
        dimension@ == "context"@ && action == RecommendationAction::Enhance ==> history_size * 11 <= usize::MAX,
        dimension@ == "context"@ && action == RecommendationAction::Reduce ==> history_size * 9 <= usize::MAX,
    ensures
        r == (if dimension@ == "load"@ {
            (adjusted_interval(action, snapshot_interval), history_size)
        } else if dimension@ == "context"@ {
            (snapshot_interval, adjusted_history(action, history_size))
        } else {
            (snapshot_interval, history_size)
        }),
{
    let d = chars_of(dimension);
    if chars_equal(d.as_slice(), chars_of("load").as_slice()) {
        let v: u64 = match action {
            RecommendationAction::Enhance => {
                let w = snapshot_interval * 9 / 10;
                if w < 10 { 10 } else { w }
            },
            RecommendationAction::Reduce => {
                let w = snapshot_interval * 11 / 10;
                if w > 300 { 300 } else { w }
            },
            RecommendationAction::Maintain => snapshot_interval,
        };
        (v, history_size)
    } else if chars_equal(d.as_slice(), chars_of("context").as_slice()) {
        let v: usize = match action {
            RecommendationAction::Enhance => {
                let w = history_size * 11 / 10;
                if w > 500 { 500 } else { w }
            },
            RecommendationAction::Reduce => {
                let w = history_size * 9 / 10;
                if w < 20 { 20 } else { w }
            },
            RecommendationAction::Maintain => history_size,
        };
        (snapshot_interval, v)
    } else {
        (snapshot_interval, history_size)
    }
}

/// The optimisation history keeps the last 100 records.
pub open spec fn history_limit() -> nat {
    100
}

/// The history after recording one more optimisation: the oldest record
/// leaves when the history is full.
pub open spec fn recorded<T>(h: Seq<T>, record: T) -> Seq<T> {
    if h.len() >= history_limit() {
        h.drop_first().push(record)
    } else {
        h.push(record)
    }
}

/// Records an optimisation, keeping the last 100 (see `recorded`).
pub fn push_optimization_record<T>(history: &mut VecDeque<T>, record: T)
    ensures
        final(history)@ == recorded(old(history)@, record),
{
    if history.len() >= 100 {
        let ghost before = history@;
        let _ = history.pop_front();
        proof {
            assert(history@ =~= before.drop_first());
        }
    }
    history.push_back(record);
}

/// The history never grows beyond its limit: recording into a history
/// within the limit leaves it within the limit, with the new record last.
pub proof fn law_history_bounded<T>(h: Seq<T>, record: T)
    requires
        h.len() <= history_limit(),
    ensures
        recorded(h, record).len() <= history_limit(),
        recorded(h, record).last() == record,
{
}


/// The last `limit` records, newest first: the rows an optimisation history
/// listing shows.
pub fn recent_records<T>(history: &VecDeque<T>, limit: usize) -> (r: Vec<&T>)
    ensures
        r@.len() == if limit < history@.len() { limit as int } else { history@.len() as int },
        forall|i: int| 0 <= i < r@.len() ==> *#[trigger] r@[i] == history@[history@.len() - 1 - i],
{
    let n = history.len();
    let mut out: Vec<&T> = Vec::new();
    let mut i: usize = 0;
    while i < n && i < limit
        invariant
            n == history@.len(),
            i <= n,
            i <= limit,
            out@.len() == i,
            forall|k: int| 0 <= k < i ==> *#[trigger] out@[k] == history@[n - 1 - k],
        decreases n - i,
    {
        out.push(&history[n - 1 - i]);
        i = i + 1;
    }
    out
}

} // verus!
