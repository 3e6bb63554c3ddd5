//! Pipeline timing over all completed turns, and the bottleneck diagnosis.

use vstd::prelude::*;
use crate::model::{CompletedTurn, QueueBackend, QueueResponse, SessionGroup};
use crate::sessions::{all_sessions, collect_all_sessions};

verus! {

/// Largest value of a `u64` field, as an integer.
pub open spec fn max_u64() -> int {
    u64::MAX as int
}

/// Exact sums of the timing samples of some turns.
pub struct TimingTotals {
    pub count: int,
    pub inference: int,
    pub wait: int,
    pub total: int,
    /// Turns that carried a backend-attributed time.
    pub backend_count: int,
    pub proxy: int,
    pub gap_count: int,
    pub gap: int,
}

pub open spec fn zero_totals() -> TimingTotals {
    TimingTotals {
        count: 0,
        inference: 0,
        wait: 0,
        total: 0,
        backend_count: 0,
        proxy: 0,
        gap_count: 0,
        gap: 0,
    }
}

pub open spec fn add_totals(a: TimingTotals, b: TimingTotals) -> TimingTotals {
    TimingTotals {
        count: a.count + b.count,
        inference: a.inference + b.inference,
        wait: a.wait + b.wait,
        total: a.total + b.total,
        backend_count: a.backend_count + b.backend_count,
        proxy: a.proxy + b.proxy,
        gap_count: a.gap_count + b.gap_count,
        gap: a.gap + b.gap,
    }
}

/// Inference time of a turn: the backend-attributed time if present, else
/// the whole processing time.
pub open spec fn inference_us(t: CompletedTurn) -> int {
    match t.backend_time_us {
        Some(b) => b as int,
        None => t.processing_time_us as int,
    }
}

/// Processing time not spent in the backend, floored at zero.
pub open spec fn proxy_overhead_us(t: CompletedTurn) -> int {
    match t.backend_time_us {
        Some(b) => if t.processing_time_us >= b {
            t.processing_time_us - b
        } else {
            0
        },
        None => 0,
    }
}

/// Agent time between the end of turn `i - 1` and the submission of turn `i`,
/// when both instants are known and the gap is not negative.
pub open spec fn agent_gap_us(turns: Seq<CompletedTurn>, i: int) -> Option<int> {
    if 0 < i < turns.len() && turns[i - 1].completed_at_us > 0 && turns[i].submitted_at_us > 0
        && turns[i].submitted_at_us >= turns[i - 1].completed_at_us {
        Some(turns[i].submitted_at_us - turns[i - 1].completed_at_us)
    } else {
        None
    }
}

/// What turn `i` of a session adds to the totals.
pub open spec fn turn_totals(turns: Seq<CompletedTurn>, i: int) -> TimingTotals {
    let t = turns[i];
    TimingTotals {
        count: 1,
        inference: inference_us(t),
        wait: t.wait_time_us as int,
        total: t.total_time_us as int,
        backend_count: if t.backend_time_us is Some { 1 } else { 0 },
        proxy: proxy_overhead_us(t),
        gap_count: if agent_gap_us(turns, i) is Some { 1 } else { 0 },
        gap: match agent_gap_us(turns, i) {
            Some(g) => g,
            None => 0,
        },
    }
}

/// Totals of the first `n` turns of a session.
pub open spec fn turns_totals(turns: Seq<CompletedTurn>, n: int) -> TimingTotals
    decreases n,
{
    if n <= 0 {
        zero_totals()
    } else {
        add_totals(turns_totals(turns, n - 1), turn_totals(turns, n - 1))
    }
}

/// Totals of all turns of some sessions.
pub open spec fn sessions_totals(ss: Seq<SessionGroup>) -> TimingTotals
    decreases ss.len(),
{
    if ss.len() == 0 {
        zero_totals()
    } else {
        add_totals(
            sessions_totals(ss.drop_last()),
            turns_totals(ss.last().completed_turns@, ss.last().completed_turns@.len() as int),
        )
    }
}

/// Totals of every turn of every session of the document.
pub open spec fn queue_totals(q: QueueResponse) -> TimingTotals {
    sessions_totals(all_sessions(q))
}

/// Integer mean of `sum` over `n` samples; 0 without samples.
pub open spec fn mean(sum: int, n: int) -> int {
    if n > 0 {
        sum / n
    } else {
        0
    }
}

/// Each sum is at most its number of samples times the largest sample.
pub open spec fn totals_bounded(t: TimingTotals) -> bool {
    &&& 0 <= t.count
    &&& 0 <= t.inference <= t.count * max_u64()
    &&& 0 <= t.wait <= t.count * max_u64()
    &&& 0 <= t.total <= t.count * max_u64()
    &&& 0 <= t.backend_count <= t.count
    &&& 0 <= t.proxy <= t.backend_count * max_u64()
    &&& 0 <= t.gap_count <= t.count
    &&& 0 <= t.gap <= t.gap_count * max_u64()
}

proof fn lemma_add_bounded(a: TimingTotals, b: TimingTotals)
    requires
        totals_bounded(a),
        totals_bounded(b),
    ensures
        totals_bounded(add_totals(a, b)),
{
    let m = max_u64();
    assert((a.count + b.count) * m == a.count * m + b.count * m) by (nonlinear_arith);
    assert((a.backend_count + b.backend_count) * m == a.backend_count * m + b.backend_count * m)
        by (nonlinear_arith);
    assert((a.gap_count + b.gap_count) * m == a.gap_count * m + b.gap_count * m)
        by (nonlinear_arith);
}

proof fn lemma_turns_totals(turns: Seq<CompletedTurn>, n: int)
    requires
        0 <= n <= turns.len(),
    ensures
        totals_bounded(turns_totals(turns, n)),
        turns_totals(turns, n).count == n,
    decreases n,
{
    if n > 0 {
        lemma_turns_totals(turns, n - 1);
        let t = turn_totals(turns, n - 1);
        assert(totals_bounded(t));
        lemma_add_bounded(turns_totals(turns, n - 1), t);
    }
}

proof fn lemma_sessions_totals(ss: Seq<SessionGroup>)
    ensures
        totals_bounded(sessions_totals(ss)),
    decreases ss.len(),
{
    if ss.len() > 0 {
        lemma_sessions_totals(ss.drop_last());
        let turns = ss.last().completed_turns@;
        lemma_turns_totals(turns, turns.len() as int);
        lemma_add_bounded(sessions_totals(ss.drop_last()), turns_totals(turns, turns.len() as int));
    }
}

/// The totals of a prefix of the sessions count no more turns than all of them.
proof fn lemma_prefix_count(ss: Seq<SessionGroup>, i: int)
    requires
        0 <= i <= ss.len(),
    ensures
        sessions_totals(ss.take(i)).count <= sessions_totals(ss).count,
    decreases ss.len(),
{
    if i < ss.len() {
        assert(ss.drop_last().take(i) =~= ss.take(i));
        lemma_prefix_count(ss.drop_last(), i);
        let turns = ss.last().completed_turns@;
        lemma_turns_totals(turns, turns.len() as int);
    } else {
        assert(ss.take(i) =~= ss);
    }
}

/// Timing averages over all completed turns; each average is the integer
/// mean in microseconds.
#[derive(Clone, Copy, Debug, Default, PartialEq, Eq, Structural)]
pub struct TimingStats {
    pub count: u64,
    /// Backend-attributed time where known, else processing time.
    pub avg_inference_us: u64,
    /// Inter-turn agent gap, over the turns that had one.
    pub avg_gap_us: u64,
    pub avg_wait_us: u64,
    /// Processing minus backend time, over the turns that had backend time.
    pub avg_proxy_us: u64,
    pub avg_total_us: u64,
    pub has_backend_time: bool,
    pub gap_count: u64,
}

/// What `collect_timing_stats` reports for given totals.
pub open spec fn stats_match(s: TimingStats, t: TimingTotals) -> bool {
    &&& s.count == t.count
    &&& s.avg_inference_us == mean(t.inference, t.count)
    &&& s.avg_gap_us == mean(t.gap, t.gap_count)
    &&& s.avg_wait_us == mean(t.wait, t.count)
    &&& s.avg_proxy_us == mean(t.proxy, t.backend_count)
    &&& s.avg_total_us == mean(t.total, t.count)
    &&& s.has_backend_time == (t.backend_count > 0)
    &&& s.gap_count == t.gap_count
}

/// The integer mean of a sum of `n` samples of at most `u64::MAX` each.
fn mean_u64(sum: u128, n: u64) -> (r: u64)
    requires
        sum <= n * max_u64(),
    ensures
        r == mean(sum as int, n as int),
{
    if n == 0 {
        0
    } else {
        let q = sum / (n as u128);
        proof {
            vstd::arithmetic::div_mod::lemma_div_is_ordered(sum as int, n * max_u64(), n as int);
            vstd::arithmetic::div_mod::lemma_div_multiples_vanish(max_u64(), n as int);
            assert(n * max_u64() == max_u64() * n) by (nonlinear_arith);
        }
        q as u64
    }
}

/// Aggregates the timing of every completed turn of every session.
pub fn collect_timing_stats(queue: &QueueResponse) -> (r: TimingStats)
    requires
        queue_totals(*queue).count <= max_u64(),
    ensures
        stats_match(r, queue_totals(*queue)),
{
    let all = collect_all_sessions(queue);
    let ghost ss = all_sessions(*queue);
    let ghost full = queue_totals(*queue);
    proof {
        lemma_sessions_totals(ss);
    }

    let mut count: u64 = 0;
    let mut sum_inference: u128 = 0;
    let mut sum_wait: u128 = 0;
    let mut sum_total: u128 = 0;
    let mut backend_count: u64 = 0;
    let mut sum_proxy: u128 = 0;
    let mut gap_count: u64 = 0;
    let mut sum_gap: u128 = 0;

    let mut i: usize = 0;
    while i < all.len()
        invariant
            0 <= i <= ss.len(),
            all@.len() == ss.len(),
            forall|k: int| 0 <= k < all@.len() ==> *all@[k] == ss[k],
            full == sessions_totals(ss),
            full.count <= max_u64(),
            sessions_totals(ss.take(i as int)) == (TimingTotals {
                count: count as int,
                inference: sum_inference as int,
                wait: sum_wait as int,
                total: sum_total as int,
                backend_count: backend_count as int,
                proxy: sum_proxy as int,
                gap_count: gap_count as int,
                gap: sum_gap as int,
            }),
        decreases ss.len() - i,
    {
        let sess: &SessionGroup = all[i];
        let turns = &sess.completed_turns;
        let ghost before = sessions_totals(ss.take(i as int));
        proof {
            assert(ss.take(i + 1).drop_last() =~= ss.take(i as int));
            lemma_sessions_totals(ss.take(i as int));
            lemma_prefix_count(ss, i + 1);
            lemma_turns_totals(turns@, turns@.len() as int);
        }
        let mut j: usize = 0;
        while j < turns.len()
            invariant
                0 <= j <= turns@.len(),
                *sess == ss[i as int],
                i < ss.len(),
                totals_bounded(before),
                sessions_totals(ss.take(i + 1)) == add_totals(
                    before,
                    turns_totals(turns@, turns@.len() as int),
                ),
                before.count + turns@.len() <= max_u64(),
                add_totals(before, turns_totals(turns@, j as int)) == (TimingTotals {
                    count: count as int,
                    inference: sum_inference as int,
                    wait: sum_wait as int,
                    total: sum_total as int,
                    backend_count: backend_count as int,
                    proxy: sum_proxy as int,
                    gap_count: gap_count as int,
                    gap: sum_gap as int,
                }),
            decreases turns@.len() - j,
        {
            proof {
                lemma_turns_totals(turns@, j as int);
                lemma_turns_totals(turns@, j + 1);
                lemma_add_bounded(before, turns_totals(turns@, j + 1));
            }
            let turn = &turns[j];
            count = count + 1;
            sum_wait = sum_wait + turn.wait_time_us as u128;
            sum_total = sum_total + turn.total_time_us as u128;
            match turn.backend_time_us {
                Some(b) => {
                    backend_count = backend_count + 1;
                    sum_inference = sum_inference + b as u128;
                    if turn.processing_time_us >= b {
                        sum_proxy = sum_proxy + (turn.processing_time_us - b) as u128;
                    }
                },
                None => {
                    sum_inference = sum_inference + turn.processing_time_us as u128;
                },
            }
            if j > 0 {
                let prev = &turns[j - 1];
                if prev.completed_at_us > 0 && turn.submitted_at_us > 0
                    && turn.submitted_at_us >= prev.completed_at_us {
                    sum_gap = sum_gap + (turn.submitted_at_us - prev.completed_at_us) as u128;
                    gap_count = gap_count + 1;
                }
            }
            j += 1;
        }
        i += 1;
    }
    proof {
        assert(ss.take(i as int) =~= ss);
    }
    TimingStats {
        count,
        avg_inference_us: mean_u64(sum_inference, count),
        avg_gap_us: mean_u64(sum_gap, gap_count),
        avg_wait_us: mean_u64(sum_wait, count),
        avg_proxy_us: mean_u64(sum_proxy, backend_count),
        avg_total_us: mean_u64(sum_total, count),
        has_backend_time: backend_count > 0,
        gap_count,
    }
}

/// Overall state of the pipeline, in the order in which it is decided.
#[derive(Clone, Copy, Debug, PartialEq, Eq, Structural)]
pub enum Diagnosis {
    GpuBound,
    AgentBound,
    Balanced,
    Idle,
    Unhealthy,
}

/// Semantic colour of a diagnosis; the theme maps it to a terminal colour.
#[derive(Clone, Copy, Debug, PartialEq, Eq, Structural)]
pub enum Severity {
    Error,
    Warn,
    Good,
    Accent,
}

impl Diagnosis {
    /// Short upper-case name shown next to "Diagnosis:".
    pub fn label(&self) -> (r: &'static str)
        ensures
            r@ == match *self {
                Diagnosis::GpuBound => "GPU-BOUND"@,
                Diagnosis::AgentBound => "AGENT-BOUND"@,
                Diagnosis::Balanced => "BALANCED"@,
                Diagnosis::Idle => "IDLE"@,
                Diagnosis::Unhealthy => "UNHEALTHY"@,
            },
    {
        match self {
            Diagnosis::GpuBound => "GPU-BOUND",
            Diagnosis::AgentBound => "AGENT-BOUND",
            Diagnosis::Balanced => "BALANCED",
            Diagnosis::Idle => "IDLE",
            Diagnosis::Unhealthy => "UNHEALTHY",
        }
    }

    /// The colour class in which the label is shown.
    pub fn severity(&self) -> (r: Severity)
        ensures
            r == match *self {
                Diagnosis::GpuBound => Severity::Error,
                Diagnosis::AgentBound => Severity::Warn,
                Diagnosis::Balanced => Severity::Good,
                Diagnosis::Idle => Severity::Accent,
                Diagnosis::Unhealthy => Severity::Warn,
            },
    {
        match self {
            Diagnosis::GpuBound => Severity::Error,
            Diagnosis::AgentBound => Severity::Warn,
            Diagnosis::Balanced => Severity::Good,
            Diagnosis::Idle => Severity::Accent,
            Diagnosis::Unhealthy => Severity::Warn,
        }
    }

    /// One sentence of advice for the operator.
    pub fn advice(&self) -> (r: &'static str)
        ensures
            r@ == match *self {
                Diagnosis::GpuBound => "All GPUs near capacity. Add replicas or reduce --num-parallel."@,
                Diagnosis::AgentBound => "Agent overhead is high. Check obs/action timing in turn details."@,
                Diagnosis::Balanced => "System running smoothly. Load well distributed."@,
                Diagnosis::Idle => "GPUs underutilized. Can increase --num-parallel."@,
                Diagnosis::Unhealthy => "Some GPUs offline. Check backend health."@,
            },
    {
        match self {
            Diagnosis::GpuBound => "All GPUs near capacity. Add replicas or reduce --num-parallel.",
            Diagnosis::AgentBound => "Agent overhead is high. Check obs/action timing in turn details.",
            Diagnosis::Balanced => "System running smoothly. Load well distributed.",
            Diagnosis::Idle => "GPUs underutilized. Can increase --num-parallel.",
            Diagnosis::Unhealthy => "Some GPUs offline. Check backend health.",
        }
    }
}

/// Backend figures the classification reads besides the timing.
#[derive(Clone, Copy, Debug, Default, PartialEq, Eq, Structural)]
pub struct DiagnosisInputs {
    pub healthy_backends: u64,
    pub total_backends: u64,
    /// Requests waiting in the proxy's queue.
    pub pending: u64,
    /// The average GPU load is `gpu_load_sum / gpu_load_samples`, or 0 without samples.
    pub gpu_load_sum: u128,
    pub gpu_load_samples: u64,
}

/// Average GPU load `sum / n` is at least 0.8 times `healthy`.
pub open spec fn load_near_capacity(sum: int, n: int, healthy: int) -> bool {
    if n > 0 {
        5 * sum >= 4 * healthy * n
    } else {
        0 >= 4 * healthy
    }
}

/// Average GPU load `sum / n` is below one half.
pub open spec fn load_below_half(sum: int, n: int) -> bool {
    n <= 0 || 2 * sum < n
}

/// The first diagnosis, in priority order, whose condition holds.
pub open spec fn classification(inp: DiagnosisInputs, t: TimingStats) -> Diagnosis {
    if inp.healthy_backends < inp.total_backends && inp.total_backends > 0 {
        Diagnosis::Unhealthy
    } else if t.gap_count > 0 && t.avg_inference_us > 0 && 2 * t.avg_gap_us
        >= t.avg_inference_us {
        Diagnosis::AgentBound
    } else if inp.pending > 0 && load_near_capacity(
        inp.gpu_load_sum as int,
        inp.gpu_load_samples as int,
        inp.healthy_backends as int,
    ) {
        Diagnosis::GpuBound
    } else if load_below_half(inp.gpu_load_sum as int, inp.gpu_load_samples as int)
        && inp.pending == 0 {
        Diagnosis::Idle
    } else {
        Diagnosis::Balanced
    }
}

/// A product of two `u64` values, plus twice the largest `u64`, fits a `u128`.
proof fn lemma_product_fits(a: int, b: int)
    requires
        0 <= a <= max_u64(),
        0 <= b <= max_u64(),
    ensures
        0 <= a * b <= max_u64() * max_u64(),
        max_u64() * max_u64() + 2 * max_u64() <= u128::MAX,
{
    assert(0 <= a * b <= max_u64() * max_u64()) by (nonlinear_arith)
        requires
            0 <= a <= max_u64(),
            0 <= b <= max_u64(),
    ;
    assert(max_u64() * max_u64() == 0xffff_ffff_ffff_fffe_0000_0000_0000_0001_int) by (nonlinear_arith)
        requires
            max_u64() == 0xffff_ffff_ffff_ffff_int,
    ;
}

fn near_capacity(sum: u128, n: u64, healthy: u64) -> (r: bool)
    ensures
        r == load_near_capacity(sum as int, n as int, healthy as int),
{
    if n == 0 {
        healthy == 0
    } else {
        proof {
            lemma_product_fits(healthy as int, n as int);
        }
        let m: u128 = (healthy as u128) * (n as u128);
        proof {
            vstd::arithmetic::div_mod::lemma_fundamental_div_mod(m as int, 5);
            assert(4 * healthy * n == 4 * m) by (nonlinear_arith)
                requires
                    m == healthy * n,
            ;
        }
        sum >= m - m / 5
    }
}

fn below_half(sum: u128, n: u64) -> (r: bool)
    ensures
        r == load_below_half(sum as int, n as int),
{
    n == 0 || (sum < n as u128 && 2 * sum < n as u128)
}

/// Classifies the pipeline from backend health, queue pressure and timing.
pub fn classify(inputs: &DiagnosisInputs, timing: &TimingStats) -> (r: Diagnosis)
    ensures
        r == classification(*inputs, *timing),
{
    if inputs.healthy_backends < inputs.total_backends && inputs.total_backends > 0 {
        Diagnosis::Unhealthy
    } else if timing.gap_count > 0 && timing.avg_inference_us > 0 && 2 * (timing.avg_gap_us as u128)
        >= timing.avg_inference_us as u128 {
        Diagnosis::AgentBound
    } else if inputs.pending > 0 && near_capacity(
        inputs.gpu_load_sum,
        inputs.gpu_load_samples,
        inputs.healthy_backends,
    ) {
        Diagnosis::GpuBound
    } else if below_half(inputs.gpu_load_sum, inputs.gpu_load_samples) && inputs.pending == 0 {
        Diagnosis::Idle
    } else {
        Diagnosis::Balanced
    }
}

/// Concurrent streams needed to keep `healthy` GPUs busy while agents think:
/// `ceil(healthy * (inference + gap) / inference)`, when there is data.
pub open spec fn suggestion(t: TimingStats, healthy: int) -> Option<int> {
    if t.count > 0 && t.avg_inference_us > 0 && healthy > 0 {
        let inf = t.avg_inference_us as int;
        Some((healthy * (inf + t.avg_gap_us) + inf - 1) / inf)
    } else {
        None
    }
}

/// The suggested concurrency for `healthy` backends, if any can be given.
pub fn suggested_concurrency(timing: &TimingStats, healthy: u64) -> (r: Option<u128>)
    ensures
        r matches Some(v) ==> suggestion(*timing, healthy as int) == Some(v as int),
        r is None ==> suggestion(*timing, healthy as int) is None,
{
    if timing.count > 0 && timing.avg_inference_us > 0 && healthy > 0 {
        let inf = timing.avg_inference_us as u128;
        let h = healthy as u128;
        proof {
            lemma_product_fits(h as int, timing.avg_gap_us as int);
        }
        let hg: u128 = h * (timing.avg_gap_us as u128);
        let q = (hg + inf - 1) / inf;
        proof {
            vstd::arithmetic::div_mod::lemma_div_nonincreasing((hg + inf - 1) as int, inf as int);
            vstd::arithmetic::div_mod::lemma_hoist_over_denominator(
                (hg + inf - 1) as int,
                h as int,
                inf as nat,
            );
            assert(h * (inf + timing.avg_gap_us) + inf - 1 == (hg + inf - 1) + h * inf)
                by (nonlinear_arith)
                requires
                    hg == h * timing.avg_gap_us,
            ;
        }
        Some(h + q)
    } else {
        None
    }
}

/// Number of healthy backends.
pub open spec fn healthy_count(bs: Seq<QueueBackend>) -> int
    decreases bs.len(),
{
    if bs.len() == 0 {
        0
    } else {
        healthy_count(bs.drop_last()) + if bs.last().healthy { 1int } else { 0 }
    }
}

/// Sum of the GPU loads of the healthy backends.
pub open spec fn healthy_load(bs: Seq<QueueBackend>) -> int
    decreases bs.len(),
{
    if bs.len() == 0 {
        0
    } else {
        healthy_load(bs.drop_last()) + if bs.last().healthy { bs.last().gpu_load as int } else { 0 }
    }
}

/// Sum of the in-flight counts of the healthy backends.
pub open spec fn healthy_inflight(bs: Seq<QueueBackend>) -> int
    decreases bs.len(),
{
    if bs.len() == 0 {
        0
    } else {
        healthy_inflight(bs.drop_last()) + if bs.last().healthy {
            bs.last().inflight as int
        } else {
            0
        }
    }
}

/// Number of sessions with a request pending or in flight.
pub open spec fn active_count(ss: Seq<SessionGroup>) -> int
    decreases ss.len(),
{
    if ss.len() == 0 {
        0
    } else {
        active_count(ss.drop_last()) + if ss.last().in_flight_requests > 0
            || ss.last().pending_requests > 0 {
            1int
        } else {
            0
        }
    }
}

/// Whether every completed turn of the document can be counted in a `u64`.
pub fn turns_fit(queue: &QueueResponse) -> (r: bool)
    ensures
        r == (queue_totals(*queue).count <= max_u64()),
{
    let all = collect_all_sessions(queue);
    let ghost ss = all_sessions(*queue);
    let mut count: u64 = 0;
    let mut i: usize = 0;
    while i < all.len()
        invariant
            0 <= i <= ss.len(),
            all@.len() == ss.len(),
            forall|k: int| 0 <= k < all@.len() ==> *all@[k] == ss[k],
            ss == all_sessions(*queue),
            sessions_totals(ss.take(i as int)).count == count,
        decreases ss.len() - i,
    {
        let n = all[i].completed_turns.len();
        proof {
            assert(ss.take(i + 1).drop_last() =~= ss.take(i as int));
            lemma_turns_totals(ss[i as int].completed_turns@, n as int);
            lemma_prefix_count(ss, i + 1);
            assert(ss.take(i + 1).last() == ss[i as int]);
            assert(sessions_totals(ss.take(i + 1)).count == count + n);
        }
        if n as u64 > u64::MAX - count {
            return false;
        }
        count = count + n as u64;
        i += 1;
    }
    proof {
        assert(ss.take(i as int) =~= ss);
    }
    true
}

/// Everything the bottleneck panel shows about the pipeline.
#[derive(Clone, Copy, Debug, PartialEq, Eq, Structural)]
pub struct BottleneckReport {
    pub inputs: DiagnosisInputs,
    /// Sessions with a request pending or in flight.
    pub active_sessions: u64,
    /// Requests in flight on healthy backends.
    pub healthy_inflight: u128,
    pub timing: TimingStats,
    pub diagnosis: Diagnosis,
    pub suggested: Option<u128>,
}

/// What the bottleneck panel reports for a queue document.
pub open spec fn report_matches(r: BottleneckReport, q: QueueResponse) -> bool {
    &&& r.inputs.healthy_backends == healthy_count(q.backends@)
    &&& r.inputs.total_backends == q.backends@.len()
    &&& r.inputs.pending == q.summary.pending
    &&& r.inputs.gpu_load_sum == healthy_load(q.backends@)
    &&& r.inputs.gpu_load_samples == healthy_count(q.backends@)
    &&& r.active_sessions == active_count(all_sessions(q))
    &&& r.healthy_inflight == healthy_inflight(q.backends@)
    &&& stats_match(r.timing, queue_totals(q))
    &&& r.diagnosis == classification(r.inputs, r.timing)
    &&& (r.suggested matches Some(v) ==> suggestion(r.timing, r.inputs.healthy_backends as int)
        == Some(v as int))
    &&& (r.suggested is None ==> suggestion(r.timing, r.inputs.healthy_backends as int) is None)
}

/// Diagnoses the pipeline from the queue document; `None` only when the
/// document holds more turns than a `u64` counts.
pub fn diagnose(queue: &QueueResponse) -> (r: Option<BottleneckReport>)
    ensures
        r is None <==> queue_totals(*queue).count > max_u64(),
        r matches Some(rep) ==> report_matches(rep, *queue),
{
    if !turns_fit(queue) {
        return None;
    }
    let bs = &queue.backends;
    let mut healthy: u64 = 0;
    let mut load: u128 = 0;
    let mut inflight: u128 = 0;
    let mut i: usize = 0;
    while i < bs.len()
        invariant
            0 <= i <= bs@.len(),
            healthy == healthy_count(bs@.take(i as int)),
            load == healthy_load(bs@.take(i as int)),
            inflight == healthy_inflight(bs@.take(i as int)),
            healthy <= i,
            load <= i * max_u64(),
            inflight <= i * max_u64(),
        decreases bs@.len() - i,
    {
        proof {
            assert(bs@.take(i + 1).drop_last() =~= bs@.take(i as int));
            assert((i + 1) * max_u64() == i * max_u64() + max_u64()) by (nonlinear_arith);
            lemma_product_fits(i as int, max_u64());
        }
        if bs[i].healthy {
            healthy = healthy + 1;
            load = load + bs[i].gpu_load as u128;
            inflight = inflight + bs[i].inflight as u128;
        }
        i += 1;
    }
    proof {
        assert(bs@.take(i as int) =~= bs@);
    }

    let all = collect_all_sessions(queue);
    let ghost ss = all_sessions(*queue);
    let mut active: u64 = 0;
    let mut k: usize = 0;
    while k < all.len()
        invariant
            0 <= k <= ss.len(),
            all@.len() == ss.len(),
            forall|j: int| 0 <= j < all@.len() ==> *all@[j] == ss[j],
            active == active_count(ss.take(k as int)),
            active <= k,
        decreases ss.len() - k,
    {
        proof {
            assert(ss.take(k + 1).drop_last() =~= ss.take(k as int));
        }
        if all[k].in_flight_requests > 0 || all[k].pending_requests > 0 {
            active = active + 1;
        }
        k += 1;
    }
    proof {
        assert(ss.take(k as int) =~= ss);
    }

    let inputs = DiagnosisInputs {
        healthy_backends: healthy,
        total_backends: bs.len() as u64,
        pending: queue.summary.pending,
        gpu_load_sum: load,
        gpu_load_samples: healthy,
    };
    let timing = collect_timing_stats(queue);
    let diagnosis = classify(&inputs, &timing);
    let suggested = suggested_concurrency(&timing, healthy);
    Some(
        BottleneckReport {
            inputs,
            active_sessions: active,
            healthy_inflight: inflight,
            timing,
            diagnosis,
            suggested,
        },
    )
}

} // verus!
