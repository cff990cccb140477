//! What holds of the store's operations across calls and for all inputs.
use vstd::prelude::*;

use crate::store::{has_data, sequence_added, vector_added, StoreView};
use crate::timeline::{
    appended, cycles, effective_step, empty_pattern, lemma_tiled_index, lemma_tiled_len,
    replicated, shift, tiled, well_formed, PatternView, Measurement, MIN_STEP,
};

verus! {

/// The pattern built from a fresh one by appending, in order, a sample of
/// `volts[k]` after a requested step of `deltas[k]`.
pub open spec fn built(deltas: Seq<i64>, volts: Seq<i32>) -> PatternView
    decreases deltas.len(),
{
    if deltas.len() == 0 {
        empty_pattern()
    } else {
        appended(
            built(deltas.drop_last(), volts.drop_last()),
            deltas.last() as int,
            volts.last(),
        )
    }
}

/// The sum of the effective steps of the first `k` requested steps.
pub open spec fn elapsed(deltas: Seq<i64>, k: int) -> int
    decreases k,
{
    if k <= 0 {
        0
    } else {
        elapsed(deltas, k - 1) + effective_step(deltas[k - 1] as int)
    }
}

proof fn lemma_elapsed_prefix(deltas: Seq<i64>, k: int)
    requires
        0 <= k <= deltas.len(),
    ensures
        elapsed(deltas.take(k), k) == elapsed(deltas, k),
    decreases k,
{
    if k > 0 {
        lemma_elapsed_prefix(deltas, k - 1);
        lemma_elapsed_prefix_of(deltas.take(k), deltas, k - 1);
    }
}

proof fn lemma_elapsed_prefix_of(a: Seq<i64>, b: Seq<i64>, k: int)
    requires
        0 <= k <= a.len(),
        k <= b.len(),
        forall|i: int| 0 <= i < k ==> a[i] == b[i],
    ensures
        elapsed(a, k) == elapsed(b, k),
    decreases k,
{
    if k > 0 {
        lemma_elapsed_prefix_of(a, b, k - 1);
    }
}

proof fn lemma_elapsed_monotone(deltas: Seq<i64>, i: int, j: int)
    requires
        0 <= i < j,
    ensures
        elapsed(deltas, i) < elapsed(deltas, j),
    decreases j,
{
    if i < j - 1 {
        lemma_elapsed_monotone(deltas, i, j - 1);
    }
}

/// Appending samples one after another gives times that strictly increase,
/// each the running sum of the effective steps so far; the clock ends at the
/// whole sum.
pub proof fn append_times_are_running_sums(deltas: Seq<i64>, volts: Seq<i32>)
    requires
        deltas.len() == volts.len(),
        elapsed(deltas, deltas.len() as int) <= u64::MAX,
    ensures
        well_formed(built(deltas, volts)),
        built(deltas, volts).timeline.len() == deltas.len(),
        built(deltas, volts).clock == elapsed(deltas, deltas.len() as int),
        forall|k: int|
            0 <= k < deltas.len() ==> #[trigger] built(deltas, volts).timeline[k].time == elapsed(
                deltas,
                k + 1,
            ),
        forall|i: int, j: int|
            0 <= i < j < deltas.len() ==> built(deltas, volts).timeline[i].time < built(
                deltas,
                volts,
            ).timeline[j].time,
    decreases deltas.len(),
{
    let n = deltas.len() as int;
    if n > 0 {
        let ds = deltas.drop_last();
        let vs = volts.drop_last();
        lemma_elapsed_prefix(deltas, n - 1);
        assert(ds == deltas.take(n - 1));
        lemma_elapsed_monotone(deltas, n - 1, n);
        append_times_are_running_sums(ds, vs);
        let prev = built(ds, vs);
        let cur = built(deltas, volts);
        assert(cur.timeline == prev.timeline.push(cur.timeline.last()));
        assert forall|k: int| 0 <= k < n implies #[trigger] cur.timeline[k].time == elapsed(
            deltas,
            k + 1,
        ) by {
            if k < n - 1 {
                assert(cur.timeline[k] == prev.timeline[k]);
                lemma_elapsed_prefix_of(ds, deltas, k + 1);
            }
        }
        assert forall|i: int, j: int| 0 <= i < j < n implies cur.timeline[i].time
            < cur.timeline[j].time by {
            assert(cur.timeline[i].time == elapsed(deltas, i + 1));
            assert(cur.timeline[j].time == elapsed(deltas, j + 1));
            lemma_elapsed_monotone(deltas, i + 1, j + 1);
        }
        assert(cur.timeline[0].time == elapsed(deltas, 1));
        lemma_elapsed_monotone(deltas, 0, 1);
    }
}

/// Appending with a step that is not positive is the same as appending with
/// the minimum step.
pub proof fn nonpositive_step_is_min_step(st: StoreView, name: Seq<char>, d_time: i64, voltage: i32)
    requires
        d_time <= 0,
    ensures
        vector_added(st, name, d_time as int, voltage) == vector_added(
            st,
            name,
            MIN_STEP as int,
            voltage,
        ),
{
    assert(vector_added(st, name, d_time as int, voltage) =~= vector_added(
        st,
        name,
        MIN_STEP as int,
        voltage,
    ));
}

/// Tiling into one cycle, or asking for zero, leaves the store as it was.
pub proof fn single_cycle_is_identity(st: StoreView, name: Seq<char>, count: int)
    requires
        count <= 1,
    ensures
        sequence_added(st, name, count) == st,
{
    assert forall|p: PatternView| #[trigger] replicated(p, count) == p by {
        let s = p.timeline;
        assert(cycles(count) == 1);
        assert(tiled(s, p.clock, 0) =~= Seq::<Measurement>::empty());
        assert(tiled(s, p.clock, 1) =~= s) by {
            assert forall|k: int| 0 <= k < s.len() implies #[trigger] tiled(s, p.clock, 1)[k]
                == s[k] by {
                assert(tiled(s, p.clock, 1)[k] == shift(s[k], 0 * p.clock));
            }
        }
    }
    assert(sequence_added(st, name, count) =~= st);
}

/// Tiling a pattern of `L` samples and duration `D` into `n` cycles gives
/// `n * L` samples and a duration of `n * D`.
pub proof fn replicate_size(p: PatternView, n: int)
    requires
        n >= 1,
    ensures
        replicated(p, n).timeline.len() == n * p.timeline.len(),
        replicated(p, n).clock == n * p.clock,
{
    lemma_tiled_len(p.timeline, p.clock, n as nat);
}

/// In a pattern tiled into `n` cycles, sample `k` of repetition `r` is
/// sample `k` of the original, `r` durations later.
pub proof fn replicate_sample(p: PatternView, n: int, r: int, k: int)
    requires
        well_formed(p),
        n * p.clock <= u64::MAX,
        0 <= r < n,
        0 <= k < p.timeline.len(),
    ensures
        r * p.timeline.len() + k < replicated(p, n).timeline.len(),
        replicated(p, n).timeline[r * p.timeline.len() + k].voltage == p.timeline[k].voltage,
        replicated(p, n).timeline[r * p.timeline.len() + k].current == p.timeline[k].current,
        replicated(p, n).timeline[r * p.timeline.len() + k].time == r * p.clock
            + p.timeline[k].time,
{
    let s = p.timeline;
    let d = p.clock;
    lemma_tiled_index(s, d, n as nat, r, k);
    if k < s.len() - 1 {
        assert(s[k].time < s[s.len() - 1].time);
    }
    assert(s[k].time <= d);
    assert(r * d + d <= n * d) by (nonlinear_arith)
        requires
            r < n,
            d >= 0,
    ;
    assert(0 <= r * d) by (nonlinear_arith)
        requires
            r >= 0,
            d >= 0,
    ;
}

/// A store whose only pattern holds at most one sample has nothing to
/// measure, so retrieval fails.
pub proof fn lone_short_pattern_has_no_data(st: StoreView)
    requires
        st.len() == 1,
        st[0].1.timeline.len() <= 1,
    ensures
        !has_data(st),
{
}

} // verus!
