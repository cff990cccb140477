//! One pattern's timeline: timed samples appended one by one, and tiled into
//! repeated cycles.
use vstd::prelude::*;

verus! {

/// The step, in ticks, taken in place of a non-positive time step.
pub const MIN_STEP: u64 = 1;

/// Nanoamperes of synthetic current per microvolt of voltage: the current is
/// taken to be half the voltage, in amperes per volt.
pub const CURRENT_PER_VOLTAGE: i64 = 500;

/// One captured sample.
#[derive(Clone, Copy, Debug, PartialEq, Eq, Structural)]
pub struct Measurement {
    /// Voltage in microvolts.
    pub voltage: i32,
    /// Current in nanoamperes, where one was measured.
    pub current: Option<i64>,
    /// Time since the start of the pattern, in ticks of 10 ns.
    pub time: u64,
}

/// A named pattern's state: its samples in order of construction, and the
/// time at the end of the last one.
#[derive(Debug)]
pub struct Pattern {
    pub timeline: Vec<Measurement>,
    pub clock: u64,
}

/// The mathematical value of a `Pattern`.
pub struct PatternView {
    pub timeline: Seq<Measurement>,
    pub clock: int,
}

impl View for Pattern {
    type V = PatternView;

    open spec fn view(&self) -> PatternView {
        PatternView { timeline: self.timeline@, clock: self.clock as int }
    }
}

/// The empty pattern, whose clock stands at zero.
pub open spec fn empty_pattern() -> PatternView {
    PatternView { timeline: Seq::empty(), clock: 0 }
}

/// The step actually taken for a requested step `d`: `d` itself when it is
/// positive, else the minimum step.
pub open spec fn effective_step(d: int) -> int {
    if d > 0 {
        d
    } else {
        MIN_STEP as int
    }
}

/// The sample of `voltage` at `time`, with its synthetic current.
pub open spec fn sample(voltage: i32, time: int) -> Measurement {
    Measurement {
        voltage,
        current: Some((CURRENT_PER_VOLTAGE * voltage as int) as i64),
        time: time as u64,
    }
}

/// The pattern after one sample of `voltage` is appended `d` ticks after its end.
pub open spec fn appended(p: PatternView, d: int, voltage: i32) -> PatternView {
    let t = p.clock + effective_step(d);
    PatternView { timeline: p.timeline.push(sample(voltage, t)), clock: t }
}

/// `m` moved `offset` ticks later.
pub open spec fn shift(m: Measurement, offset: int) -> Measurement {
    Measurement { voltage: m.voltage, current: m.current, time: (m.time + offset) as u64 }
}

/// Every sample of `s` moved `offset` ticks later.
pub open spec fn shifted(s: Seq<Measurement>, offset: int) -> Seq<Measurement> {
    s.map_values(|m: Measurement| shift(m, offset))
}

/// `n` copies of `s` end to end, copy `r` moved by `r * d`.
pub open spec fn tiled(s: Seq<Measurement>, d: int, n: nat) -> Seq<Measurement>
    decreases n,
{
    if n == 0 {
        Seq::empty()
    } else {
        tiled(s, d, (n - 1) as nat) + shifted(s, (n - 1) * d)
    }
}

/// The number of cycles a repeat count asks for: zero counts as one.
pub open spec fn cycles(count: int) -> nat {
    if count >= 1 {
        count as nat
    } else {
        1
    }
}

/// The pattern after it is tiled into `count` cycles of its current length.
pub open spec fn replicated(p: PatternView, count: int) -> PatternView {
    let n = cycles(count);
    PatternView { timeline: tiled(p.timeline, p.clock, n), clock: n * p.clock }
}

/// The times of `s` strictly increase.
pub open spec fn strictly_increasing(s: Seq<Measurement>) -> bool {
    forall|i: int, j: int| 0 <= i < j < s.len() ==> s[i].time < s[j].time
}

/// A pattern's timeline starts after time zero and strictly increases, and its
/// clock is the time of its last sample, or zero when it has none.
pub open spec fn well_formed(p: PatternView) -> bool {
    &&& strictly_increasing(p.timeline)
    &&& if p.timeline.len() == 0 {
        p.clock == 0
    } else {
        &&& p.timeline[0].time > 0
        &&& p.clock == p.timeline.last().time
    }
}

/// A tiling of `n` copies holds `n` times as many samples.
pub proof fn lemma_tiled_len(s: Seq<Measurement>, d: int, n: nat)
    ensures
        tiled(s, d, n).len() == n * s.len(),
    decreases n,
{
    if n == 0 {
        assert(n * s.len() == 0) by (nonlinear_arith)
            requires
                n == 0,
        ;
    } else {
        let m = (n - 1) as nat;
        lemma_tiled_len(s, d, m);
        assert(tiled(s, d, n).len() == tiled(s, d, m).len() + s.len());
        assert(n * s.len() == m * s.len() + s.len()) by (nonlinear_arith)
            requires
                m + 1 == n,
        ;
    }
}

/// Sample `k` of copy `q` in a tiling is sample `k` of the original, moved by `q * d`.
pub proof fn lemma_tiled_index(s: Seq<Measurement>, d: int, n: nat, q: int, k: int)
    requires
        0 <= q < n,
        0 <= k < s.len(),
    ensures
        q * s.len() + k < tiled(s, d, n).len(),
        tiled(s, d, n)[q * s.len() + k] == shift(s[k], q * d),
    decreases n,
{
    lemma_tiled_len(s, d, n);
    lemma_tiled_len(s, d, (n - 1) as nat);
    let l = s.len() as int;
    assert(q * l + k < n * l) by (nonlinear_arith)
        requires
            0 <= q < n,
            0 <= k < l,
    ;
    if q < n - 1 {
        assert(q * l + k < (n - 1) * l) by (nonlinear_arith)
            requires
                0 <= q < n - 1,
                0 <= k < l,
        ;
        lemma_tiled_index(s, d, (n - 1) as nat, q, k);
    }
}

/// Tiling a well-formed pattern gives a well-formed timeline that ends at `n * d`.
proof fn lemma_tiled_well_formed(s: Seq<Measurement>, d: int, n: nat)
    requires
        well_formed(PatternView { timeline: s, clock: d }),
        n * d <= u64::MAX,
    ensures
        well_formed(PatternView { timeline: tiled(s, d, n), clock: if s.len() == 0 { 0 } else { n * d } }),
        forall|i: int| 0 <= i < tiled(s, d, n).len() ==> #[trigger] tiled(s, d, n)[i].time <= n * d,
    decreases n,
{
    lemma_tiled_len(s, d, n);
    if n == 0 {
        assert(n * d == 0) by (nonlinear_arith)
            requires
                n == 0,
        ;
    } else {
        let m = (n - 1) as nat;
        let prev = tiled(s, d, m);
        let off = m * d;
        let cur = shifted(s, off);
        assert(0 <= d) by {
            if s.len() > 0 {
                assert(d == s.last().time);
            }
        }
        assert(m * d <= n * d) by (nonlinear_arith)
            requires
                m + 1 == n,
                0 <= d,
        ;
        assert(n * d == m * d + d) by (nonlinear_arith)
            requires
                m + 1 == n,
        ;
        lemma_tiled_well_formed(s, d, m);
        assert forall|k: int| 0 <= k < s.len() implies s[k].time <= d by {
            if k < s.len() - 1 {
                assert(s[k].time < s[s.len() - 1].time);
            }
        }
        assert forall|k: int| 0 <= k < s.len() implies #[trigger] cur[k].time == s[k].time + off
            && cur[k].time > off && cur[k].time <= n * d by {
            assert(s[k].time <= d);
            if k > 0 {
                assert(s[0].time < s[k].time);
            }
        }
        let t = tiled(s, d, n);
        assert(t == prev + cur);
        assert forall|i: int, j: int| 0 <= i < j < t.len() implies t[i].time < t[j].time by {
            if j < prev.len() {
                assert(t[i] == prev[i] && t[j] == prev[j]);
            } else if i < prev.len() {
                assert(t[i] == prev[i]);
                assert(t[j] == cur[j - prev.len()]);
            } else {
                assert(t[i] == cur[i - prev.len()]);
                assert(t[j] == cur[j - prev.len()]);
                assert(s[i - prev.len()].time < s[j - prev.len()].time);
            }
        }
        assert forall|i: int| 0 <= i < t.len() implies #[trigger] t[i].time <= n * d by {
            if i < prev.len() {
                assert(t[i] == prev[i]);
            } else {
                assert(t[i] == cur[i - prev.len()]);
            }
        }
        if s.len() > 0 {
            assert(t.last() == cur[s.len() - 1]);
            if m > 0 {
                lemma_tiled_len(s, d, m);
                assert(m * s.len() > 0) by (nonlinear_arith)
                    requires
                        m > 0,
                        s.len() > 0,
                ;
                assert(t[0] == prev[0]);
            } else {
                assert(t[0] == cur[0]);
            }
        }
    }
}

impl Pattern {
    /// A pattern with no samples.
    pub fn new() -> (r: Pattern)
        ensures
            r@ == empty_pattern(),
    {
        Pattern { timeline: Vec::new(), clock: 0 }
    }

    /// Appends a sample of `voltage` `d_time` ticks after the end of the
    /// timeline, or `MIN_STEP` ticks after it when `d_time` is not positive.
    pub fn add_vector(&mut self, d_time: i64, voltage: i32)
        requires
            old(self)@.clock + effective_step(d_time as int) <= u64::MAX,
        ensures
            final(self)@ == appended(old(self)@, d_time as int, voltage),
            well_formed(old(self)@) ==> well_formed(final(self)@),
    {
        let step: u64 = if d_time > 0 {
            d_time as u64
        } else {
            MIN_STEP
        };
        let t: u64 = self.clock + step;
        let current: i64 = CURRENT_PER_VOLTAGE * voltage as i64;
        self.timeline.push(Measurement { voltage, current: Some(current), time: t });
        self.clock = t;
    }

    /// Tiles the timeline into `count` cycles: each further copy of the
    /// samples is moved by the pattern's duration after the previous one. A
    /// count of zero is taken as one.
    pub fn replicate(&mut self, count: usize)
        requires
            well_formed(old(self)@),
            cycles(count as int) * old(self)@.clock <= u64::MAX,
            cycles(count as int) * old(self)@.timeline.len() <= usize::MAX,
        ensures
            final(self)@ == replicated(old(self)@, count as int),
            well_formed(final(self)@),
    {
        let ghost base = self.timeline@;
        let n: usize = if count >= 1 {
            count
        } else {
            1
        };
        let base_len = self.timeline.len();
        let cycle: u64 = self.clock;
        let mut offset: u64 = cycle;
        let mut r: usize = 1;
        proof {
            lemma_tiled_well_formed(base, cycle as int, n as nat);
            assert(tiled(base, cycle as int, 1) =~= base) by {
                assert(tiled(base, cycle as int, 0) =~= Seq::<Measurement>::empty());
            }
            assert forall|k: int| 0 <= k < base.len() implies base[k].time <= cycle by {
                if k < base.len() - 1 {
                    assert(base[k].time < base[base.len() - 1].time);
                }
            }
        }
        while r < n
            invariant
                1 <= r <= n,
                n == cycles(count as int),
                n * cycle <= u64::MAX,
                n * base_len <= usize::MAX,
                base_len == base.len(),
                offset == r * cycle,
                self.timeline@ == tiled(base, cycle as int, r as nat),
                self.clock == cycle,
                forall|k: int| 0 <= k < base.len() ==> base[k].time <= cycle,
            decreases n - r,
        {
            proof {
                lemma_tiled_len(base, cycle as int, r as nat);
                assert(offset + cycle <= n * cycle) by (nonlinear_arith)
                    requires
                        offset == r * cycle,
                        r < n,
                ;
                assert((r + 1) * base_len <= n * base_len) by (nonlinear_arith)
                    requires
                        r < n,
                ;
                assert(r * base_len + base_len == (r + 1) * base_len) by (nonlinear_arith);
                assert(base_len <= r * base_len) by (nonlinear_arith)
                    requires
                        1 <= r,
                ;
            }
            let ghost before = self.timeline@;
            assert forall|j: int| 0 <= j < base.len() implies #[trigger] before[j] == base[j] by {
                lemma_tiled_index(base, cycle as int, r as nat, 0, j);
            }
            let mut k: usize = 0;
            while k < base_len
                invariant
                    0 <= k <= base_len,
                    base_len == base.len(),
                    base_len <= before.len(),
                    self.clock == cycle,
                    before == tiled(base, cycle as int, r as nat),
                    offset + cycle <= u64::MAX,
                    before.len() + base_len <= usize::MAX,
                    self.timeline@ == before + shifted(base, offset as int).take(k as int),
                    forall|j: int| 0 <= j < base.len() ==> base[j].time <= cycle,
                    forall|j: int| 0 <= j < base.len() ==> #[trigger] before[j] == base[j],
                decreases base_len - k,
            {
                let m = self.timeline[k];
                assert(m == base[k as int]);
                self.timeline.push(Measurement { voltage: m.voltage, current: m.current, time: m.time + offset });
                k = k + 1;
                assert(self.timeline@ =~= before + shifted(base, offset as int).take(k as int));
            }
            assert(shifted(base, offset as int).take(k as int) =~= shifted(base, offset as int));
            offset = offset + cycle;
            r = r + 1;
            proof {
                assert(offset == r * cycle) by (nonlinear_arith)
                    requires
                        offset == (r - 1) * cycle + cycle,
                ;
            }
        }
        self.clock = offset;
        proof {
            if base.len() == 0 {
                assert(cycle == 0);
                assert(n * 0 == 0);
            }
        }
    }
}

} // verus!
