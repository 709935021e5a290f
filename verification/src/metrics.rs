//! The sampling schedule, the progress between two samples, and the
//! placement of the cores on a square grid.

use vstd::prelude::*;
use crate::cpu::{interpolated, sampled, CPUMetrics, HistoryView};
use crate::fixed::clamp;
use crate::usage::UNIT;

verus! {

/// The distance between two neighbours on the grid, in thousandths.
pub const SPACING: i64 = 2_000;

/// The sample rate that the metrics start with, in thousandths of a hertz.
pub const DEFAULT_SAMPLE_RATE: u64 = 2_000;

/// The time between two samples at `rate` thousandths of a hertz, in
/// milliseconds, rounded down. At rate 0 there is no such time.
pub open spec fn period_of(rate: u64) -> Option<int> {
    if rate == 0 {
        None
    } else {
        Some(1_000_000int / (rate as int))
    }
}

/// Whether a sample is due at `now`: more than one period has passed
/// since the last one.
pub open spec fn due(rate: u64, last: u64, now: u64) -> bool {
    match period_of(rate) {
        Some(period) => now - last > period,
        None => false,
    }
}

/// How far `now` lies into the period that began at `last`, in
/// millionths, rounded down and limited to the range from 0 to `UNIT`. A
/// period of no length counts as over.
pub open spec fn progress_at(rate: u64, last: u64, now: u64) -> int {
    match period_of(rate) {
        Some(period) => if now <= last {
            0
        } else if period == 0 {
            UNIT as int
        } else {
            clamp(((now - last) * UNIT) / period, 0, UNIT as int)
        },
        None => 0,
    }
}

/// The smallest number whose square is `n` or more.
pub open spec fn is_ceil_sqrt(n: int, k: int) -> bool {
    &&& 0 <= k
    &&& k * k >= n
    &&& k == 0 || (k - 1) * (k - 1) < n
}

/// The number of cores in a row of the smallest square grid that holds
/// `n` cores.
pub open spec fn per_row_of(n: int) -> int {
    choose|k: int| is_ceil_sqrt(n, k)
}

/// The place of core `i` on a grid with `per_row` cores in a row, the
/// grid centred on the origin.
pub open spec fn grid_position(i: int, per_row: int) -> [i64; 3] {
    [
        (SPACING * (i % per_row) - (per_row - 1) * (SPACING / 2)) as i64,
        0i64,
        (SPACING * (i / per_row) - (per_row - 1) * (SPACING / 2)) as i64,
    ]
}

/// The first of `rates` that is greater than `current`, or `None`.
pub open spec fn first_above(rates: Seq<u64>, current: u64) -> Option<u64>
    decreases rates.len(),
{
    if rates.len() == 0 {
        None
    } else if rates[0] > current {
        Some(rates[0])
    } else {
        first_above(rates.drop_first(), current)
    }
}

/// The sample rates that can be chosen, in thousandths of a hertz.
pub open spec fn sample_rates() -> Seq<u64> {
    seq![500u64, 1_000u64, 2_000u64, 5_000u64, 10_000u64, 20_000u64, 50_000u64]
}

/// The rate that follows `current` when cycling through the sample rates:
/// the next greater one, and from the greatest back to the first.
pub open spec fn next_rate(current: u64) -> u64 {
    match first_above(sample_rates(), current) {
        Some(rate) => rate,
        None => sample_rates()[0],
    }
}

/// Where one core is drawn.
#[derive(Clone, Copy, Debug, PartialEq, Eq)]
pub struct Instance {
    /// The place of the core, in thousandths.
    pub position: [i64; 3],
    /// The rotation of the core as a quaternion, scalar part first, in
    /// thousandths.
    pub rotation: [i64; 4],
}

/// Core `i` in its place on a grid with `per_row` cores in a row, not
/// rotated.
pub open spec fn grid_instance(i: int, per_row: int) -> Instance {
    Instance { position: grid_position(i, per_row), rotation: [1_000i64, 0i64, 0i64, 0i64] }
}

/// `n` cores placed row by row on the smallest square grid that holds
/// them.
pub open spec fn grid(n: nat) -> Seq<Instance> {
    Seq::new(n, |i: int| grid_instance(i, per_row_of(n as int)))
}

/// Computes the smallest number whose square is `n` or more.
pub fn ceil_sqrt(n: usize) -> (k: usize)
    ensures
        is_ceil_sqrt(n as int, k as int),
        k == per_row_of(n as int),
        k <= n,
{
    let mut k: usize = 0;
    while (k as u128) * (k as u128) < n as u128
        invariant
            k <= n,
            k == 0 || (k - 1) * (k - 1) < n,
            k * k <= u128::MAX,
        decreases n - k,
    {
        assert(k < n) by (nonlinear_arith)
            requires
                k * k < n,
                k <= n,
        ;
        k = k + 1;
        assert(k * k <= u128::MAX) by (nonlinear_arith)
            requires
                0 <= k <= 0xffff_ffff_ffff_ffff,
        ;
    }
    proof {
        lemma_ceil_sqrt_same(n as int, k as int, per_row_of(n as int));
    }
    k
}

/// The sample histories together with the schedule by which they grow.
pub struct SysMetrics {
    pub cpu_metrics: CPUMetrics,
    pub cpu_core_instances: Vec<Instance>,
    /// The sample rate, in thousandths of a hertz.
    pub sample_rate_hz: u64,
    /// When the last sample was taken.
    pub last_sample_time: u64,
}

impl SysMetrics {
    /// The histories are well formed.
    pub open spec fn wf(&self) -> bool {
        self.cpu_metrics.wf()
    }

    /// The cores placed row by row on the smallest square grid that holds
    /// `n_cpus` of them, centred on the origin and not rotated.
    pub fn instances(n_cpus: usize) -> (r: Vec<Instance>)
        ensures
            r@ == grid(n_cpus as nat),
    {
        let per_row: usize = ceil_sqrt(n_cpus);
        let mut out: Vec<Instance> = Vec::new();
        let mut i: usize = 0;
        while i < n_cpus
            invariant
                i <= n_cpus,
                per_row <= n_cpus,
                is_ceil_sqrt(n_cpus as int, per_row as int),
                out@.len() == i,
                per_row == per_row_of(n_cpus as int),
                forall|j: int| 0 <= j < i ==> #[trigger] out@[j] == grid_instance(j, per_row as int),
            decreases n_cpus - i,
        {
            assert(per_row > 0) by (nonlinear_arith)
                requires
                    per_row * per_row >= n_cpus,
                    n_cpus > 0,
                    per_row >= 0,
            ;
            let column: usize = i % per_row;
            let row: usize = i / per_row;
            assert(row < per_row) by (nonlinear_arith)
                requires
                    row == i / per_row,
                    per_row > 0,
                    i < n_cpus,
                    (per_row - 1) * (per_row - 1) < n_cpus,
                    per_row * per_row >= n_cpus,
            ;
            assert(per_row <= 0x1_0000_0000) by (nonlinear_arith)
                requires
                    (per_row - 1) * (per_row - 1) < n_cpus,
                    n_cpus <= 0xffff_ffff_ffff_ffff,
                    per_row > 0,
            ;
            let shift: i64 = (per_row as i64 - 1) * (SPACING / 2);
            let x: i64 = SPACING * (column as i64) - shift;
            let z: i64 = SPACING * (row as i64) - shift;
            out.push(Instance { position: [x, 0i64, z], rotation: [1_000i64, 0i64, 0i64, 0i64] });
            proof {
                assert(out@[i as int].position =~= grid_position(i as int, per_row as int));
            }
            i = i + 1;
        }
        assert(out@ =~= grid(n_cpus as nat));
        out
    }
}

/// A number has at most one smallest number whose square reaches it.
pub proof fn lemma_ceil_sqrt_same(n: int, a: int, b: int)
    requires
        is_ceil_sqrt(n, a),
        is_ceil_sqrt(n, b),
    ensures
        a == b,
{
    if a < b {
        assert(a * a <= (b - 1) * (b - 1)) by (nonlinear_arith)
            requires
                0 <= a <= b - 1,
        ;
    } else if b < a {
        assert(b * b <= (a - 1) * (a - 1)) by (nonlinear_arith)
            requires
                0 <= b <= a - 1,
        ;
    }
}


/// Computes the rate that follows `current` in the cycle.
pub fn next_sample_rate(current: u64) -> (r: u64)
    ensures
        r == next_rate(current),
{
    let rates: [u64; 7] = [500, 1_000, 2_000, 5_000, 10_000, 20_000, 50_000];
    assert(rates@ =~= sample_rates());
    let mut i: usize = 0;
    assert(rates@.subrange(0, 7) =~= rates@);
    while i < 7
        invariant
            i <= 7,
            rates@ == sample_rates(),
            first_above(rates@.subrange(i as int, 7), current) == first_above(
                sample_rates(),
                current,
            ),
        decreases 7 - i,
    {
        if rates[i] > current {
            return rates[i];
        }
        assert(rates@.subrange(i as int, 7).drop_first() =~= rates@.subrange(i + 1, 7));
        i = i + 1;
    }
    rates[0]
}

impl SysMetrics {
    /// The metrics after a first reading of the counter table at `now`,
    /// with the default sample rate and one instance for each core found.
    pub fn new(now: u64, table: &[u8]) -> (r: SysMetrics)
        ensures
            r.wf(),
            r.cpu_metrics@ == sampled(Seq::<HistoryView>::empty(), table@, now),
            r.sample_rate_hz == DEFAULT_SAMPLE_RATE,
            r.last_sample_time == now,
            r.cpu_core_instances@ == grid(r.cpu_metrics@.len()),
    {
        let mut cpu_metrics = CPUMetrics::new();
        cpu_metrics.sample(table, now);
        let cpu_core_instances = SysMetrics::instances(cpu_metrics.ncpus());
        SysMetrics {
            cpu_metrics,
            cpu_core_instances,
            sample_rate_hz: DEFAULT_SAMPLE_RATE,
            last_sample_time: now,
        }
    }

    /// The time between two samples in milliseconds, or `None` at rate 0.
    pub fn sample_period(&self) -> (r: Option<u64>)
        ensures
            match r {
                Some(period) => period_of(self.sample_rate_hz) == Some(period as int),
                None => period_of(self.sample_rate_hz).is_none(),
            },
    {
        if self.sample_rate_hz == 0 {
            None
        } else {
            Some(1_000_000 / self.sample_rate_hz)
        }
    }

    /// Whether a sample is due at `now`.
    pub fn sample_due(&self, now: u64) -> (r: bool)
        ensures
            r == due(self.sample_rate_hz, self.last_sample_time, now),
    {
        match self.sample_period() {
            Some(period) => now > self.last_sample_time && now - self.last_sample_time > period,
            None => false,
        }
    }

    /// How far `now` lies into the current sample period, in millionths.
    pub fn progress(&self, now: u64) -> (r: u64)
        ensures
            r == progress_at(self.sample_rate_hz, self.last_sample_time, now),
            r <= UNIT,
    {
        match self.sample_period() {
            Some(period) => {
                if now <= self.last_sample_time {
                    0
                } else if period == 0 {
                    UNIT
                } else {
                    let elapsed: u128 = (now - self.last_sample_time) as u128;
                    assert(elapsed * UNIT <= 0xffff_ffff_ffff_ffff * UNIT) by (nonlinear_arith)
                        requires
                            elapsed <= 0xffff_ffff_ffff_ffff,
                    ;
                    let ratio: u128 = elapsed * (UNIT as u128) / (period as u128);
                    if ratio > UNIT as u128 {
                        UNIT
                    } else {
                        ratio as u64
                    }
                }
            },
            None => 0,
        }
    }

    /// Moves the sample rate on to the next one of the cycle.
    pub fn cycle_sample_rate(&mut self)
        ensures
            final(self).sample_rate_hz == next_rate(old(self).sample_rate_hz),
            final(self).cpu_metrics == old(self).cpu_metrics,
            final(self).cpu_core_instances == old(self).cpu_core_instances,
            final(self).last_sample_time == old(self).last_sample_time,
    {
        self.sample_rate_hz = next_sample_rate(self.sample_rate_hz);
    }

    /// Advances the metrics to `now` and gives the usage of each eligible
    /// core for that moment. Where a sample is due and `table` holds the
    /// counter table as just read, the table is sampled and a new period
    /// begins at `now`; where it is due and there is no table, the sample
    /// stays due.
    pub fn update(&mut self, now: u64, table: Option<&[u8]>) -> (r: Vec<u64>)
        requires
            old(self).wf(),
        ensures
            final(self).wf(),
            final(self).sample_rate_hz == old(self).sample_rate_hz,
            final(self).cpu_core_instances == old(self).cpu_core_instances,
            match table {
                Some(text) if due(old(self).sample_rate_hz, old(self).last_sample_time, now) => {
                    &&& final(self).cpu_metrics@ == sampled(old(self).cpu_metrics@, text@, now)
                    &&& final(self).last_sample_time == now
                },
                _ => {
                    &&& final(self).cpu_metrics@ == old(self).cpu_metrics@
                    &&& final(self).last_sample_time == old(self).last_sample_time
                },
            },
            r@ == interpolated(
                final(self).cpu_metrics@,
                progress_at(final(self).sample_rate_hz, final(self).last_sample_time, now),
            ),
            forall|k: int| 0 <= k < r@.len() ==> #[trigger] r@[k] <= UNIT,
    {
        if self.sample_due(now) {
            match table {
                Some(text) => {
                    self.cpu_metrics.sample(text, now);
                    self.last_sample_time = now;
                },
                None => {},
            }
        }
        let progress: u64 = self.progress(now);
        self.cpu_metrics.interpolate_usage(progress)
    }
}

} // verus!
