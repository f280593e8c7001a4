//! Accumulators of the AMD SMI readings.

use vstd::prelude::*;

use crate::stats::{max2, min2};

verus! {

/// Energy counter over cumulative energy readings, in microjoules.
#[derive(Debug, Default, Clone, Copy, PartialEq, Eq, Structural)]
pub struct EnergyCounter {
    pub begin: Option<u64>,
    pub end: Option<u64>,
}

impl EnergyCounter {
    /// A counter without readings.
    pub open spec fn empty() -> EnergyCounter {
        EnergyCounter { begin: None, end: None }
    }

    /// The counter after one more reading: the first reading is the start,
    /// the next ones replace the end.
    pub open spec fn updated(self, value: u64) -> EnergyCounter {
        if self.begin is None {
            EnergyCounter { begin: Some(value), end: self.end }
        } else {
            EnergyCounter { begin: self.begin, end: Some(value) }
        }
    }

    /// The counter after a sequence of readings.
    pub open spec fn updated_all(self, values: Seq<u64>) -> EnergyCounter
        decreases values.len(),
    {
        if values.len() == 0 {
            self
        } else {
            self.updated_all(values.drop_last()).updated(values.last())
        }
    }

    /// The energy between the start and the end, zero when it went down;
    /// `None` when one of them is missing.
    pub open spec fn spec_diff(self) -> Option<u64> {
        match (self.begin, self.end) {
            (Some(b), Some(e)) => Some(
                if e >= b {
                    (e - b) as u64
                } else {
                    0
                },
            ),
            _ => None,
        }
    }

    /// A counter started at `value`.
    pub fn from_reading(value: u64) -> (c: Self)
        ensures
            c.begin == Some(value),
            c.end is None,
    {
        EnergyCounter { begin: Some(value), end: None }
    }

    /// Records an energy reading.
    pub fn update(&mut self, value: u64)
        ensures
            *final(self) == old(self).updated(value),
    {
        if self.begin.is_none() {
            self.begin = Some(value);
        } else {
            self.end = Some(value);
        }
    }

    /// Starts a new phase: the end becomes the start.
    pub fn reset(&mut self)
        ensures
            final(self).begin == old(self).end,
            final(self).end == old(self).end,
    {
        self.begin = self.end;
    }

    /// The energy consumed between the start and the end readings.
    pub fn diff(&self) -> (d: Option<u64>)
        ensures
            d == self.spec_diff(),
    {
        match (self.begin, self.end) {
            (Some(begin), Some(end)) => Some(end.saturating_sub(begin)),
            _ => None,
        }
    }
}

/// Readings taken from an empty counter measure from the first to the last
/// one; a single reading measures nothing yet.
pub proof fn lemma_energy_span(values: Seq<u64>)
    requires
        values.len() >= 1,
    ensures
        EnergyCounter::empty().updated_all(values).begin == Some(values[0]),
        values.len() >= 2 ==> EnergyCounter::empty().updated_all(values).end == Some(
            values.last(),
        ),
        values.len() == 1 ==> EnergyCounter::empty().updated_all(values).spec_diff() is None,
    decreases values.len(),
{
    let e = EnergyCounter::empty();
    assert(e.updated_all(values) == e.updated_all(values.drop_last()).updated(values.last()));
    if values.len() >= 2 {
        lemma_energy_span(values.drop_last());
        assert(values.drop_last()[0] == values[0]);
    } else {
        assert(values.drop_last() =~= Seq::<u64>::empty());
        assert(e.updated_all(values.drop_last()) == e);
    }
}

/// Tracks the smallest and largest VRAM usage of a phase, in bytes.
#[derive(Debug, Default, Clone, Copy)]
pub struct VramCounter {
    pub min: Option<u64>,
    pub max: Option<u64>,
}

impl VramCounter {
    /// Updates the tracked minimum and maximum.
    pub fn update(&mut self, value: u64)
        ensures
            final(self).min matches Some(m) && m == min2(
                match old(self).min {
                    Some(x) => x as int,
                    None => value as int,
                },
                value as int,
            ),
            final(self).max matches Some(m) && m == max2(
                match old(self).max {
                    Some(x) => x as int,
                    None => value as int,
                },
                value as int,
            ),
    {
        self.min = Some(
            match self.min {
                Some(m) => if m <= value {
                    m
                } else {
                    value
                },
                None => value,
            },
        );
        self.max = Some(
            match self.max {
                Some(m) => if m >= value {
                    m
                } else {
                    value
                },
                None => value,
            },
        );
    }

    /// Forgets the readings.
    pub fn reset(&mut self)
        ensures
            final(self).min is None,
            final(self).max is None,
    {
        self.min = None;
        self.max = None;
    }
}

/// Tracks the smallest and largest GPU usage of a phase, in percent.
#[derive(Debug, Default, Clone, Copy)]
pub struct UtilizationCounter {
    pub min: Option<u32>,
    pub max: Option<u32>,
}

impl UtilizationCounter {
    /// Updates the tracked minimum and maximum.
    pub fn update(&mut self, value: u32)
        ensures
            final(self).min matches Some(m) && m == min2(
                match old(self).min {
                    Some(x) => x as int,
                    None => value as int,
                },
                value as int,
            ),
            final(self).max matches Some(m) && m == max2(
                match old(self).max {
                    Some(x) => x as int,
                    None => value as int,
                },
                value as int,
            ),
    {
        self.min = Some(
            match self.min {
                Some(m) => if m <= value {
                    m
                } else {
                    value
                },
                None => value,
            },
        );
        self.max = Some(
            match self.max {
                Some(m) => if m >= value {
                    m
                } else {
                    value
                },
                None => value,
            },
        );
    }

    /// Forgets the readings.
    pub fn reset(&mut self)
        ensures
            final(self).min is None,
            final(self).max is None,
    {
        self.min = None;
        self.max = None;
    }
}

/// An instantaneous power reading.
#[derive(Debug, Clone, Copy)]
pub struct PowerMeasurement {
    /// Timestamp in microseconds.
    pub timestamp: u128,
    /// Power draw in watts.
    pub power: u32,
}

/// The rounded-down average of two powers (`u32::midpoint`).
pub open spec fn midpoint(a: u32, b: u32) -> int {
    (a + b) / 2
}

/// The time between two readings in microseconds, capped at `u64::MAX`.
pub open spec fn capped_duration(p1: PowerMeasurement, p2: PowerMeasurement) -> int {
    let d = p2.timestamp - p1.timestamp;
    if d > u64::MAX {
        u64::MAX as int
    } else {
        d
    }
}

/// The energy of the trapezoidal rule over the readings: the average power
/// of each interval times its duration.
pub open spec fn trapezoid_energy(s: Seq<PowerMeasurement>) -> int
    decreases s.len(),
{
    if s.len() < 2 {
        0
    } else {
        trapezoid_energy(s.drop_last()) + midpoint(s[s.len() - 2].power, s.last().power)
            * capped_duration(s[s.len() - 2], s.last())
    }
}

/// Power samples of a phase, used to estimate its energy.
#[derive(Debug, Default, Clone)]
pub struct PowerCounter(pub Vec<PowerMeasurement>);

impl PowerCounter {
    /// Whether the energy can be computed: the timestamps never go back and
    /// the energy fits in a `u64`.
    pub open spec fn computable(&self) -> bool {
        &&& forall|i: int, j: int|
            0 <= i <= j < self.0@.len() ==> self.0@[i].timestamp <= self.0@[j].timestamp
        &&& trapezoid_energy(self.0@) <= u64::MAX
    }

    /// Appends a power measurement.
    pub fn push(&mut self, value: PowerMeasurement)
        ensures
            final(self).0@ == old(self).0@.push(value),
    {
        self.0.push(value);
    }

    /// Removes all stored samples.
    pub fn reset(&mut self)
        ensures
            final(self).0@.len() == 0,
    {
        self.0 = Vec::new();
    }

    /// Whether [`PowerCounter::compute_energy`] can be called.
    pub fn can_compute_energy(&self) -> (b: bool)
        ensures
            b == self.computable(),
    {
        let s = &self.0;
        let mut i: usize = 1;
        let mut acc: u64 = 0;
        if s.len() < 2 {
            proof {
                assert forall|i: int, j: int| 0 <= i <= j < s@.len() implies s@[i].timestamp
                    <= s@[j].timestamp by {
                    assert(i == j);
                }
            }
            return true;
        }
        proof {
            assert(s@.subrange(0, 1).drop_last() =~= Seq::<PowerMeasurement>::empty());
        }
        while i < s.len()
            invariant
                1 <= i <= s@.len(),
                s == &self.0,
                forall|a: int, b: int| 0 <= a <= b < i ==> s@[a].timestamp <= s@[b].timestamp,
                acc as int == trapezoid_energy(s@.subrange(0, i as int)),
            decreases s@.len() - i,
        {
            let p1 = s[i - 1];
            let p2 = s[i];
            if p2.timestamp < p1.timestamp {
                proof {
                    if self.computable() {
                        assert(s@[i - 1].timestamp <= s@[i as int].timestamp);
                    }
                }
                return false;
            }
            let d = p2.timestamp - p1.timestamp;
            let du: u64 = if d > u64::MAX as u128 {
                u64::MAX
            } else {
                d as u64
            };
            let avg = ((p1.power as u64 + p2.power as u64) / 2) as u64;
            proof {
                let t = s@.subrange(0, i + 1);
                assert(t.drop_last() =~= s@.subrange(0, i as int));
                assert(t[t.len() - 2] == p1);
                assert(t.last() == p2);
                lemma_trapezoid_prefix_grows(s@, i + 1);
            }
            match avg.checked_mul(du) {
                Some(step) => match acc.checked_add(step) {
                    Some(n) => {
                        acc = n;
                    },
                    None => {
                        proof {
                            if self.computable() {
                                lemma_trapezoid_prefix_grows(s@, s@.len() as int);
                                assert(s@.subrange(0, s@.len() as int) =~= s@);
                                assert(trapezoid_energy(s@.subrange(0, i + 1)) <= trapezoid_energy(s@));
                            }
                        }
                        return false;
                    },
                },
                None => {
                    proof {
                        if self.computable() {
                            lemma_trapezoid_prefix_grows(s@, s@.len() as int);
                            assert(s@.subrange(0, s@.len() as int) =~= s@);
                            assert(trapezoid_energy(s@.subrange(0, i + 1)) <= trapezoid_energy(s@));
                        }
                        assert(avg * du <= trapezoid_energy(s@.subrange(0, i + 1))) by (
                        nonlinear_arith)
                            requires
                                trapezoid_energy(s@.subrange(0, i + 1)) == acc + avg * du,
                                acc >= 0,
                        ;
                    }
                    return false;
                },
            }
            i = i + 1;
        }
        proof {
            assert(s@.subrange(0, s@.len() as int) =~= s@);
        }
        true
    }

    /// Estimates the consumed energy, in microjoules, by integrating the
    /// samples with the trapezoidal rule.
    pub fn compute_energy(&self) -> (e: u64)
        requires
            self.computable(),
        ensures
            e as int == trapezoid_energy(self.0@),
    {
        let s = &self.0;
        let mut energy: u64 = 0;
        if s.len() < 2 {
            return 0;
        }
        let mut i: usize = 1;
        proof {
            assert(s@.subrange(0, 1).drop_last() =~= Seq::<PowerMeasurement>::empty());
        }
        while i < s.len()
            invariant
                1 <= i <= s@.len(),
                s == &self.0,
                self.computable(),
                energy as int == trapezoid_energy(s@.subrange(0, i as int)),
            decreases s@.len() - i,
        {
            let p1 = s[i - 1];
            let p2 = s[i];
            proof {
                assert(p1.timestamp <= p2.timestamp);
            }
            let d = p2.timestamp - p1.timestamp;
            let du: u64 = if d > u64::MAX as u128 {
                u64::MAX
            } else {
                d as u64
            };
            let avg = ((p1.power as u64 + p2.power as u64) / 2) as u64;
            proof {
                let t = s@.subrange(0, i + 1);
                assert(t.drop_last() =~= s@.subrange(0, i as int));
                assert(t[t.len() - 2] == p1);
                assert(t.last() == p2);
                lemma_trapezoid_prefix_grows(s@, i + 1);
                lemma_trapezoid_prefix_grows(s@, s@.len() as int);
                assert(s@.subrange(0, s@.len() as int) =~= s@);
                assert(trapezoid_energy(t) <= trapezoid_energy(s@));
                assert(trapezoid_energy(t) == energy + avg * du);
                assert(avg * du >= 0) by (nonlinear_arith)
                    requires
                        avg >= 0,
                        du >= 0,
                ;
            }
            energy = energy + avg * du;
            i = i + 1;
        }
        proof {
            assert(s@.subrange(0, s@.len() as int) =~= s@);
        }
        energy
    }
}

proof fn lemma_trapezoid_step_nonneg(s: Seq<PowerMeasurement>)
    requires
        s.len() >= 2,
        s[s.len() - 2].timestamp <= s.last().timestamp,
    ensures
        trapezoid_energy(s) >= trapezoid_energy(s.drop_last()),
{
    let a = midpoint(s[s.len() - 2].power, s.last().power);
    let b = capped_duration(s[s.len() - 2], s.last());
    assert(a * b >= 0) by (nonlinear_arith)
        requires
            a >= 0,
            b >= 0,
    ;
}

/// With timestamps that never go back, the energy of a prefix is at most
/// that of the whole.
proof fn lemma_trapezoid_prefix_grows(s: Seq<PowerMeasurement>, k: int)
    requires
        0 <= k <= s.len(),
        forall|i: int, j: int| 0 <= i <= j < k ==> s[i].timestamp <= s[j].timestamp,
    ensures
        forall|j: int| 0 <= j <= k ==> trapezoid_energy(#[trigger] s.subrange(0, j))
            <= trapezoid_energy(s.subrange(0, k)),
    decreases k,
{
    if k > 0 {
        lemma_trapezoid_prefix_grows(s, k - 1);
        let t = s.subrange(0, k);
        assert(t.drop_last() =~= s.subrange(0, k - 1));
        if k >= 2 {
            assert(t[t.len() - 2] == s[k - 2]);
            assert(t.last() == s[k - 1]);
            lemma_trapezoid_step_nonneg(t);
        }
    }
}

/// The counters of one GPU over a phase.
#[derive(Debug, Default, Clone)]
pub struct Counter {
    pub energy: Option<EnergyCounter>,
    pub vram: Option<VramCounter>,
    pub power: Option<PowerCounter>,
    pub utilization: Option<UtilizationCounter>,
}

} // verus!
