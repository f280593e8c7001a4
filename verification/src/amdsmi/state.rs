//! The state of the AMD SMI source between phases: the GPUs it reads and
//! the counters of the running phase, how readings update them and how a
//! phase is taken out of them.

use vstd::prelude::*;

use crate::amdsmi::config::AmdSmiConfig;
use crate::amdsmi::counters::{
    Counter, EnergyCounter, PowerCounter, PowerMeasurement, UtilizationCounter, VramCounter,
};
use crate::amdsmi::error::AmdSmiError;
use crate::amdsmi::source::{
    AMDSMI_SOURCE_NAME, Processor, ProcessorSupport, all_sensors, counter_computable,
    result_metrics, sensors_view,
};
use crate::amdsmi::source;
use crate::types::{AvailableSensor, Metric, metrics_view};
use crate::stats::{max2, min2};

verus! {

/// The energy counter after one more reading.
pub open spec fn energy_after(c: Option<EnergyCounter>, v: u64) -> Option<EnergyCounter> {
    Some(
        match c {
            Some(e) => e,
            None => EnergyCounter::empty(),
        }.updated(v),
    )
}

/// The VRAM counter after one more reading.
pub open spec fn vram_after(c: Option<VramCounter>, v: u64) -> Option<VramCounter> {
    let (lo, hi) = match c {
        Some(x) => (x.min, x.max),
        None => (None, None),
    };
    Some(
        VramCounter {
            min: Some(
                min2(
                    match lo {
                        Some(m) => m as int,
                        None => v as int,
                    },
                    v as int,
                ) as u64,
            ),
            max: Some(
                max2(
                    match hi {
                        Some(m) => m as int,
                        None => v as int,
                    },
                    v as int,
                ) as u64,
            ),
        },
    )
}

/// The utilization counter after one more reading.
pub open spec fn utilization_after(c: Option<UtilizationCounter>, v: u32) -> Option<
    UtilizationCounter,
> {
    let (lo, hi) = match c {
        Some(x) => (x.min, x.max),
        None => (None, None),
    };
    Some(
        UtilizationCounter {
            min: Some(
                min2(
                    match lo {
                        Some(m) => m as int,
                        None => v as int,
                    },
                    v as int,
                ) as u32,
            ),
            max: Some(
                max2(
                    match hi {
                        Some(m) => m as int,
                        None => v as int,
                    },
                    v as int,
                ) as u32,
            ),
        },
    )
}

/// The power samples after one more reading.
pub open spec fn power_after(c: Option<Seq<PowerMeasurement>>, v: PowerMeasurement) -> Option<
    Seq<PowerMeasurement>,
> {
    Some(
        match c {
            Some(s) => s,
            None => seq![],
        }.push(v),
    )
}

/// The counters after the readings `r`, applied in order, each to the
/// counter of the GPU its index names; a reading whose index names no GPU
/// changes nothing.
pub open spec fn apply_readings<C, V>(
    c: Seq<C>,
    r: Seq<(usize, V)>,
    f: spec_fn(C, V) -> C,
) -> Seq<C>
    decreases r.len(),
{
    if r.len() == 0 {
        c
    } else {
        let prev = apply_readings(c, r.drop_last(), f);
        let (i, v) = r.last();
        if (i as int) < prev.len() {
            prev.update(i as int, f(prev[i as int], v))
        } else {
            prev
        }
    }
}

/// Applying readings keeps the number of counters.
pub proof fn lemma_apply_len<C, V>(c: Seq<C>, r: Seq<(usize, V)>, f: spec_fn(C, V) -> C)
    ensures
        apply_readings(c, r, f).len() == c.len(),
    decreases r.len(),
{
    if r.len() > 0 {
        lemma_apply_len(c, r.drop_last(), f);
    }
}

/// The power samples of each GPU, where it has some.
pub open spec fn powers_view(s: Seq<Option<PowerCounter>>) -> Seq<Option<Seq<PowerMeasurement>>> {
    s.map_values(
        |c: Option<PowerCounter>|
            match c {
                Some(p) => Some(p.0@),
                None => None,
            },
    )
}

/// One energy reading applied to a counter.
pub open spec fn energy_step() -> spec_fn(Option<EnergyCounter>, u64) -> Option<EnergyCounter> {
    |c: Option<EnergyCounter>, v: u64| energy_after(c, v)
}

/// One VRAM reading applied to a counter.
pub open spec fn vram_step() -> spec_fn(Option<VramCounter>, u64) -> Option<VramCounter> {
    |c: Option<VramCounter>, v: u64| vram_after(c, v)
}

/// One utilization reading applied to a counter.
pub open spec fn utilization_step() -> spec_fn(Option<UtilizationCounter>, u32) -> Option<
    UtilizationCounter,
> {
    |c: Option<UtilizationCounter>, v: u32| utilization_after(c, v)
}

/// One power reading applied to the samples.
pub open spec fn power_step() -> spec_fn(Option<Seq<PowerMeasurement>>, PowerMeasurement) -> Option<
    Seq<PowerMeasurement>,
> {
    |c: Option<Seq<PowerMeasurement>>, v: PowerMeasurement| power_after(c, v)
}

/// Applying one reading.
pub proof fn lemma_apply_one<C, V>(c: Seq<C>, i: usize, v: V, f: spec_fn(C, V) -> C)
    ensures
        apply_readings(c, seq![(i, v)], f) == (if (i as int) < c.len() {
            c.update(i as int, f(c[i as int], v))
        } else {
            c
        }),
{
    assert(seq![(i, v)].drop_last() =~= Seq::<(usize, V)>::empty());
    assert(apply_readings(c, seq![(i, v)].drop_last(), f) == c);
    assert(seq![(i, v)].last() == (i, v));
}

/// Applying readings one after the other.
pub proof fn lemma_apply_push<C, V>(c: Seq<C>, r: Seq<(usize, V)>, x: (usize, V), f: spec_fn(C, V) -> C)
    ensures
        apply_readings(c, r.push(x), f) == apply_readings(apply_readings(c, r, f), seq![x], f),
{
    assert(r.push(x).drop_last() =~= r);
    lemma_apply_one(apply_readings(c, r, f), x.0, x.1, f);
}

/// The indices of the GPUs that support every flag of `flag`, in order.
pub open spec fn supporting(ps: Seq<Processor>, flag: u8) -> Seq<usize>
    decreases ps.len(),
{
    if ps.len() == 0 {
        seq![]
    } else {
        supporting(ps.drop_last(), flag) + (if ps.last().support.has(flag) {
            seq![(ps.len() - 1) as usize]
        } else {
            seq![]
        })
    }
}

/// The indices of a sequence of readings.
pub open spec fn reading_indices<V>(r: Seq<(usize, V)>) -> Seq<usize> {
    r.map_values(|x: (usize, V)| x.0)
}

/// An energy counter at the start of the next phase: its end is its start.
pub open spec fn energy_reset(c: Option<EnergyCounter>) -> Option<EnergyCounter> {
    match c {
        Some(e) => Some(EnergyCounter { begin: e.end, end: e.end }),
        None => None,
    }
}

/// A VRAM counter at the start of the next phase: no readings.
pub open spec fn vram_reset(c: Option<VramCounter>) -> Option<VramCounter> {
    match c {
        Some(_) => Some(VramCounter { min: None, max: None }),
        None => None,
    }
}

/// A utilization counter at the start of the next phase: no readings.
pub open spec fn utilization_reset(c: Option<UtilizationCounter>) -> Option<UtilizationCounter> {
    match c {
        Some(_) => Some(UtilizationCounter { min: None, max: None }),
        None => None,
    }
}

/// Power samples at the start of the next phase: none.
pub open spec fn power_reset(c: Option<Seq<PowerMeasurement>>) -> Option<Seq<PowerMeasurement>> {
    match c {
        Some(_) => Some(seq![]),
        None => None,
    }
}

/// The power samples of a phase counter, where it has some.
pub open spec fn counter_power(c: Counter) -> Option<Seq<PowerMeasurement>> {
    match c.power {
        Some(p) => Some(p.0@),
        None => None,
    }
}

/// The readings a GPU offers, from whether each probe succeeded: energy
/// when its energy counter can be read, else power when its power can;
/// VRAM and utilization when they can be read.
pub open spec fn probed_support(energy: bool, power: bool, vram: bool, activity: bool) -> u8 {
    ((if energy {
        ProcessorSupport::ENERGY
    } else if power {
        ProcessorSupport::POWER
    } else {
        0u8
    }) | (if vram {
        ProcessorSupport::VRAM
    } else {
        0u8
    }) | (if activity {
        ProcessorSupport::UTILIZATION
    } else {
        0u8
    }))
}

/// Whether the filter lets a GPU through: no filter, or a filter naming it.
pub open spec fn spec_selected(spec: Option<Seq<Seq<char>>>, uuid: Seq<char>) -> bool {
    match spec {
        Some(s) => s.contains(uuid),
        None => true,
    }
}

/// The UUIDs of a filter.
pub open spec fn filter_view(spec: Option<Vec<String>>) -> Option<Seq<Seq<char>>> {
    match spec {
        Some(v) => Some(v@.map_values(|x: String| x@)),
        None => None,
    }
}

/// Whether the filter names the GPU.
fn filter_contains(spec: &Vec<String>, uuid: &str) -> (b: bool)
    ensures
        b == spec@.map_values(|x: String| x@).contains(uuid@),
{
    let ghost view = spec@.map_values(|x: String| x@);
    let u = crate::text::chars_of(uuid);
    let mut k: usize = 0;
    while k < spec.len()
        invariant
            k <= spec@.len(),
            view == spec@.map_values(|x: String| x@),
            u@ == uuid@,
            forall|i: int| 0 <= i < k ==> view[i] != uuid@,
        decreases spec@.len() - k,
    {
        let w = crate::text::chars_of(spec[k].as_str());
        if crate::text::chars_equal(&w, &u) {
            assert(view[k as int] == uuid@);
            return true;
        }
        k = k + 1;
    }
    proof {
        if view.contains(uuid@) {
            let j = choose|j: int| 0 <= j < view.len() && view[j] == uuid@;
            assert(view[j] != uuid@);
        }
    }
    false
}

/// The GPU to read, from its UUID and the outcome of each probe:
/// none when the filter leaves
/// it out or when no probe succeeded.
pub fn select_processor(
    uuid: String,
    spec: &Option<Vec<String>>,
    energy: bool,
    power: bool,
    vram: bool,
    activity: bool,
) -> (r: Option<Processor>)
    ensures
        r matches Some(p) ==> p.uuid@ == uuid@ && p.support.bits == probed_support(
            energy,
            power,
            vram,
            activity,
        ),
        r is Some <==> spec_selected(filter_view(*spec), uuid@) && probed_support(
            energy,
            power,
            vram,
            activity,
        ) != 0,
{
    if let Some(filter) = spec {
        if !filter_contains(filter, uuid.as_str()) {
            return None;
        }
    }
    let first: u8 = if energy {
        ProcessorSupport::ENERGY
    } else if power {
        ProcessorSupport::POWER
    } else {
        0
    };
    let second: u8 = if vram {
        ProcessorSupport::VRAM
    } else {
        0
    };
    let third: u8 = if activity {
        ProcessorSupport::UTILIZATION
    } else {
        0
    };
    let support = ProcessorSupport::from_bits(first | second | third);
    if support.is_empty() {
        None
    } else {
        Some(Processor { uuid, support })
    }
}

/// Whether no GPU has a reading to poll: none supports its VRAM, power or
/// utilization.
pub open spec fn nothing_polled(ps: Seq<Processor>) -> bool {
    &&& supporting(ps, ProcessorSupport::VRAM).len() == 0
    &&& supporting(ps, ProcessorSupport::POWER).len() == 0
    &&& supporting(ps, ProcessorSupport::UTILIZATION).len() == 0
}

/// The GPUs that a reader reads and the counters of the running phase, one
/// slot per GPU.
pub struct AmdSmi {
    pub config: AmdSmiConfig,
    pub processors: Vec<Processor>,
    pub energy_counters: Vec<Option<EnergyCounter>>,
    pub vram_counters: Vec<Option<VramCounter>>,
    pub power_counters: Vec<Option<PowerCounter>>,
    pub utilization_counters: Vec<Option<UtilizationCounter>>,
}

/// The source of the readings of the GPUs.
///
/// Each reading is stated through a predicate that a source may define:
/// what it may answer for a given GPU. A source that does not define one
/// claims nothing of those readings.
pub trait AmdSmiHardware {
    /// What `get_energy_count` may answer for `processor`.
    open spec fn energy_post(&self, processor: Processor, r: Result<u64, AmdSmiError>) -> bool {
        true
    }

    /// What `get_power` may answer for `processor`.
    open spec fn power_post(&self, processor: Processor, r: Result<PowerMeasurement, AmdSmiError>) -> bool {
        true
    }

    /// What `get_vram_usage` may answer for `processor`.
    open spec fn vram_post(&self, processor: Processor, r: Result<u64, AmdSmiError>) -> bool {
        true
    }

    /// What `get_gpu_activity` may answer for `processor`.
    open spec fn activity_post(&self, processor: Processor, r: Result<u32, AmdSmiError>) -> bool {
        true
    }

    /// The cumulative energy of a GPU, in microjoules.
    fn get_energy_count(&self, processor: &Processor) -> (r: Result<u64, AmdSmiError>)
        ensures
            self.energy_post(*processor, r),
    ;

    /// The instantaneous power of a GPU.
    fn get_power(&self, processor: &Processor) -> (r: Result<PowerMeasurement, AmdSmiError>)
        ensures
            self.power_post(*processor, r),
    ;

    /// The VRAM used on a GPU, in bytes.
    fn get_vram_usage(&self, processor: &Processor) -> (r: Result<u64, AmdSmiError>)
        ensures
            self.vram_post(*processor, r),
    ;

    /// The activity of a GPU, in percents.
    fn get_gpu_activity(&self, processor: &Processor) -> (r: Result<u32, AmdSmiError>)
        ensures
            self.activity_post(*processor, r),
    ;
}

/// Each VRAM reading `(i, x)` is what the hardware answered for GPU `i`.
pub open spec fn vram_answered<H: AmdSmiHardware>(h: H, ps: Seq<Processor>, rs: Seq<(usize, u64)>) -> bool {
    forall|k: int|
        #![trigger rs[k]]
        0 <= k < rs.len() ==> h.vram_post(ps[rs[k].0 as int], Ok::<u64, AmdSmiError>(rs[k].1))
}

/// Each power reading `(i, x)` is what the hardware answered for GPU `i`.
pub open spec fn power_answered<H: AmdSmiHardware>(
    h: H,
    ps: Seq<Processor>,
    rs: Seq<(usize, PowerMeasurement)>,
) -> bool {
    forall|k: int|
        #![trigger rs[k]]
        0 <= k < rs.len() ==> h.power_post(ps[rs[k].0 as int], Ok::<PowerMeasurement, AmdSmiError>(rs[k].1))
}

/// Each utilization reading `(i, x)` is what the hardware answered for GPU
/// `i`.
pub open spec fn activity_answered<H: AmdSmiHardware>(h: H, ps: Seq<Processor>, rs: Seq<(usize, u32)>) -> bool {
    forall|k: int|
        #![trigger rs[k]]
        0 <= k < rs.len() ==> h.activity_post(ps[rs[k].0 as int], Ok::<u32, AmdSmiError>(rs[k].1))
}

/// Each energy reading `(i, x)` is what the hardware answered for GPU `i`.
pub open spec fn energy_answered<H: AmdSmiHardware>(h: H, ps: Seq<Processor>, rs: Seq<(usize, u64)>) -> bool {
    forall|k: int|
        #![trigger rs[k]]
        0 <= k < rs.len() ==> h.energy_post(ps[rs[k].0 as int], Ok::<u64, AmdSmiError>(rs[k].1))
}

/// What one round of background polling did to the counters: for every
/// GPU that supports a reading, in order, one reading of that kind was
/// applied, and nothing else changed.
pub open spec fn polled(
    before: AmdSmi,
    after: AmdSmi,
    vram: Seq<(usize, u64)>,
    power: Seq<(usize, PowerMeasurement)>,
    utilization: Seq<(usize, u32)>,
) -> bool {
    &&& reading_indices(vram) == supporting(before.processors@, ProcessorSupport::VRAM)
    &&& reading_indices(power) == supporting(before.processors@, ProcessorSupport::POWER)
    &&& reading_indices(utilization) == supporting(
        before.processors@,
        ProcessorSupport::UTILIZATION,
    )
    &&& after.processors@ == before.processors@
    &&& after.energy_counters@ == before.energy_counters@
    &&& after.vram_counters@ == apply_readings(before.vram_counters@, vram, vram_step())
    &&& powers_view(after.power_counters@) == apply_readings(
        powers_view(before.power_counters@),
        power,
        power_step(),
    )
    &&& after.utilization_counters@ == apply_readings(
        before.utilization_counters@,
        utilization,
        utilization_step(),
    )
}

/// A polling that stopped after the VRAM readings: those are applied, the
/// other counters are as they were.
pub open spec fn vram_polled(before: AmdSmi, after: AmdSmi, vram: Seq<(usize, u64)>) -> bool {
    &&& reading_indices(vram) == supporting(before.processors@, ProcessorSupport::VRAM)
    &&& after.processors@ == before.processors@
    &&& after.energy_counters@ == before.energy_counters@
    &&& after.vram_counters@ == apply_readings(before.vram_counters@, vram, vram_step())
    &&& powers_view(after.power_counters@) == powers_view(before.power_counters@)
    &&& after.utilization_counters@ == before.utilization_counters@
}

/// A polling that stopped after the VRAM and power readings: those are
/// applied, the utilization counters are as they were.
pub open spec fn vram_power_polled(
    before: AmdSmi,
    after: AmdSmi,
    vram: Seq<(usize, u64)>,
    power: Seq<(usize, PowerMeasurement)>,
) -> bool {
    &&& reading_indices(vram) == supporting(before.processors@, ProcessorSupport::VRAM)
    &&& reading_indices(power) == supporting(before.processors@, ProcessorSupport::POWER)
    &&& after.processors@ == before.processors@
    &&& after.energy_counters@ == before.energy_counters@
    &&& after.vram_counters@ == apply_readings(before.vram_counters@, vram, vram_step())
    &&& powers_view(after.power_counters@) == apply_readings(
        powers_view(before.power_counters@),
        power,
        power_step(),
    )
    &&& after.utilization_counters@ == before.utilization_counters@
}

/// What a measurement did to the counters: one round of polling, then,
/// for every GPU that counts energy, in order, one energy reading.
pub open spec fn measured(
    before: AmdSmi,
    after: AmdSmi,
    vram: Seq<(usize, u64)>,
    power: Seq<(usize, PowerMeasurement)>,
    utilization: Seq<(usize, u32)>,
    energy: Seq<(usize, u64)>,
) -> bool {
    &&& reading_indices(vram) == supporting(before.processors@, ProcessorSupport::VRAM)
    &&& reading_indices(power) == supporting(before.processors@, ProcessorSupport::POWER)
    &&& reading_indices(utilization) == supporting(
        before.processors@,
        ProcessorSupport::UTILIZATION,
    )
    &&& reading_indices(energy) == supporting(before.processors@, ProcessorSupport::ENERGY)
    &&& after.processors@ == before.processors@
    &&& after.energy_counters@ == apply_readings(before.energy_counters@, energy, energy_step())
    &&& after.vram_counters@ == apply_readings(before.vram_counters@, vram, vram_step())
    &&& powers_view(after.power_counters@) == apply_readings(
        powers_view(before.power_counters@),
        power,
        power_step(),
    )
    &&& after.utilization_counters@ == apply_readings(
        before.utilization_counters@,
        utilization,
        utilization_step(),
    )
}

/// The indices of the supporting GPUs name GPUs.
pub proof fn lemma_supporting_bounds(ps: Seq<Processor>, flag: u8)
    ensures
        forall|i: int|
            0 <= i < supporting(ps, flag).len() ==> #[trigger] supporting(ps, flag)[i] < ps.len(),
    decreases ps.len(),
{
    if ps.len() > 0 {
        let pre = supporting(ps.drop_last(), flag);
        lemma_supporting_bounds(ps.drop_last(), flag);
        assert forall|i: int| 0 <= i < supporting(ps, flag).len() implies #[trigger] supporting(
            ps,
            flag,
        )[i] < ps.len() by {
            if i < pre.len() {
                assert(supporting(ps, flag)[i] == pre[i]);
            }
        }
    }
}

impl AmdSmi {
    /// One counter slot per GPU.
    pub open spec fn wf(&self) -> bool {
        &&& self.energy_counters@.len() == self.processors@.len()
        &&& self.vram_counters@.len() == self.processors@.len()
        &&& self.power_counters@.len() == self.processors@.len()
        &&& self.utilization_counters@.len() == self.processors@.len()
    }

    /// A reader of the given GPUs, with no readings yet.
    pub fn from_config(config: AmdSmiConfig, processors: Vec<Processor>) -> (s: Self)
        ensures
            s.wf(),
            s.processors@ == processors@,
            forall|i: int| 0 <= i < processors@.len() ==> s.energy_counters@[i] is None,
            forall|i: int| 0 <= i < processors@.len() ==> s.vram_counters@[i] is None,
            forall|i: int| 0 <= i < processors@.len() ==> s.power_counters@[i] is None,
            forall|i: int| 0 <= i < processors@.len() ==> s.utilization_counters@[i] is None,
    {
        let n = processors.len();
        let mut energy: Vec<Option<EnergyCounter>> = Vec::new();
        let mut vram: Vec<Option<VramCounter>> = Vec::new();
        let mut power: Vec<Option<PowerCounter>> = Vec::new();
        let mut utilization: Vec<Option<UtilizationCounter>> = Vec::new();
        let mut k: usize = 0;
        while k < n
            invariant
                k <= n,
                energy@.len() == k,
                vram@.len() == k,
                power@.len() == k,
                utilization@.len() == k,
                forall|i: int| 0 <= i < k ==> energy@[i] is None,
                forall|i: int| 0 <= i < k ==> vram@[i] is None,
                forall|i: int| 0 <= i < k ==> power@[i] is None,
                forall|i: int| 0 <= i < k ==> utilization@[i] is None,
            decreases n - k,
        {
            energy.push(None);
            vram.push(None);
            power.push(None);
            utilization.push(None);
            k = k + 1;
        }
        AmdSmi {
            config,
            processors,
            energy_counters: energy,
            vram_counters: vram,
            power_counters: power,
            utilization_counters: utilization,
        }
    }

    /// The indices of the GPUs that support every flag of `flag`, in order.
    pub fn supporting(&self, flag: u8) -> (r: Vec<usize>)
        ensures
            r@ == supporting(self.processors@, flag),
    {
        let mut out: Vec<usize> = Vec::new();
        let mut k: usize = 0;
        while k < self.processors.len()
            invariant
                k <= self.processors@.len(),
                out@ == supporting(self.processors@.subrange(0, k as int), flag),
            decreases self.processors@.len() - k,
        {
            proof {
                let ps = self.processors@.subrange(0, k + 1);
                assert(ps.drop_last() =~= self.processors@.subrange(0, k as int));
            }
            if self.processors[k].support.contains(flag) {
                out.push(k);
            }
            k = k + 1;
        }
        proof {
            assert(self.processors@.subrange(0, self.processors@.len() as int)
                =~= self.processors@);
        }
        out
    }

    /// Records an energy reading of the GPU `index`.
    pub fn record_energy(&mut self, index: usize, value: u64)
        requires
            old(self).wf(),
        ensures
            final(self).wf(),
            final(self).processors@ == old(self).processors@,
            final(self).energy_counters@ == apply_readings(
                old(self).energy_counters@,
                seq![(index, value)],
                energy_step(),
            ),
            final(self).vram_counters@ == old(self).vram_counters@,
            final(self).power_counters@ == old(self).power_counters@,
            final(self).utilization_counters@ == old(self).utilization_counters@,
    {
        proof {
            lemma_apply_one(self.energy_counters@, index, value, energy_step());
        }
        if index < self.energy_counters.len() {
            let mut c = match self.energy_counters[index] {
                Some(c) => c,
                None => EnergyCounter { begin: None, end: None },
            };
            c.update(value);
            self.energy_counters.set(index, Some(c));
        }
    }

    /// Records a VRAM reading of the GPU `index`.
    pub fn record_vram(&mut self, index: usize, value: u64)
        requires
            old(self).wf(),
        ensures
            final(self).wf(),
            final(self).processors@ == old(self).processors@,
            final(self).vram_counters@ == apply_readings(
                old(self).vram_counters@,
                seq![(index, value)],
                vram_step(),
            ),
            final(self).energy_counters@ == old(self).energy_counters@,
            final(self).power_counters@ == old(self).power_counters@,
            final(self).utilization_counters@ == old(self).utilization_counters@,
    {
        proof {
            lemma_apply_one(self.vram_counters@, index, value, vram_step());
        }
        if index < self.vram_counters.len() {
            let mut c = match self.vram_counters[index] {
                Some(c) => c,
                None => VramCounter { min: None, max: None },
            };
            c.update(value);
            self.vram_counters.set(index, Some(c));
        }
    }

    /// Records a utilization reading of the GPU `index`.
    pub fn record_utilization(&mut self, index: usize, value: u32)
        requires
            old(self).wf(),
        ensures
            final(self).wf(),
            final(self).processors@ == old(self).processors@,
            final(self).utilization_counters@ == apply_readings(
                old(self).utilization_counters@,
                seq![(index, value)],
                utilization_step(),
            ),
            final(self).energy_counters@ == old(self).energy_counters@,
            final(self).vram_counters@ == old(self).vram_counters@,
            final(self).power_counters@ == old(self).power_counters@,
    {
        proof {
            lemma_apply_one(self.utilization_counters@, index, value, utilization_step());
        }
        if index < self.utilization_counters.len() {
            let mut c = match self.utilization_counters[index] {
                Some(c) => c,
                None => UtilizationCounter { min: None, max: None },
            };
            c.update(value);
            self.utilization_counters.set(index, Some(c));
        }
    }

    /// Records a power reading of the GPU `index`.
    pub fn record_power(&mut self, index: usize, value: PowerMeasurement)
        requires
            old(self).wf(),
        ensures
            final(self).wf(),
            final(self).processors@ == old(self).processors@,
            powers_view(final(self).power_counters@) == apply_readings(
                powers_view(old(self).power_counters@),
                seq![(index, value)],
                power_step(),
            ),
            final(self).energy_counters@ == old(self).energy_counters@,
            final(self).vram_counters@ == old(self).vram_counters@,
            final(self).utilization_counters@ == old(self).utilization_counters@,
    {
        proof {
            lemma_apply_one(powers_view(self.power_counters@), index, value, power_step());
        }
        let ghost before = self.power_counters@;
        if index < self.power_counters.len() {
            let mut slot: Option<PowerCounter> = None;
            self.power_counters.set_and_swap(index, &mut slot);
            let mut p = match slot {
                Some(p) => p,
                None => PowerCounter(Vec::new()),
            };
            p.push(value);
            self.power_counters.set(index, Some(p));
            proof {
                assert(powers_view(self.power_counters@) =~= powers_view(before).update(
                    index as int,
                    power_after(powers_view(before)[index as int], value),
                ));
            }
        }
    }

    /// Applies readings of the background polling, in order: the VRAM
    /// readings, then the power readings, then the utilization readings.
    pub fn apply_polled(
        &mut self,
        vram: &Vec<(usize, u64)>,
        power: &Vec<(usize, PowerMeasurement)>,
        utilization: &Vec<(usize, u32)>,
    )
        requires
            old(self).wf(),
        ensures
            final(self).wf(),
            final(self).processors@ == old(self).processors@,
            final(self).energy_counters@ == old(self).energy_counters@,
            final(self).vram_counters@ == apply_readings(
                old(self).vram_counters@,
                vram@,
                vram_step(),
            ),
            powers_view(final(self).power_counters@) == apply_readings(
                powers_view(old(self).power_counters@),
                power@,
                power_step(),
            ),
            final(self).utilization_counters@ == apply_readings(
                old(self).utilization_counters@,
                utilization@,
                utilization_step(),
            ),
    {
        let ghost v0 = self.vram_counters@;
        let ghost p0 = powers_view(self.power_counters@);
        let ghost u0 = self.utilization_counters@;
        let mut k: usize = 0;
        while k < vram.len()
            invariant
                self.wf(),
                k <= vram@.len(),
                self.processors@ == old(self).processors@,
                self.energy_counters@ == old(self).energy_counters@,
                powers_view(self.power_counters@) == p0,
                self.utilization_counters@ == u0,
                self.vram_counters@ == apply_readings(v0, vram@.subrange(0, k as int), vram_step()),
            decreases vram@.len() - k,
        {
            proof {
                assert(vram@.subrange(0, k + 1) =~= vram@.subrange(0, k as int).push(vram@[k as int]));
                lemma_apply_push(v0, vram@.subrange(0, k as int), vram@[k as int], vram_step());
            }
            self.record_vram(vram[k].0, vram[k].1);
            k = k + 1;
        }
        proof {
            assert(vram@.subrange(0, vram@.len() as int) =~= vram@);
        }
        let mut k: usize = 0;
        while k < power.len()
            invariant
                self.wf(),
                k <= power@.len(),
                self.processors@ == old(self).processors@,
                self.energy_counters@ == old(self).energy_counters@,
                self.vram_counters@ == apply_readings(v0, vram@, vram_step()),
                self.utilization_counters@ == u0,
                powers_view(self.power_counters@) == apply_readings(
                    p0,
                    power@.subrange(0, k as int),
                    power_step(),
                ),
            decreases power@.len() - k,
        {
            proof {
                assert(power@.subrange(0, k + 1) =~= power@.subrange(0, k as int).push(
                    power@[k as int],
                ));
                lemma_apply_push(p0, power@.subrange(0, k as int), power@[k as int], power_step());
            }
            self.record_power(power[k].0, power[k].1);
            k = k + 1;
        }
        proof {
            assert(power@.subrange(0, power@.len() as int) =~= power@);
        }
        let mut k: usize = 0;
        while k < utilization.len()
            invariant
                self.wf(),
                k <= utilization@.len(),
                self.processors@ == old(self).processors@,
                self.energy_counters@ == old(self).energy_counters@,
                self.vram_counters@ == apply_readings(v0, vram@, vram_step()),
                powers_view(self.power_counters@) == apply_readings(p0, power@, power_step()),
                self.utilization_counters@ == apply_readings(
                    u0,
                    utilization@.subrange(0, k as int),
                    utilization_step(),
                ),
            decreases utilization@.len() - k,
        {
            proof {
                assert(utilization@.subrange(0, k + 1) =~= utilization@.subrange(0, k as int).push(
                    utilization@[k as int],
                ));
                lemma_apply_push(
                    u0,
                    utilization@.subrange(0, k as int),
                    utilization@[k as int],
                    utilization_step(),
                );
            }
            self.record_utilization(utilization[k].0, utilization[k].1);
            k = k + 1;
        }
        proof {
            assert(utilization@.subrange(0, utilization@.len() as int) =~= utilization@);
        }
    }

    /// Applies energy readings, in order.
    pub fn apply_energy(&mut self, energy: &Vec<(usize, u64)>)
        requires
            old(self).wf(),
        ensures
            final(self).wf(),
            final(self).processors@ == old(self).processors@,
            final(self).energy_counters@ == apply_readings(
                old(self).energy_counters@,
                energy@,
                energy_step(),
            ),
            final(self).vram_counters@ == old(self).vram_counters@,
            final(self).power_counters@ == old(self).power_counters@,
            final(self).utilization_counters@ == old(self).utilization_counters@,
    {
        let ghost e0 = self.energy_counters@;
        let mut k: usize = 0;
        while k < energy.len()
            invariant
                self.wf(),
                k <= energy@.len(),
                self.processors@ == old(self).processors@,
                self.vram_counters@ == old(self).vram_counters@,
                self.power_counters@ == old(self).power_counters@,
                self.utilization_counters@ == old(self).utilization_counters@,
                self.energy_counters@ == apply_readings(
                    e0,
                    energy@.subrange(0, k as int),
                    energy_step(),
                ),
            decreases energy@.len() - k,
        {
            proof {
                assert(energy@.subrange(0, k + 1) =~= energy@.subrange(0, k as int).push(
                    energy@[k as int],
                ));
                lemma_apply_push(e0, energy@.subrange(0, k as int), energy@[k as int], energy_step());
            }
            self.record_energy(energy[k].0, energy[k].1);
            k = k + 1;
        }
        proof {
            assert(energy@.subrange(0, energy@.len() as int) =~= energy@);
        }
    }

    /// Reads the VRAM, power and utilization of every GPU that supports
    /// them, then updates the VRAM, power and utilization counters in that
    /// order. Every reading is taken; a failed one stops the updates at its
    /// kind of reading, so the kinds before it are applied and it and the
    /// kinds after it are not.
    pub fn read_polled_counters<H: AmdSmiHardware>(&mut self, hardware: &H) -> (r: Result<
        (),
        AmdSmiError,
    >)
        requires
            old(self).wf(),
        ensures
            final(self).wf(),
            r is Ok ==> exists|
                v: Seq<(usize, u64)>,
                p: Seq<(usize, PowerMeasurement)>,
                u: Seq<(usize, u32)>,
            |
                #![trigger polled(*old(self), *final(self), v, p, u)]
                polled(*old(self), *final(self), v, p, u) && vram_answered(
                    *hardware,
                    old(self).processors@,
                    v,
                ) && power_answered(*hardware, old(self).processors@, p) && activity_answered(
                    *hardware,
                    old(self).processors@,
                    u,
                ),
            r is Err ==> *final(self) == *old(self) || (exists|v: Seq<(usize, u64)>|
                #![trigger vram_polled(*old(self), *final(self), v)]
                vram_polled(*old(self), *final(self), v) && vram_answered(
                    *hardware,
                    old(self).processors@,
                    v,
                )) || (exists|v: Seq<(usize, u64)>, p: Seq<(usize, PowerMeasurement)>|
                #![trigger vram_power_polled(*old(self), *final(self), v, p)]
                vram_power_polled(*old(self), *final(self), v, p) && vram_answered(
                    *hardware,
                    old(self).processors@,
                    v,
                ) && power_answered(*hardware, old(self).processors@, p)),
            nothing_polled(old(self).processors@) ==> r is Ok,
    {
        let vram_idx = self.supporting(ProcessorSupport::VRAM);
        let power_idx = self.supporting(ProcessorSupport::POWER);
        let util_idx = self.supporting(ProcessorSupport::UTILIZATION);
        proof {
            lemma_supporting_bounds(self.processors@, ProcessorSupport::VRAM);
            lemma_supporting_bounds(self.processors@, ProcessorSupport::POWER);
            lemma_supporting_bounds(self.processors@, ProcessorSupport::UTILIZATION);
        }
        let mut vram: Vec<(usize, u64)> = Vec::new();
        let mut vram_err: Option<AmdSmiError> = None;
        let mut k: usize = 0;
        while k < vram_idx.len()
            invariant
                self.wf(),
                *self == *old(self),
                k <= vram_idx@.len(),
                vram_idx@ == supporting(self.processors@, ProcessorSupport::VRAM),
                forall|i: int| 0 <= i < vram_idx@.len() ==> vram_idx@[i] < self.processors@.len(),
                vram_err is None ==> reading_indices(vram@) == vram_idx@.subrange(0, k as int),
                vram_err is Some ==> k > 0,
                forall|j: int|
                    #![trigger vram@[j]]
                    0 <= j < vram@.len() ==> vram@[j].0 < self.processors@.len() && hardware.vram_post(
                        self.processors@[vram@[j].0 as int],
                        Ok::<u64, AmdSmiError>(vram@[j].1),
                    ),
            decreases vram_idx@.len() - k,
        {
            let i = vram_idx[k];
            let ghost prev = vram@;
            match hardware.get_vram_usage(&self.processors[i]) {
                Ok(x) => vram.push((i, x)),
                Err(e) => {
                    if vram_err.is_none() {
                        vram_err = Some(e);
                    }
                },
            }
            proof {
                if vram_err is None {
                    assert(reading_indices(vram@) =~= reading_indices(prev).push(i));
                    assert(vram_idx@.subrange(0, k + 1) =~= vram_idx@.subrange(0, k as int).push(i));
                }
            }
            k = k + 1;
        }
        let mut power: Vec<(usize, PowerMeasurement)> = Vec::new();
        let mut power_err: Option<AmdSmiError> = None;
        let mut k: usize = 0;
        while k < power_idx.len()
            invariant
                self.wf(),
                *self == *old(self),
                k <= power_idx@.len(),
                power_idx@ == supporting(self.processors@, ProcessorSupport::POWER),
                forall|i: int| 0 <= i < power_idx@.len() ==> power_idx@[i] < self.processors@.len(),
                power_err is None ==> reading_indices(power@) == power_idx@.subrange(0, k as int),
                power_err is Some ==> k > 0,
                forall|j: int|
                    #![trigger power@[j]]
                    0 <= j < power@.len() ==> power@[j].0 < self.processors@.len() && hardware.power_post(
                        self.processors@[power@[j].0 as int],
                        Ok::<PowerMeasurement, AmdSmiError>(power@[j].1),
                    ),
            decreases power_idx@.len() - k,
        {
            let i = power_idx[k];
            let ghost prev = power@;
            match hardware.get_power(&self.processors[i]) {
                Ok(x) => power.push((i, x)),
                Err(e) => {
                    if power_err.is_none() {
                        power_err = Some(e);
                    }
                },
            }
            proof {
                if power_err is None {
                    assert(reading_indices(power@) =~= reading_indices(prev).push(i));
                    assert(power_idx@.subrange(0, k + 1) =~= power_idx@.subrange(0, k as int).push(i));
                }
            }
            k = k + 1;
        }
        let mut util: Vec<(usize, u32)> = Vec::new();
        let mut util_err: Option<AmdSmiError> = None;
        let mut k: usize = 0;
        while k < util_idx.len()
            invariant
                self.wf(),
                *self == *old(self),
                k <= util_idx@.len(),
                util_idx@ == supporting(self.processors@, ProcessorSupport::UTILIZATION),
                forall|i: int| 0 <= i < util_idx@.len() ==> util_idx@[i] < self.processors@.len(),
                util_err is None ==> reading_indices(util@) == util_idx@.subrange(0, k as int),
                util_err is Some ==> k > 0,
                forall|j: int|
                    #![trigger util@[j]]
                    0 <= j < util@.len() ==> util@[j].0 < self.processors@.len() && hardware.activity_post(
                        self.processors@[util@[j].0 as int],
                        Ok::<u32, AmdSmiError>(util@[j].1),
                    ),
            decreases util_idx@.len() - k,
        {
            let i = util_idx[k];
            let ghost prev = util@;
            match hardware.get_gpu_activity(&self.processors[i]) {
                Ok(x) => util.push((i, x)),
                Err(e) => {
                    if util_err.is_none() {
                        util_err = Some(e);
                    }
                },
            }
            proof {
                if util_err is None {
                    assert(reading_indices(util@) =~= reading_indices(prev).push(i));
                    assert(util_idx@.subrange(0, k + 1) =~= util_idx@.subrange(0, k as int).push(i));
                }
            }
            k = k + 1;
        }
        proof {
            assert(vram_idx@.subrange(0, vram_idx@.len() as int) =~= vram_idx@);
            assert(power_idx@.subrange(0, power_idx@.len() as int) =~= power_idx@);
            assert(util_idx@.subrange(0, util_idx@.len() as int) =~= util_idx@);
        }
        let ghost before = *self;
        let no_power: Vec<(usize, PowerMeasurement)> = Vec::new();
        let no_util: Vec<(usize, u32)> = Vec::new();
        let no_vram: Vec<(usize, u64)> = Vec::new();
        if let Some(e) = vram_err {
            return Err(e);
        }
        self.apply_polled(&vram, &no_power, &no_util);
        proof {
            assert(vram_polled(before, *self, vram@));
            assert(vram_answered(*hardware, before.processors@, vram@));
        }
        if let Some(e) = power_err {
            return Err(e);
        }
        let ghost mid = *self;
        self.apply_polled(&no_vram, &power, &no_util);
        proof {
            assert(vram_power_polled(before, *self, vram@, power@));
            assert(power_answered(*hardware, before.processors@, power@));
        }
        if let Some(e) = util_err {
            return Err(e);
        }
        self.apply_polled(&no_vram, &no_power, &util);
        assert(polled(before, *self, vram@, power@, util@));
        assert(activity_answered(*hardware, before.processors@, util@));
        Ok(())
    }

    /// Takes a measurement of every GPU: one round of
    /// polling, then the energy of every GPU that counts it. A failed
    /// energy reading leaves the polled readings applied and no energy
    /// reading.
    pub fn measure<H: AmdSmiHardware>(&mut self, hardware: &H) -> (r: Result<(), AmdSmiError>)
        requires
            old(self).wf(),
        ensures
            final(self).wf(),
            r is Ok ==> exists|
                v: Seq<(usize, u64)>,
                p: Seq<(usize, PowerMeasurement)>,
                u: Seq<(usize, u32)>,
                e: Seq<(usize, u64)>,
            |
                #![trigger measured(*old(self), *final(self), v, p, u, e)]
                measured(*old(self), *final(self), v, p, u, e) && vram_answered(
                    *hardware,
                    old(self).processors@,
                    v,
                ) && power_answered(*hardware, old(self).processors@, p) && activity_answered(
                    *hardware,
                    old(self).processors@,
                    u,
                ) && energy_answered(*hardware, old(self).processors@, e),
            nothing_polled(old(self).processors@) && supporting(
                old(self).processors@,
                ProcessorSupport::ENERGY,
            ).len() == 0 ==> r is Ok,
    {
        let ghost start = *self;
        match self.read_polled_counters(hardware) {
            Ok(()) => {},
            Err(e) => return Err(e),
        }
        let ghost mid = *self;
        let energy_idx = self.supporting(ProcessorSupport::ENERGY);
        proof {
            lemma_supporting_bounds(self.processors@, ProcessorSupport::ENERGY);
        }
        let mut energy: Vec<(usize, u64)> = Vec::new();
        let mut k: usize = 0;
        while k < energy_idx.len()
            invariant
                self.wf(),
                *self == mid,
                mid.processors@ == start.processors@,
                start == *old(self),
                k <= energy_idx@.len(),
                energy_idx@ == supporting(self.processors@, ProcessorSupport::ENERGY),
                forall|i: int| 0 <= i < energy_idx@.len() ==> energy_idx@[i] < self.processors@.len(),
                reading_indices(energy@) == energy_idx@.subrange(0, k as int),
                forall|j: int|
                    #![trigger energy@[j]]
                    0 <= j < energy@.len() ==> energy@[j].0 < self.processors@.len() && hardware.energy_post(
                        self.processors@[energy@[j].0 as int],
                        Ok::<u64, AmdSmiError>(energy@[j].1),
                    ),
            decreases energy_idx@.len() - k,
        {
            let i = energy_idx[k];
            let ghost prev = energy@;
            match hardware.get_energy_count(&self.processors[i]) {
                Ok(x) => energy.push((i, x)),
                Err(e) => return Err(e),
            }
            proof {
                assert(reading_indices(energy@) =~= reading_indices(prev).push(i));
                assert(energy_idx@.subrange(0, k + 1) =~= energy_idx@.subrange(0, k as int).push(i));
            }
            k = k + 1;
        }
        proof {
            assert(energy_idx@.subrange(0, energy_idx@.len() as int) =~= energy_idx@);
        }
        self.apply_energy(&energy);
        proof {
            let (v, p, u) = choose|
                v: Seq<(usize, u64)>,
                p: Seq<(usize, PowerMeasurement)>,
                u: Seq<(usize, u32)>,
            |
                #![trigger polled(start, mid, v, p, u)]
                polled(start, mid, v, p, u) && vram_answered(*hardware, start.processors@, v)
                    && power_answered(*hardware, start.processors@, p) && activity_answered(
                    *hardware,
                    start.processors@,
                    u,
                );
            assert(measured(start, *self, v, p, u, energy@));
            assert(energy_answered(*hardware, start.processors@, energy@));
        }
        Ok(())
    }

    /// Takes the counters of the phase out and starts the next one:
    /// one entry per GPU, in order, holding the
    /// counters it has; energy counters then start where they ended, the
    /// other counters start empty.
    pub fn retrieve(&mut self) -> (r: Vec<(usize, Counter)>)
        requires
            old(self).wf(),
        ensures
            final(self).wf(),
            final(self).processors@ == old(self).processors@,
            r@.len() == old(self).processors@.len(),
            forall|i: int|
                0 <= i < r@.len() ==> {
                    &&& (#[trigger] r@[i]).0 == i
                    &&& r@[i].1.energy == old(self).energy_counters@[i]
                    &&& r@[i].1.vram == old(self).vram_counters@[i]
                    &&& counter_power(r@[i].1) == powers_view(old(self).power_counters@)[i]
                    &&& r@[i].1.utilization == old(self).utilization_counters@[i]
                },
            forall|i: int|
                0 <= i < r@.len() ==> {
                    &&& #[trigger] final(self).energy_counters@[i] == energy_reset(
                        old(self).energy_counters@[i],
                    )
                    &&& final(self).vram_counters@[i] == vram_reset(old(self).vram_counters@[i])
                    &&& powers_view(final(self).power_counters@)[i] == power_reset(
                        powers_view(old(self).power_counters@)[i],
                    )
                    &&& final(self).utilization_counters@[i] == utilization_reset(
                        old(self).utilization_counters@[i],
                    )
                },
    {
        let n = self.processors.len();
        let mut out: Vec<(usize, Counter)> = Vec::new();
        let mut k: usize = 0;
        while k < n
            invariant
                self.wf(),
                old(self).wf(),
                n == self.processors@.len(),
                k <= n,
                self.processors@ == old(self).processors@,
                out@.len() == k,
                forall|i: int|
                    0 <= i < k ==> {
                        &&& (#[trigger] out@[i]).0 == i
                        &&& out@[i].1.energy == old(self).energy_counters@[i]
                        &&& out@[i].1.vram == old(self).vram_counters@[i]
                        &&& counter_power(out@[i].1) == powers_view(old(self).power_counters@)[i]
                        &&& out@[i].1.utilization == old(self).utilization_counters@[i]
                    },
                forall|i: int|
                    0 <= i < k ==> {
                        &&& #[trigger] self.energy_counters@[i] == energy_reset(
                            old(self).energy_counters@[i],
                        )
                        &&& self.vram_counters@[i] == vram_reset(old(self).vram_counters@[i])
                        &&& powers_view(self.power_counters@)[i] == power_reset(
                            powers_view(old(self).power_counters@)[i],
                        )
                        &&& self.utilization_counters@[i] == utilization_reset(
                            old(self).utilization_counters@[i],
                        )
                    },
                forall|i: int|
                    k <= i < n ==> #[trigger] self.energy_counters@[i]
                        == old(self).energy_counters@[i],
                forall|i: int|
                    k <= i < n ==> #[trigger] self.vram_counters@[i] == old(self).vram_counters@[i],
                forall|i: int|
                    k <= i < n ==> #[trigger] self.power_counters@[i] == old(self).power_counters@[i],
                forall|i: int|
                    k <= i < n ==> #[trigger] self.utilization_counters@[i]
                        == old(self).utilization_counters@[i],
            decreases n - k,
        {
            let ghost prev_e = self.energy_counters@;
            let ghost prev_p = self.power_counters@;
            let ghost prev_v = self.vram_counters@;
            let ghost prev_u = self.utilization_counters@;
            let energy = self.energy_counters[k];
            let vram = self.vram_counters[k];
            let utilization = self.utilization_counters[k];
            let mut power: Option<PowerCounter> = None;
            self.power_counters.set_and_swap(k, &mut power);
            let reset_power = match &power {
                Some(_) => Some(PowerCounter(Vec::new())),
                None => None,
            };
            self.power_counters.set(k, reset_power);
            let reset_energy = match energy {
                Some(e) => Some(EnergyCounter { begin: e.end, end: e.end }),
                None => None,
            };
            self.energy_counters.set(k, reset_energy);
            let reset_vram = match vram {
                Some(_) => Some(VramCounter { min: None, max: None }),
                None => None,
            };
            self.vram_counters.set(k, reset_vram);
            let reset_util = match utilization {
                Some(_) => Some(UtilizationCounter { min: None, max: None }),
                None => None,
            };
            self.utilization_counters.set(k, reset_util);
            let ghost prev_out = out@;
            out.push((k, Counter { energy, vram, power, utilization }));
            proof {
                assert forall|i: int| 0 <= i < k + 1 implies {
                    &&& (#[trigger] out@[i]).0 == i
                    &&& out@[i].1.energy == old(self).energy_counters@[i]
                    &&& out@[i].1.vram == old(self).vram_counters@[i]
                    &&& counter_power(out@[i].1) == powers_view(old(self).power_counters@)[i]
                    &&& out@[i].1.utilization == old(self).utilization_counters@[i]
                } by {
                    if i < k {
                        assert(out@[i] == prev_out[i]);
                    } else {
                        assert(prev_p[i] == old(self).power_counters@[i]);
                    }
                }
                assert forall|i: int| 0 <= i < k + 1 implies {
                    &&& #[trigger] self.energy_counters@[i] == energy_reset(
                        old(self).energy_counters@[i],
                    )
                    &&& self.vram_counters@[i] == vram_reset(old(self).vram_counters@[i])
                    &&& powers_view(self.power_counters@)[i] == power_reset(
                        powers_view(old(self).power_counters@)[i],
                    )
                    &&& self.utilization_counters@[i] == utilization_reset(
                        old(self).utilization_counters@[i],
                    )
                } by {
                    if i < k {
                        assert(self.energy_counters@[i] == prev_e[i]);
                        assert(self.vram_counters@[i] == prev_v[i]);
                        assert(self.utilization_counters@[i] == prev_u[i]);
                        assert(self.power_counters@[i] == prev_p[i]);
                        assert(powers_view(prev_p)[i] == powers_view(self.power_counters@)[i]);
                    } else {
                        assert(prev_e[i] == old(self).energy_counters@[i]);
                        assert(prev_v[i] == old(self).vram_counters@[i]);
                        assert(prev_u[i] == old(self).utilization_counters@[i]);
                        assert(prev_p[i] == old(self).power_counters@[i]);
                    }
                }
            }
            k = k + 1;
        }
        out
    }

    /// The name of the source.
    pub fn get_name() -> (r: &'static str)
        ensures
            r@ == AMDSMI_SOURCE_NAME@,
    {
        AMDSMI_SOURCE_NAME
    }

    /// The sensors of the GPUs.
    pub fn get_sensors(&self) -> (r: Vec<AvailableSensor>)
        ensures
            sensors_view(r@) == all_sensors(self.processors@),
            forall|i: int| 0 <= i < r@.len() ==> (#[trigger] r@[i]).source@ == AMDSMI_SOURCE_NAME@,
    {
        source::get_sensors(&self.processors)
    }

    /// The metrics of a phase.
    pub fn to_metrics(&self, result: Vec<(usize, Counter)>) -> (r: Vec<Metric>)
        requires
            forall|i: int| 0 <= i < result@.len() ==> counter_computable(#[trigger] result@[i].1),
        ensures
            metrics_view(r@) == result_metrics(self.processors@, result@),
            forall|i: int| 0 <= i < r@.len() ==> (#[trigger] r@[i]).source@ == AMDSMI_SOURCE_NAME@,
            forall|i: int| 0 <= i < r@.len() ==> (#[trigger] r@[i]).timestamp == 0,
    {
        source::to_metrics(&self.processors, &result)
    }
}

} // verus!
