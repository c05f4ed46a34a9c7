use vstd::prelude::*;
use crate::text::{contains_text, lower_of, lowercase, occurs_in};

verus! {

/// `used / total` in tenths of a percent, rounded down; zero when `total` is zero.
pub open spec fn ratio_x10(used: int, total: int) -> int {
    if total == 0 {
        0
    } else {
        used * 1000 / total
    }
}

/// Usage ratio in tenths of a percent; a zero total gives zero.
pub fn percent_x10(used: u64, total: u64) -> (r: u128)
    ensures
        r as int == ratio_x10(used as int, total as int),
        r as int <= used as int * 1000,
{
    if total == 0 {
        0
    } else {
        let n: u128 = used as u128 * 1000;
        proof {
            assert(n as int / total as int <= n as int) by (nonlinear_arith)
                requires
                    total as int >= 1,
                    n as int >= 0,
            ;
        }
        n / (total as u128)
    }
}

pub open spec fn sum_u32(s: Seq<u32>) -> int
    decreases s.len(),
{
    if s.len() == 0 {
        0
    } else {
        sum_u32(s.drop_last()) + s.last() as int
    }
}

pub open spec fn sum_u64(s: Seq<u64>) -> int
    decreases s.len(),
{
    if s.len() == 0 {
        0
    } else {
        sum_u64(s.drop_last()) + s.last() as int
    }
}

/// Mean of the values, rounded down; zero for no values.
pub open spec fn mean_of(sum: int, len: int) -> int {
    if len == 0 {
        0
    } else {
        sum / len
    }
}

/// Mean of per-core readings (tenths of a percent), rounded down; zero when empty.
pub fn mean_u32(v: &Vec<u32>) -> (r: u32)
    ensures
        r as int == mean_of(sum_u32(v@), v@.len() as int),
{
    let mut acc: u128 = 0;
    let mut i: usize = 0;
    while i < v.len()
        invariant
            i <= v@.len(),
            acc as int == sum_u32(v@.take(i as int)),
            acc as int <= i as int * 0xffff_ffff,
        decreases v@.len() - i,
    {
        assert(v@.take(i as int + 1).drop_last() == v@.take(i as int));
        acc = acc + v[i] as u128;
        i = i + 1;
    }
    assert(v@.take(v@.len() as int) == v@);
    if v.len() == 0 {
        0
    } else {
        let n: u128 = v.len() as u128;
        proof {
            assert(acc as int / n as int <= 0xffff_ffff) by (nonlinear_arith)
                requires
                    acc as int <= n as int * 0xffff_ffff,
                    n as int >= 1,
                    acc as int >= 0,
            ;
        }
        (acc / n) as u32
    }
}

/// Mean of per-core clock readings (MHz), rounded down; zero when empty.
pub fn mean_u64(v: &Vec<u64>) -> (r: u64)
    ensures
        r as int == mean_of(sum_u64(v@), v@.len() as int),
{
    let mut acc: u128 = 0;
    let mut i: usize = 0;
    while i < v.len()
        invariant
            i <= v@.len(),
            acc as int == sum_u64(v@.take(i as int)),
            acc as int <= i as int * 0xffff_ffff_ffff_ffff,
        decreases v@.len() - i,
    {
        assert(v@.take(i as int + 1).drop_last() == v@.take(i as int));
        acc = acc + v[i] as u128;
        i = i + 1;
    }
    assert(v@.take(v@.len() as int) == v@);
    if v.len() == 0 {
        0
    } else {
        let n: u128 = v.len() as u128;
        proof {
            assert(acc as int / n as int <= 0xffff_ffff_ffff_ffff) by (nonlinear_arith)
                requires
                    acc as int <= n as int * 0xffff_ffff_ffff_ffff,
                    n as int >= 1,
                    acc as int >= 0,
            ;
        }
        (acc / n) as u64
    }
}

/// Idle baseline 2.0 plus 0.15 per percent of CPU load and 0.05 per percent of
/// memory pressure, in thousandths (inputs in tenths of a percent).
pub open spec fn heuristic_score(cpu_x10: int, mem_x10: int) -> int {
    2000 + 15 * cpu_x10 + 5 * mem_x10
}

/// Power score estimate used when the probe gives none.
pub fn heuristic_power_score(cpu_x10: u32, mem_x10: u128) -> (r: i128)
    requires
        mem_x10 <= 0x1_0000_0000_0000_0000_0000,
    ensures
        r as int == heuristic_score(cpu_x10 as int, mem_x10 as int),
{
    2000 + 15 * (cpu_x10 as i128) + 5 * (mem_x10 as i128)
}

/// Coupled SoC temperature: the CPU temperature plus 3.0 plus 0.05 per percent of
/// CPU load, in thousandths (load in tenths of a percent).
pub open spec fn derived_gpu_temp(cpu_temp_milli: int, cpu_x10: int) -> int {
    cpu_temp_milli + 3000 + 5 * cpu_x10
}

/// Derived GPU temperature; absent exactly when the CPU temperature is.
pub fn gpu_temp_of(cpu_temp_milli: Option<i32>, cpu_x10: u32) -> (r: Option<i64>)
    ensures
        r.is_some() == cpu_temp_milli.is_some(),
        r.is_some() ==> r.unwrap() as int == derived_gpu_temp(
            cpu_temp_milli.unwrap() as int,
            cpu_x10 as int,
        ),
{
    match cpu_temp_milli {
        Some(t) => Some(t as i64 + 3000 + 5 * (cpu_x10 as i64)),
        None => None,
    }
}

/// One labelled temperature reported by the platform.
pub struct ComponentReading {
    pub label: String,
    pub temp_milli: i32,
}

/// A lower-cased label names a CPU sensor.
pub open spec fn is_cpu_label(lower: Seq<char>) -> bool {
    occurs_in(lower, "core"@) || occurs_in(lower, "package"@) || occurs_in(lower, "cpu"@)
        || occurs_in(lower, "soc"@)
}

/// Whether an already lower-cased label names a CPU sensor.
pub fn cpu_label(lower: &str) -> (r: bool)
    ensures
        r == is_cpu_label(lower@),
{
    contains_text(lower, "core") || contains_text(lower, "package") || contains_text(lower, "cpu")
        || contains_text(lower, "soc")
}

/// Readings above this bound (150 degrees) are rejected as implausible.
pub const MAX_PLAUSIBLE_TEMP_MILLI: i32 = 150000;

/// A component counts towards the CPU temperature: its label, lower-cased, names a
/// CPU sensor, and its reading is above zero and below the plausibility bound.
pub open spec fn qualifies(c: ComponentReading) -> bool {
    is_cpu_label(lower_of(c.label@)) && 0 < c.temp_milli < MAX_PLAUSIBLE_TEMP_MILLI
}

/// The largest qualifying reading, if any component qualifies.
pub open spec fn platform_max(s: Seq<ComponentReading>) -> Option<i32>
    decreases s.len(),
{
    if s.len() == 0 {
        None
    } else {
        let rest = platform_max(s.drop_last());
        let c = s.last();
        if qualifies(c) {
            match rest {
                Some(m) => Some(if c.temp_milli > m { c.temp_milli } else { m }),
                None => Some(c.temp_milli),
            }
        } else {
            rest
        }
    }
}

proof fn lemma_platform_max_positive(s: Seq<ComponentReading>)
    ensures
        platform_max(s) matches Some(m) ==> 0 < m < MAX_PLAUSIBLE_TEMP_MILLI,
    decreases s.len(),
{
    if s.len() > 0 {
        lemma_platform_max_positive(s.drop_last());
    }
}

/// Fallback CPU temperature from the platform's labelled components.
pub fn platform_cpu_temp(comps: &Vec<ComponentReading>) -> (r: Option<i32>)
    ensures
        r == platform_max(comps@),
{
    let mut best: i32 = 0;
    let mut i: usize = 0;
    while i < comps.len()
        invariant
            i <= comps@.len(),
            0 <= best < MAX_PLAUSIBLE_TEMP_MILLI,
            platform_max(comps@.take(i as int)) == (if best == 0 {
                None::<i32>
            } else {
                Some(best)
            }),
        decreases comps@.len() - i,
    {
        proof {
            lemma_platform_max_positive(comps@.take(i as int));
        }
        assert(comps@.take(i as int + 1).drop_last() == comps@.take(i as int));
        assert(comps@.take(i as int + 1).last() == comps@[i as int]);
        let c = &comps[i];
        let lower = lowercase(c.label.as_str());
        if cpu_label(lower.as_str()) {
            let t: i32 = c.temp_milli;
            if t > best && t < MAX_PLAUSIBLE_TEMP_MILLI {
                best = t;
            }
        }
        i = i + 1;
    }
    assert(comps@.take(comps@.len() as int) == comps@);
    if best > 0 {
        Some(best)
    } else {
        None
    }
}

/// With no component whose lower-cased label names a CPU sensor, the platform
/// offers no CPU temperature.
pub proof fn lemma_no_cpu_label_no_temp(s: Seq<ComponentReading>)
    requires
        forall|i: int| 0 <= i < s.len() ==> !is_cpu_label(lower_of(#[trigger] s[i].label@)),
    ensures
        platform_max(s) == None::<i32>,
    decreases s.len(),
{
    if s.len() > 0 {
        assert(!is_cpu_label(lower_of(s[s.len() - 1].label@)));
        lemma_no_cpu_label_no_temp(s.drop_last());
    }
}

} // verus!
