use vstd::prelude::*;
use crate::metrics::{
    derived_gpu_temp, gpu_temp_of, heuristic_power_score, heuristic_score, mean_of, mean_u32,
    mean_u64, percent_x10, platform_cpu_temp, platform_max, ratio_x10, sum_u32, sum_u64,
    ComponentReading, is_cpu_label, lemma_no_cpu_label_no_temp,
};
use crate::text::lower_of;

verus! {

/// Ticks between two probe queries.
pub const PROBE_EVERY: u32 = 10;

/// Bytes in a mebibyte.
pub const MIB: u64 = 1048576;

/// A probe reading: CPU temperature and power score in thousandths, fan speeds in
/// thousandths of an RPM, and the battery as the probe sees it.
pub struct RawReading {
    pub cpu_temp_milli: i32,
    pub fan_speeds_milli: Vec<u64>,
    pub power_score_milli: i64,
    pub battery_percentage: Option<u8>,
    pub battery_status: Option<String>,
}

/// Charging state as the platform's battery readout gives it.
#[derive(Clone, Copy, PartialEq, Eq, Structural, Debug)]
pub enum ChargeState {
    Charging,
    Discharging,
}

/// Host facts read once at startup and reused verbatim.
pub struct Identity {
    pub hostname: Option<String>,
    pub os_name: Option<String>,
    pub kernel_version: Option<String>,
    pub cpu_model: Option<String>,
    pub cpu_cores: Option<usize>,
    pub resolution: Option<String>,
}

/// What the platform reports on one tick.
pub struct HostSample {
    /// Per logical CPU, load in tenths of a percent.
    pub cpu_usages_x10: Vec<u32>,
    /// Per logical CPU, clock in MHz.
    pub cpu_frequencies_mhz: Vec<u64>,
    pub total_memory_bytes: u64,
    pub used_memory_bytes: u64,
    pub total_swap_bytes: u64,
    pub used_swap_bytes: u64,
    pub components: Vec<ComponentReading>,
    pub battery_percentage: Option<u8>,
    /// `None` where the platform cannot tell.
    pub battery_state: Option<ChargeState>,
    pub uptime_secs: Option<u64>,
}

/// One tick's snapshot.
pub struct SystemMetrics {
    /// Mean load over the logical CPUs, tenths of a percent.
    pub cpu_usage_x10: u32,
    pub cpu_frequency_mhz: u64,
    /// Tenths of a percent.
    pub memory_usage_x10: u128,
    pub memory_total_mb: u64,
    pub memory_used_mb: u64,
    /// Tenths of a percent.
    pub swap_usage_x10: u128,
    pub cpu_temp_milli: Option<i32>,
    pub gpu_temp_milli: Option<i64>,
    pub fan_speeds_milli: Vec<u64>,
    /// Always present: the probe's score, else the heuristic estimate.
    pub power_score_milli: i128,
    pub hostname: Option<String>,
    pub os_name: Option<String>,
    pub kernel_version: Option<String>,
    pub cpu_model: Option<String>,
    pub cpu_cores: Option<usize>,
    pub uptime_secs: Option<u64>,
    pub battery_percentage: Option<u8>,
    pub battery_status: Option<String>,
    pub resolution: Option<String>,
}

/// The sampling state: whether a probe was found at startup, the last probe
/// reading, the ticks since the last query, and the cached identity.
pub struct Monitor {
    pub probe_available: bool,
    pub cached: Option<RawReading>,
    pub refresh_counter: u32,
    pub identity: Identity,
}

pub open spec fn opt_view(s: Option<String>) -> Option<Seq<char>> {
    match s {
        Some(t) => Some(t@),
        None => None,
    }
}

fn clone_opt(s: &Option<String>) -> (r: Option<String>)
    ensures
        opt_view(r) == opt_view(*s),
{
    match s {
        Some(t) => Some(t.clone()),
        None => None,
    }
}

/// Battery status: the probe's text first; else, with a known percentage, the
/// platform's charging state, or "Full" at 95% and above and "Unknown" below
/// where the platform cannot tell; with no percentage, none.
pub open spec fn status_spec(
    probe_status: Option<Seq<char>>,
    pct: Option<u8>,
    state: Option<ChargeState>,
) -> Option<Seq<char>> {
    match probe_status {
        Some(s) => Some(s),
        None => match pct {
            None => None,
            Some(p) => match state {
                Some(ChargeState::Charging) => Some("Charging"@),
                Some(ChargeState::Discharging) => Some("Discharging"@),
                None => if p >= 95 {
                    Some("Full"@)
                } else {
                    Some("Unknown"@)
                },
            },
        },
    }
}

/// Resolves the battery status from the probe's and the platform's readouts.
pub fn battery_status(probe_status: &Option<String>, pct: Option<u8>, state: Option<ChargeState>) -> (r: Option<String>)
    ensures
        opt_view(r) == status_spec(opt_view(*probe_status), pct, state),
{
    match probe_status {
        Some(s) => Some(s.clone()),
        None => match pct {
            None => None,
            Some(p) => match state {
                Some(ChargeState::Charging) => Some(String::from_str("Charging")),
                Some(ChargeState::Discharging) => Some(String::from_str("Discharging")),
                None => if p >= 95 {
                    Some(String::from_str("Full"))
                } else {
                    Some(String::from_str("Unknown"))
                },
            },
        },
    }
}

fn copy_speeds(v: &Vec<u64>) -> (r: Vec<u64>)
    ensures
        r@ == v@,
{
    let mut out: Vec<u64> = Vec::new();
    let mut i: usize = 0;
    while i < v.len()
        invariant
            i <= v@.len(),
            out@ == v@.take(i as int),
        decreases v@.len() - i,
    {
        out.push(v[i]);
        i = i + 1;
        assert(out@ =~= v@.take(i as int));
    }
    assert(v@.take(v@.len() as int) =~= v@);
    out
}

/// The probe reading that a tick uses, given the one cached before it, the
/// query result handed in, and whether a query was due.
pub open spec fn next_cached(
    available: bool,
    due: bool,
    cached: Option<RawReading>,
    fresh: Option<RawReading>,
) -> Option<RawReading> {
    if !available {
        None
    } else if due && fresh.is_some() {
        fresh
    } else {
        cached
    }
}

/// Battery percentage: the probe's first, else the platform's.
pub open spec fn percentage_spec(reading: Option<RawReading>, platform: Option<u8>) -> Option<u8> {
    match reading {
        Some(r) => match r.battery_percentage {
            Some(p) => Some(p),
            None => platform,
        },
        None => platform,
    }
}

pub open spec fn probe_status_spec(reading: Option<RawReading>) -> Option<Seq<char>> {
    match reading {
        Some(r) => opt_view(r.battery_status),
        None => None,
    }
}

/// The snapshot that a tick composes from the platform sample, the probe reading
/// in use, and the cached identity.
pub open spec fn composed(
    m: SystemMetrics,
    host: HostSample,
    reading: Option<RawReading>,
    id: Identity,
) -> bool {
    &&& m.cpu_usage_x10 as int == mean_of(sum_u32(host.cpu_usages_x10@), host.cpu_usages_x10@.len() as int)
    &&& m.cpu_frequency_mhz as int == mean_of(
        sum_u64(host.cpu_frequencies_mhz@),
        host.cpu_frequencies_mhz@.len() as int,
    )
    &&& m.memory_total_mb == host.total_memory_bytes / MIB
    &&& m.memory_used_mb == host.used_memory_bytes / MIB
    &&& m.memory_usage_x10 as int == ratio_x10(m.memory_used_mb as int, m.memory_total_mb as int)
    &&& m.swap_usage_x10 as int == ratio_x10(host.used_swap_bytes as int, host.total_swap_bytes as int)
    &&& m.cpu_temp_milli == match reading {
        Some(r) => Some(r.cpu_temp_milli),
        None => platform_max(host.components@),
    }
    &&& m.gpu_temp_milli.is_some() == m.cpu_temp_milli.is_some()
    &&& m.gpu_temp_milli.is_some() ==> m.gpu_temp_milli.unwrap() as int == derived_gpu_temp(
        m.cpu_temp_milli.unwrap() as int,
        m.cpu_usage_x10 as int,
    )
    &&& m.power_score_milli as int == match reading {
        Some(r) => r.power_score_milli as int,
        None => heuristic_score(m.cpu_usage_x10 as int, m.memory_usage_x10 as int),
    }
    &&& m.fan_speeds_milli@ == match reading {
        Some(r) => r.fan_speeds_milli@,
        None => Seq::<u64>::empty(),
    }
    &&& m.battery_percentage == percentage_spec(reading, host.battery_percentage)
    &&& opt_view(m.battery_status) == status_spec(
        probe_status_spec(reading),
        m.battery_percentage,
        host.battery_state,
    )
    &&& m.uptime_secs == host.uptime_secs
    &&& opt_view(m.hostname) == opt_view(id.hostname)
    &&& opt_view(m.os_name) == opt_view(id.os_name)
    &&& opt_view(m.kernel_version) == opt_view(id.kernel_version)
    &&& opt_view(m.cpu_model) == opt_view(id.cpu_model)
    &&& m.cpu_cores == id.cpu_cores
    &&& opt_view(m.resolution) == opt_view(id.resolution)
}

impl Monitor {
    /// The tick counter stays below the query period.
    pub open spec fn wf(&self) -> bool {
        self.refresh_counter < PROBE_EVERY
    }

    /// Whether the next tick queries the probe.
    pub open spec fn due_spec(&self) -> bool {
        self.probe_available && (self.refresh_counter + 1 >= PROBE_EVERY || self.cached.is_none())
    }

    /// A monitor with no probe reading yet; `probe_available` tells whether a
    /// probe was found at startup.
    pub fn new(probe_available: bool, identity: Identity) -> (r: Monitor)
        ensures
            r.wf(),
            r.probe_available == probe_available,
            r.cached.is_none(),
            r.refresh_counter == 0,
            r.identity == identity,
    {
        Monitor { probe_available, cached: None, refresh_counter: 0, identity }
    }

    /// Whether the next call of `refresh` takes a fresh probe reading: every
    /// tenth tick, or while none is cached; never without a probe.
    pub fn probe_due(&self) -> (r: bool)
        requires
            self.wf(),
        ensures
            r == self.due_spec(),
    {
        self.probe_available && (self.refresh_counter + 1 >= PROBE_EVERY || self.cached.is_none())
    }

    /// Samples one tick. `fresh` is the probe's reading where `probe_due` was
    /// true and the query succeeded; it is ignored otherwise, and a failed query
    /// keeps the previous reading.
    pub fn refresh(&mut self, host: &HostSample, fresh: Option<RawReading>) -> (m: SystemMetrics)
        requires
            old(self).wf(),
        ensures
            final(self).wf(),
            final(self).probe_available == old(self).probe_available,
            final(self).identity == old(self).identity,
            final(self).cached == next_cached(
                old(self).probe_available,
                old(self).due_spec(),
                old(self).cached,
                fresh,
            ),
            final(self).refresh_counter == if !old(self).probe_available {
                old(self).refresh_counter
            } else if old(self).due_spec() {
                0
            } else {
                (old(self).refresh_counter + 1) as u32
            },
            composed(m, *host, final(self).cached, old(self).identity),
    {
        let cpu_usage_x10 = mean_u32(&host.cpu_usages_x10);
        let cpu_frequency_mhz = mean_u64(&host.cpu_frequencies_mhz);
        let memory_total_mb: u64 = host.total_memory_bytes / MIB;
        let memory_used_mb: u64 = host.used_memory_bytes / MIB;
        let memory_usage_x10 = percent_x10(memory_used_mb, memory_total_mb);
        let swap_usage_x10 = percent_x10(host.used_swap_bytes, host.total_swap_bytes);

        if self.probe_available {
            let due = self.probe_due();
            if due {
                self.refresh_counter = 0;
                if fresh.is_some() {
                    self.cached = fresh;
                }
            } else {
                self.refresh_counter = self.refresh_counter + 1;
            }
        } else {
            self.cached = None;
        }

        let (cpu_temp_milli, fan_speeds_milli, power_score_milli, probe_pct) = match &self.cached {
            Some(r) => (
                Some(r.cpu_temp_milli),
                copy_speeds(&r.fan_speeds_milli),
                r.power_score_milli as i128,
                r.battery_percentage,
            ),
            None => (
                platform_cpu_temp(&host.components),
                Vec::new(),
                heuristic_power_score(cpu_usage_x10, memory_usage_x10),
                None,
            ),
        };
        let gpu_temp_milli = gpu_temp_of(cpu_temp_milli, cpu_usage_x10);
        let battery_percentage = match probe_pct {
            Some(p) => Some(p),
            None => host.battery_percentage,
        };
        let probe_status = match &self.cached {
            Some(r) => clone_opt(&r.battery_status),
            None => None,
        };
        let status = battery_status(&probe_status, battery_percentage, host.battery_state);
        SystemMetrics {
            cpu_usage_x10,
            cpu_frequency_mhz,
            memory_usage_x10,
            memory_total_mb,
            memory_used_mb,
            swap_usage_x10,
            cpu_temp_milli,
            gpu_temp_milli,
            fan_speeds_milli,
            power_score_milli,
            hostname: clone_opt(&self.identity.hostname),
            os_name: clone_opt(&self.identity.os_name),
            kernel_version: clone_opt(&self.identity.kernel_version),
            cpu_model: clone_opt(&self.identity.cpu_model),
            cpu_cores: self.identity.cpu_cores,
            uptime_secs: host.uptime_secs,
            battery_percentage,
            battery_status: status,
            resolution: clone_opt(&self.identity.resolution),
        }
    }
}

/// Without a probe, and with no platform component whose lower-cased label names
/// a CPU sensor, a snapshot has neither a CPU nor a GPU temperature.
pub proof fn lemma_no_source_no_temp(
    m: SystemMetrics,
    host: HostSample,
    due: bool,
    cached: Option<RawReading>,
    fresh: Option<RawReading>,
    id: Identity,
)
    requires
        composed(m, host, next_cached(false, due, cached, fresh), id),
        forall|i: int| 0 <= i < host.components@.len()
            ==> !is_cpu_label(lower_of(#[trigger] host.components@[i].label@)),
    ensures
        m.cpu_temp_milli.is_none(),
        m.gpu_temp_milli.is_none(),
{
    lemma_no_cpu_label_no_temp(host.components@);
}

} // verus!
