use holo_telemetry::metrics::{
    cpu_label, gpu_temp_of, heuristic_power_score, mean_u32, mean_u64, percent_x10,
    platform_cpu_temp, ComponentReading,
};
use holo_telemetry::monitor::{
    battery_status, ChargeState, HostSample, Identity, Monitor, RawReading, MIB,
};
use holo_telemetry::text::contains_text;

fn identity() -> Identity {
    Identity {
        hostname: Some("bench-host".to_string()),
        os_name: Some("Linux".to_string()),
        kernel_version: Some("6.1.0".to_string()),
        cpu_model: Some("Test CPU".to_string()),
        cpu_cores: Some(8),
        resolution: None,
    }
}

fn comp(label: &str, temp_milli: i32) -> ComponentReading {
    ComponentReading { label: label.to_string(), temp_milli }
}

fn host(cpu_x10: Vec<u32>, components: Vec<ComponentReading>) -> HostSample {
    HostSample {
        cpu_usages_x10: cpu_x10,
        cpu_frequencies_mhz: vec![3000, 3200],
        total_memory_bytes: 16000 * MIB,
        used_memory_bytes: 8000 * MIB,
        total_swap_bytes: 0,
        used_swap_bytes: 12345,
        components,
        battery_percentage: None,
        battery_state: None,
        uptime_secs: Some(42),
    }
}

fn reading(temp: i32, score: i64) -> RawReading {
    RawReading {
        cpu_temp_milli: temp,
        fan_speeds_milli: vec![1200000, 1350500],
        power_score_milli: score,
        battery_percentage: Some(80),
        battery_status: Some("AC Attached".to_string()),
    }
}

#[test]
fn swap_zero_total_is_zero() {
    assert_eq!(percent_x10(12345, 0), 0);
    let mut m = Monitor::new(false, identity());
    let s = m.refresh(&host(vec![400], vec![]), None);
    assert_eq!(s.swap_usage_x10, 0);
}

#[test]
fn memory_half_used_is_fifty_percent() {
    assert_eq!(percent_x10(8000, 16000), 500);
    let mut m = Monitor::new(false, identity());
    let s = m.refresh(&host(vec![400], vec![]), None);
    assert_eq!(s.memory_total_mb, 16000);
    assert_eq!(s.memory_used_mb, 8000);
    assert_eq!(s.memory_usage_x10, 500);
}

#[test]
fn swap_ratio_rounds_down() {
    assert_eq!(percent_x10(1, 3), 333);
    assert_eq!(percent_x10(3, 3), 1000);
}

#[test]
fn heuristic_score_without_probe() {
    assert_eq!(heuristic_power_score(400, 500), 10500);
    let mut m = Monitor::new(false, identity());
    let s = m.refresh(&host(vec![300, 500], vec![]), None);
    assert_eq!(s.cpu_usage_x10, 400);
    assert_eq!(s.power_score_milli, 10500);
    assert!(s.fan_speeds_milli.is_empty());
}

#[test]
fn probe_values_win() {
    let mut m = Monitor::new(true, identity());
    assert!(m.probe_due());
    let s = m.refresh(&host(vec![400], vec![comp("Package id 0", 70000)]), Some(reading(50000, 7250)));
    assert_eq!(s.cpu_temp_milli, Some(50000));
    assert_eq!(s.gpu_temp_milli, Some(55000));
    assert_eq!(s.power_score_milli, 7250);
    assert_eq!(s.fan_speeds_milli, vec![1200000, 1350500]);
    assert_eq!(s.battery_percentage, Some(80));
    assert_eq!(s.battery_status, Some("AC Attached".to_string()));
}

#[test]
fn gpu_follows_current_load() {
    assert_eq!(gpu_temp_of(Some(50000), 400), Some(55000));
    assert_eq!(gpu_temp_of(Some(40000), 0), Some(43000));
    assert_eq!(gpu_temp_of(None, 900), None);
    let mut m = Monitor::new(true, identity());
    m.refresh(&host(vec![0], vec![]), Some(reading(50000, 1000)));
    let s = m.refresh(&host(vec![1000], vec![]), None);
    assert_eq!(s.cpu_temp_milli, Some(50000));
    assert_eq!(s.gpu_temp_milli, Some(58000));
}

#[test]
fn probe_queried_every_tenth_tick() {
    let mut m = Monitor::new(true, identity());
    let h = host(vec![100], vec![]);
    let mut due_ticks = Vec::new();
    for tick in 0..21 {
        let due = m.probe_due();
        if due {
            due_ticks.push(tick);
        }
        let fresh = if due { Some(reading(40000 + tick, 1000)) } else { None };
        m.refresh(&h, fresh);
    }
    assert_eq!(due_ticks, vec![0, 10, 20]);
}

#[test]
fn failed_query_keeps_previous_reading() {
    let mut m = Monitor::new(true, identity());
    let h = host(vec![100], vec![]);
    m.refresh(&h, Some(reading(45000, 1000)));
    for _ in 0..9 {
        m.refresh(&h, None);
    }
    assert!(m.probe_due());
    let s = m.refresh(&h, None);
    assert_eq!(s.cpu_temp_milli, Some(45000));
    assert_eq!(m.refresh_counter, 0);
}

#[test]
fn unavailable_probe_ignores_readings() {
    let mut m = Monitor::new(false, identity());
    assert!(!m.probe_due());
    let s = m.refresh(&host(vec![100], vec![]), Some(reading(45000, 1000)));
    assert_eq!(s.cpu_temp_milli, None);
    assert!(m.cached.is_none());
}

#[test]
fn platform_fallback_takes_plausible_max() {
    let comps = vec![
        comp("CPU Package", 61000),
        comp("GPU edge", 90000),
        comp("Core 3", 64500),
        comp("core 7", 200000),
        comp("SoC thermal", 0),
    ];
    assert_eq!(platform_cpu_temp(&comps), Some(64500));
    let mut m = Monitor::new(false, identity());
    let s = m.refresh(&host(vec![200], comps), None);
    assert_eq!(s.cpu_temp_milli, Some(64500));
    assert_eq!(s.gpu_temp_milli, Some(64500 + 3000 + 1000));
}

#[test]
fn platform_fallback_matches_upper_case_labels() {
    assert_eq!(platform_cpu_temp(&vec![comp("SOC", 48000)]), Some(48000));
    assert_eq!(platform_cpu_temp(&vec![comp("PACKAGE", 52000)]), Some(52000));
}

#[test]
fn no_probe_no_label_no_temperature() {
    let comps = vec![comp("nvme Composite", 40000), comp("acpitz", 30000)];
    assert_eq!(platform_cpu_temp(&comps), None);
    let mut m = Monitor::new(false, identity());
    let s = m.refresh(&host(vec![200], comps), None);
    assert_eq!(s.cpu_temp_milli, None);
    assert_eq!(s.gpu_temp_milli, None);
    assert_eq!(s.power_score_milli, 2000 + 15 * 200 + 5 * 500);
}

#[test]
fn cpu_labels() {
    assert!(cpu_label("core 0"));
    assert!(cpu_label("x86_pkg package"));
    assert!(cpu_label("cpu_thermal"));
    assert!(cpu_label("soc"));
    assert!(!cpu_label("gpu"));
    assert!(!cpu_label("Core"));
    assert!(contains_text("abcabd", "abd"));
    assert!(!contains_text("ab", "abc"));
    assert!(contains_text("x", ""));
}

#[test]
fn means_of_cores() {
    assert_eq!(mean_u32(&vec![]), 0);
    assert_eq!(mean_u32(&vec![100, 201]), 150);
    assert_eq!(mean_u64(&vec![3000, 3200, 3401]), 3200);
    assert_eq!(mean_u64(&vec![]), 0);
    assert_eq!(mean_u32(&vec![u32::MAX, u32::MAX]), u32::MAX);
}

#[test]
fn battery_status_order() {
    let probe = Some("AC Attached".to_string());
    assert_eq!(battery_status(&probe, None, None), probe);
    assert_eq!(battery_status(&None, None, Some(ChargeState::Charging)), None);
    assert_eq!(battery_status(&None, Some(40), Some(ChargeState::Charging)), Some("Charging".to_string()));
    assert_eq!(battery_status(&None, Some(40), Some(ChargeState::Discharging)), Some("Discharging".to_string()));
    assert_eq!(battery_status(&None, Some(95), None), Some("Full".to_string()));
    assert_eq!(battery_status(&None, Some(94), None), Some("Unknown".to_string()));
}

#[test]
fn battery_falls_back_to_platform() {
    let mut m = Monitor::new(false, identity());
    let mut h = host(vec![100], vec![]);
    h.battery_percentage = Some(97);
    let s = m.refresh(&h, None);
    assert_eq!(s.battery_percentage, Some(97));
    assert_eq!(s.battery_status, Some("Full".to_string()));
}

#[test]
fn identity_is_reused_verbatim() {
    let mut m = Monitor::new(false, identity());
    let h = host(vec![100], vec![]);
    for _ in 0..3 {
        let s = m.refresh(&h, None);
        assert_eq!(s.hostname, Some("bench-host".to_string()));
        assert_eq!(s.os_name, Some("Linux".to_string()));
        assert_eq!(s.kernel_version, Some("6.1.0".to_string()));
        assert_eq!(s.cpu_model, Some("Test CPU".to_string()));
        assert_eq!(s.cpu_cores, Some(8));
        assert_eq!(s.resolution, None);
        assert_eq!(s.uptime_secs, Some(42));
        assert_eq!(s.cpu_frequency_mhz, 3100);
    }
}
