//! Performance monitoring: readings, polls and the switch.
use all_smi::number::{Double, Single};
use all_smi::nvidia_gpm::{
    engine_ratios, mean_ratio, metrics_from_results, pct_to_ratio, rate_bytes, requested_ids,
    Engine, EngineMeans, GpmMetricId, GpmReading, GpmState, Poll, DISABLE_GPM_ENV_VAR,
    RATIO_TOLERANCE,
};
use all_smi::types::{GpmMetrics, TelemetrySource};

fn single(value: f32) -> Single {
    Single { bits: value.to_bits(), text: format!("{value}") }
}

fn double(value: f64) -> Double {
    Double { bits: value.to_bits(), text: format!("{value}") }
}

fn ratio(value: f64) -> Option<Single> {
    pct_to_ratio(value.to_bits(), &single((value / 100.0) as f32))
}

fn reading(metric_id: GpmMetricId, value: f64) -> GpmReading {
    GpmReading {
        metric_id,
        value: value.to_bits(),
        ratio: single((value / 100.0) as f32),
        rate: double(value * 1_000_000.0),
    }
}

fn means() -> EngineMeans {
    EngineMeans { nvdec: single(0.125), nvjpg: single(0.25), nvofa: single(0.5) }
}

#[test]
fn pct_to_ratio_scales_and_rejects_nonsense() {
    assert!((f32::from_bits(ratio(50.0).unwrap().bits) - 0.5).abs() < 1e-6);
    assert!(ratio(-1.0).is_none());
    assert!(ratio(f64::NAN).is_none());
    assert_eq!(ratio(0.0), Some(single(0.0)));
    assert_eq!(ratio(100.0), Some(single(1.0)));
}

#[test]
fn disable_env_parses_truthy() {
    for (v, expect) in [
        ("1", true),
        ("true", true),
        ("yes", true),
        ("0", false),
        ("false", false),
        ("no", false),
        ("", false),
    ] {
        let disabled = GpmState::is_disabled(Some(v));
        assert_eq!(disabled, expect, "v={v}");
    }
}

#[test]
fn blanks_and_capitals_do_not_matter() {
    for v in [" ", "\t 0 \n", "FALSE", " No\u{3000}", "\u{a0}\u{2003}fAlSe\u{85}", "NO"] {
        assert!(!GpmState::is_disabled(Some(v)), "{v:?}");
        let word = v.trim().to_ascii_lowercase();
        assert!(word.is_empty() || word == "0" || word == "false" || word == "no");
    }
    for v in ["00", "n o", "off", "\u{200b}", "FALSCH", "İ", "0.", "nö"] {
        assert!(GpmState::is_disabled(Some(v)), "{v:?}");
    }
    assert!(!GpmState::is_disabled(None));
    assert_eq!(DISABLE_GPM_ENV_VAR, "ALL_SMI_NVIDIA_DISABLE_GPM");
}

#[test]
fn blanks_are_those_of_the_standard_library() {
    for code in 0..0x11_0000u32 {
        if let Some(c) = char::from_u32(code) {
            let text = c.to_string();
            let expected = !text.trim().is_empty();
            if c != '0' {
                assert_eq!(GpmState::is_disabled(Some(&text)), expected, "{code:x}");
            }
        }
    }
}

#[test]
fn ratios_a_little_above_one_are_one() {
    assert_eq!(1.05f32.to_bits(), RATIO_TOLERANCE);
    assert_eq!(ratio(100.5), Some(single(1.0)));
    assert_eq!(ratio(105.0), Some(single(1.0)));
    assert_eq!(ratio(105.1), None);
    assert_eq!(ratio(1e300), None);
    assert_eq!(ratio(f64::INFINITY), None);
    assert_eq!(ratio(f64::NEG_INFINITY), None);
    assert_eq!(ratio(-0.0).unwrap().bits, (-0.0f32).to_bits());
    assert_eq!(ratio(12.5), Some(single(0.125)));
}

#[test]
fn rates_are_scaled_and_not_negative() {
    let rate = |value: f64| rate_bytes(value.to_bits(), &double(value * 1_000_000.0));
    assert_eq!(rate(2.5), Some(double(2_500_000.0)));
    assert_eq!(rate(0.0), Some(double(0.0)));
    assert!(rate(-0.0).is_some());
    assert_eq!(rate(-1.0), None);
    assert_eq!(rate(f64::NAN), None);
    assert_eq!(rate(f64::INFINITY), None);
}

#[test]
fn first_results_follow_the_request() {
    let ids = requested_ids();
    assert_eq!(ids.len(), 34);
    let results: Vec<Option<GpmReading>> = ids
        .iter()
        .enumerate()
        .map(|(i, _)| Some(reading(GpmMetricId::Other, i as f64)))
        .collect();
    let metrics = metrics_from_results(&results, &means());
    let hundredth = |n: u32| Some(single((n as f64 / 100.0) as f32));
    assert_eq!(metrics.graphics_active, hundredth(0));
    assert_eq!(metrics.sm_active, hundredth(1));
    assert_eq!(metrics.sm_occupancy, hundredth(2));
    assert_eq!(metrics.tensor_active, hundredth(3));
    assert_eq!(metrics.tensor_hmma_active, hundredth(4));
    assert_eq!(metrics.tensor_imma_active, hundredth(5));
    assert_eq!(metrics.tensor_dfma_active, hundredth(6));
    assert_eq!(metrics.fp64_active, hundredth(7));
    assert_eq!(metrics.fp32_active, hundredth(8));
    assert_eq!(metrics.fp16_active, hundredth(9));
    assert_eq!(metrics.integer_active, hundredth(10));
    assert_eq!(metrics.memory_bandwidth_utilization, hundredth(11));
    assert_eq!(metrics.pcie_tx_bytes_per_sec, Some(double(12e6)));
    assert_eq!(metrics.pcie_rx_bytes_per_sec, Some(double(13e6)));
    assert_eq!(metrics.nvlink_tx_bytes_per_sec, Some(double(14e6)));
    assert_eq!(metrics.nvlink_rx_bytes_per_sec, Some(double(15e6)));
    assert_eq!(metrics.nvdec_active, Some(single(0.125)));
    assert_eq!(metrics.nvjpg_active, Some(single(0.25)));
    assert_eq!(metrics.nvofa_active, Some(single(0.5)));
    assert_eq!(metrics.source, Some(TelemetrySource::Gpm));
    assert_eq!(engine_ratios(&results, Engine::Nvdec).len(), 8);
    assert_eq!(engine_ratios(&results, Engine::Nvjpg).len(), 8);
    assert_eq!(
        engine_ratios(&results, Engine::Nvofa),
        vec![hundredth(32).unwrap(), hundredth(33).unwrap()]
    );
}

#[test]
fn failed_results_leave_fields_out() {
    let results: Vec<Option<GpmReading>> = (0..34).map(|_| None).collect();
    let metrics = metrics_from_results(&results, &means());
    assert_eq!(
        metrics,
        GpmMetrics { source: Some(TelemetrySource::Gpm), ..GpmMetrics::default() }
    );
    let metrics = metrics_from_results(&[], &means());
    assert_eq!(metrics.nvdec_active, None);
}

#[test]
fn later_results_replace_earlier_ones() {
    let mut results: Vec<Option<GpmReading>> = (0..34).map(|_| None).collect();
    results[1] = Some(reading(GpmMetricId::SmUtil, 20.0));
    results.push(Some(reading(GpmMetricId::SmUtil, 40.0)));
    results.push(Some(reading(GpmMetricId::Nvofa1Util, 60.0)));
    results.push(Some(reading(GpmMetricId::Other, 70.0)));
    let metrics = metrics_from_results(&results, &means());
    assert_eq!(metrics.sm_active, Some(single(0.4)));
    assert_eq!(metrics.nvofa_active, Some(single(0.5)));
    results.push(Some(reading(GpmMetricId::SmUtil, -1.0)));
    assert_eq!(metrics_from_results(&results, &means()).sm_active, None);
}

#[test]
fn engines_without_activity_have_no_mean() {
    let mut results: Vec<Option<GpmReading>> = (0..34).map(|_| None).collect();
    results[16] = Some(reading(GpmMetricId::Nvdec0Util, 900.0));
    assert!(engine_ratios(&results, Engine::Nvdec).is_empty());
    assert_eq!(metrics_from_results(&results, &means()).nvdec_active, None);
    assert_eq!(mean_ratio(&[], &single(0.5)), None);
    assert_eq!(mean_ratio(&[single(0.5)], &single(0.5)), Some(single(0.5)));
}

#[test]
fn a_poll_gets_the_sample_before_it() {
    let poll = |uuid: &str, handle: usize| Poll::Sampled { uuid: uuid.to_string(), handle };
    let mut state = GpmState::new();
    assert_eq!(state.collect(&poll("a", 1)), None);
    assert_eq!(state.collect(&poll("b", 2)), None);
    assert_eq!(state.collect(&Poll::Disabled), None);
    assert_eq!(state.collect(&Poll::Unsupported), None);
    assert_eq!(state.collect(&Poll::NoUuid), None);
    assert_eq!(state.collect(&Poll::NoSample), None);
    assert_eq!(state.collect(&poll("a", 3)), Some(1));
    assert_eq!(state.collect(&poll("a", 4)), Some(3));
    assert_eq!(state.collect(&poll("b", 5)), Some(2));
    let mut held = state.free_all();
    held.sort();
    assert_eq!(held, vec![("a".to_string(), 4), ("b".to_string(), 5)]);
    assert!(state.free_all().is_empty());
}

#[test]
fn abandoned_samples_are_forgotten() {
    let mut state = GpmState::default();
    state.collect(&Poll::Sampled { uuid: "a".to_string(), handle: 9 });
    state.abandon();
    assert_eq!(state.collect(&Poll::Sampled { uuid: "a".to_string(), handle: 10 }), None);
    state.abandon();
    assert!(state.free_all().is_empty());
}
