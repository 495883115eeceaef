//! Plain NVML readings and the summaries of utilization samples.
use all_smi::number::{whole_number, Double, Single};
use all_smi::nvidia_extras::{
    apply_pcie_throughput_fallback, collect_nvlink_errors, collect_process_util_by_pid,
    collect_remapped_rows, collect_throttle_reasons, collect_utilization_samples,
    remapped_row_fields, sample_value_as_u64, LinkReading, ProcessUtil, ProcessUtilReading, SampleValue,
    REASON_APP_CLOCKS, REASON_DISPLAY_CLOCKS, REASON_GPU_IDLE, REASON_HW_POWER_BRAKE,
    REASON_HW_SLOWDOWN, REASON_HW_THERMAL, REASON_SW_POWER_CAP, REASON_SW_THERMAL,
    REASON_SYNC_BOOST,
};
use all_smi::sample_summary::{sample_max, sample_percentile, HUNDRED};
use all_smi::types::{
    GpmMetrics, RemappedRowsInfo, TelemetrySource, ThrottleReasons, UtilizationSample,
};
use nvml_wrapper::bitmasks::device::ThrottleReasons as NvmlThrottleReasons;
use nvml_wrapper::sys_exports::field_id;

fn single(value: f32) -> Single {
    Single { bits: value.to_bits(), text: format!("{value}") }
}

fn double(value: f64) -> Double {
    Double { bits: value.to_bits(), text: format!("{value}") }
}

fn samples(values: &[f32]) -> Vec<UtilizationSample> {
    values
        .iter()
        .map(|v| UtilizationSample { timestamp_us: 0, value: single(*v) })
        .collect()
}

#[test]
fn throttle_active_labels_and_throttled() {
    let mut t = ThrottleReasons::default();
    assert!(!t.is_throttled());
    t.sw_power_cap = true;
    assert!(t.is_throttled());
    assert_eq!(t.active_labels(), vec!["sw_power_cap"]);
}

#[test]
fn sample_percentile_p50() {
    let samples: Vec<_> = (0..5u64)
        .map(|i| UtilizationSample { timestamp_us: i, value: single(i as f32 * 10.0) })
        .collect();
    assert_eq!(sample_percentile(&samples, 50.0f32.to_bits()), Some(&single(20.0)));
    assert_eq!(sample_max(&samples), Some(&single(40.0)));
}

#[test]
fn labels_follow_the_order_of_the_reasons() {
    let t = ThrottleReasons {
        gpu_idle: true,
        app_clocks: true,
        sw_power_cap: true,
        hw_slowdown: true,
        sync_boost: true,
        sw_thermal: true,
        hw_thermal: true,
        hw_power_brake: true,
        display_clocks: true,
    };
    assert_eq!(
        t.active_labels(),
        vec![
            "gpu_idle",
            "app_clocks",
            "sw_power_cap",
            "hw_slowdown",
            "sync_boost",
            "sw_thermal",
            "hw_thermal",
            "hw_power_brake",
            "display_clocks",
        ]
    );
}

#[test]
fn throttle_bits_are_those_of_nvml() {
    for (bit, flag) in [
        (REASON_GPU_IDLE, NvmlThrottleReasons::GPU_IDLE),
        (REASON_APP_CLOCKS, NvmlThrottleReasons::APPLICATIONS_CLOCKS_SETTING),
        (REASON_SW_POWER_CAP, NvmlThrottleReasons::SW_POWER_CAP),
        (REASON_HW_SLOWDOWN, NvmlThrottleReasons::HW_SLOWDOWN),
        (REASON_SYNC_BOOST, NvmlThrottleReasons::SYNC_BOOST),
        (REASON_SW_THERMAL, NvmlThrottleReasons::SW_THERMAL_SLOWDOWN),
        (REASON_HW_THERMAL, NvmlThrottleReasons::HW_THERMAL_SLOWDOWN),
        (REASON_HW_POWER_BRAKE, NvmlThrottleReasons::HW_POWER_BRAKE_SLOWDOWN),
        (REASON_DISPLAY_CLOCKS, NvmlThrottleReasons::DISPLAY_CLOCK_SETTING),
    ] {
        assert_eq!(bit, flag.bits());
    }
}

#[test]
fn throttle_mask_is_read_bit_by_bit() {
    assert_eq!(collect_throttle_reasons(None), None);
    assert_eq!(collect_throttle_reasons(Some(0)), Some(ThrottleReasons::default()));
    let reasons = collect_throttle_reasons(Some(0x8000_0000_0000_0124)).unwrap();
    assert_eq!(reasons.active_labels(), vec!["sw_power_cap", "sw_thermal", "display_clocks"]);
}

#[test]
fn pcie_fallback_fills_missing_rates() {
    let mut gpm = None;
    apply_pcie_throughput_fallback(Some(3), None, &mut gpm);
    let metrics = gpm.as_ref().unwrap();
    assert_eq!(metrics.pcie_tx_bytes_per_sec, Some(double(3072.0)));
    assert_eq!(metrics.pcie_rx_bytes_per_sec, None);
    assert_eq!(metrics.source, Some(TelemetrySource::Nvml));
    let mut gpm = Some(GpmMetrics {
        pcie_tx_bytes_per_sec: Some(double(7.0)),
        source: Some(TelemetrySource::Gpm),
        ..GpmMetrics::default()
    });
    apply_pcie_throughput_fallback(Some(1), Some(2), &mut gpm);
    let metrics = gpm.as_ref().unwrap();
    assert_eq!(metrics.pcie_tx_bytes_per_sec, Some(double(7.0)));
    assert_eq!(metrics.pcie_rx_bytes_per_sec, Some(double(2048.0)));
    assert_eq!(metrics.source, Some(TelemetrySource::Gpm));
}

#[test]
fn pcie_throughput_is_scaled_exactly() {
    for kib in [0u32, 1, 2, 3, 7, 1_000, 65_535, 65_536, 12_345_678, u32::MAX - 1, u32::MAX] {
        let mut gpm = None;
        apply_pcie_throughput_fallback(None, Some(kib), &mut gpm);
        let expected = double(kib as f64 * 1024.0);
        assert_eq!(gpm.unwrap().pcie_rx_bytes_per_sec, Some(expected), "{kib}");
    }
}

#[test]
fn whole_numbers_are_doubles() {
    for n in [0u64, 1, 2, 5, 1 << 52, (1 << 52) - 1, (1 << 53) - 1, 999_999_999_999_999] {
        assert_eq!(whole_number(n), double(n as f64), "{n}");
    }
}

#[test]
fn pcie_fallback_without_readings_changes_nothing() {
    let mut gpm = None;
    apply_pcie_throughput_fallback(None, None, &mut gpm);
    assert!(gpm.is_none());
    let mut gpm = Some(GpmMetrics {
        pcie_tx_bytes_per_sec: Some(double(7.0)),
        pcie_rx_bytes_per_sec: Some(double(8.0)),
        ..GpmMetrics::default()
    });
    apply_pcie_throughput_fallback(Some(1), Some(2), &mut gpm);
    assert_eq!(gpm.unwrap().source, None);
}

#[test]
fn sample_values_become_counts() {
    assert_eq!(sample_value_as_u64(&SampleValue::U32(7)), Some(7));
    assert_eq!(sample_value_as_u64(&SampleValue::U64(u64::MAX)), Some(u64::MAX));
    assert_eq!(sample_value_as_u64(&SampleValue::I64(5)), Some(5));
    assert_eq!(sample_value_as_u64(&SampleValue::I64(-1)), None);
    for value in [
        0.0, -0.0, 0.75, 1.0, 2.5, 1e6 + 0.999, 4503599627370497.5, 9.2e18, 1.7e19, 1.9e19, 1e300,
        5e-324,
    ] {
        let bits = f64::to_bits(value);
        assert_eq!(sample_value_as_u64(&SampleValue::F64(bits)), Some(value as u64), "{value}");
    }
    for value in [-0.5, -1.0, f64::NAN, f64::INFINITY, f64::NEG_INFINITY] {
        assert_eq!(sample_value_as_u64(&SampleValue::F64(value.to_bits())), None, "{value}");
    }
}

#[test]
fn remapped_rows_need_a_delivered_field() {
    assert_eq!(collect_remapped_rows(None), None);
    assert_eq!(collect_remapped_rows(Some(&[])), None);
    assert_eq!(collect_remapped_rows(Some(&[None, None, None, None])), None);
    assert_eq!(
        collect_remapped_rows(Some(&[None, Some(SampleValue::I64(-4)), None, None])),
        Some(RemappedRowsInfo::default())
    );
    assert_eq!(
        collect_remapped_rows(Some(&[
            Some(SampleValue::U64(0x1_0000_0003)),
            Some(SampleValue::U32(2)),
            Some(SampleValue::U32(0)),
            Some(SampleValue::F64(1.5f64.to_bits())),
            Some(SampleValue::U32(9)),
        ])),
        Some(RemappedRowsInfo { correctable: 3, uncorrectable: 2, pending: false, failed: true })
    );
}

#[test]
fn only_active_links_report_errors() {
    let quiet = LinkReading {
        active: None,
        crc_flit: Some(1),
        crc_data: Some(1),
        replay: Some(1),
        recovery: Some(1),
    };
    let inactive = LinkReading { active: Some(false), ..quiet };
    let active = LinkReading {
        active: Some(true),
        crc_flit: Some(4),
        crc_data: None,
        replay: Some(0),
        recovery: None,
    };
    let mut links = vec![quiet, inactive, active];
    let errors = collect_nvlink_errors(&links);
    let read: Vec<(u32, &str, u64)> = errors
        .iter()
        .map(|e| (e.link_index, e.error_type.as_str(), e.count))
        .collect();
    assert_eq!(read, vec![(2, "crc_flit", 4), (2, "replay", 0)]);
    while links.len() < 20 {
        links.push(active);
    }
    assert_eq!(collect_nvlink_errors(&links).len(), 2 * 16);
}

#[test]
fn utilization_samples_are_capped() {
    assert!(collect_utilization_samples(None, Some(5)).is_none());
    assert!(collect_utilization_samples(Some(Vec::new()), Some(5)).is_none());
    let many: Vec<UtilizationSample> = (0..70u64)
        .map(|i| UtilizationSample { timestamp_us: 100 - i, value: single(i as f32) })
        .collect();
    let (kept, newest) = collect_utilization_samples(Some(many), None).unwrap();
    assert_eq!(kept.len(), 64);
    assert_eq!(kept[0].value, single(6.0));
    assert_eq!(kept[63].value, single(69.0));
    assert_eq!(newest, 100);
    let (_, newest) = collect_utilization_samples(Some(samples(&[1.0])), Some(9)).unwrap();
    assert_eq!(newest, 9);
}

#[test]
fn last_process_reading_counts() {
    let reading = |pid: u32, timestamp: u64, sm_util: u32| ProcessUtilReading {
        pid,
        timestamp,
        sm_util,
        mem_util: 1,
        enc_util: 2,
        dec_util: 3,
    };
    let (map, newest) = collect_process_util_by_pid(
        Some(&[reading(1, 50, 10), reading(2, 40, 20), reading(1, 30, 30)]),
        Some(45),
    );
    assert_eq!(map.len(), 2);
    assert_eq!(
        map.get(&1),
        Some(&ProcessUtil { sm: 30, mem: Some(1), enc: Some(2), dec: Some(3) })
    );
    assert_eq!(map.get(&2).unwrap().sm, 20);
    assert_eq!(newest, 50);
    let (map, newest) = collect_process_util_by_pid(None, Some(45));
    assert!(map.is_empty());
    assert_eq!(newest, 45);
    assert_eq!(collect_process_util_by_pid(None, None).1, 0);
}

#[test]
fn no_samples_have_no_summary() {
    assert_eq!(sample_percentile(&[], 50.0f32.to_bits()), None);
    assert_eq!(sample_max(&[]), None);
}

#[test]
fn percentile_rank_is_that_of_single_precision() {
    for len in [1usize, 2, 3, 4, 5, 7, 10, 11, 20, 63, 64, 100, 101, 1000] {
        let values: Vec<f32> = (0..len).map(|i| i as f32).collect();
        let list = samples(&values);
        let mut pcts = vec![
            0.0f32, -0.0, 1.0, 5.0, 33.3, 50.0, 66.6, 75.0, 95.0, 99.0, 99.9, 100.0, 100.1, 255.0,
            -1.0, 0.5, 1e-3, 1e-10, 1e-30, 1e-45, 1e4, 8191.9, 8192.0, 1e30, f32::MAX,
            f32::MIN_POSITIVE, f32::INFINITY, f32::NEG_INFINITY, f32::NAN,
        ];
        for i in 0..400u32 {
            pcts.push(f32::from_bits(0x3A00_0000 + i.wrapping_mul(0x0005_3C1D)));
            pcts.push(50.0 / (len as f32) * i as f32);
        }
        for pct in pcts {
            let rank = ((pct / 100.0) * (len as f32 - 1.0)).round() as usize;
            let rank = rank.clamp(0, len - 1);
            assert_eq!(
                sample_percentile(&list, pct.to_bits()),
                Some(&single(rank as f32)),
                "p{pct} of {len}"
            );
        }
    }
}

#[test]
fn percentile_orders_negative_and_equal_values() {
    let list = samples(&[3.0, -1.0, 0.0, -0.0, 2.5, -7.25]);
    let sorted = [-7.25f32, -1.0, 0.0, -0.0, 2.5, 3.0];
    for (pct, rank) in [(0.0f32, 0usize), (20.0, 1), (40.0, 2), (60.0, 3), (80.0, 4), (100.0, 5)] {
        let value = sample_percentile(&list, pct.to_bits()).unwrap();
        assert_eq!(value.bits, sorted[rank].to_bits());
    }
    assert_eq!(sample_max(&list), Some(&single(3.0)));
}

#[test]
fn summaries_ascend() {
    let list = samples(&[12.0, 99.5, 3.25, 47.0, 47.0, 80.0, 0.0]);
    let value = |pct: f32| f32::from_bits(sample_percentile(&list, pct.to_bits()).unwrap().bits);
    let mut last = f32::MIN;
    for pct in 0..=100u8 {
        let next = value(pct as f32);
        assert!(next >= last);
        last = next;
    }
    assert_eq!(last, f32::from_bits(sample_max(&list).unwrap().bits));
}

#[test]
fn last_of_equal_maxima_is_reported() {
    let mut list = samples(&[1.0, 4.0, 4.0, 2.0]);
    list[2].value.text = "4.0".to_string();
    assert_eq!(sample_max(&list).unwrap().text, "4.0");
    let zeros = samples(&[0.0, -0.0]);
    assert_eq!(sample_max(&zeros).unwrap().bits, (-0.0f32).to_bits());
}

#[test]
fn outermost_percentiles_are_the_minimum_and_the_maximum() {
    let list = samples(&[30.0, -2.5, 99.5, 7.0, 99.5]);
    for pct in [0.0f32, -0.0, -1.0, f32::MIN, f32::NEG_INFINITY] {
        assert_eq!(sample_percentile(&list, pct.to_bits()), Some(&single(-2.5)), "{pct}");
    }
    for pct in [100.0f32, 100.001, 1e30, f32::MAX, f32::INFINITY] {
        assert_eq!(sample_percentile(&list, pct.to_bits()), sample_max(&list), "{pct}");
    }
    assert_eq!(sample_max(&list), Some(&single(99.5)));
    assert_eq!(HUNDRED, 100.0f32.to_bits());
}

#[test]
fn percentiles_depend_on_the_values_alone() {
    let list = samples(&[5.0, 1.0, 4.0, 1.0, 3.0, 2.0]);
    let mut other = samples(&[1.0, 1.0, 2.0, 3.0, 4.0, 5.0]);
    for (i, sample) in other.iter_mut().enumerate() {
        sample.timestamp_us = 1_000 - i as u64;
    }
    for pct in 0..=100 {
        let bits = (pct as f32).to_bits();
        assert_eq!(sample_percentile(&list, bits), sample_percentile(&other, bits), "{pct}");
    }
}

#[test]
fn remapped_row_fields_are_those_of_nvml() {
    assert_eq!(
        remapped_row_fields(),
        vec![
            field_id::NVML_FI_DEV_REMAPPED_COR,
            field_id::NVML_FI_DEV_REMAPPED_UNC,
            field_id::NVML_FI_DEV_REMAPPED_PENDING,
            field_id::NVML_FI_DEV_REMAPPED_FAILURE,
        ]
    );
}
