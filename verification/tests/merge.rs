//! Merging DCGM samples into GPU rows.
use all_smi::dcgm::{backend_status, DcgmBackendStatus};
use all_smi::dcgm_merge::{fill_f32, fill_f64, merge_into_gpus, merge_sample, DcgmGpuSample};
use all_smi::dcgm_plugin_api::DcgmPluginApiV1;
use all_smi::number::{Double, Single};
use all_smi::text_map::TextMap;
use all_smi::types::{
    GpmMetrics, GpuInfo, RemappedRowsInfo, TelemetrySource, ThrottleReasons,
};
use std::collections::HashMap;

fn single(value: f32) -> Single {
    Single { bits: value.to_bits(), text: format!("{value}") }
}

fn double(value: f64) -> Double {
    Double { bits: value.to_bits(), text: format!("{value}") }
}

fn gpu(uuid: &str) -> GpuInfo {
    GpuInfo {
        uuid: uuid.to_string(),
        name: "NVIDIA H100".to_string(),
        instance: "node-1".to_string(),
        numa_node_id: Some(3),
        gsp_firmware_mode: None,
        gsp_firmware_version: None,
        nvlink_remote_devices: Vec::new(),
        gpm_metrics: None,
        throttle_reasons: None,
        energy_hw_millijoules: None,
        remapped_rows: None,
        nvlink_errors: Vec::new(),
        utilization_samples: None,
        xid_event_counts: HashMap::new(),
        detail: TextMap::new(),
    }
}

fn source<'a>(gpu: &'a GpuInfo, field: &str) -> Option<&'a str> {
    gpu.detail.get(&format!("Source: {field}")).map(String::as_str)
}

#[test]
fn unavailable_plugin_does_not_panic_on_merge() {
    let mut gpus: Vec<GpuInfo> = Vec::new();
    merge_into_gpus(&mut gpus, &Err("no plugin".to_string()));
    let _ = backend_status(&Err("no plugin".to_string()));
}

#[test]
fn fill_preserves_existing_some() {
    let mut dst = Some(single(0.5));
    let mut detail = TextMap::new();
    assert!(!fill_f32(&mut dst, Some(single(0.1)), &mut detail, "sm_active"));
    assert_eq!(dst, Some(single(0.5)));
    assert!(detail.is_empty());
}

#[test]
fn fill_sets_none_from_dcgm() {
    let mut dst = None;
    let mut detail = TextMap::new();
    assert!(fill_f32(&mut dst, Some(single(0.1)), &mut detail, "sm_active"));
    assert_eq!(dst, Some(single(0.1)));
    assert_eq!(
        detail.get("Source: sm_active").map(String::as_str),
        Some("dcgm")
    );
}

#[test]
fn fill_without_a_value_changes_nothing() {
    let mut dst: Option<Double> = None;
    let mut detail = TextMap::new();
    assert!(!fill_f64(&mut dst, None, &mut detail, "pcie_tx"));
    assert_eq!(dst, None);
    assert!(detail.is_empty());
    assert!(fill_f64(&mut dst, Some(double(2.5)), &mut detail, "pcie_tx"));
    assert_eq!(dst, Some(double(2.5)));
    assert_eq!(detail.get("Source: pcie_tx").map(String::as_str), Some("dcgm"));
}

#[test]
fn merge_fills_a_bare_row() {
    let mut row = gpu("GPU-1");
    let mut sample = DcgmGpuSample::default();
    sample.uuid = "GPU-1".to_string();
    sample.graphics_active = Some(single(0.9));
    sample.nvlink_rx_bytes_per_sec = Some(double(4.0e9));
    sample.throttle_reasons = Some(ThrottleReasons::default());
    sample.remapped_rows = Some(RemappedRowsInfo {
        correctable: 1,
        uncorrectable: 2,
        pending: false,
        failed: true,
    });
    sample.xid_event_counts.insert(79, 2);
    sample.xid_event_counts.insert(31, 0);
    merge_sample(&mut row, &sample);
    let metrics = row.gpm_metrics.as_ref().unwrap();
    assert_eq!(metrics.graphics_active, Some(single(0.9)));
    assert_eq!(metrics.nvlink_rx_bytes_per_sec, Some(double(4.0e9)));
    assert_eq!(metrics.sm_active, None);
    assert_eq!(metrics.source, Some(TelemetrySource::Dcgm));
    assert_eq!(row.throttle_reasons, Some(ThrottleReasons::default()));
    assert_eq!(row.remapped_rows.unwrap().uncorrectable, 2);
    assert_eq!(row.xid_event_counts.get(&79), Some(&2));
    assert_eq!(row.xid_event_counts.get(&31), Some(&0));
    for field in ["graphics_active", "nvlink_rx", "throttle", "remapped_rows", "xid_79"] {
        assert_eq!(source(&row, field), Some("dcgm"), "{field}");
    }
    assert_eq!(source(&row, "xid_31"), None);
    assert_eq!(source(&row, "sm_active"), None);
    assert_eq!(row.numa_node_id, Some(3));
}

#[test]
fn merge_keeps_what_is_there() {
    let mut row = gpu("GPU-1");
    row.gpm_metrics = Some(GpmMetrics {
        sm_active: Some(single(0.25)),
        source: Some(TelemetrySource::Gpm),
        ..GpmMetrics::default()
    });
    let mut reasons = ThrottleReasons::default();
    reasons.hw_slowdown = true;
    row.throttle_reasons = Some(reasons);
    row.xid_event_counts.insert(48, 9);
    row.detail.insert("Driver".to_string(), "550".to_string());
    let mut sample = DcgmGpuSample::default();
    sample.sm_active = Some(single(0.75));
    sample.fp64_active = Some(single(0.5));
    sample.throttle_reasons = Some(ThrottleReasons::default());
    sample.xid_event_counts.insert(48, 3);
    sample.xid_event_counts.insert(94, 1);
    merge_sample(&mut row, &sample);
    let metrics = row.gpm_metrics.as_ref().unwrap();
    assert_eq!(metrics.sm_active, Some(single(0.25)));
    assert_eq!(metrics.fp64_active, Some(single(0.5)));
    assert_eq!(metrics.source, Some(TelemetrySource::Gpm));
    assert!(row.throttle_reasons.unwrap().hw_slowdown);
    assert_eq!(row.xid_event_counts.get(&48), Some(&9));
    assert_eq!(row.xid_event_counts.get(&94), Some(&1));
    assert_eq!(source(&row, "sm_active"), None);
    assert_eq!(source(&row, "throttle"), None);
    assert_eq!(source(&row, "xid_48"), None);
    assert_eq!(source(&row, "xid_94"), Some("dcgm"));
    assert_eq!(row.detail.get("Driver").map(String::as_str), Some("550"));
}

#[test]
fn metrics_of_another_source_become_dcgm_only_when_filled() {
    for (given, expected) in [
        (None, TelemetrySource::Nvml),
        (Some(single(0.5)), TelemetrySource::Dcgm),
    ] {
        let mut row = gpu("GPU-1");
        row.gpm_metrics =
            Some(GpmMetrics { source: Some(TelemetrySource::Nvml), ..GpmMetrics::default() });
        let mut sample = DcgmGpuSample::default();
        sample.tensor_active = given;
        merge_sample(&mut row, &sample);
        assert_eq!(row.gpm_metrics.unwrap().source, Some(expected));
    }
}

#[test]
fn merging_twice_changes_nothing_more() {
    let mut row = gpu("GPU-1");
    let mut sample = DcgmGpuSample::default();
    sample.sm_occupancy = Some(single(0.5));
    sample.xid_event_counts.insert(13, 4);
    merge_sample(&mut row, &sample);
    row.detail.insert("Source: sm_occupancy".to_string(), "seen".to_string());
    row.detail.insert("Source: xid_13".to_string(), "seen".to_string());
    merge_sample(&mut row, &sample);
    assert_eq!(row.gpm_metrics.as_ref().unwrap().sm_occupancy, Some(single(0.5)));
    assert_eq!(row.xid_event_counts.get(&13), Some(&4));
    assert_eq!(source(&row, "sm_occupancy"), Some("seen"));
    assert_eq!(source(&row, "xid_13"), Some("seen"));
}

#[test]
fn rows_are_matched_by_uuid() {
    let mut gpus = vec![gpu("GPU-1"), gpu("GPU-2"), gpu("GPU-3")];
    let mut first = DcgmGpuSample::default();
    first.uuid = "GPU-2".to_string();
    first.sm_active = Some(single(0.1));
    let mut last = DcgmGpuSample::default();
    last.uuid = "GPU-2".to_string();
    last.sm_active = Some(single(0.2));
    let mut stranger = DcgmGpuSample::default();
    stranger.uuid = "GPU-9".to_string();
    merge_into_gpus(&mut gpus, &Ok(vec![first, last, stranger]));
    assert!(gpus[0].gpm_metrics.is_none());
    assert!(gpus[2].gpm_metrics.is_none());
    assert_eq!(
        gpus[1].gpm_metrics.as_ref().unwrap().sm_active,
        Some(single(0.2))
    );
}

#[test]
fn failed_sampling_leaves_rows_alone() {
    let mut gpus = vec![gpu("GPU-1")];
    merge_into_gpus(&mut gpus, &Err("dcgm session lock poisoned".to_string()));
    assert!(gpus[0].gpm_metrics.is_none());
    assert!(gpus[0].detail.is_empty());
}

#[test]
fn status_tells_why_nothing_was_loaded() {
    assert_eq!(
        backend_status(&Err("gone".to_string())),
        DcgmBackendStatus::Unavailable { reason: "gone".to_string() }
    );
}

#[test]
fn text_map_inserts_replaces_and_removes() {
    let mut map: TextMap<usize> = TextMap::new();
    map.insert("a".to_string(), 1);
    map.insert("b".to_string(), 2);
    map.insert("a".to_string(), 3);
    assert_eq!(map.get("a"), Some(&3));
    assert_eq!(map.remove("a"), Some(3));
    assert_eq!(map.remove("a"), None);
    assert_eq!(map.drain(), vec![("b".to_string(), 2)]);
    assert!(map.is_empty());
}
