//! The hardware-detail exposition.
use all_smi::hardware::{HardwareMetricExporter, FIFTY, NINETY_FIVE};
use all_smi::metrics::MetricBuilder;
use all_smi::number::{Double, Single};
use all_smi::text_map::TextMap;
use all_smi::types::{
    GpmMetrics, GpuInfo, NvLinkErrorCount, NvLinkRemoteDevice, NvLinkRemoteType, RemappedRowsInfo,
    TelemetrySource, ThrottleReasons, UtilizationSample,
};
use std::collections::HashMap;

fn single(value: f32) -> Single {
    Single { bits: value.to_bits(), text: format!("{value}") }
}

fn double(value: f64) -> Double {
    Double { bits: value.to_bits(), text: format!("{value}") }
}

fn gap_of(gpu: &GpuInfo) -> Option<Single> {
    let metrics = gpu.gpm_metrics.as_ref()?;
    let graphics = f32::from_bits(metrics.graphics_active.as_ref()?.bits);
    let sm = f32::from_bits(metrics.sm_active.as_ref()?.bits);
    Some(single(graphics - sm))
}

fn export(gpus: &[GpuInfo]) -> String {
    let gaps: Vec<Option<Single>> = gpus.iter().map(gap_of).collect();
    HardwareMetricExporter::new(gpus, &gaps).export_metrics()
}

fn make_nvidia_gpu() -> GpuInfo {
    GpuInfo {
        uuid: "GPU-ABC".to_string(),
        name: "NVIDIA A100".to_string(),
        instance: "node-1".to_string(),
        numa_node_id: Some(0),
        gsp_firmware_mode: Some(1),
        gsp_firmware_version: Some("550.54.15".to_string()),
        nvlink_remote_devices: vec![
            NvLinkRemoteDevice {
                link_index: 0,
                remote_type: NvLinkRemoteType::Gpu,
                bandwidth_mb_s: Some(400_000),
            },
            NvLinkRemoteDevice {
                link_index: 1,
                remote_type: NvLinkRemoteType::Switch,
                bandwidth_mb_s: None,
            },
        ],
        gpm_metrics: Some(GpmMetrics {
            sm_occupancy: Some(single(0.67)),
            memory_bandwidth_utilization: Some(single(0.42)),
            source: Some(TelemetrySource::Gpm),
            ..GpmMetrics::default()
        }),
        throttle_reasons: None,
        energy_hw_millijoules: None,
        remapped_rows: None,
        nvlink_errors: Vec::new(),
        utilization_samples: None,
        xid_event_counts: HashMap::new(),
        detail: TextMap::new(),
    }
}

fn make_non_nvidia_gpu() -> GpuInfo {
    let mut gpu = make_nvidia_gpu();
    gpu.uuid = "GPU-AMD".to_string();
    gpu.name = "Radeon RX".to_string();
    gpu.numa_node_id = None;
    gpu.gsp_firmware_mode = None;
    gpu.gsp_firmware_version = None;
    gpu.nvlink_remote_devices = Vec::new();
    gpu.gpm_metrics = None;
    gpu
}

#[test]
fn empty_when_no_hardware_details_anywhere() {
    let gpus = vec![make_non_nvidia_gpu()];
    assert_eq!(export(&gpus), "");
}

#[test]
fn emits_numa_node_id_when_populated() {
    let gpus = vec![make_nvidia_gpu()];
    let out = export(&gpus);
    assert!(out.contains("# HELP all_smi_gpu_numa_node_id"));
    assert!(out.contains("# TYPE all_smi_gpu_numa_node_id gauge"));
    assert!(
        out.lines()
            .any(|l| l.starts_with("all_smi_gpu_numa_node_id{") && l.ends_with(" 0")),
        "missing numa node id line in:\n{out}"
    );
}

#[test]
fn omits_numa_node_id_when_none() {
    let mut gpu = make_nvidia_gpu();
    gpu.numa_node_id = None;
    let gpus = vec![gpu];
    let out = export(&gpus);
    assert!(
        !out.contains("all_smi_gpu_numa_node_id"),
        "should omit numa metric entirely:\n{out}"
    );
}

#[test]
fn emits_gsp_firmware_mode_and_version() {
    let gpus = vec![make_nvidia_gpu()];
    let out = export(&gpus);
    assert!(out.contains("all_smi_gpu_gsp_firmware_mode{"));
    assert!(out.contains("all_smi_gpu_gsp_firmware_version_info{"));
    assert!(out.contains(r#"version="550.54.15""#));
}

#[test]
fn emits_one_nvlink_row_per_active_link() {
    let gpus = vec![make_nvidia_gpu()];
    let out = export(&gpus);
    let nvlink_lines: Vec<_> = out
        .lines()
        .filter(|l| l.starts_with("all_smi_nvlink_remote_device_type{"))
        .collect();
    assert_eq!(nvlink_lines.len(), 2, "expected 2 NvLink rows:\n{out}");
    assert!(nvlink_lines.iter().any(|l| l.contains(r#"remote_type="gpu""#)));
    assert!(nvlink_lines.iter().any(|l| l.contains(r#"remote_type="switch""#)));
    assert!(nvlink_lines.iter().any(|l| l.contains(r#"link_index="0""#)));
    assert!(nvlink_lines.iter().any(|l| l.contains(r#"link_index="1""#)));
}

#[test]
fn emits_no_nvlink_metric_when_vector_empty() {
    let mut gpu = make_nvidia_gpu();
    gpu.nvlink_remote_devices.clear();
    let gpus = vec![gpu];
    let out = export(&gpus);
    assert!(
        !out.contains("all_smi_nvlink_remote_device_type"),
        "should omit NvLink metric entirely when no active links:\n{out}"
    );
}

#[test]
fn emits_gpm_metrics_when_populated() {
    let gpus = vec![make_nvidia_gpu()];
    let out = export(&gpus);
    assert!(out.contains("all_smi_gpu_sm_occupancy{"));
    assert!(out.contains("all_smi_gpu_memory_bandwidth_utilization{"));
    assert!(
        out.contains(r#"source="gpm""#),
        "GPM series must carry source label:\n{out}"
    );
}

#[test]
fn omits_gpm_metrics_when_unsupported_device() {
    let mut gpu = make_nvidia_gpu();
    gpu.gpm_metrics = None;
    let gpus = vec![gpu];
    let out = export(&gpus);
    assert!(!out.contains("all_smi_gpu_sm_occupancy"));
    assert!(!out.contains("all_smi_gpu_memory_bandwidth_utilization"));
}

#[test]
fn gpm_supported_but_unsampled_emits_nothing_for_gpm_values() {
    let mut gpu = make_nvidia_gpu();
    gpu.gpm_metrics = Some(GpmMetrics::default());
    let gpus = vec![gpu];
    let out = export(&gpus);
    assert!(
        !out.contains("all_smi_gpu_sm_occupancy"),
        "unsampled GPM must not emit zero:\n{out}"
    );
    assert!(
        !out.contains("all_smi_gpu_memory_bandwidth_utilization"),
        "unsampled GPM must not emit zero:\n{out}"
    );
    assert!(
        !out.contains("all_smi_gpu_sm_active_ratio"),
        "unsampled GPM must not emit zero:\n{out}"
    );
}

fn full_metrics() -> GpmMetrics {
    GpmMetrics {
        graphics_active: Some(single(0.90)),
        sm_active: Some(single(0.10)),
        sm_occupancy: Some(single(0.05)),
        tensor_active: Some(single(0.02)),
        tensor_hmma_active: Some(single(0.01)),
        tensor_imma_active: Some(single(0.0)),
        tensor_dfma_active: Some(single(0.0)),
        fp64_active: Some(single(0.0)),
        fp32_active: Some(single(0.08)),
        fp16_active: Some(single(0.01)),
        integer_active: Some(single(0.0)),
        memory_bandwidth_utilization: Some(single(0.20)),
        pcie_tx_bytes_per_sec: Some(double(1.2e9)),
        pcie_rx_bytes_per_sec: Some(double(3.0e8)),
        nvlink_tx_bytes_per_sec: Some(double(4.0e9)),
        nvlink_rx_bytes_per_sec: Some(double(4.1e9)),
        nvdec_active: Some(single(0.0)),
        nvjpg_active: Some(single(0.0)),
        nvofa_active: Some(single(0.0)),
        source: Some(TelemetrySource::Gpm),
    }
}

#[test]
fn emits_full_gpm_field_set() {
    let mut gpu = make_nvidia_gpu();
    gpu.gpm_metrics = Some(full_metrics());
    let out = export(&[gpu]);
    for name in [
        "all_smi_gpu_graphics_active_ratio",
        "all_smi_gpu_sm_active_ratio",
        "all_smi_gpu_tensor_active_ratio",
        "all_smi_gpu_pcie_tx_bytes_per_second",
        "all_smi_gpu_nvlink_rx_bytes_per_second",
        "all_smi_gpu_nvdec_active_ratio",
    ] {
        assert!(
            out.contains(&format!("{name}{{")),
            "missing {name} in:\n{out}"
        );
    }
}

#[test]
fn preserves_standard_gpu_labels_on_all_metrics() {
    let gpus = vec![make_nvidia_gpu()];
    let out = export(&gpus);
    let expected_fragments = [
        r#"gpu="NVIDIA A100""#,
        r#"instance="node-1""#,
        r#"gpu_uuid="GPU-ABC""#,
        r#"gpu_index="0""#,
    ];
    for line in out
        .lines()
        .filter(|l| l.starts_with("all_smi_") && l.contains('{'))
    {
        for frag in &expected_fragments {
            assert!(line.contains(frag), "label '{frag}' missing from {line}");
        }
    }
}

#[test]
fn skips_non_nvidia_rows_when_nvidia_row_also_present() {
    let gpus = vec![make_non_nvidia_gpu(), make_nvidia_gpu()];
    let out = export(&gpus);
    assert!(
        !out.contains("GPU-AMD"),
        "non-NVIDIA GPU leaked into hardware exporter:\n{out}"
    );
    assert!(out.contains("GPU-ABC"));
}

/// The labels that the second of two GPUs carries.
const BASE: &str =
    r#"gpu="NVIDIA A100",instance="node-1",gpu_uuid="GPU-ABC",gpu_index="1""#;

fn bare_gpu() -> GpuInfo {
    let mut gpu = make_non_nvidia_gpu();
    gpu.uuid = "GPU-ABC".to_string();
    gpu.name = "NVIDIA A100".to_string();
    gpu
}

/// The exposition of a GPU behind one without details, without its headers.
fn samples_of(gpu: GpuInfo) -> Vec<String> {
    export(&[make_non_nvidia_gpu(), gpu])
        .lines()
        .filter(|l| !l.starts_with('#'))
        .map(|l| l.to_string())
        .collect()
}

#[test]
fn emits_nothing_without_gpus() {
    assert_eq!(export(&[]), "");
}

#[test]
fn numa_exposition_is_exact() {
    let mut gpu = bare_gpu();
    gpu.numa_node_id = Some(-1);
    let out = export(&[make_non_nvidia_gpu(), gpu]);
    assert_eq!(
        out,
        format!(
            "# HELP all_smi_gpu_numa_node_id NUMA node the GPU is attached to (metric is omitted \
             when the host has no NUMA topology or the driver does not report one)\n\
             # TYPE all_smi_gpu_numa_node_id gauge\n\
             all_smi_gpu_numa_node_id{{{BASE}}} -1\n"
        )
    );
}

#[test]
fn firmware_samples_are_exact() {
    let mut gpu = bare_gpu();
    gpu.gsp_firmware_mode = Some(2);
    gpu.gsp_firmware_version = Some("a\"b\\c\nd".to_string());
    assert_eq!(
        samples_of(gpu),
        vec![
            format!("all_smi_gpu_gsp_firmware_mode{{{BASE}}} 2"),
            format!(
                "all_smi_gpu_gsp_firmware_version_info{{{BASE},version=\"a\\\"b\\\\c\\nd\"}} 1"
            ),
        ]
    );
}

#[test]
fn nvlink_samples_carry_the_bandwidth_they_have() {
    let mut gpu = bare_gpu();
    gpu.nvlink_remote_devices = make_nvidia_gpu().nvlink_remote_devices;
    gpu.nvlink_remote_devices.push(NvLinkRemoteDevice {
        link_index: 17,
        remote_type: NvLinkRemoteType::IbmNpu,
        bandwidth_mb_s: None,
    });
    gpu.nvlink_remote_devices.push(NvLinkRemoteDevice {
        link_index: 5,
        remote_type: NvLinkRemoteType::Unknown,
        bandwidth_mb_s: Some(0),
    });
    let name = "all_smi_nvlink_remote_device_type";
    assert_eq!(
        samples_of(gpu),
        vec![
            format!(
                "{name}{{{BASE},link_index=\"0\",remote_type=\"gpu\",bandwidth_mb_s=\"400000\"}} 1"
            ),
            format!("{name}{{{BASE},link_index=\"1\",remote_type=\"switch\"}} 1"),
            format!("{name}{{{BASE},link_index=\"17\",remote_type=\"ibmnpu\"}} 1"),
            format!(
                "{name}{{{BASE},link_index=\"5\",remote_type=\"unknown\",bandwidth_mb_s=\"0\"}} 1"
            ),
        ]
    );
}

#[test]
fn activity_samples_are_exact() {
    let mut gpu = bare_gpu();
    gpu.gpm_metrics = Some(GpmMetrics {
        graphics_active: Some(single(0.75)),
        sm_active: Some(single(0.25)),
        pcie_rx_bytes_per_sec: Some(double(3.0e8)),
        source: Some(TelemetrySource::Dcgm),
        ..GpmMetrics::default()
    });
    let labels = format!("{BASE},source=\"dcgm\"");
    assert_eq!(
        samples_of(gpu),
        vec![
            format!("all_smi_gpu_graphics_active_ratio{{{labels}}} 0.75"),
            format!("all_smi_gpu_sm_active_ratio{{{labels}}} 0.25"),
            format!("all_smi_gpu_pcie_rx_bytes_per_second{{{labels}}} 300000000"),
            format!("all_smi_gpu_hollow_utilization_ratio{{{labels}}} 0.5"),
        ]
    );
}

#[test]
fn activity_without_a_source_counts_as_gpm() {
    let mut gpu = bare_gpu();
    gpu.gpm_metrics =
        Some(GpmMetrics { fp16_active: Some(single(1.0)), ..GpmMetrics::default() });
    assert_eq!(
        samples_of(gpu),
        vec![format!("all_smi_gpu_fp16_active_ratio{{{BASE},source=\"gpm\"}} 1")]
    );
}

#[test]
fn hollow_utilization_is_not_negative() {
    let mut gpu = bare_gpu();
    gpu.gpm_metrics = Some(GpmMetrics {
        graphics_active: Some(single(0.25)),
        sm_active: Some(single(0.75)),
        ..GpmMetrics::default()
    });
    let samples = samples_of(gpu);
    assert_eq!(samples.len(), 3);
    assert_eq!(
        samples[2],
        format!("all_smi_gpu_hollow_utilization_ratio{{{BASE},source=\"gpm\"}} 0")
    );
}

#[test]
fn hollow_utilization_needs_both_activities() {
    let mut gpu = bare_gpu();
    gpu.gpm_metrics =
        Some(GpmMetrics { graphics_active: Some(single(0.25)), ..GpmMetrics::default() });
    assert_eq!(samples_of(gpu).len(), 1);
}

/// A GPU with a sample of every family.
fn full_gpu() -> GpuInfo {
    let mut gpu = make_nvidia_gpu();
    gpu.gpm_metrics = Some(full_metrics());
    let mut throttle = ThrottleReasons::default();
    throttle.sw_power_cap = true;
    throttle.hw_thermal = true;
    gpu.throttle_reasons = Some(throttle);
    gpu.energy_hw_millijoules = Some(u64::MAX);
    gpu.remapped_rows = Some(RemappedRowsInfo::default());
    gpu.nvlink_errors = vec![NvLinkErrorCount {
        link_index: 3,
        error_type: "replay".to_string(),
        count: 7,
    }];
    gpu.utilization_samples = Some(vec![UtilizationSample { timestamp_us: 1, value: single(5.0) }]);
    gpu.xid_event_counts.insert(79, 1);
    gpu
}

#[test]
fn every_family_appears_once_with_its_kind() {
    let mut other = bare_gpu();
    other.numa_node_id = Some(1);
    other.gpm_metrics = Some(full_metrics());
    let out = export(&[full_gpu(), other]);
    let mut names: Vec<&str> = Vec::new();
    for line in out.lines().filter(|l| l.starts_with("# TYPE ")) {
        let mut words = line.split(' ').skip(2);
        let name = words.next().unwrap();
        let kind = words.next().unwrap();
        assert!(!names.contains(&name), "{name} twice");
        assert_eq!(kind, if name.ends_with("_total") { "counter" } else { "gauge" });
        names.push(name);
    }
    assert_eq!(names.len(), 34);
    assert_eq!(out.lines().filter(|l| l.starts_with("# HELP ")).count(), 34);
    for name in names {
        let header = out.find(&format!("# TYPE {name} ")).unwrap();
        let first = out.find(&format!("\n{name}{{")).unwrap();
        assert!(header < first);
    }
}

#[test]
fn throttle_and_energy_samples_are_exact() {
    let mut gpu = bare_gpu();
    let mut throttle = ThrottleReasons::default();
    throttle.display_clocks = true;
    throttle.gpu_idle = true;
    gpu.throttle_reasons = Some(throttle);
    gpu.energy_hw_millijoules = Some(18_446_744_073_709_551_615);
    assert_eq!(
        samples_of(gpu),
        vec![
            format!("all_smi_gpu_throttle_reason{{{BASE},reason=\"gpu_idle\"}} 1"),
            format!("all_smi_gpu_throttle_reason{{{BASE},reason=\"display_clocks\"}} 1"),
            format!(
                "all_smi_gpu_energy_hw_millijoules_total{{{BASE}}} 18446744073709551615"
            ),
        ]
    );
}

#[test]
fn remapped_row_samples_are_exact() {
    let mut gpu = bare_gpu();
    gpu.remapped_rows =
        Some(RemappedRowsInfo { correctable: 3, uncorrectable: 1, pending: true, failed: false });
    assert_eq!(
        samples_of(gpu),
        vec![
            format!("all_smi_gpu_remapped_rows{{{BASE},cause=\"correctable\"}} 3"),
            format!("all_smi_gpu_remapped_rows{{{BASE},cause=\"uncorrectable\"}} 1"),
            format!("all_smi_gpu_remapping_pending{{{BASE}}} 1"),
            format!("all_smi_gpu_remapping_failed{{{BASE}}} 0"),
        ]
    );
}

#[test]
fn error_and_event_samples_are_exact() {
    let mut gpu = bare_gpu();
    gpu.nvlink_errors = vec![
        NvLinkErrorCount { link_index: 2, error_type: "crc_flit".to_string(), count: 4 },
        NvLinkErrorCount { link_index: 2, error_type: "recovery".to_string(), count: 0 },
    ];
    gpu.xid_event_counts.insert(94, 2);
    gpu.xid_event_counts.insert(48, 1);
    gpu.xid_event_counts.insert(4_000_000_000, 5);
    assert_eq!(
        samples_of(gpu),
        vec![
            format!("all_smi_gpu_nvlink_errors_total{{{BASE},link=\"2\",type=\"crc_flit\"}} 4"),
            format!("all_smi_gpu_nvlink_errors_total{{{BASE},link=\"2\",type=\"recovery\"}} 0"),
            format!("all_smi_gpu_xid_events_total{{{BASE},xid=\"48\"}} 1"),
            format!("all_smi_gpu_xid_events_total{{{BASE},xid=\"94\"}} 2"),
            format!("all_smi_gpu_xid_events_total{{{BASE},xid=\"4000000000\"}} 5"),
        ]
    );
}

#[test]
fn utilization_summaries_are_exact() {
    let mut gpu = bare_gpu();
    gpu.utilization_samples = Some(
        [30.0f32, 10.0, 50.5, 20.0, 40.0]
            .iter()
            .map(|v| UtilizationSample { timestamp_us: 0, value: single(*v) })
            .collect(),
    );
    assert_eq!(
        samples_of(gpu),
        vec![
            format!("all_smi_gpu_utilization_sample_p50{{{BASE}}} 30"),
            format!("all_smi_gpu_utilization_sample_p95{{{BASE}}} 50.5"),
            format!("all_smi_gpu_utilization_sample_max{{{BASE}}} 50.5"),
        ]
    );
}

#[test]
fn published_percentiles_are_the_50th_and_the_95th() {
    assert_eq!(FIFTY, 50.0f32.to_bits());
    assert_eq!(NINETY_FIVE, 95.0f32.to_bits());
}

#[test]
fn empty_utilization_samples_are_no_detail() {
    let mut gpu = bare_gpu();
    gpu.utilization_samples = Some(Vec::new());
    assert_eq!(export(&[gpu]), "");
}

#[test]
fn quiet_throttle_reasons_make_no_sample() {
    let mut gpu = bare_gpu();
    gpu.throttle_reasons = Some(ThrottleReasons::default());
    assert_eq!(export(&[gpu]), "");
}

#[test]
fn builder_writes_the_text_format() {
    let mut builder = MetricBuilder::new();
    builder.help("up", "Whether it is up");
    builder.type_("up", "gauge");
    builder.metric("up", &[("host", "a\\b\"c\nd")], "1");
    builder.metric("up", &[("host", ""), ("zone", "1")], "0");
    assert_eq!(
        builder.build(),
        "# HELP up Whether it is up\n# TYPE up gauge\nup{host=\"a\\\\b\\\"c\\nd\"} 1\nup{host=\"\",zone=\"1\"} 0\n"
    );
}

#[test]
fn help_texts_are_exact() {
    let expected = [
        "# HELP all_smi_gpu_numa_node_id NUMA node the GPU is attached to (metric is omitted when the host has no NUMA topology or the driver does not report one)",
        "# HELP all_smi_gpu_gsp_firmware_mode GSP firmware mode (0=disabled, 1=enabled, 2=default); omitted when the driver does not expose the GSP firmware API",
        "# HELP all_smi_gpu_gsp_firmware_version_info GSP firmware version, encoded as a constant 1 with the version in a `version` label; omitted when unsupported",
        "# HELP all_smi_nvlink_remote_device_type NvLink remote endpoint classification per active link. Value is always 1; classification is carried in the `remote_type` label (gpu / switch / ibmnpu / unknown). Optional `bandwidth_mb_s` label carries the per-link bandwidth hint used by the topology tab's NVn classifier (omitted when the driver does not report it).",
        "# HELP all_smi_gpu_graphics_active_ratio Graphics engine active fraction (0.0-1.0); aligns with nvidia-smi GPU-Util",
        "# HELP all_smi_gpu_sm_active_ratio SM active fraction (0.0-1.0); DCGM field 1002",
        "# HELP all_smi_gpu_sm_occupancy GPM-reported SM occupancy fraction (0.0-1.0); omitted on devices that do not support GPM (pre-Hopper)",
        "# HELP all_smi_gpu_tensor_active_ratio Any tensor pipe active fraction (0.0-1.0); DCGM field 1004",
        "# HELP all_smi_gpu_tensor_hmma_active_ratio HMMA tensor pipe active fraction (0.0-1.0)",
        "# HELP all_smi_gpu_tensor_imma_active_ratio IMMA tensor pipe active fraction (0.0-1.0)",
        "# HELP all_smi_gpu_tensor_dfma_active_ratio DFMA tensor pipe active fraction (0.0-1.0)",
        "# HELP all_smi_gpu_fp64_active_ratio FP64 pipe active fraction (0.0-1.0); DCGM field 1006",
        "# HELP all_smi_gpu_fp32_active_ratio FP32 pipe active fraction (0.0-1.0); DCGM field 1007",
        "# HELP all_smi_gpu_fp16_active_ratio FP16 pipe active fraction (0.0-1.0); DCGM field 1008",
        "# HELP all_smi_gpu_integer_active_ratio Integer pipe active fraction (0.0-1.0)",
        "# HELP all_smi_gpu_memory_bandwidth_utilization GPM-reported memory bandwidth utilization fraction (0.0-1.0); omitted on devices that do not support GPM (pre-Hopper)",
        "# HELP all_smi_gpu_pcie_tx_bytes_per_second PCIe transmit throughput in bytes/sec; DCGM field 1009",
        "# HELP all_smi_gpu_pcie_rx_bytes_per_second PCIe receive throughput in bytes/sec; DCGM field 1010",
        "# HELP all_smi_gpu_nvlink_tx_bytes_per_second NVLink transmit throughput in bytes/sec (total); DCGM field 1011",
        "# HELP all_smi_gpu_nvlink_rx_bytes_per_second NVLink receive throughput in bytes/sec (total); DCGM field 1012",
        "# HELP all_smi_gpu_nvdec_active_ratio Mean NVDEC instance utilization (0.0-1.0)",
        "# HELP all_smi_gpu_nvjpg_active_ratio Mean NVJPG instance utilization (0.0-1.0)",
        "# HELP all_smi_gpu_nvofa_active_ratio Mean NVOFA instance utilization (0.0-1.0)",
        "# HELP all_smi_gpu_hollow_utilization_ratio Hollow utilization: graphics_active - sm_active (clamped ≥ 0); omitted when either input is unavailable",
        "# HELP all_smi_gpu_throttle_reason Active NVML clock-throttle reason (1 when set)",
        "# HELP all_smi_gpu_energy_hw_millijoules_total NVML hardware energy counter (millijoules since driver load); distinct from software-integrated all_smi_energy_consumed_joules_total",
        "# HELP all_smi_gpu_remapped_rows HBM remapped row counts by cause",
        "# HELP all_smi_gpu_remapping_pending 1 when row remapping is pending a reset",
        "# HELP all_smi_gpu_remapping_failed 1 when row remapping failed",
        "# HELP all_smi_gpu_nvlink_errors_total NVLink error counters by link and type",
        "# HELP all_smi_gpu_utilization_sample_p50 p50 of recent NVML GpuUtilization samples (percent)",
        "# HELP all_smi_gpu_utilization_sample_p95 p95 of recent NVML GpuUtilization samples (percent)",
        "# HELP all_smi_gpu_utilization_sample_max max of recent NVML GpuUtilization samples (percent)",
        "# HELP all_smi_gpu_xid_events_total Cumulative XID / ECC events observed since process start",
    ];
    let out = export(&[full_gpu()]);
    let found: Vec<&str> = out.lines().filter(|l| l.starts_with("# HELP ")).collect();
    assert_eq!(found, expected);
}

#[test]
fn empty_activity_metrics_contribute_nothing() {
    let mut silent = make_non_nvidia_gpu();
    silent.gpm_metrics = Some(GpmMetrics::default());
    silent.throttle_reasons = Some(ThrottleReasons::default());
    assert_eq!(export(&[silent]), "");
    let mut named = make_non_nvidia_gpu();
    named.gpm_metrics =
        Some(GpmMetrics { source: Some(TelemetrySource::Nvml), ..GpmMetrics::default() });
    let mut other = bare_gpu();
    other.numa_node_id = Some(2);
    let out = export(&[named, other]);
    assert_eq!(out.lines().filter(|l| !l.starts_with('#')).count(), 1);
    assert!(out.contains("gpu_index=\"1\"} 2"));
}

#[test]
fn hollow_utilization_has_one_sample_per_gpu_with_both_activities() {
    let both = |graphics: f32, sm: f32| {
        let mut gpu = bare_gpu();
        gpu.gpm_metrics = Some(GpmMetrics {
            graphics_active: Some(single(graphics)),
            sm_active: Some(single(sm)),
            ..GpmMetrics::default()
        });
        gpu
    };
    let out = export(&[both(0.75, 0.5), bare_gpu(), both(0.5, 0.5)]);
    let found: Vec<&str> = out
        .lines()
        .filter(|l| l.starts_with("all_smi_gpu_hollow_utilization_ratio{"))
        .collect();
    assert_eq!(found.len(), 2);
    assert!(found[0].ends_with(" 0.25") && found[1].ends_with(" 0"));
}
