//! The metric families of the hardware-detail exposition.
use crate::metrics::{help_line, type_line};
use vstd::prelude::*;

verus! {

pub const HELP_NUMA_NODE_ID: &'static str =
    "NUMA node the GPU is attached to (metric is omitted when the host \
    has no NUMA topology or the driver does not report one)";

pub const HELP_GSP_FIRMWARE_MODE: &'static str =
    "GSP firmware mode (0=disabled, 1=enabled, 2=default); omitted when \
    the driver does not expose the GSP firmware API";

pub const HELP_GSP_FIRMWARE_VERSION: &'static str =
    "GSP firmware version, encoded as a constant 1 with the version in a \
    `version` label; omitted when unsupported";

pub const HELP_NVLINK_REMOTE_DEVICE_TYPE: &'static str =
    "NvLink remote endpoint classification per active link. Value is \
    always 1; classification is carried in the `remote_type` label \
    (gpu / switch / ibmnpu / unknown). Optional `bandwidth_mb_s` label \
    carries the per-link bandwidth hint used by the topology tab's \
    NVn classifier (omitted when the driver does not report it).";

pub const HELP_GRAPHICS_ACTIVE: &'static str =
    "Graphics engine active fraction (0.0-1.0); aligns with nvidia-smi GPU-Util";

pub const HELP_SM_ACTIVE: &'static str =
    "SM active fraction (0.0-1.0); DCGM field 1002";

pub const HELP_SM_OCCUPANCY: &'static str =
    "GPM-reported SM occupancy fraction (0.0-1.0); omitted on devices \
    that do not support GPM (pre-Hopper)";

pub const HELP_TENSOR_ACTIVE: &'static str =
    "Any tensor pipe active fraction (0.0-1.0); DCGM field 1004";

pub const HELP_TENSOR_HMMA_ACTIVE: &'static str =
    "HMMA tensor pipe active fraction (0.0-1.0)";

pub const HELP_TENSOR_IMMA_ACTIVE: &'static str =
    "IMMA tensor pipe active fraction (0.0-1.0)";

pub const HELP_TENSOR_DFMA_ACTIVE: &'static str =
    "DFMA tensor pipe active fraction (0.0-1.0)";

pub const HELP_FP64_ACTIVE: &'static str =
    "FP64 pipe active fraction (0.0-1.0); DCGM field 1006";

pub const HELP_FP32_ACTIVE: &'static str =
    "FP32 pipe active fraction (0.0-1.0); DCGM field 1007";

pub const HELP_FP16_ACTIVE: &'static str =
    "FP16 pipe active fraction (0.0-1.0); DCGM field 1008";

pub const HELP_INTEGER_ACTIVE: &'static str =
    "Integer pipe active fraction (0.0-1.0)";

pub const HELP_MEMORY_BANDWIDTH_UTILIZATION: &'static str =
    "GPM-reported memory bandwidth utilization fraction (0.0-1.0); \
    omitted on devices that do not support GPM (pre-Hopper)";

pub const HELP_PCIE_TX: &'static str =
    "PCIe transmit throughput in bytes/sec; DCGM field 1009";

pub const HELP_PCIE_RX: &'static str =
    "PCIe receive throughput in bytes/sec; DCGM field 1010";

pub const HELP_NVLINK_TX: &'static str =
    "NVLink transmit throughput in bytes/sec (total); DCGM field 1011";

pub const HELP_NVLINK_RX: &'static str =
    "NVLink receive throughput in bytes/sec (total); DCGM field 1012";

pub const HELP_NVDEC_ACTIVE: &'static str =
    "Mean NVDEC instance utilization (0.0-1.0)";

pub const HELP_NVJPG_ACTIVE: &'static str =
    "Mean NVJPG instance utilization (0.0-1.0)";

pub const HELP_NVOFA_ACTIVE: &'static str =
    "Mean NVOFA instance utilization (0.0-1.0)";

pub const HELP_HOLLOW_UTILIZATION: &'static str =
    "Hollow utilization: graphics_active - sm_active (clamped ≥ 0); \
    omitted when either input is unavailable";

pub const HELP_THROTTLE_REASON: &'static str =
    "Active NVML clock-throttle reason (1 when set)";

pub const HELP_ENERGY_HW: &'static str =
    "NVML hardware energy counter (millijoules since driver load); \
    distinct from software-integrated all_smi_energy_consumed_joules_total";

pub const HELP_REMAPPED_ROWS: &'static str =
    "HBM remapped row counts by cause";

pub const HELP_REMAPPING_PENDING: &'static str =
    "1 when row remapping is pending a reset";

pub const HELP_REMAPPING_FAILED: &'static str =
    "1 when row remapping failed";

pub const HELP_NVLINK_ERRORS: &'static str =
    "NVLink error counters by link and type";

pub const HELP_UTILIZATION_P50: &'static str =
    "p50 of recent NVML GpuUtilization samples (percent)";

pub const HELP_UTILIZATION_P95: &'static str =
    "p95 of recent NVML GpuUtilization samples (percent)";

pub const HELP_UTILIZATION_MAX: &'static str =
    "max of recent NVML GpuUtilization samples (percent)";

pub const HELP_XID_EVENTS: &'static str =
    "Cumulative XID / ECC events observed since process start";

/// A metric family.
#[derive(Clone, Copy, Debug, PartialEq, Eq, Structural)]
pub enum Family {
    NumaNodeId,
    GspFirmwareMode,
    GspFirmwareVersion,
    NvlinkRemoteDeviceType,
    GraphicsActive,
    SmActive,
    SmOccupancy,
    TensorActive,
    TensorHmmaActive,
    TensorImmaActive,
    TensorDfmaActive,
    Fp64Active,
    Fp32Active,
    Fp16Active,
    IntegerActive,
    MemoryBandwidthUtilization,
    PcieTx,
    PcieRx,
    NvlinkTx,
    NvlinkRx,
    NvdecActive,
    NvjpgActive,
    NvofaActive,
    HollowUtilization,
    ThrottleReason,
    EnergyHw,
    RemappedRows,
    RemappingPending,
    RemappingFailed,
    NvlinkErrors,
    UtilizationP50,
    UtilizationP95,
    UtilizationMax,
    XidEvents,
}

impl Family {
    /// The name of the metric.
    pub open spec fn name_text(self) -> Seq<char> {
        match self {
            Family::NumaNodeId => "all_smi_gpu_numa_node_id"@,
            Family::GspFirmwareMode => "all_smi_gpu_gsp_firmware_mode"@,
            Family::GspFirmwareVersion => "all_smi_gpu_gsp_firmware_version_info"@,
            Family::NvlinkRemoteDeviceType => "all_smi_nvlink_remote_device_type"@,
            Family::GraphicsActive => "all_smi_gpu_graphics_active_ratio"@,
            Family::SmActive => "all_smi_gpu_sm_active_ratio"@,
            Family::SmOccupancy => "all_smi_gpu_sm_occupancy"@,
            Family::TensorActive => "all_smi_gpu_tensor_active_ratio"@,
            Family::TensorHmmaActive => "all_smi_gpu_tensor_hmma_active_ratio"@,
            Family::TensorImmaActive => "all_smi_gpu_tensor_imma_active_ratio"@,
            Family::TensorDfmaActive => "all_smi_gpu_tensor_dfma_active_ratio"@,
            Family::Fp64Active => "all_smi_gpu_fp64_active_ratio"@,
            Family::Fp32Active => "all_smi_gpu_fp32_active_ratio"@,
            Family::Fp16Active => "all_smi_gpu_fp16_active_ratio"@,
            Family::IntegerActive => "all_smi_gpu_integer_active_ratio"@,
            Family::MemoryBandwidthUtilization => "all_smi_gpu_memory_bandwidth_utilization"@,
            Family::PcieTx => "all_smi_gpu_pcie_tx_bytes_per_second"@,
            Family::PcieRx => "all_smi_gpu_pcie_rx_bytes_per_second"@,
            Family::NvlinkTx => "all_smi_gpu_nvlink_tx_bytes_per_second"@,
            Family::NvlinkRx => "all_smi_gpu_nvlink_rx_bytes_per_second"@,
            Family::NvdecActive => "all_smi_gpu_nvdec_active_ratio"@,
            Family::NvjpgActive => "all_smi_gpu_nvjpg_active_ratio"@,
            Family::NvofaActive => "all_smi_gpu_nvofa_active_ratio"@,
            Family::HollowUtilization => "all_smi_gpu_hollow_utilization_ratio"@,
            Family::ThrottleReason => "all_smi_gpu_throttle_reason"@,
            Family::EnergyHw => "all_smi_gpu_energy_hw_millijoules_total"@,
            Family::RemappedRows => "all_smi_gpu_remapped_rows"@,
            Family::RemappingPending => "all_smi_gpu_remapping_pending"@,
            Family::RemappingFailed => "all_smi_gpu_remapping_failed"@,
            Family::NvlinkErrors => "all_smi_gpu_nvlink_errors_total"@,
            Family::UtilizationP50 => "all_smi_gpu_utilization_sample_p50"@,
            Family::UtilizationP95 => "all_smi_gpu_utilization_sample_p95"@,
            Family::UtilizationMax => "all_smi_gpu_utilization_sample_max"@,
            Family::XidEvents => "all_smi_gpu_xid_events_total"@,
        }
    }

    /// The help text of the metric.
    pub open spec fn help_text(self) -> Seq<char> {
        match self {
            Family::NumaNodeId => HELP_NUMA_NODE_ID@,
            Family::GspFirmwareMode => HELP_GSP_FIRMWARE_MODE@,
            Family::GspFirmwareVersion => HELP_GSP_FIRMWARE_VERSION@,
            Family::NvlinkRemoteDeviceType => HELP_NVLINK_REMOTE_DEVICE_TYPE@,
            Family::GraphicsActive => HELP_GRAPHICS_ACTIVE@,
            Family::SmActive => HELP_SM_ACTIVE@,
            Family::SmOccupancy => HELP_SM_OCCUPANCY@,
            Family::TensorActive => HELP_TENSOR_ACTIVE@,
            Family::TensorHmmaActive => HELP_TENSOR_HMMA_ACTIVE@,
            Family::TensorImmaActive => HELP_TENSOR_IMMA_ACTIVE@,
            Family::TensorDfmaActive => HELP_TENSOR_DFMA_ACTIVE@,
            Family::Fp64Active => HELP_FP64_ACTIVE@,
            Family::Fp32Active => HELP_FP32_ACTIVE@,
            Family::Fp16Active => HELP_FP16_ACTIVE@,
            Family::IntegerActive => HELP_INTEGER_ACTIVE@,
            Family::MemoryBandwidthUtilization => HELP_MEMORY_BANDWIDTH_UTILIZATION@,
            Family::PcieTx => HELP_PCIE_TX@,
            Family::PcieRx => HELP_PCIE_RX@,
            Family::NvlinkTx => HELP_NVLINK_TX@,
            Family::NvlinkRx => HELP_NVLINK_RX@,
            Family::NvdecActive => HELP_NVDEC_ACTIVE@,
            Family::NvjpgActive => HELP_NVJPG_ACTIVE@,
            Family::NvofaActive => HELP_NVOFA_ACTIVE@,
            Family::HollowUtilization => HELP_HOLLOW_UTILIZATION@,
            Family::ThrottleReason => HELP_THROTTLE_REASON@,
            Family::EnergyHw => HELP_ENERGY_HW@,
            Family::RemappedRows => HELP_REMAPPED_ROWS@,
            Family::RemappingPending => HELP_REMAPPING_PENDING@,
            Family::RemappingFailed => HELP_REMAPPING_FAILED@,
            Family::NvlinkErrors => HELP_NVLINK_ERRORS@,
            Family::UtilizationP50 => HELP_UTILIZATION_P50@,
            Family::UtilizationP95 => HELP_UTILIZATION_P95@,
            Family::UtilizationMax => HELP_UTILIZATION_MAX@,
            Family::XidEvents => HELP_XID_EVENTS@,
        }
    }

    /// Whether the metric is a counter; the others are gauges.
    pub open spec fn counts(self) -> bool {
        match self {
            Family::EnergyHw | Family::NvlinkErrors | Family::XidEvents => true,
            _ => false,
        }
    }

    /// The type of the metric.
    pub open spec fn kind_text(self) -> Seq<char> {
        if self.counts() {
            "counter"@
        } else {
            "gauge"@
        }
    }

    /// The `# HELP` and `# TYPE` lines of the metric.
    pub open spec fn header(self) -> Seq<char> {
        help_line(self.name_text(), self.help_text()) + type_line(
            self.name_text(),
            self.kind_text(),
        )
    }

    /// The name of the metric.
    pub fn name(self) -> (name: &'static str)
        ensures
            name@ == self.name_text(),
    {
        match self {
            Family::NumaNodeId => "all_smi_gpu_numa_node_id",
            Family::GspFirmwareMode => "all_smi_gpu_gsp_firmware_mode",
            Family::GspFirmwareVersion => "all_smi_gpu_gsp_firmware_version_info",
            Family::NvlinkRemoteDeviceType => "all_smi_nvlink_remote_device_type",
            Family::GraphicsActive => "all_smi_gpu_graphics_active_ratio",
            Family::SmActive => "all_smi_gpu_sm_active_ratio",
            Family::SmOccupancy => "all_smi_gpu_sm_occupancy",
            Family::TensorActive => "all_smi_gpu_tensor_active_ratio",
            Family::TensorHmmaActive => "all_smi_gpu_tensor_hmma_active_ratio",
            Family::TensorImmaActive => "all_smi_gpu_tensor_imma_active_ratio",
            Family::TensorDfmaActive => "all_smi_gpu_tensor_dfma_active_ratio",
            Family::Fp64Active => "all_smi_gpu_fp64_active_ratio",
            Family::Fp32Active => "all_smi_gpu_fp32_active_ratio",
            Family::Fp16Active => "all_smi_gpu_fp16_active_ratio",
            Family::IntegerActive => "all_smi_gpu_integer_active_ratio",
            Family::MemoryBandwidthUtilization => "all_smi_gpu_memory_bandwidth_utilization",
            Family::PcieTx => "all_smi_gpu_pcie_tx_bytes_per_second",
            Family::PcieRx => "all_smi_gpu_pcie_rx_bytes_per_second",
            Family::NvlinkTx => "all_smi_gpu_nvlink_tx_bytes_per_second",
            Family::NvlinkRx => "all_smi_gpu_nvlink_rx_bytes_per_second",
            Family::NvdecActive => "all_smi_gpu_nvdec_active_ratio",
            Family::NvjpgActive => "all_smi_gpu_nvjpg_active_ratio",
            Family::NvofaActive => "all_smi_gpu_nvofa_active_ratio",
            Family::HollowUtilization => "all_smi_gpu_hollow_utilization_ratio",
            Family::ThrottleReason => "all_smi_gpu_throttle_reason",
            Family::EnergyHw => "all_smi_gpu_energy_hw_millijoules_total",
            Family::RemappedRows => "all_smi_gpu_remapped_rows",
            Family::RemappingPending => "all_smi_gpu_remapping_pending",
            Family::RemappingFailed => "all_smi_gpu_remapping_failed",
            Family::NvlinkErrors => "all_smi_gpu_nvlink_errors_total",
            Family::UtilizationP50 => "all_smi_gpu_utilization_sample_p50",
            Family::UtilizationP95 => "all_smi_gpu_utilization_sample_p95",
            Family::UtilizationMax => "all_smi_gpu_utilization_sample_max",
            Family::XidEvents => "all_smi_gpu_xid_events_total",
        }
    }

    /// The help text of the metric.
    pub fn help(self) -> (help: &'static str)
        ensures
            help@ == self.help_text(),
    {
        match self {
            Family::NumaNodeId => HELP_NUMA_NODE_ID,
            Family::GspFirmwareMode => HELP_GSP_FIRMWARE_MODE,
            Family::GspFirmwareVersion => HELP_GSP_FIRMWARE_VERSION,
            Family::NvlinkRemoteDeviceType => HELP_NVLINK_REMOTE_DEVICE_TYPE,
            Family::GraphicsActive => HELP_GRAPHICS_ACTIVE,
            Family::SmActive => HELP_SM_ACTIVE,
            Family::SmOccupancy => HELP_SM_OCCUPANCY,
            Family::TensorActive => HELP_TENSOR_ACTIVE,
            Family::TensorHmmaActive => HELP_TENSOR_HMMA_ACTIVE,
            Family::TensorImmaActive => HELP_TENSOR_IMMA_ACTIVE,
            Family::TensorDfmaActive => HELP_TENSOR_DFMA_ACTIVE,
            Family::Fp64Active => HELP_FP64_ACTIVE,
            Family::Fp32Active => HELP_FP32_ACTIVE,
            Family::Fp16Active => HELP_FP16_ACTIVE,
            Family::IntegerActive => HELP_INTEGER_ACTIVE,
            Family::MemoryBandwidthUtilization => HELP_MEMORY_BANDWIDTH_UTILIZATION,
            Family::PcieTx => HELP_PCIE_TX,
            Family::PcieRx => HELP_PCIE_RX,
            Family::NvlinkTx => HELP_NVLINK_TX,
            Family::NvlinkRx => HELP_NVLINK_RX,
            Family::NvdecActive => HELP_NVDEC_ACTIVE,
            Family::NvjpgActive => HELP_NVJPG_ACTIVE,
            Family::NvofaActive => HELP_NVOFA_ACTIVE,
            Family::HollowUtilization => HELP_HOLLOW_UTILIZATION,
            Family::ThrottleReason => HELP_THROTTLE_REASON,
            Family::EnergyHw => HELP_ENERGY_HW,
            Family::RemappedRows => HELP_REMAPPED_ROWS,
            Family::RemappingPending => HELP_REMAPPING_PENDING,
            Family::RemappingFailed => HELP_REMAPPING_FAILED,
            Family::NvlinkErrors => HELP_NVLINK_ERRORS,
            Family::UtilizationP50 => HELP_UTILIZATION_P50,
            Family::UtilizationP95 => HELP_UTILIZATION_P95,
            Family::UtilizationMax => HELP_UTILIZATION_MAX,
            Family::XidEvents => HELP_XID_EVENTS,
        }
    }

    /// The type of the metric.
    pub fn kind(self) -> (kind: &'static str)
        ensures
            kind@ == self.kind_text(),
    {
        match self {
            Family::EnergyHw | Family::NvlinkErrors | Family::XidEvents => "counter",
            _ => "gauge",
        }
    }
}

/// Different families have different names.
pub proof fn law_names_are_distinct(a: Family, b: Family)
    requires
        a != b,
    ensures
        a.name_text() != b.name_text(),
{
    reveal_strlit("all_smi_gpu_numa_node_id");
    reveal_strlit("all_smi_gpu_gsp_firmware_mode");
    reveal_strlit("all_smi_gpu_gsp_firmware_version_info");
    reveal_strlit("all_smi_nvlink_remote_device_type");
    reveal_strlit("all_smi_gpu_graphics_active_ratio");
    reveal_strlit("all_smi_gpu_sm_active_ratio");
    reveal_strlit("all_smi_gpu_sm_occupancy");
    reveal_strlit("all_smi_gpu_tensor_active_ratio");
    reveal_strlit("all_smi_gpu_tensor_hmma_active_ratio");
    reveal_strlit("all_smi_gpu_tensor_imma_active_ratio");
    reveal_strlit("all_smi_gpu_tensor_dfma_active_ratio");
    reveal_strlit("all_smi_gpu_fp64_active_ratio");
    reveal_strlit("all_smi_gpu_fp32_active_ratio");
    reveal_strlit("all_smi_gpu_fp16_active_ratio");
    reveal_strlit("all_smi_gpu_integer_active_ratio");
    reveal_strlit("all_smi_gpu_memory_bandwidth_utilization");
    reveal_strlit("all_smi_gpu_pcie_tx_bytes_per_second");
    reveal_strlit("all_smi_gpu_pcie_rx_bytes_per_second");
    reveal_strlit("all_smi_gpu_nvlink_tx_bytes_per_second");
    reveal_strlit("all_smi_gpu_nvlink_rx_bytes_per_second");
    reveal_strlit("all_smi_gpu_nvdec_active_ratio");
    reveal_strlit("all_smi_gpu_nvjpg_active_ratio");
    reveal_strlit("all_smi_gpu_nvofa_active_ratio");
    reveal_strlit("all_smi_gpu_hollow_utilization_ratio");
    reveal_strlit("all_smi_gpu_throttle_reason");
    reveal_strlit("all_smi_gpu_energy_hw_millijoules_total");
    reveal_strlit("all_smi_gpu_remapped_rows");
    reveal_strlit("all_smi_gpu_remapping_pending");
    reveal_strlit("all_smi_gpu_remapping_failed");
    reveal_strlit("all_smi_gpu_nvlink_errors_total");
    reveal_strlit("all_smi_gpu_utilization_sample_p50");
    reveal_strlit("all_smi_gpu_utilization_sample_p95");
    reveal_strlit("all_smi_gpu_utilization_sample_max");
    reveal_strlit("all_smi_gpu_xid_events_total");
    // Names of the same length differ in one of these characters.
    let x = a.name_text();
    let y = b.name_text();
    assert(x.len() != y.len() || x[14] != y[14] || x[17] != y[17] || x[19] != y[19] || x[32]
        != y[32]);
}

/// Before the samples of a metric stand its help and its type: a counter for the
/// three metrics whose names end in `_total`, a gauge for all others.
pub proof fn law_headers_by_name(family: Family)
    ensures
        family.header() == "# HELP "@ + family.name_text() + " "@ + family.help_text() + "\n"@ + (
        "# TYPE "@ + family.name_text() + " "@ + (if family.name_text()
            == "all_smi_gpu_energy_hw_millijoules_total"@ || family.name_text()
            == "all_smi_gpu_nvlink_errors_total"@ || family.name_text()
            == "all_smi_gpu_xid_events_total"@ {
            "counter"@
        } else {
            "gauge"@
        }) + "\n"@),
{
    if family != Family::EnergyHw {
        law_names_are_distinct(family, Family::EnergyHw);
    }
    if family != Family::NvlinkErrors {
        law_names_are_distinct(family, Family::NvlinkErrors);
    }
    if family != Family::XidEvents {
        law_names_are_distinct(family, Family::XidEvents);
    }
}

/// Each metric is explained by the help text of its own name.
pub proof fn law_help_by_name(family: Family)
    ensures
        family.name_text() == "all_smi_gpu_numa_node_id"@ ==> family.help_text()
            == "NUMA node the GPU is attached to (metric is omitted when the host \
            has no NUMA topology or the driver does not report one)"@,
        family.name_text() == "all_smi_gpu_gsp_firmware_mode"@ ==> family.help_text()
            == "GSP firmware mode (0=disabled, 1=enabled, 2=default); omitted when \
            the driver does not expose the GSP firmware API"@,
        family.name_text() == "all_smi_gpu_gsp_firmware_version_info"@ ==> family.help_text()
            == "GSP firmware version, encoded as a constant 1 with the version in a \
            `version` label; omitted when unsupported"@,
        family.name_text() == "all_smi_nvlink_remote_device_type"@ ==> family.help_text()
            == "NvLink remote endpoint classification per active link. Value is \
            always 1; classification is carried in the `remote_type` label \
            (gpu / switch / ibmnpu / unknown). Optional `bandwidth_mb_s` label \
            carries the per-link bandwidth hint used by the topology tab's \
            NVn classifier (omitted when the driver does not report it)."@,
        family.name_text() == "all_smi_gpu_graphics_active_ratio"@ ==> family.help_text()
            == "Graphics engine active fraction (0.0-1.0); aligns with nvidia-smi GPU-Util"@,
        family.name_text() == "all_smi_gpu_sm_active_ratio"@ ==> family.help_text()
            == "SM active fraction (0.0-1.0); DCGM field 1002"@,
        family.name_text() == "all_smi_gpu_sm_occupancy"@ ==> family.help_text()
            == "GPM-reported SM occupancy fraction (0.0-1.0); omitted on devices \
            that do not support GPM (pre-Hopper)"@,
        family.name_text() == "all_smi_gpu_tensor_active_ratio"@ ==> family.help_text()
            == "Any tensor pipe active fraction (0.0-1.0); DCGM field 1004"@,
        family.name_text() == "all_smi_gpu_tensor_hmma_active_ratio"@ ==> family.help_text()
            == "HMMA tensor pipe active fraction (0.0-1.0)"@,
        family.name_text() == "all_smi_gpu_tensor_imma_active_ratio"@ ==> family.help_text()
            == "IMMA tensor pipe active fraction (0.0-1.0)"@,
        family.name_text() == "all_smi_gpu_tensor_dfma_active_ratio"@ ==> family.help_text()
            == "DFMA tensor pipe active fraction (0.0-1.0)"@,
        family.name_text() == "all_smi_gpu_fp64_active_ratio"@ ==> family.help_text()
            == "FP64 pipe active fraction (0.0-1.0); DCGM field 1006"@,
        family.name_text() == "all_smi_gpu_fp32_active_ratio"@ ==> family.help_text()
            == "FP32 pipe active fraction (0.0-1.0); DCGM field 1007"@,
        family.name_text() == "all_smi_gpu_fp16_active_ratio"@ ==> family.help_text()
            == "FP16 pipe active fraction (0.0-1.0); DCGM field 1008"@,
        family.name_text() == "all_smi_gpu_integer_active_ratio"@ ==> family.help_text()
            == "Integer pipe active fraction (0.0-1.0)"@,
        family.name_text() == "all_smi_gpu_memory_bandwidth_utilization"@ ==> family.help_text()
            == "GPM-reported memory bandwidth utilization fraction (0.0-1.0); \
            omitted on devices that do not support GPM (pre-Hopper)"@,
        family.name_text() == "all_smi_gpu_pcie_tx_bytes_per_second"@ ==> family.help_text()
            == "PCIe transmit throughput in bytes/sec; DCGM field 1009"@,
        family.name_text() == "all_smi_gpu_pcie_rx_bytes_per_second"@ ==> family.help_text()
            == "PCIe receive throughput in bytes/sec; DCGM field 1010"@,
        family.name_text() == "all_smi_gpu_nvlink_tx_bytes_per_second"@ ==> family.help_text()
            == "NVLink transmit throughput in bytes/sec (total); DCGM field 1011"@,
        family.name_text() == "all_smi_gpu_nvlink_rx_bytes_per_second"@ ==> family.help_text()
            == "NVLink receive throughput in bytes/sec (total); DCGM field 1012"@,
        family.name_text() == "all_smi_gpu_nvdec_active_ratio"@ ==> family.help_text()
            == "Mean NVDEC instance utilization (0.0-1.0)"@,
        family.name_text() == "all_smi_gpu_nvjpg_active_ratio"@ ==> family.help_text()
            == "Mean NVJPG instance utilization (0.0-1.0)"@,
        family.name_text() == "all_smi_gpu_nvofa_active_ratio"@ ==> family.help_text()
            == "Mean NVOFA instance utilization (0.0-1.0)"@,
        family.name_text() == "all_smi_gpu_hollow_utilization_ratio"@ ==> family.help_text()
            == "Hollow utilization: graphics_active - sm_active (clamped ≥ 0); \
            omitted when either input is unavailable"@,
        family.name_text() == "all_smi_gpu_throttle_reason"@ ==> family.help_text()
            == "Active NVML clock-throttle reason (1 when set)"@,
        family.name_text() == "all_smi_gpu_energy_hw_millijoules_total"@ ==> family.help_text()
            == "NVML hardware energy counter (millijoules since driver load); \
            distinct from software-integrated all_smi_energy_consumed_joules_total"@,
        family.name_text() == "all_smi_gpu_remapped_rows"@ ==> family.help_text()
            == "HBM remapped row counts by cause"@,
        family.name_text() == "all_smi_gpu_remapping_pending"@ ==> family.help_text()
            == "1 when row remapping is pending a reset"@,
        family.name_text() == "all_smi_gpu_remapping_failed"@ ==> family.help_text()
            == "1 when row remapping failed"@,
        family.name_text() == "all_smi_gpu_nvlink_errors_total"@ ==> family.help_text()
            == "NVLink error counters by link and type"@,
        family.name_text() == "all_smi_gpu_utilization_sample_p50"@ ==> family.help_text()
            == "p50 of recent NVML GpuUtilization samples (percent)"@,
        family.name_text() == "all_smi_gpu_utilization_sample_p95"@ ==> family.help_text()
            == "p95 of recent NVML GpuUtilization samples (percent)"@,
        family.name_text() == "all_smi_gpu_utilization_sample_max"@ ==> family.help_text()
            == "max of recent NVML GpuUtilization samples (percent)"@,
        family.name_text() == "all_smi_gpu_xid_events_total"@ ==> family.help_text()
            == "Cumulative XID / ECC events observed since process start"@,
{
    if family != Family::NumaNodeId {
        law_names_are_distinct(family, Family::NumaNodeId);
    }
    if family != Family::GspFirmwareMode {
        law_names_are_distinct(family, Family::GspFirmwareMode);
    }
    if family != Family::GspFirmwareVersion {
        law_names_are_distinct(family, Family::GspFirmwareVersion);
    }
    if family != Family::NvlinkRemoteDeviceType {
        law_names_are_distinct(family, Family::NvlinkRemoteDeviceType);
    }
    if family != Family::GraphicsActive {
        law_names_are_distinct(family, Family::GraphicsActive);
    }
    if family != Family::SmActive {
        law_names_are_distinct(family, Family::SmActive);
    }
    if family != Family::SmOccupancy {
        law_names_are_distinct(family, Family::SmOccupancy);
    }
    if family != Family::TensorActive {
        law_names_are_distinct(family, Family::TensorActive);
    }
    if family != Family::TensorHmmaActive {
        law_names_are_distinct(family, Family::TensorHmmaActive);
    }
    if family != Family::TensorImmaActive {
        law_names_are_distinct(family, Family::TensorImmaActive);
    }
    if family != Family::TensorDfmaActive {
        law_names_are_distinct(family, Family::TensorDfmaActive);
    }
    if family != Family::Fp64Active {
        law_names_are_distinct(family, Family::Fp64Active);
    }
    if family != Family::Fp32Active {
        law_names_are_distinct(family, Family::Fp32Active);
    }
    if family != Family::Fp16Active {
        law_names_are_distinct(family, Family::Fp16Active);
    }
    if family != Family::IntegerActive {
        law_names_are_distinct(family, Family::IntegerActive);
    }
    if family != Family::MemoryBandwidthUtilization {
        law_names_are_distinct(family, Family::MemoryBandwidthUtilization);
    }
    if family != Family::PcieTx {
        law_names_are_distinct(family, Family::PcieTx);
    }
    if family != Family::PcieRx {
        law_names_are_distinct(family, Family::PcieRx);
    }
    if family != Family::NvlinkTx {
        law_names_are_distinct(family, Family::NvlinkTx);
    }
    if family != Family::NvlinkRx {
        law_names_are_distinct(family, Family::NvlinkRx);
    }
    if family != Family::NvdecActive {
        law_names_are_distinct(family, Family::NvdecActive);
    }
    if family != Family::NvjpgActive {
        law_names_are_distinct(family, Family::NvjpgActive);
    }
    if family != Family::NvofaActive {
        law_names_are_distinct(family, Family::NvofaActive);
    }
    if family != Family::HollowUtilization {
        law_names_are_distinct(family, Family::HollowUtilization);
    }
    if family != Family::ThrottleReason {
        law_names_are_distinct(family, Family::ThrottleReason);
    }
    if family != Family::EnergyHw {
        law_names_are_distinct(family, Family::EnergyHw);
    }
    if family != Family::RemappedRows {
        law_names_are_distinct(family, Family::RemappedRows);
    }
    if family != Family::RemappingPending {
        law_names_are_distinct(family, Family::RemappingPending);
    }
    if family != Family::RemappingFailed {
        law_names_are_distinct(family, Family::RemappingFailed);
    }
    if family != Family::NvlinkErrors {
        law_names_are_distinct(family, Family::NvlinkErrors);
    }
    if family != Family::UtilizationP50 {
        law_names_are_distinct(family, Family::UtilizationP50);
    }
    if family != Family::UtilizationP95 {
        law_names_are_distinct(family, Family::UtilizationP95);
    }
    if family != Family::UtilizationMax {
        law_names_are_distinct(family, Family::UtilizationMax);
    }
    if family != Family::XidEvents {
        law_names_are_distinct(family, Family::XidEvents);
    }
}

} // verus!
