//! The telemetry records that collectors fill and the exporter publishes.
use crate::number::{Double, Single};
use crate::text_map::TextMap;
use std::collections::HashMap;
use vstd::prelude::*;

verus! {

/// Where a set of activity metrics was measured.
#[derive(Clone, Copy, Debug, PartialEq, Eq, Structural)]
pub enum TelemetrySource {
    /// NVML GPU performance monitoring.
    Gpm,
    /// Plain NVML queries.
    Nvml,
    /// The DCGM companion backend.
    Dcgm,
    /// The `dcgmi` command line tool.
    Dcgmi,
    /// The AMD companion backend.
    Amd,
}

impl TelemetrySource {
    /// The text of the `source` label.
    pub open spec fn label(self) -> Seq<char> {
        match self {
            TelemetrySource::Gpm => "gpm"@,
            TelemetrySource::Nvml => "nvml"@,
            TelemetrySource::Dcgm => "dcgm"@,
            TelemetrySource::Dcgmi => "dcgmi"@,
            TelemetrySource::Amd => "amd"@,
        }
    }

    /// The text of the `source` label.
    pub fn as_label(&self) -> (label: &'static str)
        ensures
            label@ == self.label(),
    {
        match self {
            TelemetrySource::Gpm => "gpm",
            TelemetrySource::Nvml => "nvml",
            TelemetrySource::Dcgm => "dcgm",
            TelemetrySource::Dcgmi => "dcgmi",
            TelemetrySource::Amd => "amd",
        }
    }
}

/// Activity metrics of one GPU. A field is `None` while nothing was measured:
/// absence is never published as zero.
#[derive(Debug, PartialEq, Eq)]
pub struct GpmMetrics {
    pub graphics_active: Option<Single>,
    pub sm_active: Option<Single>,
    pub sm_occupancy: Option<Single>,
    pub tensor_active: Option<Single>,
    pub tensor_hmma_active: Option<Single>,
    pub tensor_imma_active: Option<Single>,
    pub tensor_dfma_active: Option<Single>,
    pub fp64_active: Option<Single>,
    pub fp32_active: Option<Single>,
    pub fp16_active: Option<Single>,
    pub integer_active: Option<Single>,
    pub memory_bandwidth_utilization: Option<Single>,
    pub pcie_tx_bytes_per_sec: Option<Double>,
    pub pcie_rx_bytes_per_sec: Option<Double>,
    pub nvlink_tx_bytes_per_sec: Option<Double>,
    pub nvlink_rx_bytes_per_sec: Option<Double>,
    pub nvdec_active: Option<Single>,
    pub nvjpg_active: Option<Single>,
    pub nvofa_active: Option<Single>,
    pub source: Option<TelemetrySource>,
}

/// Metrics with nothing measured.
pub open spec fn unmeasured() -> GpmMetrics {
    GpmMetrics {
        graphics_active: None,
        sm_active: None,
        sm_occupancy: None,
        tensor_active: None,
        tensor_hmma_active: None,
        tensor_imma_active: None,
        tensor_dfma_active: None,
        fp64_active: None,
        fp32_active: None,
        fp16_active: None,
        integer_active: None,
        memory_bandwidth_utilization: None,
        pcie_tx_bytes_per_sec: None,
        pcie_rx_bytes_per_sec: None,
        nvlink_tx_bytes_per_sec: None,
        nvlink_rx_bytes_per_sec: None,
        nvdec_active: None,
        nvjpg_active: None,
        nvofa_active: None,
        source: None,
    }
}

impl Default for GpmMetrics {
    fn default() -> (metrics: Self)
        ensures
            metrics == unmeasured(),
    {
        GpmMetrics {
            graphics_active: None,
            sm_active: None,
            sm_occupancy: None,
            tensor_active: None,
            tensor_hmma_active: None,
            tensor_imma_active: None,
            tensor_dfma_active: None,
            fp64_active: None,
            fp32_active: None,
            fp16_active: None,
            integer_active: None,
            memory_bandwidth_utilization: None,
            pcie_tx_bytes_per_sec: None,
            pcie_rx_bytes_per_sec: None,
            nvlink_tx_bytes_per_sec: None,
            nvlink_rx_bytes_per_sec: None,
            nvdec_active: None,
            nvjpg_active: None,
            nvofa_active: None,
            source: None,
        }
    }
}

/// What sits at the far end of an NvLink.
#[derive(Clone, Copy, Debug, PartialEq, Eq, Structural)]
pub enum NvLinkRemoteType {
    Gpu,
    Switch,
    IbmNpu,
    Unknown,
}

impl NvLinkRemoteType {
    /// The text of the `remote_type` label.
    pub open spec fn label(self) -> Seq<char> {
        match self {
            NvLinkRemoteType::Gpu => "gpu"@,
            NvLinkRemoteType::Switch => "switch"@,
            NvLinkRemoteType::IbmNpu => "ibmnpu"@,
            NvLinkRemoteType::Unknown => "unknown"@,
        }
    }

    /// The text of the `remote_type` label.
    pub fn as_label(&self) -> (label: &'static str)
        ensures
            label@ == self.label(),
    {
        match self {
            NvLinkRemoteType::Gpu => "gpu",
            NvLinkRemoteType::Switch => "switch",
            NvLinkRemoteType::IbmNpu => "ibmnpu",
            NvLinkRemoteType::Unknown => "unknown",
        }
    }
}

/// One active NvLink and its remote endpoint.
#[derive(Clone, Copy, Debug, PartialEq, Eq)]
pub struct NvLinkRemoteDevice {
    pub link_index: u32,
    pub remote_type: NvLinkRemoteType,
    pub bandwidth_mb_s: Option<u32>,
}

/// One error counter of one NvLink.
#[derive(Debug, PartialEq, Eq)]
pub struct NvLinkErrorCount {
    pub link_index: u32,
    pub error_type: String,
    pub count: u64,
}

/// Row-remapping state of the HBM.
#[derive(Clone, Copy, Debug, PartialEq, Eq, Structural)]
pub struct RemappedRowsInfo {
    pub correctable: u32,
    pub uncorrectable: u32,
    pub pending: bool,
    pub failed: bool,
}

/// No row remapped, nothing pending, nothing failed.
pub open spec fn no_remapped_rows() -> RemappedRowsInfo {
    RemappedRowsInfo { correctable: 0, uncorrectable: 0, pending: false, failed: false }
}

impl Default for RemappedRowsInfo {
    fn default() -> (info: Self)
        ensures
            info == no_remapped_rows(),
    {
        RemappedRowsInfo { correctable: 0, uncorrectable: 0, pending: false, failed: false }
    }
}

/// One reading of the GPU utilization, in percent.
#[derive(Debug, PartialEq, Eq)]
pub struct UtilizationSample {
    pub timestamp_us: u64,
    pub value: Single,
}

/// The clock-throttle reasons that are active.
#[derive(Clone, Copy, Debug, PartialEq, Eq, Structural)]
pub struct ThrottleReasons {
    pub gpu_idle: bool,
    pub app_clocks: bool,
    pub sw_power_cap: bool,
    pub hw_slowdown: bool,
    pub sync_boost: bool,
    pub sw_thermal: bool,
    pub hw_thermal: bool,
    pub hw_power_brake: bool,
    pub display_clocks: bool,
}

/// No reason active.
pub open spec fn no_throttle() -> ThrottleReasons {
    ThrottleReasons {
        gpu_idle: false,
        app_clocks: false,
        sw_power_cap: false,
        hw_slowdown: false,
        sync_boost: false,
        sw_thermal: false,
        hw_thermal: false,
        hw_power_brake: false,
        display_clocks: false,
    }
}

impl Default for ThrottleReasons {
    fn default() -> (reasons: Self)
        ensures
            reasons == no_throttle(),
    {
        ThrottleReasons {
            gpu_idle: false,
            app_clocks: false,
            sw_power_cap: false,
            hw_slowdown: false,
            sync_boost: false,
            sw_thermal: false,
            hw_thermal: false,
            hw_power_brake: false,
            display_clocks: false,
        }
    }
}

/// The sequence of `label` alone when the flag is set, the empty one otherwise.
pub open spec fn flagged(flag: bool, label: Seq<char>) -> Seq<Seq<char>> {
    if flag {
        seq![label]
    } else {
        seq![]
    }
}

/// One for a set flag, zero otherwise.
spec fn count(flag: bool) -> nat {
    if flag {
        1
    } else {
        0
    }
}

/// The texts of a sequence of strings.
pub open spec fn texts(strings: Seq<&'static str>) -> Seq<Seq<char>> {
    strings.map_values(|s: &'static str| s@)
}

impl ThrottleReasons {
    /// The labels of the active reasons, in the order of the fields.
    pub open spec fn labels(self) -> Seq<Seq<char>> {
        flagged(self.gpu_idle, "gpu_idle"@) + flagged(self.app_clocks, "app_clocks"@) + flagged(
            self.sw_power_cap,
            "sw_power_cap"@,
        ) + flagged(self.hw_slowdown, "hw_slowdown"@) + flagged(self.sync_boost, "sync_boost"@)
            + flagged(self.sw_thermal, "sw_thermal"@) + flagged(self.hw_thermal, "hw_thermal"@)
            + flagged(self.hw_power_brake, "hw_power_brake"@) + flagged(
            self.display_clocks,
            "display_clocks"@,
        )
    }

    /// There are as many labels as active reasons.
    proof fn lemma_label_count(self)
        ensures
            self.labels().len() == count(self.gpu_idle) + count(self.app_clocks) + count(
                self.sw_power_cap,
            ) + count(self.hw_slowdown) + count(self.sync_boost) + count(self.sw_thermal) + count(
                self.hw_thermal,
            ) + count(self.hw_power_brake) + count(self.display_clocks),
    {
        assert(forall|flag: bool, label: Seq<char>|
            #![trigger flagged(flag, label)]
            flagged(flag, label).len() == count(flag));
    }

    /// The labels of the active reasons, in the order of the fields.
    pub fn active_labels(&self) -> (labels: Vec<&'static str>)
        ensures
            texts(labels@) == self.labels(),
    {
        let mut labels: Vec<&'static str> = Vec::new();
        push_flagged(&mut labels, self.gpu_idle, "gpu_idle");
        push_flagged(&mut labels, self.app_clocks, "app_clocks");
        push_flagged(&mut labels, self.sw_power_cap, "sw_power_cap");
        push_flagged(&mut labels, self.hw_slowdown, "hw_slowdown");
        push_flagged(&mut labels, self.sync_boost, "sync_boost");
        push_flagged(&mut labels, self.sw_thermal, "sw_thermal");
        push_flagged(&mut labels, self.hw_thermal, "hw_thermal");
        push_flagged(&mut labels, self.hw_power_brake, "hw_power_brake");
        push_flagged(&mut labels, self.display_clocks, "display_clocks");
        labels
    }

    /// Whether any reason is active.
    pub fn is_throttled(&self) -> (throttled: bool)
        ensures
            throttled == (self.labels().len() > 0),
            throttled == (*self != no_throttle()),
            throttled <==> self.gpu_idle || self.app_clocks || self.sw_power_cap
                || self.hw_slowdown || self.sync_boost || self.sw_thermal || self.hw_thermal
                || self.hw_power_brake || self.display_clocks,
    {
        proof {
            self.lemma_label_count();
        }
        self.gpu_idle || self.app_clocks || self.sw_power_cap || self.hw_slowdown
            || self.sync_boost || self.sw_thermal || self.hw_thermal || self.hw_power_brake
            || self.display_clocks
    }
}

/// Appends `label` when the flag is set.
fn push_flagged(labels: &mut Vec<&'static str>, flag: bool, label: &'static str)
    ensures
        texts(final(labels)@) == texts(old(labels)@) + flagged(flag, label@),
{
    if flag {
        labels.push(label);
    }
    assert(texts(labels@) =~= texts(old(labels)@) + flagged(flag, label@));
}

/// What is known of one GPU. Every `None` and every empty collection stands for
/// "unavailable".
pub struct GpuInfo {
    pub uuid: String,
    pub name: String,
    pub instance: String,
    pub numa_node_id: Option<i32>,
    pub gsp_firmware_mode: Option<u8>,
    pub gsp_firmware_version: Option<String>,
    pub nvlink_remote_devices: Vec<NvLinkRemoteDevice>,
    pub gpm_metrics: Option<GpmMetrics>,
    pub throttle_reasons: Option<ThrottleReasons>,
    pub energy_hw_millijoules: Option<u64>,
    pub remapped_rows: Option<RemappedRowsInfo>,
    pub nvlink_errors: Vec<NvLinkErrorCount>,
    pub utilization_samples: Option<Vec<UtilizationSample>>,
    pub xid_event_counts: HashMap<u32, u64>,
    pub detail: TextMap<String>,
}

/// The list of a flag holds its label exactly when the flag is set.
proof fn lemma_flagged(flag: bool, name: Seq<char>, label: Seq<char>)
    ensures
        flagged(flag, name).contains(label) <==> flag && label == name,
{
    if flag {
        assert(flagged(flag, name)[0] == name);
    }
}

/// A label of a joined list is one of either part.
proof fn lemma_joined_labels(a: Seq<Seq<char>>, b: Seq<Seq<char>>, label: Seq<char>)
    ensures
        (a + b).contains(label) <==> a.contains(label) || b.contains(label),
{
    if a.contains(label) {
        let i = choose|i: int| 0 <= i < a.len() && a[i] == label;
        assert((a + b)[i] == label);
    }
    if b.contains(label) {
        let i = choose|i: int| 0 <= i < b.len() && b[i] == label;
        assert((a + b)[a.len() + i] == label);
    }
    if (a + b).contains(label) {
        let i = choose|i: int| 0 <= i < (a + b).len() && (a + b)[i] == label;
        if i < a.len() {
            assert(a[i] == label);
        } else {
            assert(b[i - a.len()] == label);
        }
    }
}

/// The labels are the names of the flags that are set, and no others.
pub proof fn law_labels_name_the_active_reasons(reasons: ThrottleReasons, label: Seq<char>)
    ensures
        reasons.labels().contains(label) <==> (reasons.gpu_idle && label == "gpu_idle"@)
            || (reasons.app_clocks && label == "app_clocks"@) || (reasons.sw_power_cap
            && label == "sw_power_cap"@) || (reasons.hw_slowdown && label == "hw_slowdown"@)
            || (reasons.sync_boost && label == "sync_boost"@) || (reasons.sw_thermal
            && label == "sw_thermal"@) || (reasons.hw_thermal && label == "hw_thermal"@)
            || (reasons.hw_power_brake && label == "hw_power_brake"@)
            || (reasons.display_clocks && label == "display_clocks"@),
{
    lemma_flagged(reasons.gpu_idle, "gpu_idle"@, label);
    let sofar = flagged(reasons.gpu_idle, "gpu_idle"@);
    lemma_flagged(reasons.app_clocks, "app_clocks"@, label);
    let rest = flagged(reasons.app_clocks, "app_clocks"@);
    lemma_joined_labels(sofar, rest, label);
    let sofar = sofar + rest;
    lemma_flagged(reasons.sw_power_cap, "sw_power_cap"@, label);
    let rest = flagged(reasons.sw_power_cap, "sw_power_cap"@);
    lemma_joined_labels(sofar, rest, label);
    let sofar = sofar + rest;
    lemma_flagged(reasons.hw_slowdown, "hw_slowdown"@, label);
    let rest = flagged(reasons.hw_slowdown, "hw_slowdown"@);
    lemma_joined_labels(sofar, rest, label);
    let sofar = sofar + rest;
    lemma_flagged(reasons.sync_boost, "sync_boost"@, label);
    let rest = flagged(reasons.sync_boost, "sync_boost"@);
    lemma_joined_labels(sofar, rest, label);
    let sofar = sofar + rest;
    lemma_flagged(reasons.sw_thermal, "sw_thermal"@, label);
    let rest = flagged(reasons.sw_thermal, "sw_thermal"@);
    lemma_joined_labels(sofar, rest, label);
    let sofar = sofar + rest;
    lemma_flagged(reasons.hw_thermal, "hw_thermal"@, label);
    let rest = flagged(reasons.hw_thermal, "hw_thermal"@);
    lemma_joined_labels(sofar, rest, label);
    let sofar = sofar + rest;
    lemma_flagged(reasons.hw_power_brake, "hw_power_brake"@, label);
    let rest = flagged(reasons.hw_power_brake, "hw_power_brake"@);
    lemma_joined_labels(sofar, rest, label);
    let sofar = sofar + rest;
    lemma_flagged(reasons.display_clocks, "display_clocks"@, label);
    let rest = flagged(reasons.display_clocks, "display_clocks"@);
    lemma_joined_labels(sofar, rest, label);
    let sofar = sofar + rest;
    assert(sofar == reasons.labels());
}

/// The labels stand in the order of the fields: the last active reason adds its label at
/// the end of those of the others, and without any there are no labels.
pub proof fn law_labels_stand_in_order(reasons: ThrottleReasons)
    ensures
        no_throttle().labels().len() == 0,
        reasons.gpu_idle && !reasons.app_clocks && !reasons.sw_power_cap
            && !reasons.hw_slowdown && !reasons.sync_boost && !reasons.sw_thermal
            && !reasons.hw_thermal && !reasons.hw_power_brake && !reasons.display_clocks
            ==> reasons.labels() == (ThrottleReasons {
            gpu_idle: false,
            ..reasons
        }).labels().push("gpu_idle"@),
        reasons.app_clocks && !reasons.sw_power_cap && !reasons.hw_slowdown
            && !reasons.sync_boost && !reasons.sw_thermal && !reasons.hw_thermal
            && !reasons.hw_power_brake && !reasons.display_clocks
            ==> reasons.labels() == (ThrottleReasons {
            app_clocks: false,
            ..reasons
        }).labels().push("app_clocks"@),
        reasons.sw_power_cap && !reasons.hw_slowdown && !reasons.sync_boost
            && !reasons.sw_thermal && !reasons.hw_thermal && !reasons.hw_power_brake
            && !reasons.display_clocks ==> reasons.labels() == (ThrottleReasons {
            sw_power_cap: false,
            ..reasons
        }).labels().push("sw_power_cap"@),
        reasons.hw_slowdown && !reasons.sync_boost && !reasons.sw_thermal
            && !reasons.hw_thermal && !reasons.hw_power_brake && !reasons.display_clocks
            ==> reasons.labels() == (ThrottleReasons {
            hw_slowdown: false,
            ..reasons
        }).labels().push("hw_slowdown"@),
        reasons.sync_boost && !reasons.sw_thermal && !reasons.hw_thermal
            && !reasons.hw_power_brake && !reasons.display_clocks
            ==> reasons.labels() == (ThrottleReasons {
            sync_boost: false,
            ..reasons
        }).labels().push("sync_boost"@),
        reasons.sw_thermal && !reasons.hw_thermal && !reasons.hw_power_brake
            && !reasons.display_clocks ==> reasons.labels() == (ThrottleReasons {
            sw_thermal: false,
            ..reasons
        }).labels().push("sw_thermal"@),
        reasons.hw_thermal && !reasons.hw_power_brake && !reasons.display_clocks
            ==> reasons.labels() == (ThrottleReasons {
            hw_thermal: false,
            ..reasons
        }).labels().push("hw_thermal"@),
        reasons.hw_power_brake && !reasons.display_clocks ==> reasons.labels() == (ThrottleReasons {
            hw_power_brake: false,
            ..reasons
        }).labels().push("hw_power_brake"@),
        reasons.display_clocks ==> reasons.labels() == (ThrottleReasons {
            display_clocks: false,
            ..reasons
        }).labels().push("display_clocks"@),
{
    if reasons.gpu_idle && !reasons.app_clocks && !reasons.sw_power_cap && !reasons.hw_slowdown
        && !reasons.sync_boost && !reasons.sw_thermal && !reasons.hw_thermal
        && !reasons.hw_power_brake && !reasons.display_clocks {
        let others = ThrottleReasons { gpu_idle: false, ..reasons };
        assert(reasons.labels() =~= others.labels().push("gpu_idle"@));
    }
    if reasons.app_clocks && !reasons.sw_power_cap && !reasons.hw_slowdown
        && !reasons.sync_boost && !reasons.sw_thermal && !reasons.hw_thermal
        && !reasons.hw_power_brake && !reasons.display_clocks {
        let others = ThrottleReasons { app_clocks: false, ..reasons };
        assert(reasons.labels() =~= others.labels().push("app_clocks"@));
    }
    if reasons.sw_power_cap && !reasons.hw_slowdown && !reasons.sync_boost
        && !reasons.sw_thermal && !reasons.hw_thermal && !reasons.hw_power_brake
        && !reasons.display_clocks {
        let others = ThrottleReasons { sw_power_cap: false, ..reasons };
        assert(reasons.labels() =~= others.labels().push("sw_power_cap"@));
    }
    if reasons.hw_slowdown && !reasons.sync_boost && !reasons.sw_thermal && !reasons.hw_thermal
        && !reasons.hw_power_brake && !reasons.display_clocks {
        let others = ThrottleReasons { hw_slowdown: false, ..reasons };
        assert(reasons.labels() =~= others.labels().push("hw_slowdown"@));
    }
    if reasons.sync_boost && !reasons.sw_thermal && !reasons.hw_thermal
        && !reasons.hw_power_brake && !reasons.display_clocks {
        let others = ThrottleReasons { sync_boost: false, ..reasons };
        assert(reasons.labels() =~= others.labels().push("sync_boost"@));
    }
    if reasons.sw_thermal && !reasons.hw_thermal && !reasons.hw_power_brake
        && !reasons.display_clocks {
        let others = ThrottleReasons { sw_thermal: false, ..reasons };
        assert(reasons.labels() =~= others.labels().push("sw_thermal"@));
    }
    if reasons.hw_thermal && !reasons.hw_power_brake && !reasons.display_clocks {
        let others = ThrottleReasons { hw_thermal: false, ..reasons };
        assert(reasons.labels() =~= others.labels().push("hw_thermal"@));
    }
    if reasons.hw_power_brake && !reasons.display_clocks {
        let others = ThrottleReasons { hw_power_brake: false, ..reasons };
        assert(reasons.labels() =~= others.labels().push("hw_power_brake"@));
    }
    if reasons.display_clocks {
        let others = ThrottleReasons { display_clocks: false, ..reasons };
        assert(reasons.labels() =~= others.labels().push("display_clocks"@));
    }
}

/// What is unmeasured has no value, no reason is active by default, and no row is
/// remapped.
pub proof fn law_defaults_claim_nothing()
    ensures
        ({
            let metrics = unmeasured();
            &&& metrics.graphics_active is None && metrics.sm_active is None
            &&& metrics.sm_occupancy is None && metrics.tensor_active is None
            &&& metrics.tensor_hmma_active is None && metrics.tensor_imma_active is None
            &&& metrics.tensor_dfma_active is None && metrics.fp64_active is None
            &&& metrics.fp32_active is None && metrics.fp16_active is None
            &&& metrics.integer_active is None && metrics.memory_bandwidth_utilization is None
            &&& metrics.pcie_tx_bytes_per_sec is None && metrics.pcie_rx_bytes_per_sec is None
            &&& metrics.nvlink_tx_bytes_per_sec is None && metrics.nvlink_rx_bytes_per_sec is None
            &&& metrics.nvdec_active is None && metrics.nvjpg_active is None
            &&& metrics.nvofa_active is None && metrics.source is None
        }),
        ({
            let reasons = no_throttle();
            &&& !reasons.gpu_idle && !reasons.app_clocks && !reasons.sw_power_cap
            &&& !reasons.hw_slowdown && !reasons.sync_boost && !reasons.sw_thermal
            &&& !reasons.hw_thermal && !reasons.hw_power_brake && !reasons.display_clocks
        }),
        ({
            let rows = no_remapped_rows();
            rows.correctable == 0 && rows.uncorrectable == 0 && !rows.pending && !rows.failed
        }),
{
}

/// There are no more labels than reasons.
pub proof fn law_labels_are_few(reasons: ThrottleReasons)
    ensures
        reasons.labels().len() <= 9,
{
    reasons.lemma_label_count();
}

} // verus!
