//! Prometheus exporter for the NVIDIA hardware-detail metrics.
//!
//! Every sample carries the standard GPU labels (`gpu`, `instance`, `gpu_uuid`,
//! `gpu_index`). What was not measured is not published: absence means
//! "unknown" and is never written as zero. A host without any hardware detail
//! gets an empty exposition.
//!
//! Metrics:
//!
//! * `all_smi_gpu_numa_node_id`: NUMA node the GPU is attached to.
//! * `all_smi_gpu_gsp_firmware_mode`: `0=disabled`, `1=enabled`, `2=default`.
//! * `all_smi_gpu_gsp_firmware_version_info`: constant 1, the version in a
//!   `version` label.
//! * `all_smi_nvlink_remote_device_type`: constant 1 for each active NvLink,
//!   with `link_index` and `remote_type` labels.
//! * the activity family, each sample with a `source` label.
//! * throttle reasons, the hardware energy counter, remapped rows, NvLink
//!   errors, summaries of the utilization samples and XID events.
use crate::exposition::{exposition, flat, lemma_flat_next, ExpositionWriter, MetricLine};
use crate::families::Family;
use crate::metrics::{label_views, Label};
use crate::number::{single_is_nan, single_nan, Double, Single};
use crate::order::{ascending, in_order, lemma_in_order, lemma_set_order_exists, place, Item};
use crate::sample_summary::{
    max_place, percentile_rank, sample_max, sample_of_rank, sample_percentile,
};
use crate::text::{decimal, i32_text, signed_decimal, u64_text};
use crate::types::{texts, GpmMetrics, GpuInfo, NvLinkRemoteDevice, TelemetrySource};
use std::collections::HashMap;
use vstd::prelude::*;

verus! {

/// Event codes with their counts, as items to order by code.
pub open spec fn coded(counts: Map<u32, u64>) -> Set<Item> {
    Set::new(
        |item: Item|
            0 <= item.0 <= u32::MAX && counts.contains_key(item.0 as u32) && counts[item.0 as u32]
                == item.1,
    )
}

/// The event codes with their counts can be put in order.
pub proof fn lemma_counts_ordered(counts: Map<u32, u64>)
    requires
        counts.dom().finite(),
    ensures
        ascending(in_order(coded(counts))),
        in_order(coded(counts)).to_set() == coded(counts),
{
    let item_of = |code: u32| (code as i64, counts[code]);
    counts.dom().lemma_map_finite(item_of);
    assert forall|item: Item| coded(counts).contains(item) == counts.dom().map(item_of).contains(
        item,
    ) by {
        if coded(counts).contains(item) {
            assert(item == item_of(item.0 as u32));
        }
    }
    assert(coded(counts) =~= counts.dom().map(item_of));
    lemma_set_order_exists(coded(counts));
}

/// The items of the first `n` pairs of a walk through a map.
spec fn walked(pairs: Seq<(&u32, &u64)>, n: int) -> Set<Item> {
    Set::new(
        |item: Item|
            exists|j: int|
                0 <= j < n && item.0 == *(#[trigger] pairs[j]).0 && item.1 == *pairs[j].1,
    )
}

/// The event codes with their counts, in ascending order of the codes.
fn ordered_counts(counts: &HashMap<u32, u64>) -> (list: Vec<Item>)
    ensures
        list@ == in_order(coded(counts@)),
        forall|i: int| 0 <= i < list@.len() ==> 0 <= (#[trigger] list@[i]).0 <= u32::MAX,
{
    broadcast use vstd::std_specs::hash::group_hash_axioms;

    let mut list: Vec<Item> = Vec::new();
    proof {
        assert(
            list@.to_set() =~= walked(
                vstd::std_specs::iter::IteratorSpec::remaining(&counts.iter()),
                0,
            )
        );
    }
    for (code, count) in iter: counts.iter()
        invariant
            iter.seq() == vstd::std_specs::iter::IteratorSpec::remaining(&counts.iter()),
            iter.seq().no_duplicates(),
            ascending(list@),
            list@.to_set() == walked(iter.seq(), iter.index()),
    {
        let item: Item = (*code as i64, *count);
        proof {
            let pairs = iter.seq();
            let n = iter.index();
            if list@.contains(item) {
                assert(list@.to_set().contains(item));
                let j = choose|j: int|
                    0 <= j < n && item.0 == *(#[trigger] pairs[j]).0 && item.1 == *pairs[j].1;
                assert(pairs[j] == pairs[n]);
            }
            assert(walked(pairs, n + 1) =~= walked(pairs, n).insert(item)) by {
                assert(pairs[n] == (code, count));
            }
        }
        place(&mut list, item);
    }
    proof {
        let pairs = vstd::std_specs::iter::IteratorSpec::remaining(&counts.iter());
        assert forall|item: Item| list@.to_set().contains(item)
            == coded(counts@).contains(item) by {
            if coded(counts@).contains(item) {
                let code = item.0 as u32;
                assert(pairs.contains((&code, &counts@[code])));
                let j = choose|j: int| 0 <= j < pairs.len() && pairs[j] == (&code, &counts@[code]);
                assert(item.0 == *pairs[j].0 && item.1 == *pairs[j].1);
            }
            if list@.to_set().contains(item) {
                let j = choose|j: int|
                    0 <= j < pairs.len() && item.0 == *(#[trigger] pairs[j]).0 && item.1
                        == *pairs[j].1;
                assert(counts@.contains_key(*pairs[j].0));
            }
        }
        assert(list@.to_set() =~= coded(counts@));
        lemma_in_order(list@);
        assert forall|i: int| 0 <= i < list@.len() implies 0 <= (#[trigger] list@[i]).0
            <= u32::MAX by {
            assert(list@.to_set().contains(list@[i]));
        }
    }
    list
}

/// A GPU as the exporter sees it: what is known of it, the difference of its
/// graphics and SM activity, and its place in the list.
pub struct Entry {
    pub gpu: GpuInfo,
    pub gap: Option<Single>,
    pub index: nat,
}

/// The activity difference at place `i`, when there is one.
pub open spec fn gap_at(gaps: Seq<Option<Single>>, i: int) -> Option<Single> {
    if 0 <= i < gaps.len() {
        gaps[i]
    } else {
        None
    }
}

/// Whether both the graphics and the SM activity of a GPU are known.
pub open spec fn both_active(gpu: GpuInfo) -> bool {
    gpu.gpm_metrics matches Some(metrics) && metrics.graphics_active is Some && metrics.sm_active
        is Some
}

/// Whether the activity difference is there for every GPU that has one.
pub open spec fn gaps_given(gpus: Seq<GpuInfo>, gaps: Seq<Option<Single>>) -> bool {
    forall|i: int|
        0 <= i < gpus.len() && both_active(#[trigger] gpus[i]) ==> gap_at(gaps, i) is Some
}

/// All GPUs with their places.
pub open spec fn entries(gpus: Seq<GpuInfo>, gaps: Seq<Option<Single>>) -> Seq<Entry> {
    Seq::new(
        gpus.len(),
        |i: int| Entry { gpu: gpus[i], gap: gap_at(gaps, i), index: i as nat },
    )
}

/// The labels that every sample of a GPU begins with.
pub open spec fn base(entry: Entry) -> Seq<Label> {
    seq![
        ("gpu"@, entry.gpu.name@),
        ("instance"@, entry.gpu.instance@),
        ("gpu_uuid"@, entry.gpu.uuid@),
        ("gpu_index"@, decimal(entry.index)),
    ]
}

/// A sample.
pub open spec fn line(family: Family, labels: Seq<Label>, value: Seq<char>) -> MetricLine {
    MetricLine { family, labels, value }
}

/// The NUMA node of a GPU.
pub open spec fn numa_lines(entry: Entry) -> Seq<MetricLine> {
    match entry.gpu.numa_node_id {
        Some(node) => seq![line(Family::NumaNodeId, base(entry), signed_decimal(node as int))],
        None => seq![],
    }
}

/// The GSP firmware mode of a GPU.
pub open spec fn gsp_mode_lines(entry: Entry) -> Seq<MetricLine> {
    match entry.gpu.gsp_firmware_mode {
        Some(mode) => seq![line(Family::GspFirmwareMode, base(entry), decimal(mode as nat))],
        None => seq![],
    }
}

/// The GSP firmware version of a GPU.
pub open spec fn gsp_version_lines(entry: Entry) -> Seq<MetricLine> {
    match entry.gpu.gsp_firmware_version {
        Some(version) => seq![
            line(
                Family::GspFirmwareVersion,
                base(entry).push(("version"@, version@)),
                "1"@,
            ),
        ],
        None => seq![],
    }
}

/// The labels of an active NvLink.
pub open spec fn link_labels(entry: Entry, link: NvLinkRemoteDevice) -> Seq<Label> {
    let labels = base(entry).push(("link_index"@, decimal(link.link_index as nat))).push(
        ("remote_type"@, link.remote_type.label()),
    );
    match link.bandwidth_mb_s {
        Some(bandwidth) => labels.push(("bandwidth_mb_s"@, decimal(bandwidth as nat))),
        None => labels,
    }
}

/// The active NvLinks of a GPU.
pub open spec fn nvlink_lines(entry: Entry) -> Seq<MetricLine> {
    Seq::new(
        entry.gpu.nvlink_remote_devices@.len(),
        |k: int|
            line(
                Family::NvlinkRemoteDeviceType,
                link_labels(entry, entry.gpu.nvlink_remote_devices@[k]),
                "1"@,
            ),
    )
}

/// The families of the activity metrics, in the order they are written.
pub open spec fn gpm_families() -> Seq<Family> {
    seq![
        Family::GraphicsActive,
        Family::SmActive,
        Family::SmOccupancy,
        Family::TensorActive,
        Family::TensorHmmaActive,
        Family::TensorImmaActive,
        Family::TensorDfmaActive,
        Family::Fp64Active,
        Family::Fp32Active,
        Family::Fp16Active,
        Family::IntegerActive,
        Family::MemoryBandwidthUtilization,
        Family::PcieTx,
        Family::PcieRx,
        Family::NvlinkTx,
        Family::NvlinkRx,
        Family::NvdecActive,
        Family::NvjpgActive,
        Family::NvofaActive,
        Family::HollowUtilization,
    ]
}

/// The text of a ratio.
pub open spec fn single_text(value: Option<Single>) -> Option<Seq<char>> {
    match value {
        Some(value) => Some(value.text@),
        None => None,
    }
}

/// The text of a rate.
pub open spec fn double_text(value: Option<Double>) -> Option<Seq<char>> {
    match value {
        Some(value) => Some(value.text@),
        None => None,
    }
}

/// The hollow utilization: the difference of graphics and SM activity, zero
/// where it is negative, and absent unless both were measured.
pub open spec fn hollow_text(metrics: GpmMetrics, gap: Option<Single>) -> Option<Seq<char>> {
    if metrics.graphics_active is Some && metrics.sm_active is Some && gap is Some {
        let gap = gap->0;
        if single_is_nan(gap.bits) || gap.bits >= 0x8000_0000u32 {
            Some("0"@)
        } else {
            Some(gap.text@)
        }
    } else {
        None
    }
}

/// The text of the value that a family takes from the activity metrics.
pub open spec fn gpm_text(
    family: Family,
    metrics: GpmMetrics,
    gap: Option<Single>,
) -> Option<Seq<char>> {
    match family {
        Family::GraphicsActive => single_text(metrics.graphics_active),
        Family::SmActive => single_text(metrics.sm_active),
        Family::SmOccupancy => single_text(metrics.sm_occupancy),
        Family::TensorActive => single_text(metrics.tensor_active),
        Family::TensorHmmaActive => single_text(metrics.tensor_hmma_active),
        Family::TensorImmaActive => single_text(metrics.tensor_imma_active),
        Family::TensorDfmaActive => single_text(metrics.tensor_dfma_active),
        Family::Fp64Active => single_text(metrics.fp64_active),
        Family::Fp32Active => single_text(metrics.fp32_active),
        Family::Fp16Active => single_text(metrics.fp16_active),
        Family::IntegerActive => single_text(metrics.integer_active),
        Family::MemoryBandwidthUtilization => single_text(metrics.memory_bandwidth_utilization),
        Family::PcieTx => double_text(metrics.pcie_tx_bytes_per_sec),
        Family::PcieRx => double_text(metrics.pcie_rx_bytes_per_sec),
        Family::NvlinkTx => double_text(metrics.nvlink_tx_bytes_per_sec),
        Family::NvlinkRx => double_text(metrics.nvlink_rx_bytes_per_sec),
        Family::NvdecActive => single_text(metrics.nvdec_active),
        Family::NvjpgActive => single_text(metrics.nvjpg_active),
        Family::NvofaActive => single_text(metrics.nvofa_active),
        Family::HollowUtilization => hollow_text(metrics, gap),
        _ => None,
    }
}

/// The `source` label of activity metrics: NVML GPM unless they say otherwise.
pub open spec fn source_text(metrics: GpmMetrics) -> Seq<char> {
    match metrics.source {
        Some(source) => source.label(),
        None => TelemetrySource::Gpm.label(),
    }
}

/// The sample of one activity family of a GPU.
pub open spec fn gpm_lines(entry: Entry, family: Family) -> Seq<MetricLine> {
    match entry.gpu.gpm_metrics {
        Some(metrics) => match gpm_text(family, metrics, entry.gap) {
            Some(text) => seq![
                line(family, base(entry).push(("source"@, source_text(metrics))), text),
            ],
            None => seq![],
        },
        None => seq![],
    }
}

/// Samples with the given throttle reasons.
pub open spec fn reason_lines(entry: Entry, reasons: Seq<Seq<char>>) -> Seq<MetricLine> {
    Seq::new(
        reasons.len(),
        |k: int|
            line(Family::ThrottleReason, base(entry).push(("reason"@, reasons[k])), "1"@),
    )
}

/// The active throttle reasons of a GPU.
pub open spec fn throttle_lines(entry: Entry) -> Seq<MetricLine> {
    match entry.gpu.throttle_reasons {
        Some(reasons) => reason_lines(entry, reasons.labels()),
        None => seq![],
    }
}

/// The hardware energy counter of a GPU.
pub open spec fn energy_lines(entry: Entry) -> Seq<MetricLine> {
    match entry.gpu.energy_hw_millijoules {
        Some(energy) => seq![line(Family::EnergyHw, base(entry), decimal(energy as nat))],
        None => seq![],
    }
}

/// One for a set flag, zero otherwise.
pub open spec fn flag_text(flag: bool) -> Seq<char> {
    if flag {
        "1"@
    } else {
        "0"@
    }
}

/// The row-remapping state of a GPU.
pub open spec fn remapped_lines(entry: Entry) -> Seq<MetricLine> {
    match entry.gpu.remapped_rows {
        Some(remap) => seq![
            line(
                Family::RemappedRows,
                base(entry).push(("cause"@, "correctable"@)),
                decimal(remap.correctable as nat),
            ),
            line(
                Family::RemappedRows,
                base(entry).push(("cause"@, "uncorrectable"@)),
                decimal(remap.uncorrectable as nat),
            ),
            line(Family::RemappingPending, base(entry), flag_text(remap.pending)),
            line(Family::RemappingFailed, base(entry), flag_text(remap.failed)),
        ],
        None => seq![],
    }
}

/// The NvLink error counters of a GPU.
pub open spec fn nvlink_error_lines(entry: Entry) -> Seq<MetricLine> {
    Seq::new(
        entry.gpu.nvlink_errors@.len(),
        |k: int|
            line(
                Family::NvlinkErrors,
                base(entry).push(
                    ("link"@, decimal(entry.gpu.nvlink_errors@[k].link_index as nat)),
                ).push(("type"@, entry.gpu.nvlink_errors@[k].error_type@)),
                decimal(entry.gpu.nvlink_errors@[k].count as nat),
            ),
    )
}

/// Bit pattern of the single-precision number 50.
pub const FIFTY: u32 = 0x4248_0000;

/// Bit pattern of the single-precision number 95.
pub const NINETY_FIVE: u32 = 0x42BE_0000;

/// The summaries of the utilization samples of a GPU.
pub open spec fn utilization_lines(entry: Entry) -> Seq<MetricLine> {
    match entry.gpu.utilization_samples {
        Some(samples) => if samples@.len() == 0 {
            seq![]
        } else {
            seq![
                line(
                    Family::UtilizationP50,
                    base(entry),
                    sample_of_rank(
                        samples@,
                        percentile_rank(FIFTY, samples@.len()),
                    ).value.text@,
                ),
                line(
                    Family::UtilizationP95,
                    base(entry),
                    sample_of_rank(
                        samples@,
                        percentile_rank(NINETY_FIVE, samples@.len()),
                    ).value.text@,
                ),
                line(
                    Family::UtilizationMax,
                    base(entry),
                    samples@[max_place(samples@)].value.text@,
                ),
            ]
        },
        None => seq![],
    }
}

/// The XID event counts of a GPU, in ascending order of the event codes.
pub open spec fn xid_lines(entry: Entry) -> Seq<MetricLine> {
    let counts = in_order(coded(entry.gpu.xid_event_counts@));
    Seq::new(
        counts.len(),
        |k: int|
            line(
                Family::XidEvents,
                base(entry).push(("xid"@, decimal(counts[k].0 as nat))),
                decimal(counts[k].1 as nat),
            ),
    )
}

/// The samples of all activity families.
pub open spec fn all_gpm_lines(all: Seq<Entry>) -> Seq<MetricLine> {
    flat(gpm_families(), |family: Family| flat(all, |entry: Entry| gpm_lines(entry, family)))
}

/// The samples of the hardware-detail exposition.
pub open spec fn hardware_lines(all: Seq<Entry>) -> Seq<MetricLine> {
    flat(all, |entry: Entry| numa_lines(entry))
        + flat(all, |entry: Entry| gsp_mode_lines(entry))
        + flat(all, |entry: Entry| gsp_version_lines(entry))
        + flat(all, |entry: Entry| nvlink_lines(entry))
        + all_gpm_lines(all)
        + flat(all, |entry: Entry| throttle_lines(entry))
        + flat(all, |entry: Entry| energy_lines(entry))
        + flat(all, |entry: Entry| remapped_lines(entry))
        + flat(all, |entry: Entry| nvlink_error_lines(entry))
        + flat(all, |entry: Entry| utilization_lines(entry))
        + flat(all, |entry: Entry| xid_lines(entry))
}

/// Whether a GPU has at least one hardware-detail field populated.
pub open spec fn detailed(gpu: GpuInfo) -> bool {
    ||| gpu.numa_node_id is Some
    ||| gpu.gsp_firmware_mode is Some
    ||| gpu.gsp_firmware_version is Some
    ||| gpu.nvlink_remote_devices@.len() > 0
    ||| gpu.gpm_metrics is Some
    ||| gpu.throttle_reasons is Some
    ||| gpu.energy_hw_millijoules is Some
    ||| gpu.remapped_rows is Some
    ||| gpu.nvlink_errors@.len() > 0
    ||| (gpu.utilization_samples matches Some(samples) && samples@.len() > 0)
    ||| !gpu.xid_event_counts@.is_empty()
}

/// Whether a GPU has at least one hardware-detail field populated. Rows of other
/// vendors have none, and are skipped at once.
fn has_any_hw_detail(gpu: &GpuInfo) -> (any: bool)
    ensures
        any == detailed(*gpu),
{
    let sampled: bool = match &gpu.utilization_samples {
        Some(samples) => samples.len() > 0,
        None => false,
    };
    gpu.numa_node_id.is_some() || gpu.gsp_firmware_mode.is_some()
        || gpu.gsp_firmware_version.is_some() || gpu.nvlink_remote_devices.len() > 0
        || gpu.gpm_metrics.is_some() || gpu.throttle_reasons.is_some()
        || gpu.energy_hw_millijoules.is_some() || gpu.remapped_rows.is_some()
        || gpu.nvlink_errors.len() > 0 || sampled || !gpu.xid_event_counts.is_empty()
}

/// Whether a GPU contributes at least one sample.
pub open spec fn contributes(entry: Entry) -> bool {
    ||| numa_lines(entry).len() > 0
    ||| gsp_mode_lines(entry).len() > 0
    ||| gsp_version_lines(entry).len() > 0
    ||| nvlink_lines(entry).len() > 0
    ||| exists|family: Family| (#[trigger] gpm_lines(entry, family)).len() > 0
    ||| throttle_lines(entry).len() > 0
    ||| energy_lines(entry).len() > 0
    ||| remapped_lines(entry).len() > 0
    ||| nvlink_error_lines(entry).len() > 0
    ||| utilization_lines(entry).len() > 0
    ||| xid_lines(entry).len() > 0
}

/// Whether at least one activity was measured.
pub open spec fn measures(metrics: GpmMetrics) -> bool {
    ||| metrics.graphics_active is Some
    ||| metrics.sm_active is Some
    ||| metrics.sm_occupancy is Some
    ||| metrics.tensor_active is Some
    ||| metrics.tensor_hmma_active is Some
    ||| metrics.tensor_imma_active is Some
    ||| metrics.tensor_dfma_active is Some
    ||| metrics.fp64_active is Some
    ||| metrics.fp32_active is Some
    ||| metrics.fp16_active is Some
    ||| metrics.integer_active is Some
    ||| metrics.memory_bandwidth_utilization is Some
    ||| metrics.pcie_tx_bytes_per_sec is Some
    ||| metrics.pcie_rx_bytes_per_sec is Some
    ||| metrics.nvlink_tx_bytes_per_sec is Some
    ||| metrics.nvlink_rx_bytes_per_sec is Some
    ||| metrics.nvdec_active is Some
    ||| metrics.nvjpg_active is Some
    ||| metrics.nvofa_active is Some
}

/// Whether a GPU has something to publish: activity metrics count only with an
/// activity that was measured, and throttle reasons only with an active one.
pub open spec fn publishes(gpu: GpuInfo) -> bool {
    ||| gpu.numa_node_id is Some
    ||| gpu.gsp_firmware_mode is Some
    ||| gpu.gsp_firmware_version is Some
    ||| gpu.nvlink_remote_devices@.len() > 0
    ||| (gpu.gpm_metrics matches Some(metrics) && measures(metrics))
    ||| (gpu.throttle_reasons matches Some(reasons) && reasons.labels().len() > 0)
    ||| gpu.energy_hw_millijoules is Some
    ||| gpu.remapped_rows is Some
    ||| gpu.nvlink_errors@.len() > 0
    ||| (gpu.utilization_samples matches Some(samples) && samples@.len() > 0)
    ||| !gpu.xid_event_counts@.is_empty()
}

/// Decides [`measures`].
fn measures_any(metrics: &GpmMetrics) -> (any: bool)
    ensures
        any == measures(*metrics),
{
    metrics.graphics_active.is_some() || metrics.sm_active.is_some()
        || metrics.sm_occupancy.is_some() || metrics.tensor_active.is_some()
        || metrics.tensor_hmma_active.is_some() || metrics.tensor_imma_active.is_some()
        || metrics.tensor_dfma_active.is_some() || metrics.fp64_active.is_some()
        || metrics.fp32_active.is_some() || metrics.fp16_active.is_some()
        || metrics.integer_active.is_some() || metrics.memory_bandwidth_utilization.is_some()
        || metrics.pcie_tx_bytes_per_sec.is_some() || metrics.pcie_rx_bytes_per_sec.is_some()
        || metrics.nvlink_tx_bytes_per_sec.is_some() || metrics.nvlink_rx_bytes_per_sec.is_some()
        || metrics.nvdec_active.is_some() || metrics.nvjpg_active.is_some()
        || metrics.nvofa_active.is_some()
}

/// Decides [`publishes`].
fn publishes_any(gpu: &GpuInfo) -> (any: bool)
    ensures
        any == publishes(*gpu),
{
    if !has_any_hw_detail(gpu) {
        return false;
    }
    let measured: bool = match &gpu.gpm_metrics {
        Some(metrics) => measures_any(metrics),
        None => false,
    };
    let throttled: bool = match &gpu.throttle_reasons {
        Some(reasons) => reasons.is_throttled(),
        None => false,
    };
    let sampled: bool = match &gpu.utilization_samples {
        Some(samples) => samples.len() > 0,
        None => false,
    };
    gpu.numa_node_id.is_some() || gpu.gsp_firmware_mode.is_some()
        || gpu.gsp_firmware_version.is_some() || gpu.nvlink_remote_devices.len() > 0 || measured
        || throttled || gpu.energy_hw_millijoules.is_some() || gpu.remapped_rows.is_some()
        || gpu.nvlink_errors.len() > 0 || sampled || !gpu.xid_event_counts.is_empty()
}

/// The GPUs that contribute at least one sample.
pub open spec fn kept(all: Seq<Entry>) -> Seq<Entry> {
    all.filter(|entry: Entry| contributes(entry))
}

/// Leaving out GPUs that have no samples of a kind leaves the samples as they
/// are.
proof fn lemma_kept(all: Seq<Entry>, f: spec_fn(Entry) -> Seq<MetricLine>)
    requires
        forall|entry: Entry| !contributes(entry) ==> (#[trigger] f(entry)).len() == 0,
    ensures
        flat(kept(all), f) == flat(all, f),
    decreases all.len(),
{
    reveal(Seq::filter);
    if all.len() > 0 {
        let earlier = all.drop_last();
        let last = all.last();
        lemma_kept(earlier, f);
        if contributes(last) {
            assert(kept(all) =~= kept(earlier).push(last));
            assert(kept(all).drop_last() =~= kept(earlier));
        } else {
            assert(kept(all) =~= kept(earlier));
            assert(f(last).len() == 0);
            assert(flat(all, f) =~= flat(earlier, f));
        }
    }
}

/// There are XID samples exactly when there are XID counts.
pub proof fn lemma_counts_published(entry: Entry)
    ensures
        xid_lines(entry).len() > 0 <==> !entry.gpu.xid_event_counts@.is_empty(),
{
    let counts = entry.gpu.xid_event_counts@;
    vstd::std_specs::hash::axiom_hashmap_view_finite_dom(entry.gpu.xid_event_counts);
    lemma_counts_ordered(counts);
    let list = in_order(coded(counts));
    if !counts.is_empty() {
        let code = choose|code: u32| counts.contains_key(code);
        assert(counts.contains_key(code));
        assert(coded(counts).contains((code as i64, counts[code])));
        assert(list.to_set().contains((code as i64, counts[code])));
    }
    if list.len() > 0 {
        assert(list.to_set().contains(list[0]));
        assert(coded(counts).contains(list[0]));
    }
}

/// A GPU contributes a sample exactly when it has something to publish. Activity
/// metrics without a measured activity, and throttle reasons without an active
/// one, contribute nothing.
pub proof fn law_contributes_what_it_publishes(entry: Entry)
    ensures
        contributes(entry) <==> publishes(entry.gpu),
{
    lemma_counts_published(entry);
    if let Some(metrics) = entry.gpu.gpm_metrics {
        if metrics.graphics_active is Some {
            assert(gpm_lines(entry, Family::GraphicsActive).len() > 0);
        } else if metrics.sm_active is Some {
            assert(gpm_lines(entry, Family::SmActive).len() > 0);
        } else if metrics.sm_occupancy is Some {
            assert(gpm_lines(entry, Family::SmOccupancy).len() > 0);
        } else if metrics.tensor_active is Some {
            assert(gpm_lines(entry, Family::TensorActive).len() > 0);
        } else if metrics.tensor_hmma_active is Some {
            assert(gpm_lines(entry, Family::TensorHmmaActive).len() > 0);
        } else if metrics.tensor_imma_active is Some {
            assert(gpm_lines(entry, Family::TensorImmaActive).len() > 0);
        } else if metrics.tensor_dfma_active is Some {
            assert(gpm_lines(entry, Family::TensorDfmaActive).len() > 0);
        } else if metrics.fp64_active is Some {
            assert(gpm_lines(entry, Family::Fp64Active).len() > 0);
        } else if metrics.fp32_active is Some {
            assert(gpm_lines(entry, Family::Fp32Active).len() > 0);
        } else if metrics.fp16_active is Some {
            assert(gpm_lines(entry, Family::Fp16Active).len() > 0);
        } else if metrics.integer_active is Some {
            assert(gpm_lines(entry, Family::IntegerActive).len() > 0);
        } else if metrics.memory_bandwidth_utilization is Some {
            assert(gpm_lines(entry, Family::MemoryBandwidthUtilization).len() > 0);
        } else if metrics.pcie_tx_bytes_per_sec is Some {
            assert(gpm_lines(entry, Family::PcieTx).len() > 0);
        } else if metrics.pcie_rx_bytes_per_sec is Some {
            assert(gpm_lines(entry, Family::PcieRx).len() > 0);
        } else if metrics.nvlink_tx_bytes_per_sec is Some {
            assert(gpm_lines(entry, Family::NvlinkTx).len() > 0);
        } else if metrics.nvlink_rx_bytes_per_sec is Some {
            assert(gpm_lines(entry, Family::NvlinkRx).len() > 0);
        } else if metrics.nvdec_active is Some {
            assert(gpm_lines(entry, Family::NvdecActive).len() > 0);
        } else if metrics.nvjpg_active is Some {
            assert(gpm_lines(entry, Family::NvjpgActive).len() > 0);
        } else if metrics.nvofa_active is Some {
            assert(gpm_lines(entry, Family::NvofaActive).len() > 0);
        }
    }
}

/// A GPU without any hardware detail contributes no sample.
pub proof fn law_silent_without_detail(entry: Entry)
    requires
        !detailed(entry.gpu),
    ensures
        !contributes(entry),
{
    law_contributes_what_it_publishes(entry);
}

/// Leaving out the GPUs that contribute no sample leaves the samples as they
/// are.
proof fn lemma_hardware_lines_kept(all: Seq<Entry>)
    ensures
        hardware_lines(kept(all)) == hardware_lines(all),
{
    lemma_kept(all, |entry: Entry| numa_lines(entry));
    lemma_kept(all, |entry: Entry| gsp_mode_lines(entry));
    lemma_kept(all, |entry: Entry| gsp_version_lines(entry));
    lemma_kept(all, |entry: Entry| nvlink_lines(entry));
    lemma_kept(all, |entry: Entry| throttle_lines(entry));
    lemma_kept(all, |entry: Entry| energy_lines(entry));
    lemma_kept(all, |entry: Entry| remapped_lines(entry));
    lemma_kept(all, |entry: Entry| nvlink_error_lines(entry));
    lemma_kept(all, |entry: Entry| utilization_lines(entry));
    lemma_kept(all, |entry: Entry| xid_lines(entry));
    let f = |family: Family| flat(all, |entry: Entry| gpm_lines(entry, family));
    let g = |family: Family| flat(kept(all), |entry: Entry| gpm_lines(entry, family));
    assert forall|family: Family| #[trigger] f(family) == g(family) by {
        lemma_kept(all, |entry: Entry| gpm_lines(entry, family));
    }
    assert(f =~= g);
}

/// Without GPUs there are no samples.
proof fn lemma_no_hardware_lines()
    ensures
        hardware_lines(seq![]) == Seq::<MetricLine>::empty(),
{
    let none = Seq::<Entry>::empty();
    lemma_all_empty(
        gpm_families(),
        |family: Family| flat(none, |entry: Entry| gpm_lines(entry, family)),
    );
}

/// Items without samples make no samples.
proof fn lemma_all_empty<T>(items: Seq<T>, f: spec_fn(T) -> Seq<MetricLine>)
    requires
        forall|i: int| 0 <= i < items.len() ==> f(#[trigger] items[i]).len() == 0,
    ensures
        flat(items, f) == Seq::<MetricLine>::empty(),
    decreases items.len(),
{
    if items.len() > 0 {
        assert(f(items[items.len() - 1]).len() == 0);
        assert forall|i: int| 0 <= i < items.drop_last().len() implies f(
            #[trigger] items.drop_last()[i],
        ).len() == 0 by {
            assert(f(items[i]).len() == 0);
        }
        lemma_all_empty(items.drop_last(), f);
    }
}

/// The value behind an optional reference.
pub open spec fn opened(value: Option<&Single>) -> Option<Single> {
    match value {
        Some(value) => Some(*value),
        None => None,
    }
}

/// The text of a ratio.
fn single_str(value: &Option<Single>) -> (text: Option<&str>)
    ensures
        text is Some <==> single_text(*value) is Some,
        text matches Some(text) ==> Some(text@) == single_text(*value),
{
    match value {
        Some(value) => Some(value.text.as_str()),
        None => None,
    }
}

/// The text of a rate.
fn double_str(value: &Option<Double>) -> (text: Option<&str>)
    ensures
        text is Some <==> double_text(*value) is Some,
        text matches Some(text) ==> Some(text@) == double_text(*value),
{
    match value {
        Some(value) => Some(value.text.as_str()),
        None => None,
    }
}

/// One for a set flag, zero otherwise.
fn flag_str(flag: bool) -> (text: &'static str)
    ensures
        text@ == flag_text(flag),
{
    if flag {
        "1"
    } else {
        "0"
    }
}

/// The families of the activity metrics.
fn gpm_family_list() -> (families: Vec<Family>)
    ensures
        families@ == gpm_families(),
{
    let families = vec![
        Family::GraphicsActive,
        Family::SmActive,
        Family::SmOccupancy,
        Family::TensorActive,
        Family::TensorHmmaActive,
        Family::TensorImmaActive,
        Family::TensorDfmaActive,
        Family::Fp64Active,
        Family::Fp32Active,
        Family::Fp16Active,
        Family::IntegerActive,
        Family::MemoryBandwidthUtilization,
        Family::PcieTx,
        Family::PcieRx,
        Family::NvlinkTx,
        Family::NvlinkRx,
        Family::NvdecActive,
        Family::NvjpgActive,
        Family::NvofaActive,
        Family::HollowUtilization,
    ];
    assert(families@ =~= gpm_families());
    families
}

/// The hardware-detail exporter of a list of GPUs.
pub struct HardwareMetricExporter<'a> {
    /// The GPUs.
    pub gpu_info: &'a [GpuInfo],
    /// `activity_gaps[i]` is `graphics_active - sm_active` of `gpu_info[i]`, and is
    /// there whenever both are known.
    pub activity_gaps: &'a [Option<Single>],
}

/// A GPU to write, with the text of its place.
struct Row<'a> {
    gpu: &'a GpuInfo,
    gap: Option<&'a Single>,
    index: usize,
    index_str: String,
}

impl<'a> Row<'a> {
    /// What the row stands for.
    spec fn entry(self) -> Entry {
        Entry {
            gpu: *self.gpu,
            gap: match self.gap {
                Some(gap) => Some(*gap),
                None => None,
            },
            index: self.index as nat,
        }
    }

    /// The text is that of the place.
    spec fn well_formed(self) -> bool {
        self.index_str@ == decimal(self.index as nat)
    }
}

/// What the rows stand for.
spec fn row_entries(rows: Seq<Row<'_>>) -> Seq<Entry> {
    rows.map_values(|row: Row<'_>| row.entry())
}

/// Every row has the text of its place.
spec fn rows_formed(rows: Seq<Row<'_>>) -> bool {
    forall|i: int| 0 <= i < rows.len() ==> (#[trigger] rows[i]).well_formed()
}

impl<'a> HardwareMetricExporter<'a> {
    /// An exporter of the given GPUs.
    pub fn new(gpu_info: &'a [GpuInfo], activity_gaps: &'a [Option<Single>]) -> (exporter: Self)
        ensures
            exporter.gpu_info == gpu_info,
            exporter.activity_gaps == activity_gaps,
    {
        HardwareMetricExporter { gpu_info, activity_gaps }
    }

    /// The GPUs that contribute at least one hardware-detail row, each with the
    /// text of its place, which is made once for all its samples.
    fn collect_rows(&self) -> (rows: Vec<Row<'a>>)
        ensures
            rows_formed(rows@),
            row_entries(rows@) == kept(entries(self.gpu_info@, self.activity_gaps@)),
    {
        let mut rows: Vec<Row<'a>> = Vec::new();
        let ghost all = entries(self.gpu_info@, self.activity_gaps@);
        let mut i: usize = 0;
        proof {
            reveal(Seq::filter);
            assert(row_entries(rows@) =~= kept(all.take(0)));
        }
        while i < self.gpu_info.len()
            invariant
                i <= self.gpu_info@.len(),
                all == entries(self.gpu_info@, self.activity_gaps@),
                rows_formed(rows@),
                row_entries(rows@) == kept(all.take(i as int)),
            decreases self.gpu_info@.len() - i,
        {
            let gpu: &'a GpuInfo = &self.gpu_info[i];
            let ghost earlier = rows@;
            proof {
                reveal(Seq::filter);
                assert(all.take(i + 1).drop_last() =~= all.take(i as int));
            }
            proof {
                law_contributes_what_it_publishes(all[i as int]);
            }
            if publishes_any(gpu) {
                let gap: Option<&'a Single> = if i < self.activity_gaps.len() {
                    self.activity_gaps[i].as_ref()
                } else {
                    None
                };
                rows.push(Row { gpu, gap, index: i, index_str: u64_text(i as u64) });
                assert(row_entries(rows@) =~= row_entries(earlier).push(all[i as int]));
            }
            i += 1;
        }
        assert(all.take(i as int) =~= all);
        rows
    }

    /// The labels that every sample of the row begins with.
    fn base_labels<'b>(row: &'b Row<'a>) -> (labels: Vec<(&'b str, &'b str)>)
        requires
            row.well_formed(),
        ensures
            label_views(labels@) == base(row.entry()),
    {
        let mut labels: Vec<(&'b str, &'b str)> = Vec::new();
        labels.push(("gpu", row.gpu.name.as_str()));
        labels.push(("instance", row.gpu.instance.as_str()));
        labels.push(("gpu_uuid", row.gpu.uuid.as_str()));
        labels.push(("gpu_index", row.index_str.as_str()));
        assert(label_views(labels@) =~= base(row.entry()));
        labels
    }

    /// Writes the NUMA nodes.
    fn export_numa_node_id(writer: &mut ExpositionWriter, rows: &Vec<Row<'a>>)
        requires
            old(writer).well_formed(),
            rows_formed(rows@),
        ensures
            final(writer).well_formed(),
            final(writer).lines() == old(writer).lines() + flat(
                row_entries(rows@),
                |entry: Entry| numa_lines(entry),
            ),
    {
        let ghost start = writer.lines();
        let ghost all = row_entries(rows@);
        let ghost f = |entry: Entry| numa_lines(entry);
        let mut i: usize = 0;
        assert(writer.lines() =~= start + flat(all.take(0), f));
        while i < rows.len()
            invariant
                i <= rows@.len(),
                rows_formed(rows@),
                all == row_entries(rows@),
                f == (|entry: Entry| numa_lines(entry)),
                writer.well_formed(),
                writer.lines() == start + flat(all.take(i as int), f),
            decreases rows@.len() - i,
        {
            let row = &rows[i];
            let ghost entry = row.entry();
            let ghost earlier = writer.lines();
            proof {
                assert(entry == all[i as int]);
                lemma_flat_next(all, f, i as int);
            }
            if let Some(node_id) = row.gpu.numa_node_id {
                let labels = Self::base_labels(row);
                writer.sample(Family::NumaNodeId, labels.as_slice(), i32_text(node_id).as_str());
            }
            assert(writer.lines() =~= earlier + numa_lines(entry));
            i += 1;
        }
        assert(all.take(i as int) =~= all);
    }

    /// Writes the GSP firmware modes.
    fn export_gsp_firmware_mode(writer: &mut ExpositionWriter, rows: &Vec<Row<'a>>)
        requires
            old(writer).well_formed(),
            rows_formed(rows@),
        ensures
            final(writer).well_formed(),
            final(writer).lines() == old(writer).lines() + flat(
                row_entries(rows@),
                |entry: Entry| gsp_mode_lines(entry),
            ),
    {
        let ghost start = writer.lines();
        let ghost all = row_entries(rows@);
        let ghost f = |entry: Entry| gsp_mode_lines(entry);
        let mut i: usize = 0;
        assert(writer.lines() =~= start + flat(all.take(0), f));
        while i < rows.len()
            invariant
                i <= rows@.len(),
                rows_formed(rows@),
                all == row_entries(rows@),
                f == (|entry: Entry| gsp_mode_lines(entry)),
                writer.well_formed(),
                writer.lines() == start + flat(all.take(i as int), f),
            decreases rows@.len() - i,
        {
            let row = &rows[i];
            let ghost entry = row.entry();
            let ghost earlier = writer.lines();
            proof {
                assert(entry == all[i as int]);
                lemma_flat_next(all, f, i as int);
            }
            if let Some(mode) = row.gpu.gsp_firmware_mode {
                let labels = Self::base_labels(row);
                writer.sample(
                    Family::GspFirmwareMode,
                    labels.as_slice(),
                    u64_text(mode as u64).as_str(),
                );
            }
            assert(writer.lines() =~= earlier + gsp_mode_lines(entry));
            i += 1;
        }
        assert(all.take(i as int) =~= all);
    }

    /// Writes the GSP firmware versions.
    fn export_gsp_firmware_version(writer: &mut ExpositionWriter, rows: &Vec<Row<'a>>)
        requires
            old(writer).well_formed(),
            rows_formed(rows@),
        ensures
            final(writer).well_formed(),
            final(writer).lines() == old(writer).lines() + flat(
                row_entries(rows@),
                |entry: Entry| gsp_version_lines(entry),
            ),
    {
        let ghost start = writer.lines();
        let ghost all = row_entries(rows@);
        let ghost f = |entry: Entry| gsp_version_lines(entry);
        let mut i: usize = 0;
        assert(writer.lines() =~= start + flat(all.take(0), f));
        while i < rows.len()
            invariant
                i <= rows@.len(),
                rows_formed(rows@),
                all == row_entries(rows@),
                f == (|entry: Entry| gsp_version_lines(entry)),
                writer.well_formed(),
                writer.lines() == start + flat(all.take(i as int), f),
            decreases rows@.len() - i,
        {
            let row = &rows[i];
            let ghost entry = row.entry();
            let ghost earlier = writer.lines();
            proof {
                assert(entry == all[i as int]);
                lemma_flat_next(all, f, i as int);
            }
            if let Some(version) = &row.gpu.gsp_firmware_version {
                let mut labels = Self::base_labels(row);
                labels.push(("version", version.as_str()));
                assert(label_views(labels@) =~= base(entry).push(("version"@, version@)));
                writer.sample(Family::GspFirmwareVersion, labels.as_slice(), "1");
            }
            assert(writer.lines() =~= earlier + gsp_version_lines(entry));
            i += 1;
        }
        assert(all.take(i as int) =~= all);
    }

    /// Writes the active NvLinks.
    fn export_nvlink_remote_device_type(writer: &mut ExpositionWriter, rows: &Vec<Row<'a>>)
        requires
            old(writer).well_formed(),
            rows_formed(rows@),
        ensures
            final(writer).well_formed(),
            final(writer).lines() == old(writer).lines() + flat(
                row_entries(rows@),
                |entry: Entry| nvlink_lines(entry),
            ),
    {
        let ghost start = writer.lines();
        let ghost all = row_entries(rows@);
        let ghost f = |entry: Entry| nvlink_lines(entry);
        let mut i: usize = 0;
        assert(writer.lines() =~= start + flat(all.take(0), f));
        while i < rows.len()
            invariant
                i <= rows@.len(),
                rows_formed(rows@),
                all == row_entries(rows@),
                f == (|entry: Entry| nvlink_lines(entry)),
                writer.well_formed(),
                writer.lines() == start + flat(all.take(i as int), f),
            decreases rows@.len() - i,
        {
            let row = &rows[i];
            let ghost entry = row.entry();
            let ghost earlier = writer.lines();
            proof {
                assert(entry == all[i as int]);
                lemma_flat_next(all, f, i as int);
            }
            let links = &row.gpu.nvlink_remote_devices;
            let mut k: usize = 0;
            while k < links.len()
                invariant
                    k <= links@.len(),
                    row.well_formed(),
                    entry == row.entry(),
                    links@ == entry.gpu.nvlink_remote_devices@,
                    writer.well_formed(),
                    writer.lines() == earlier + nvlink_lines(entry).take(k as int),
                decreases links@.len() - k,
            {
                let link = &links[k];
                let index = u64_text(link.link_index as u64);
                let mut labels = Self::base_labels(row);
                labels.push(("link_index", index.as_str()));
                labels.push(("remote_type", link.remote_type.as_label()));
                match link.bandwidth_mb_s {
                    Some(bandwidth) => {
                        let bandwidth_text = u64_text(bandwidth as u64);
                        labels.push(("bandwidth_mb_s", bandwidth_text.as_str()));
                        assert(label_views(labels@) =~= link_labels(entry, *link));
                        writer.sample(Family::NvlinkRemoteDeviceType, labels.as_slice(), "1");
                    },
                    None => {
                        assert(label_views(labels@) =~= link_labels(entry, *link));
                        writer.sample(Family::NvlinkRemoteDeviceType, labels.as_slice(), "1");
                    },
                }
                k += 1;
            }
            assert(writer.lines() =~= earlier + nvlink_lines(entry));
            i += 1;
        }
        assert(all.take(i as int) =~= all);
    }

    /// The `source` label of activity metrics: NVML GPM unless they say otherwise.
    fn gpm_source_label(metrics: &GpmMetrics) -> (label: &'static str)
        ensures
            label@ == source_text(*metrics),
    {
        match metrics.source {
            Some(source) => source.as_label(),
            None => TelemetrySource::Gpm.as_label(),
        }
    }

    /// The text that a family takes from the activity metrics of a row.
    fn gpm_value<'b>(family: Family, metrics: &'b GpmMetrics, gap: Option<&'b Single>) -> (text:
        Option<&'b str>)
        ensures
            text is Some <==> gpm_text(family, *metrics, opened(gap)) is Some,
            text matches Some(text) ==> Some(text@) == gpm_text(family, *metrics, opened(gap)),
    {
        match family {
            Family::GraphicsActive => single_str(&metrics.graphics_active),
            Family::SmActive => single_str(&metrics.sm_active),
            Family::SmOccupancy => single_str(&metrics.sm_occupancy),
            Family::TensorActive => single_str(&metrics.tensor_active),
            Family::TensorHmmaActive => single_str(&metrics.tensor_hmma_active),
            Family::TensorImmaActive => single_str(&metrics.tensor_imma_active),
            Family::TensorDfmaActive => single_str(&metrics.tensor_dfma_active),
            Family::Fp64Active => single_str(&metrics.fp64_active),
            Family::Fp32Active => single_str(&metrics.fp32_active),
            Family::Fp16Active => single_str(&metrics.fp16_active),
            Family::IntegerActive => single_str(&metrics.integer_active),
            Family::MemoryBandwidthUtilization => single_str(&metrics.memory_bandwidth_utilization),
            Family::PcieTx => double_str(&metrics.pcie_tx_bytes_per_sec),
            Family::PcieRx => double_str(&metrics.pcie_rx_bytes_per_sec),
            Family::NvlinkTx => double_str(&metrics.nvlink_tx_bytes_per_sec),
            Family::NvlinkRx => double_str(&metrics.nvlink_rx_bytes_per_sec),
            Family::NvdecActive => single_str(&metrics.nvdec_active),
            Family::NvjpgActive => single_str(&metrics.nvjpg_active),
            Family::NvofaActive => single_str(&metrics.nvofa_active),
            Family::HollowUtilization => match gap {
                Some(gap) => if metrics.graphics_active.is_some() && metrics.sm_active.is_some() {
                    if single_nan(gap.bits) || gap.bits >= 0x8000_0000u32 {
                        Some("0")
                    } else {
                        Some(gap.text.as_str())
                    }
                } else {
                    None
                },
                None => None,
            },
            _ => None,
        }
    }

    /// Writes one activity family.
    fn emit_gpm(writer: &mut ExpositionWriter, rows: &Vec<Row<'a>>, family: Family)
        requires
            old(writer).well_formed(),
            rows_formed(rows@),
        ensures
            final(writer).well_formed(),
            final(writer).lines() == old(writer).lines() + flat(
                row_entries(rows@),
                |entry: Entry| gpm_lines(entry, family),
            ),
    {
        let ghost start = writer.lines();
        let ghost all = row_entries(rows@);
        let ghost f = |entry: Entry| gpm_lines(entry, family);
        let mut i: usize = 0;
        assert(writer.lines() =~= start + flat(all.take(0), f));
        while i < rows.len()
            invariant
                i <= rows@.len(),
                rows_formed(rows@),
                all == row_entries(rows@),
                f == (|entry: Entry| gpm_lines(entry, family)),
                writer.well_formed(),
                writer.lines() == start + flat(all.take(i as int), f),
            decreases rows@.len() - i,
        {
            let row = &rows[i];
            let ghost entry = row.entry();
            let ghost earlier = writer.lines();
            proof {
                assert(entry == all[i as int]);
                lemma_flat_next(all, f, i as int);
            }
            if let Some(metrics) = &row.gpu.gpm_metrics {
                if let Some(text) = Self::gpm_value(family, metrics, row.gap) {
                    let mut labels = Self::base_labels(row);
                    labels.push(("source", Self::gpm_source_label(metrics)));
                    assert(label_views(labels@) =~= base(entry).push(
                        ("source"@, source_text(*metrics)),
                    ));
                    writer.sample(family, labels.as_slice(), text);
                }
            }
            assert(writer.lines() =~= earlier + gpm_lines(entry, family));
            i += 1;
        }
        assert(all.take(i as int) =~= all);
    }

    /// Writes all activity families.
    fn export_gpm_metrics(writer: &mut ExpositionWriter, rows: &Vec<Row<'a>>)
        requires
            old(writer).well_formed(),
            rows_formed(rows@),
        ensures
            final(writer).well_formed(),
            final(writer).lines() == old(writer).lines() + all_gpm_lines(row_entries(rows@)),
    {
        let ghost start = writer.lines();
        let ghost all = row_entries(rows@);
        let ghost f = |family: Family| flat(all, |entry: Entry| gpm_lines(entry, family));
        let families = gpm_family_list();
        let mut i: usize = 0;
        assert(writer.lines() =~= start + flat(families@.take(0), f));
        while i < families.len()
            invariant
                i <= families@.len(),
                rows_formed(rows@),
                all == row_entries(rows@),
                f == (|family: Family| flat(all, |entry: Entry| gpm_lines(entry, family))),
                writer.well_formed(),
                writer.lines() == start + flat(families@.take(i as int), f),
            decreases families@.len() - i,
        {
            proof {
                lemma_flat_next(families@, f, i as int);
            }
            Self::emit_gpm(writer, rows, families[i]);
            assert(writer.lines() =~= start + flat(families@.take(i + 1), f));
            i += 1;
        }
        assert(families@.take(i as int) =~= families@);
    }

    /// Writes the active throttle reasons.
    fn export_throttle_reasons(writer: &mut ExpositionWriter, rows: &Vec<Row<'a>>)
        requires
            old(writer).well_formed(),
            rows_formed(rows@),
        ensures
            final(writer).well_formed(),
            final(writer).lines() == old(writer).lines() + flat(
                row_entries(rows@),
                |entry: Entry| throttle_lines(entry),
            ),
    {
        let ghost start = writer.lines();
        let ghost all = row_entries(rows@);
        let ghost f = |entry: Entry| throttle_lines(entry);
        let mut i: usize = 0;
        assert(writer.lines() =~= start + flat(all.take(0), f));
        while i < rows.len()
            invariant
                i <= rows@.len(),
                rows_formed(rows@),
                all == row_entries(rows@),
                f == (|entry: Entry| throttle_lines(entry)),
                writer.well_formed(),
                writer.lines() == start + flat(all.take(i as int), f),
            decreases rows@.len() - i,
        {
            let row = &rows[i];
            let ghost entry = row.entry();
            let ghost earlier = writer.lines();
            proof {
                assert(entry == all[i as int]);
                lemma_flat_next(all, f, i as int);
            }
            if let Some(reasons) = &row.gpu.throttle_reasons {
                let active = reasons.active_labels();
                let ghost wanted = texts(active@);
                let mut k: usize = 0;
                while k < active.len()
                    invariant
                        k <= active@.len(),
                        row.well_formed(),
                        entry == row.entry(),
                        wanted == texts(active@),
                        writer.well_formed(),
                        writer.lines() == earlier + reason_lines(entry, wanted).take(k as int),
                    decreases active@.len() - k,
                {
                    let mut labels = Self::base_labels(row);
                    labels.push(("reason", active[k]));
                    assert(label_views(labels@) =~= base(entry).push(
                        ("reason"@, wanted[k as int]),
                    ));
                    writer.sample(Family::ThrottleReason, labels.as_slice(), "1");
                    k += 1;
                }
            }
            assert(writer.lines() =~= earlier + throttle_lines(entry));
            i += 1;
        }
        assert(all.take(i as int) =~= all);
    }

    /// Writes the hardware energy counters.
    fn export_energy_hw(writer: &mut ExpositionWriter, rows: &Vec<Row<'a>>)
        requires
            old(writer).well_formed(),
            rows_formed(rows@),
        ensures
            final(writer).well_formed(),
            final(writer).lines() == old(writer).lines() + flat(
                row_entries(rows@),
                |entry: Entry| energy_lines(entry),
            ),
    {
        let ghost start = writer.lines();
        let ghost all = row_entries(rows@);
        let ghost f = |entry: Entry| energy_lines(entry);
        let mut i: usize = 0;
        assert(writer.lines() =~= start + flat(all.take(0), f));
        while i < rows.len()
            invariant
                i <= rows@.len(),
                rows_formed(rows@),
                all == row_entries(rows@),
                f == (|entry: Entry| energy_lines(entry)),
                writer.well_formed(),
                writer.lines() == start + flat(all.take(i as int), f),
            decreases rows@.len() - i,
        {
            let row = &rows[i];
            let ghost entry = row.entry();
            let ghost earlier = writer.lines();
            proof {
                assert(entry == all[i as int]);
                lemma_flat_next(all, f, i as int);
            }
            if let Some(energy) = row.gpu.energy_hw_millijoules {
                let labels = Self::base_labels(row);
                writer.sample(Family::EnergyHw, labels.as_slice(), u64_text(energy).as_str());
            }
            assert(writer.lines() =~= earlier + energy_lines(entry));
            i += 1;
        }
        assert(all.take(i as int) =~= all);
    }

    /// Writes the row-remapping states.
    fn export_remapped_rows(writer: &mut ExpositionWriter, rows: &Vec<Row<'a>>)
        requires
            old(writer).well_formed(),
            rows_formed(rows@),
        ensures
            final(writer).well_formed(),
            final(writer).lines() == old(writer).lines() + flat(
                row_entries(rows@),
                |entry: Entry| remapped_lines(entry),
            ),
    {
        let ghost start = writer.lines();
        let ghost all = row_entries(rows@);
        let ghost f = |entry: Entry| remapped_lines(entry);
        let mut i: usize = 0;
        assert(writer.lines() =~= start + flat(all.take(0), f));
        while i < rows.len()
            invariant
                i <= rows@.len(),
                rows_formed(rows@),
                all == row_entries(rows@),
                f == (|entry: Entry| remapped_lines(entry)),
                writer.well_formed(),
                writer.lines() == start + flat(all.take(i as int), f),
            decreases rows@.len() - i,
        {
            let row = &rows[i];
            let ghost entry = row.entry();
            let ghost earlier = writer.lines();
            proof {
                assert(entry == all[i as int]);
                lemma_flat_next(all, f, i as int);
            }
            if let Some(remap) = &row.gpu.remapped_rows {
                let mut correctable = Self::base_labels(row);
                correctable.push(("cause", "correctable"));
                assert(label_views(correctable@) =~= base(entry).push(
                    ("cause"@, "correctable"@),
                ));
                writer.sample(
                    Family::RemappedRows,
                    correctable.as_slice(),
                    u64_text(remap.correctable as u64).as_str(),
                );
                let mut uncorrectable = Self::base_labels(row);
                uncorrectable.push(("cause", "uncorrectable"));
                assert(label_views(uncorrectable@) =~= base(entry).push(
                    ("cause"@, "uncorrectable"@),
                ));
                writer.sample(
                    Family::RemappedRows,
                    uncorrectable.as_slice(),
                    u64_text(remap.uncorrectable as u64).as_str(),
                );
                let labels = Self::base_labels(row);
                writer.sample(
                    Family::RemappingPending,
                    labels.as_slice(),
                    flag_str(remap.pending),
                );
                writer.sample(Family::RemappingFailed, labels.as_slice(), flag_str(remap.failed));
            }
            assert(writer.lines() =~= earlier + remapped_lines(entry));
            i += 1;
        }
        assert(all.take(i as int) =~= all);
    }

    /// Writes the NvLink error counters.
    fn export_nvlink_errors(writer: &mut ExpositionWriter, rows: &Vec<Row<'a>>)
        requires
            old(writer).well_formed(),
            rows_formed(rows@),
        ensures
            final(writer).well_formed(),
            final(writer).lines() == old(writer).lines() + flat(
                row_entries(rows@),
                |entry: Entry| nvlink_error_lines(entry),
            ),
    {
        let ghost start = writer.lines();
        let ghost all = row_entries(rows@);
        let ghost f = |entry: Entry| nvlink_error_lines(entry);
        let mut i: usize = 0;
        assert(writer.lines() =~= start + flat(all.take(0), f));
        while i < rows.len()
            invariant
                i <= rows@.len(),
                rows_formed(rows@),
                all == row_entries(rows@),
                f == (|entry: Entry| nvlink_error_lines(entry)),
                writer.well_formed(),
                writer.lines() == start + flat(all.take(i as int), f),
            decreases rows@.len() - i,
        {
            let row = &rows[i];
            let ghost entry = row.entry();
            let ghost earlier = writer.lines();
            proof {
                assert(entry == all[i as int]);
                lemma_flat_next(all, f, i as int);
            }
            let errors = &row.gpu.nvlink_errors;
            let mut k: usize = 0;
            while k < errors.len()
                invariant
                    k <= errors@.len(),
                    row.well_formed(),
                    entry == row.entry(),
                    errors@ == entry.gpu.nvlink_errors@,
                    writer.well_formed(),
                    writer.lines() == earlier + nvlink_error_lines(entry).take(k as int),
                decreases errors@.len() - k,
            {
                let error = &errors[k];
                let link = u64_text(error.link_index as u64);
                let mut labels = Self::base_labels(row);
                labels.push(("link", link.as_str()));
                labels.push(("type", error.error_type.as_str()));
                assert(label_views(labels@) =~= base(entry).push(
                    ("link"@, decimal(error.link_index as nat)),
                ).push(("type"@, error.error_type@)));
                writer.sample(
                    Family::NvlinkErrors,
                    labels.as_slice(),
                    u64_text(error.count).as_str(),
                );
                k += 1;
            }
            assert(writer.lines() =~= earlier + nvlink_error_lines(entry));
            i += 1;
        }
        assert(all.take(i as int) =~= all);
    }

    /// Writes the summaries of the utilization samples.
    fn export_utilization_sample_summaries(writer: &mut ExpositionWriter, rows: &Vec<Row<'a>>)
        requires
            old(writer).well_formed(),
            rows_formed(rows@),
        ensures
            final(writer).well_formed(),
            final(writer).lines() == old(writer).lines() + flat(
                row_entries(rows@),
                |entry: Entry| utilization_lines(entry),
            ),
    {
        let ghost start = writer.lines();
        let ghost all = row_entries(rows@);
        let ghost f = |entry: Entry| utilization_lines(entry);
        let mut i: usize = 0;
        assert(writer.lines() =~= start + flat(all.take(0), f));
        while i < rows.len()
            invariant
                i <= rows@.len(),
                rows_formed(rows@),
                all == row_entries(rows@),
                f == (|entry: Entry| utilization_lines(entry)),
                writer.well_formed(),
                writer.lines() == start + flat(all.take(i as int), f),
            decreases rows@.len() - i,
        {
            let row = &rows[i];
            let ghost entry = row.entry();
            let ghost earlier = writer.lines();
            proof {
                assert(entry == all[i as int]);
                lemma_flat_next(all, f, i as int);
            }
            if let Some(samples) = &row.gpu.utilization_samples {
                let labels = Self::base_labels(row);
                if let Some(value) = sample_percentile(samples.as_slice(), FIFTY) {
                    writer.sample(Family::UtilizationP50, labels.as_slice(), value.text.as_str());
                }
                if let Some(value) = sample_percentile(samples.as_slice(), NINETY_FIVE) {
                    writer.sample(Family::UtilizationP95, labels.as_slice(), value.text.as_str());
                }
                if let Some(value) = sample_max(samples.as_slice()) {
                    writer.sample(Family::UtilizationMax, labels.as_slice(), value.text.as_str());
                }
            }
            assert(writer.lines() =~= earlier + utilization_lines(entry));
            i += 1;
        }
        assert(all.take(i as int) =~= all);
    }

    /// Writes the XID event counts.
    fn export_xid_events(writer: &mut ExpositionWriter, rows: &Vec<Row<'a>>)
        requires
            old(writer).well_formed(),
            rows_formed(rows@),
        ensures
            final(writer).well_formed(),
            final(writer).lines() == old(writer).lines() + flat(
                row_entries(rows@),
                |entry: Entry| xid_lines(entry),
            ),
    {
        let ghost start = writer.lines();
        let ghost all = row_entries(rows@);
        let ghost f = |entry: Entry| xid_lines(entry);
        let mut i: usize = 0;
        assert(writer.lines() =~= start + flat(all.take(0), f));
        while i < rows.len()
            invariant
                i <= rows@.len(),
                rows_formed(rows@),
                all == row_entries(rows@),
                f == (|entry: Entry| xid_lines(entry)),
                writer.well_formed(),
                writer.lines() == start + flat(all.take(i as int), f),
            decreases rows@.len() - i,
        {
            let row = &rows[i];
            let ghost entry = row.entry();
            let ghost earlier = writer.lines();
            proof {
                assert(entry == all[i as int]);
                lemma_flat_next(all, f, i as int);
            }
            let counts = ordered_counts(&row.gpu.xid_event_counts);
            let mut k: usize = 0;
            while k < counts.len()
                invariant
                    k <= counts@.len(),
                    row.well_formed(),
                    entry == row.entry(),
                    counts@ == in_order(coded(entry.gpu.xid_event_counts@)),
                    forall|j: int| 0 <= j < counts@.len() ==> 0 <= (#[trigger] counts@[j]).0,
                    writer.well_formed(),
                    writer.lines() == earlier + xid_lines(entry).take(k as int),
                decreases counts@.len() - k,
            {
                let (code, count) = counts[k];
                let xid = u64_text(code as u64);
                let mut labels = Self::base_labels(row);
                labels.push(("xid", xid.as_str()));
                assert(label_views(labels@) =~= base(entry).push(("xid"@, decimal(code as nat))));
                writer.sample(Family::XidEvents, labels.as_slice(), u64_text(count).as_str());
                k += 1;
            }
            assert(writer.lines() =~= earlier + xid_lines(entry));
            i += 1;
        }
        assert(all.take(i as int) =~= all);
    }

    /// The hardware-detail exposition of the GPUs.
    pub fn export_metrics(&self) -> (output: String)
        requires
            gaps_given(self.gpu_info@, self.activity_gaps@),
        ensures
            output@ == exposition(hardware_lines(entries(self.gpu_info@, self.activity_gaps@))),
    {
        let rows = self.collect_rows();
        let ghost all = entries(self.gpu_info@, self.activity_gaps@);
        proof {
            lemma_hardware_lines_kept(all);
        }
        if rows.len() == 0 {
            assert(row_entries(rows@) =~= seq![]);
            proof {
                lemma_no_hardware_lines();
            }
            return String::new();
        }
        let mut writer = ExpositionWriter::new();
        Self::export_numa_node_id(&mut writer, &rows);
        Self::export_gsp_firmware_mode(&mut writer, &rows);
        Self::export_gsp_firmware_version(&mut writer, &rows);
        Self::export_nvlink_remote_device_type(&mut writer, &rows);
        Self::export_gpm_metrics(&mut writer, &rows);
        Self::export_throttle_reasons(&mut writer, &rows);
        Self::export_energy_hw(&mut writer, &rows);
        Self::export_remapped_rows(&mut writer, &rows);
        Self::export_nvlink_errors(&mut writer, &rows);
        Self::export_utilization_sample_summaries(&mut writer, &rows);
        Self::export_xid_events(&mut writer, &rows);
        assert(writer.lines() =~= hardware_lines(row_entries(rows@)));
        writer.finish()
    }
}

} // verus!
