//! What holds of every hardware-detail exposition.
use crate::exposition::{exposition, flat, lemma_flat_next, line_text, mentions, MetricLine};
use crate::families::{law_names_are_distinct, Family};
use crate::hardware::{
    all_gpm_lines, base, both_active, coded, contributes, detailed, energy_lines, entries,
    gaps_given, gpm_families, gpm_lines, gpm_text, gsp_mode_lines, gsp_version_lines,
    hardware_lines, law_silent_without_detail, lemma_counts_ordered, lemma_counts_published,
    link_labels, numa_lines, nvlink_error_lines, nvlink_lines, reason_lines, remapped_lines,
    source_text, throttle_lines, utilization_lines, xid_lines, Entry,
};
use crate::metrics::{labels_text, type_line};
use crate::number::{single_is_nan, single_key, Single};
use crate::order::in_order;
use crate::sample_summary::{
    law_maximum_by_counting, law_published_ranks_are_near, law_rank_is_a_count, law_rank_of_fifty,
    law_rank_of_ninety_five, near_share, percentile_rank,
};
use crate::text::{decimal, signed_decimal};
use crate::types::{
    law_labels_are_few, law_labels_name_the_active_reasons, unmeasured, GpmMetrics, GpuInfo,
    NvLinkRemoteType, TelemetrySource, ThrottleReasons, UtilizationSample,
};
use vstd::prelude::*;

verus! {

/// All samples of one GPU.
pub open spec fn entry_lines(entry: Entry) -> Seq<MetricLine> {
    numa_lines(entry) + gsp_mode_lines(entry) + gsp_version_lines(entry) + nvlink_lines(entry)
        + flat(gpm_families(), |family: Family| gpm_lines(entry, family)) + throttle_lines(entry)
        + energy_lines(entry) + remapped_lines(entry) + nvlink_error_lines(entry)
        + utilization_lines(entry) + xid_lines(entry)
}

/// A sample of two lists together is a sample of one of them.
broadcast proof fn lemma_joined(a: Seq<MetricLine>, b: Seq<MetricLine>, sample: MetricLine)
    ensures
        #[trigger] (a + b).contains(sample) == (a.contains(sample) || b.contains(sample)),
{
    let joined = a + b;
    if a.contains(sample) {
        let i = choose|i: int| 0 <= i < a.len() && a[i] == sample;
        assert(joined[i] == sample);
    }
    if b.contains(sample) {
        let i = choose|i: int| 0 <= i < b.len() && b[i] == sample;
        assert(joined[a.len() + i] == sample);
    }
    if joined.contains(sample) {
        let i = choose|i: int| 0 <= i < joined.len() && joined[i] == sample;
        if i < a.len() {
            assert(a[i] == sample);
        } else {
            assert(b[i - a.len()] == sample);
        }
    }
}

/// A sample of a list of items is a sample of one of the items.
proof fn lemma_flat_contains<T>(
    items: Seq<T>,
    f: spec_fn(T) -> Seq<MetricLine>,
    sample: MetricLine,
)
    ensures
        flat(items, f).contains(sample) <==> exists|i: int|
            0 <= i < items.len() && f(#[trigger] items[i]).contains(sample),
    decreases items.len(),
{
    broadcast use lemma_joined;

    if items.len() > 0 {
        let earlier = items.drop_last();
        let last = items.len() - 1;
        lemma_flat_contains(earlier, f, sample);
        if flat(earlier, f).contains(sample) {
            let i = choose|i: int| 0 <= i < earlier.len()
                && f(#[trigger] earlier[i]).contains(sample);
            assert(f(items[i]).contains(sample));
        }
        if exists|i: int| 0 <= i < items.len() && f(#[trigger] items[i]).contains(sample) {
            let i = choose|i: int| 0 <= i < items.len() && f(#[trigger] items[i]).contains(sample);
            if i < last {
                assert(earlier[i] == items[i]);
            }
        }
    }
}

/// A sample belongs to the exposition of a list of GPUs exactly when it belongs
/// to one of the GPUs.
pub proof fn law_samples_are_those_of_the_gpus(all: Seq<Entry>, sample: MetricLine)
    ensures
        hardware_lines(all).contains(sample) <==> exists|i: int|
            0 <= i < all.len() && entry_lines(#[trigger] all[i]).contains(sample),
{
    broadcast use lemma_joined;

    lemma_flat_contains(all, |entry: Entry| numa_lines(entry), sample);
    lemma_flat_contains(all, |entry: Entry| gsp_mode_lines(entry), sample);
    lemma_flat_contains(all, |entry: Entry| gsp_version_lines(entry), sample);
    lemma_flat_contains(all, |entry: Entry| nvlink_lines(entry), sample);
    lemma_flat_contains(all, |entry: Entry| throttle_lines(entry), sample);
    lemma_flat_contains(all, |entry: Entry| energy_lines(entry), sample);
    lemma_flat_contains(all, |entry: Entry| remapped_lines(entry), sample);
    lemma_flat_contains(all, |entry: Entry| nvlink_error_lines(entry), sample);
    lemma_flat_contains(all, |entry: Entry| utilization_lines(entry), sample);
    lemma_flat_contains(all, |entry: Entry| xid_lines(entry), sample);
    let by_family = |family: Family| flat(all, |entry: Entry| gpm_lines(entry, family));
    lemma_flat_contains(gpm_families(), by_family, sample);
    let families = gpm_families();
    assert(flat(families, by_family).contains(sample) ==> exists|i: int|
        0 <= i < all.len() && flat(
            families,
            |family: Family| gpm_lines(#[trigger] all[i], family),
        ).contains(sample)) by {
        if flat(families, by_family).contains(sample) {
            let k = choose|k: int|
                0 <= k < families.len() && by_family(#[trigger] families[k]).contains(sample);
            let family = families[k];
            lemma_flat_contains(all, |entry: Entry| gpm_lines(entry, family), sample);
            let i = choose|i: int|
                0 <= i < all.len() && gpm_lines(#[trigger] all[i], family).contains(sample);
            let of_entry = |family: Family| gpm_lines(all[i], family);
            lemma_flat_contains(families, of_entry, sample);
            assert(of_entry(families[k]).contains(sample));
        }
    }
    assert forall|i: int| 0 <= i < all.len() && flat(
        families,
        |family: Family| gpm_lines(#[trigger] all[i], family),
    ).contains(sample) implies flat(families, by_family).contains(sample) by {
        let of_entry = |family: Family| gpm_lines(all[i], family);
        lemma_flat_contains(families, of_entry, sample);
        let k = choose|k: int|
            0 <= k < families.len() && of_entry(#[trigger] families[k]).contains(sample);
        let family = families[k];
        lemma_flat_contains(all, |entry: Entry| gpm_lines(entry, family), sample);
        assert(gpm_lines(all[i], family).contains(sample));
        assert(by_family(families[k]).contains(sample));
    }
    if hardware_lines(all).contains(sample) {
        assert(
            exists|i: int| 0 <= i < all.len() && entry_lines(#[trigger] all[i]).contains(sample)
        );
    }
    if exists|i: int| 0 <= i < all.len() && entry_lines(#[trigger] all[i]).contains(sample) {
        let i = choose|i: int| 0 <= i < all.len()
            && entry_lines(#[trigger] all[i]).contains(sample);
        assert(hardware_lines(all).contains(sample));
    }
}

/// What a GPU must have for a family to have samples of it.
pub open spec fn known(entry: Entry, family: Family) -> bool {
    match family {
        Family::NumaNodeId => entry.gpu.numa_node_id is Some,
        Family::GspFirmwareMode => entry.gpu.gsp_firmware_mode is Some,
        Family::GspFirmwareVersion => entry.gpu.gsp_firmware_version is Some,
        Family::NvlinkRemoteDeviceType => entry.gpu.nvlink_remote_devices@.len() > 0,
        Family::ThrottleReason => entry.gpu.throttle_reasons matches Some(reasons)
            && reasons.labels().len() > 0,
        Family::EnergyHw => entry.gpu.energy_hw_millijoules is Some,
        Family::RemappedRows => entry.gpu.remapped_rows is Some,
        Family::RemappingPending => entry.gpu.remapped_rows is Some,
        Family::RemappingFailed => entry.gpu.remapped_rows is Some,
        Family::NvlinkErrors => entry.gpu.nvlink_errors@.len() > 0,
        Family::UtilizationP50 => entry.gpu.utilization_samples matches Some(samples)
            && samples@.len() > 0,
        Family::UtilizationP95 => entry.gpu.utilization_samples matches Some(samples)
            && samples@.len() > 0,
        Family::UtilizationMax => entry.gpu.utilization_samples matches Some(samples)
            && samples@.len() > 0,
        Family::XidEvents => !entry.gpu.xid_event_counts@.is_empty(),
        _ => entry.gpu.gpm_metrics matches Some(metrics) && gpm_text(
            family,
            metrics,
            entry.gap,
        ) is Some,
    }
}

/// A sample of a family of the list has samples of that family only.
proof fn lemma_mentions(lines: Seq<MetricLine>, family: Family)
    ensures
        mentions(lines, family) <==> exists|sample: MetricLine|
            #[trigger] lines.contains(sample) && sample.family == family,
{
    if mentions(lines, family) {
        let i = choose|i: int| 0 <= i < lines.len() && (#[trigger] lines[i]).family == family;
        assert(lines.contains(lines[i]));
    }
    if exists|sample: MetricLine| #[trigger] lines.contains(sample) && sample.family == family {
        let sample = choose|sample: MetricLine|
            #[trigger] lines.contains(sample) && sample.family == family;
        let i = choose|i: int| 0 <= i < lines.len() && lines[i] == sample;
        assert(lines[i].family == family);
    }
}

/// Whether a sample is an activity sample of a GPU.
spec fn active_sample(entry: Entry, sample: MetricLine) -> bool {
    exists|k: int|
        0 <= k < gpm_families().len() && gpm_lines(
            entry,
            #[trigger] gpm_families()[k],
        ).contains(sample)
}

/// Whether a sample is one of the samples of a GPU, of whatever kind.
spec fn of_some_kind(entry: Entry, sample: MetricLine) -> bool {
    ||| numa_lines(entry).contains(sample)
    ||| gsp_mode_lines(entry).contains(sample)
    ||| gsp_version_lines(entry).contains(sample)
    ||| nvlink_lines(entry).contains(sample)
    ||| active_sample(entry, sample)
    ||| throttle_lines(entry).contains(sample)
    ||| energy_lines(entry).contains(sample)
    ||| remapped_lines(entry).contains(sample)
    ||| nvlink_error_lines(entry).contains(sample)
    ||| utilization_lines(entry).contains(sample)
    ||| xid_lines(entry).contains(sample)
}

/// Every sample of a GPU is of one of the kinds of samples.
proof fn lemma_sample_kind(entry: Entry, sample: MetricLine)
    requires
        entry_lines(entry).contains(sample),
    ensures
        of_some_kind(entry, sample),
{
    broadcast use lemma_joined;

    let families = gpm_families();
    let of_entry = |family: Family| gpm_lines(entry, family);
    lemma_flat_contains(families, of_entry, sample);
    if flat(families, of_entry).contains(sample) {
        let k = choose|k: int|
            0 <= k < families.len() && of_entry(#[trigger] families[k]).contains(sample);
        assert(gpm_lines(entry, gpm_families()[k]).contains(sample));
    }
}

/// What a sample publishes is known of the GPU.
proof fn lemma_sample_is_known(entry: Entry, sample: MetricLine)
    requires
        of_some_kind(entry, sample),
    ensures
        known(entry, sample.family),
{
    if active_sample(entry, sample) {
        let k = choose|k: int|
            0 <= k < gpm_families().len() && gpm_lines(
                entry,
                #[trigger] gpm_families()[k],
            ).contains(sample);
        let family = gpm_families()[k];
        assert(sample.family == family);
    } else if throttle_lines(entry).contains(sample) {
        let reasons = entry.gpu.throttle_reasons->0.labels();
        assert(reason_lines(entry, reasons).contains(sample));
    } else if xid_lines(entry).contains(sample) {
        lemma_counts_published(entry);
    }
}

/// Every sample of a GPU begins with the labels of that GPU.
pub proof fn law_samples_begin_with_gpu_labels(entry: Entry, sample: MetricLine)
    requires
        entry_lines(entry).contains(sample),
    ensures
        sample.labels.len() >= 4,
        sample.labels.take(4) == base(entry),
{
    lemma_sample_kind(entry, sample);
    if nvlink_lines(entry).contains(sample) {
        let k = choose|k: int| 0 <= k < nvlink_lines(entry).len()
            && nvlink_lines(entry)[k] == sample;
        let link = entry.gpu.nvlink_remote_devices@[k];
        assert(sample.labels == link_labels(entry, link));
        assert(sample.labels.take(4) =~= base(entry));
    } else if active_sample(entry, sample) {
        let k = choose|k: int|
            0 <= k < gpm_families().len() && gpm_lines(
                entry,
                #[trigger] gpm_families()[k],
            ).contains(sample);
        let family = gpm_families()[k];
        assert(sample == gpm_lines(entry, family)[0]);
        assert(sample.labels.take(4) =~= base(entry));
    } else if throttle_lines(entry).contains(sample) {
        let reasons = entry.gpu.throttle_reasons->0.labels();
        assert(reason_lines(entry, reasons).contains(sample));
        assert(sample.labels.take(4) =~= base(entry));
    } else if nvlink_error_lines(entry).contains(sample) {
        assert(sample.labels.take(4) =~= base(entry));
    } else if xid_lines(entry).contains(sample) {
        assert(sample.labels.take(4) =~= base(entry));
    } else {
        assert(sample.labels.take(4) =~= base(entry));
    }
}

/// A GPU has samples of a family exactly when it has what the family publishes:
/// what is not known is left out and never written as a zero.
pub proof fn law_unknown_is_absent(entry: Entry, family: Family)
    ensures
        mentions(entry_lines(entry), family) <==> known(entry, family),
{
    lemma_mentions(entry_lines(entry), family);
    if mentions(entry_lines(entry), family) {
        let sample = choose|sample: MetricLine|
            #[trigger] entry_lines(entry).contains(sample) && sample.family == family;
        lemma_sample_kind(entry, sample);
        lemma_sample_is_known(entry, sample);
    }
    if known(entry, family) {
        lemma_known_is_published(entry, family);
    }
}

/// The families without a rule of their own are the activity families.
proof fn lemma_family_listed(family: Family)
    ensures
        forall|metrics: GpmMetrics, gap: Option<Single>|
            (#[trigger] gpm_text(family, metrics, gap)) is Some ==> gpm_families().contains(family),
{
    let families = gpm_families();
    match family {
        Family::GraphicsActive => assert(families[0] == family),
        Family::SmActive => assert(families[1] == family),
        Family::SmOccupancy => assert(families[2] == family),
        Family::TensorActive => assert(families[3] == family),
        Family::TensorHmmaActive => assert(families[4] == family),
        Family::TensorImmaActive => assert(families[5] == family),
        Family::TensorDfmaActive => assert(families[6] == family),
        Family::Fp64Active => assert(families[7] == family),
        Family::Fp32Active => assert(families[8] == family),
        Family::Fp16Active => assert(families[9] == family),
        Family::IntegerActive => assert(families[10] == family),
        Family::MemoryBandwidthUtilization => assert(families[11] == family),
        Family::PcieTx => assert(families[12] == family),
        Family::PcieRx => assert(families[13] == family),
        Family::NvlinkTx => assert(families[14] == family),
        Family::NvlinkRx => assert(families[15] == family),
        Family::NvdecActive => assert(families[16] == family),
        Family::NvjpgActive => assert(families[17] == family),
        Family::NvofaActive => assert(families[18] == family),
        Family::HollowUtilization => assert(families[19] == family),
        _ => (),
    }
}

/// What a GPU has is among its samples.
proof fn lemma_known_is_published(entry: Entry, family: Family)
    requires
        known(entry, family),
    ensures
        mentions(entry_lines(entry), family),
{
    broadcast use lemma_joined;

    let lines = entry_lines(entry);
    lemma_mentions(lines, family);
    let families = gpm_families();
    let of_entry = |family: Family| gpm_lines(entry, family);
    let sample = match family {
        Family::NumaNodeId => numa_lines(entry)[0],
        Family::GspFirmwareMode => gsp_mode_lines(entry)[0],
        Family::GspFirmwareVersion => gsp_version_lines(entry)[0],
        Family::NvlinkRemoteDeviceType => nvlink_lines(entry)[0],
        Family::ThrottleReason => throttle_lines(entry)[0],
        Family::EnergyHw => energy_lines(entry)[0],
        Family::RemappedRows => remapped_lines(entry)[0],
        Family::RemappingPending => remapped_lines(entry)[2],
        Family::RemappingFailed => remapped_lines(entry)[3],
        Family::NvlinkErrors => nvlink_error_lines(entry)[0],
        Family::UtilizationP50 => utilization_lines(entry)[0],
        Family::UtilizationP95 => utilization_lines(entry)[1],
        Family::UtilizationMax => utilization_lines(entry)[2],
        Family::XidEvents => xid_lines(entry)[0],
        _ => gpm_lines(entry, family)[0],
    };
    lemma_flat_contains(families, of_entry, sample);
    if family is XidEvents {
        lemma_counts_published(entry);
    }
    lemma_family_listed(family);
    if families.contains(family) {
        let k = choose|k: int| 0 <= k < families.len() && families[k] == family;
        assert(of_entry(families[k]).contains(sample));
    }
    assert(lines.contains(sample));
}

/// A family is published exactly when it is known of one of the GPUs.
pub proof fn law_family_needs_a_gpu(all: Seq<Entry>, family: Family)
    ensures
        mentions(hardware_lines(all), family) <==> exists|i: int|
            0 <= i < all.len() && known(#[trigger] all[i], family),
{
    lemma_mentions(hardware_lines(all), family);
    if mentions(hardware_lines(all), family) {
        let sample = choose|sample: MetricLine|
            #[trigger] hardware_lines(all).contains(sample) && sample.family == family;
        law_samples_are_those_of_the_gpus(all, sample);
        let i = choose|i: int| 0 <= i < all.len()
            && entry_lines(#[trigger] all[i]).contains(sample);
        lemma_mentions(entry_lines(all[i]), family);
        law_unknown_is_absent(all[i], family);
        assert(known(all[i], family));
    }
    if exists|i: int| 0 <= i < all.len() && known(#[trigger] all[i], family) {
        let i = choose|i: int| 0 <= i < all.len() && known(#[trigger] all[i], family);
        law_unknown_is_absent(all[i], family);
        lemma_mentions(entry_lines(all[i]), family);
        let sample = choose|sample: MetricLine|
            #[trigger] entry_lines(all[i]).contains(sample) && sample.family == family;
        law_samples_are_those_of_the_gpus(all, sample);
        assert(hardware_lines(all).contains(sample));
    }
}

/// A GPU has samples exactly when it contributes.
proof fn lemma_contributes(entry: Entry)
    ensures
        entry_lines(entry).len() > 0 <==> contributes(entry),
{
    let families = gpm_families();
    let of_entry = |family: Family| gpm_lines(entry, family);
    if entry_lines(entry).len() > 0 {
        let sample = entry_lines(entry)[0];
        assert(entry_lines(entry).contains(sample));
        lemma_sample_kind(entry, sample);
        if active_sample(entry, sample) {
            let k = choose|k: int|
                0 <= k < families.len() && gpm_lines(entry, #[trigger] gpm_families()[k]).contains(
                    sample,
                );
            assert(gpm_lines(entry, families[k]).len() > 0);
        }
    }
    if exists|family: Family| (#[trigger] gpm_lines(entry, family)).len() > 0 {
        let family = choose|family: Family| (#[trigger] gpm_lines(entry, family)).len() > 0;
        let sample = gpm_lines(entry, family)[0];
        lemma_family_listed(family);
        let k = choose|k: int| 0 <= k < families.len() && families[k] == family;
        assert(of_entry(families[k]).contains(sample));
        lemma_flat_contains(families, of_entry, sample);
        assert(flat(families, of_entry).len() > 0);
    }
}

/// The exposition has samples exactly when one of the GPUs contributes one.
pub proof fn law_samples_need_a_contribution(all: Seq<Entry>)
    ensures
        hardware_lines(all).len() > 0 <==> exists|i: int|
            0 <= i < all.len() && contributes(#[trigger] all[i]),
{
    let lines = hardware_lines(all);
    if lines.len() > 0 {
        let sample = lines[0];
        assert(lines.contains(sample));
        law_samples_are_those_of_the_gpus(all, sample);
        let i = choose|i: int| 0 <= i < all.len()
            && entry_lines(#[trigger] all[i]).contains(sample);
        lemma_contributes(all[i]);
    }
    if exists|i: int| 0 <= i < all.len() && contributes(#[trigger] all[i]) {
        let i = choose|i: int| 0 <= i < all.len() && contributes(#[trigger] all[i]);
        lemma_contributes(all[i]);
        let sample = entry_lines(all[i])[0];
        assert(entry_lines(all[i]).contains(sample));
        law_samples_are_those_of_the_gpus(all, sample);
        assert(lines.contains(sample));
    }
}

/// Without any hardware detail the exposition is empty.
pub proof fn law_empty_without_detail(gpus: Seq<GpuInfo>, gaps: Seq<Option<Single>>)
    requires
        forall|i: int| 0 <= i < gpus.len() ==> !detailed(#[trigger] gpus[i]),
    ensures
        exposition(hardware_lines(entries(gpus, gaps))) == Seq::<char>::empty(),
{
    let all = entries(gpus, gaps);
    law_samples_need_a_contribution(all);
    assert forall|i: int| 0 <= i < all.len() implies !contributes(#[trigger] all[i]) by {
        assert(!detailed(gpus[i]));
        law_silent_without_detail(all[i]);
    }
}

/// Every activity sample ends with the label of the source of the metrics.
pub proof fn law_activity_samples_name_their_source(
    entry: Entry,
    family: Family,
    metrics: GpmMetrics,
)
    requires
        entry.gpu.gpm_metrics == Some(metrics),
    ensures
        gpm_lines(entry, family).len() <= 1,
        gpm_lines(entry, family).len() == 1 ==> gpm_lines(entry, family)[0].labels.last() == (
            "source"@,
            source_text(metrics),
        ),
{
}

/// Activity metrics in which nothing was measured make no samples.
pub proof fn law_unmeasured_activity_is_silent(entry: Entry, family: Family)
    requires
        entry.gpu.gpm_metrics == Some(unmeasured()),
    ensures
        gpm_lines(entry, family).len() == 0,
{
}

/// The hollow utilization is published only where both activities were
/// measured, and is zero where the difference is negative.
pub proof fn law_hollow_utilization_needs_both(metrics: GpmMetrics, gap: Option<Single>)
    ensures
        gpm_text(Family::HollowUtilization, metrics, gap) is Some <==> metrics.graphics_active
            is Some && metrics.sm_active is Some && gap is Some,
        metrics.graphics_active is Some && metrics.sm_active is Some && gap is Some && single_key(
            gap->0.bits,
        ) < 0 ==> gpm_text(Family::HollowUtilization, metrics, gap) == Some("0"@),
{
}

/// A GPU whose graphics and SM activity are both known has one sample of the
/// hollow utilization, and any other GPU has none.
pub proof fn law_hollow_utilization_is_published(
    gpus: Seq<GpuInfo>,
    gaps: Seq<Option<Single>>,
    i: int,
)
    requires
        gaps_given(gpus, gaps),
        0 <= i < gpus.len(),
    ensures
        gpm_lines(entries(gpus, gaps)[i], Family::HollowUtilization).len() == (if both_active(
            gpus[i],
        ) {
            1nat
        } else {
            0
        }),
        mentions(entry_lines(entries(gpus, gaps)[i]), Family::HollowUtilization) <==> both_active(
            gpus[i],
        ),
{
    law_unknown_is_absent(entries(gpus, gaps)[i], Family::HollowUtilization);
}

/// Each active link of a GPU has one sample, with the classification of its
/// remote end.
pub proof fn law_one_sample_per_link(entry: Entry, k: int)
    requires
        0 <= k < entry.gpu.nvlink_remote_devices@.len(),
    ensures
        nvlink_lines(entry).len() == entry.gpu.nvlink_remote_devices@.len(),
        nvlink_lines(entry)[k].labels[4] == (
            "link_index"@,
            decimal(entry.gpu.nvlink_remote_devices@[k].link_index as nat),
        ),
        nvlink_lines(entry)[k].labels[5] == (
            "remote_type"@,
            entry.gpu.nvlink_remote_devices@[k].remote_type.label(),
        ),
        nvlink_lines(entry)[k].labels.len() == 7
            <==> entry.gpu.nvlink_remote_devices@[k].bandwidth_mb_s is Some,
{
}

/// The header of a family stands directly before the first sample of the
/// family, and nowhere else.
pub proof fn law_header_before_first_sample(lines: Seq<MetricLine>, i: int)
    requires
        0 <= i < lines.len(),
    ensures
        mentions(lines.take(i), lines[i].family) ==> exposition(lines.take(i + 1)) == exposition(
            lines.take(i),
        ) + line_text(lines[i]),
        !mentions(lines.take(i), lines[i].family) ==> exposition(lines.take(i + 1)) == exposition(
            lines.take(i),
        ) + lines[i].family.header() + line_text(lines[i]),
        exposition(lines.take(i)).is_prefix_of(exposition(lines)),
    decreases lines.len() - i,
{
    assert(lines.take(i + 1).drop_last() =~= lines.take(i));
    assert(exposition(lines.take(i + 1)) =~= exposition(lines.take(i)) + (if mentions(
        lines.take(i),
        lines[i].family,
    ) {
        seq![]
    } else {
        lines[i].family.header()
    }) + line_text(lines[i]));
    assert(exposition(lines.take(i)).is_prefix_of(exposition(lines.take(i + 1))));
    if i + 1 < lines.len() {
        law_header_before_first_sample(lines, i + 1);
    } else {
        assert(lines.take(i + 1) =~= lines);
    }
}

/// Families of the same name are the same.
proof fn lemma_family_of_name(a: Family, b: Family)
    ensures
        a.name_text() == b.name_text() ==> a == b,
{
    if a != b {
        law_names_are_distinct(a, b);
    }
}

/// A sample is one of the samples of its own family.
proof fn lemma_sample_of_its_family(entry: Entry, sample: MetricLine)
    requires
        entry_lines(entry).contains(sample),
    ensures
        match sample.family {
            Family::NumaNodeId => numa_lines(entry).contains(sample),
            Family::GspFirmwareMode => gsp_mode_lines(entry).contains(sample),
            Family::GspFirmwareVersion => gsp_version_lines(entry).contains(sample),
            Family::NvlinkRemoteDeviceType => nvlink_lines(entry).contains(sample),
            Family::ThrottleReason => throttle_lines(entry).contains(sample),
            Family::EnergyHw => energy_lines(entry).contains(sample),
            Family::RemappedRows => remapped_lines(entry).contains(sample),
            Family::RemappingPending => remapped_lines(entry).contains(sample),
            Family::RemappingFailed => remapped_lines(entry).contains(sample),
            Family::NvlinkErrors => nvlink_error_lines(entry).contains(sample),
            Family::UtilizationP50 => utilization_lines(entry).contains(sample),
            Family::UtilizationP95 => utilization_lines(entry).contains(sample),
            Family::UtilizationMax => utilization_lines(entry).contains(sample),
            Family::XidEvents => xid_lines(entry).contains(sample),
            _ => gpm_lines(entry, sample.family).contains(sample),
        },
{
    lemma_sample_kind(entry, sample);
    if active_sample(entry, sample) {
        let k = choose|k: int|
            0 <= k < gpm_families().len() && gpm_lines(
                entry,
                #[trigger] gpm_families()[k],
            ).contains(sample);
        let family = gpm_families()[k];
        assert(sample == gpm_lines(entry, family)[0]);
        assert(sample.family == family);
    } else if throttle_lines(entry).contains(sample) {
        let reasons = entry.gpu.throttle_reasons->0.labels();
        assert(reason_lines(entry, reasons).contains(sample));
    }
}

/// A sample of the kind of lines it belongs to is a sample of the GPU.
proof fn lemma_line_is_published(entry: Entry, sample: MetricLine)
    requires
        of_some_kind(entry, sample),
    ensures
        entry_lines(entry).contains(sample),
{
    broadcast use lemma_joined;

    let families = gpm_families();
    let of_entry = |family: Family| gpm_lines(entry, family);
    lemma_flat_contains(families, of_entry, sample);
    if active_sample(entry, sample) {
        let k = choose|k: int|
            0 <= k < gpm_families().len() && gpm_lines(
                entry,
                #[trigger] gpm_families()[k],
            ).contains(sample);
        assert(of_entry(families[k]).contains(sample));
    }
}

/// What is known of an activity family is among the samples of the GPU.
proof fn lemma_activity_published(entry: Entry, family: Family)
    requires
        gpm_lines(entry, family).len() > 0,
    ensures
        entry_lines(entry).contains(gpm_lines(entry, family)[0]),
        gpm_lines(entry, family)[0].family == family,
{
    let sample = gpm_lines(entry, family)[0];
    lemma_family_listed(family);
    let k = choose|k: int| 0 <= k < gpm_families().len() && gpm_families()[k] == family;
    assert(gpm_lines(entry, gpm_families()[k]).contains(sample));
    lemma_line_is_published(entry, sample);
}

/// Under each activity name stands the reading of that name: every sample has the
/// text of the field that its metric is named after.
pub proof fn law_activity_samples_by_name(entry: Entry, metrics: GpmMetrics, sample: MetricLine)
    requires
        entry.gpu.gpm_metrics == Some(metrics),
        entry_lines(entry).contains(sample),
    ensures
        sample.family.name_text() == "all_smi_gpu_graphics_active_ratio"@
            ==> (metrics.graphics_active matches Some(v)
            && sample.value == v.text@),
        sample.family.name_text() == "all_smi_gpu_sm_active_ratio"@
            ==> (metrics.sm_active matches Some(v)
            && sample.value == v.text@),
        sample.family.name_text() == "all_smi_gpu_sm_occupancy"@
            ==> (metrics.sm_occupancy matches Some(v)
            && sample.value == v.text@),
        sample.family.name_text() == "all_smi_gpu_tensor_active_ratio"@
            ==> (metrics.tensor_active matches Some(v)
            && sample.value == v.text@),
        sample.family.name_text() == "all_smi_gpu_tensor_hmma_active_ratio"@
            ==> (metrics.tensor_hmma_active matches Some(v)
            && sample.value == v.text@),
        sample.family.name_text() == "all_smi_gpu_tensor_imma_active_ratio"@
            ==> (metrics.tensor_imma_active matches Some(v)
            && sample.value == v.text@),
        sample.family.name_text() == "all_smi_gpu_tensor_dfma_active_ratio"@
            ==> (metrics.tensor_dfma_active matches Some(v)
            && sample.value == v.text@),
        sample.family.name_text() == "all_smi_gpu_fp64_active_ratio"@
            ==> (metrics.fp64_active matches Some(v)
            && sample.value == v.text@),
        sample.family.name_text() == "all_smi_gpu_fp32_active_ratio"@
            ==> (metrics.fp32_active matches Some(v)
            && sample.value == v.text@),
        sample.family.name_text() == "all_smi_gpu_fp16_active_ratio"@
            ==> (metrics.fp16_active matches Some(v)
            && sample.value == v.text@),
        sample.family.name_text() == "all_smi_gpu_integer_active_ratio"@
            ==> (metrics.integer_active matches Some(v)
            && sample.value == v.text@),
        sample.family.name_text() == "all_smi_gpu_memory_bandwidth_utilization"@
            ==> (metrics.memory_bandwidth_utilization matches Some(v)
            && sample.value == v.text@),
        sample.family.name_text() == "all_smi_gpu_pcie_tx_bytes_per_second"@
            ==> (metrics.pcie_tx_bytes_per_sec matches Some(v)
            && sample.value == v.text@),
        sample.family.name_text() == "all_smi_gpu_pcie_rx_bytes_per_second"@
            ==> (metrics.pcie_rx_bytes_per_sec matches Some(v)
            && sample.value == v.text@),
        sample.family.name_text() == "all_smi_gpu_nvlink_tx_bytes_per_second"@
            ==> (metrics.nvlink_tx_bytes_per_sec matches Some(v)
            && sample.value == v.text@),
        sample.family.name_text() == "all_smi_gpu_nvlink_rx_bytes_per_second"@
            ==> (metrics.nvlink_rx_bytes_per_sec matches Some(v)
            && sample.value == v.text@),
        sample.family.name_text() == "all_smi_gpu_nvdec_active_ratio"@
            ==> (metrics.nvdec_active matches Some(v)
            && sample.value == v.text@),
        sample.family.name_text() == "all_smi_gpu_nvjpg_active_ratio"@
            ==> (metrics.nvjpg_active matches Some(v)
            && sample.value == v.text@),
        sample.family.name_text() == "all_smi_gpu_nvofa_active_ratio"@
            ==> (metrics.nvofa_active matches Some(v)
            && sample.value == v.text@),
        sample.family.name_text() == "all_smi_gpu_hollow_utilization_ratio"@ ==> (
        metrics.graphics_active is Some && metrics.sm_active is Some && (entry.gap matches Some(gap)
            && sample.value == (if gap.bits <= 0x7F80_0000 {
            gap.text@
        } else {
            "0"@
        }))),
{
    lemma_sample_of_its_family(entry, sample);
    lemma_family_of_name(sample.family, Family::GraphicsActive);
    lemma_family_of_name(sample.family, Family::SmActive);
    lemma_family_of_name(sample.family, Family::SmOccupancy);
    lemma_family_of_name(sample.family, Family::TensorActive);
    lemma_family_of_name(sample.family, Family::TensorHmmaActive);
    lemma_family_of_name(sample.family, Family::TensorImmaActive);
    lemma_family_of_name(sample.family, Family::TensorDfmaActive);
    lemma_family_of_name(sample.family, Family::Fp64Active);
    lemma_family_of_name(sample.family, Family::Fp32Active);
    lemma_family_of_name(sample.family, Family::Fp16Active);
    lemma_family_of_name(sample.family, Family::IntegerActive);
    lemma_family_of_name(sample.family, Family::MemoryBandwidthUtilization);
    lemma_family_of_name(sample.family, Family::PcieTx);
    lemma_family_of_name(sample.family, Family::PcieRx);
    lemma_family_of_name(sample.family, Family::NvlinkTx);
    lemma_family_of_name(sample.family, Family::NvlinkRx);
    lemma_family_of_name(sample.family, Family::NvdecActive);
    lemma_family_of_name(sample.family, Family::NvjpgActive);
    lemma_family_of_name(sample.family, Family::NvofaActive);
    lemma_family_of_name(sample.family, Family::HollowUtilization);
}

/// Every activity that was measured is published under its own name, with the
/// text of that very field.
pub proof fn law_activities_are_published_by_name(entry: Entry, metrics: GpmMetrics)
    requires
        entry.gpu.gpm_metrics == Some(metrics),
    ensures
        metrics.graphics_active matches Some(v) ==> exists|sample: MetricLine| #[trigger]
            entry_lines(entry).contains(sample) && sample.family.name_text()
                == "all_smi_gpu_graphics_active_ratio"@ && sample.value == v.text@,
        metrics.sm_active matches Some(v) ==> exists|sample: MetricLine| #[trigger]
            entry_lines(entry).contains(sample) && sample.family.name_text()
                == "all_smi_gpu_sm_active_ratio"@ && sample.value == v.text@,
        metrics.sm_occupancy matches Some(v) ==> exists|sample: MetricLine| #[trigger]
            entry_lines(entry).contains(sample) && sample.family.name_text()
                == "all_smi_gpu_sm_occupancy"@ && sample.value == v.text@,
        metrics.tensor_active matches Some(v) ==> exists|sample: MetricLine| #[trigger]
            entry_lines(entry).contains(sample) && sample.family.name_text()
                == "all_smi_gpu_tensor_active_ratio"@ && sample.value == v.text@,
        metrics.tensor_hmma_active matches Some(v) ==> exists|sample: MetricLine| #[trigger]
            entry_lines(entry).contains(sample) && sample.family.name_text()
                == "all_smi_gpu_tensor_hmma_active_ratio"@ && sample.value == v.text@,
        metrics.tensor_imma_active matches Some(v) ==> exists|sample: MetricLine| #[trigger]
            entry_lines(entry).contains(sample) && sample.family.name_text()
                == "all_smi_gpu_tensor_imma_active_ratio"@ && sample.value == v.text@,
        metrics.tensor_dfma_active matches Some(v) ==> exists|sample: MetricLine| #[trigger]
            entry_lines(entry).contains(sample) && sample.family.name_text()
                == "all_smi_gpu_tensor_dfma_active_ratio"@ && sample.value == v.text@,
        metrics.fp64_active matches Some(v) ==> exists|sample: MetricLine| #[trigger]
            entry_lines(entry).contains(sample) && sample.family.name_text()
                == "all_smi_gpu_fp64_active_ratio"@ && sample.value == v.text@,
        metrics.fp32_active matches Some(v) ==> exists|sample: MetricLine| #[trigger]
            entry_lines(entry).contains(sample) && sample.family.name_text()
                == "all_smi_gpu_fp32_active_ratio"@ && sample.value == v.text@,
        metrics.fp16_active matches Some(v) ==> exists|sample: MetricLine| #[trigger]
            entry_lines(entry).contains(sample) && sample.family.name_text()
                == "all_smi_gpu_fp16_active_ratio"@ && sample.value == v.text@,
        metrics.integer_active matches Some(v) ==> exists|sample: MetricLine| #[trigger]
            entry_lines(entry).contains(sample) && sample.family.name_text()
                == "all_smi_gpu_integer_active_ratio"@ && sample.value == v.text@,
        metrics.memory_bandwidth_utilization matches Some(v)
            ==> exists|sample: MetricLine| #[trigger]
            entry_lines(entry).contains(sample) && sample.family.name_text()
                == "all_smi_gpu_memory_bandwidth_utilization"@ && sample.value == v.text@,
        metrics.pcie_tx_bytes_per_sec matches Some(v) ==> exists|sample: MetricLine| #[trigger]
            entry_lines(entry).contains(sample) && sample.family.name_text()
                == "all_smi_gpu_pcie_tx_bytes_per_second"@ && sample.value == v.text@,
        metrics.pcie_rx_bytes_per_sec matches Some(v) ==> exists|sample: MetricLine| #[trigger]
            entry_lines(entry).contains(sample) && sample.family.name_text()
                == "all_smi_gpu_pcie_rx_bytes_per_second"@ && sample.value == v.text@,
        metrics.nvlink_tx_bytes_per_sec matches Some(v) ==> exists|sample: MetricLine| #[trigger]
            entry_lines(entry).contains(sample) && sample.family.name_text()
                == "all_smi_gpu_nvlink_tx_bytes_per_second"@ && sample.value == v.text@,
        metrics.nvlink_rx_bytes_per_sec matches Some(v) ==> exists|sample: MetricLine| #[trigger]
            entry_lines(entry).contains(sample) && sample.family.name_text()
                == "all_smi_gpu_nvlink_rx_bytes_per_second"@ && sample.value == v.text@,
        metrics.nvdec_active matches Some(v) ==> exists|sample: MetricLine| #[trigger]
            entry_lines(entry).contains(sample) && sample.family.name_text()
                == "all_smi_gpu_nvdec_active_ratio"@ && sample.value == v.text@,
        metrics.nvjpg_active matches Some(v) ==> exists|sample: MetricLine| #[trigger]
            entry_lines(entry).contains(sample) && sample.family.name_text()
                == "all_smi_gpu_nvjpg_active_ratio"@ && sample.value == v.text@,
        metrics.nvofa_active matches Some(v) ==> exists|sample: MetricLine| #[trigger]
            entry_lines(entry).contains(sample) && sample.family.name_text()
                == "all_smi_gpu_nvofa_active_ratio"@ && sample.value == v.text@,
{
    if metrics.graphics_active is Some {
        lemma_activity_published(entry, Family::GraphicsActive);
    }
    if metrics.sm_active is Some {
        lemma_activity_published(entry, Family::SmActive);
    }
    if metrics.sm_occupancy is Some {
        lemma_activity_published(entry, Family::SmOccupancy);
    }
    if metrics.tensor_active is Some {
        lemma_activity_published(entry, Family::TensorActive);
    }
    if metrics.tensor_hmma_active is Some {
        lemma_activity_published(entry, Family::TensorHmmaActive);
    }
    if metrics.tensor_imma_active is Some {
        lemma_activity_published(entry, Family::TensorImmaActive);
    }
    if metrics.tensor_dfma_active is Some {
        lemma_activity_published(entry, Family::TensorDfmaActive);
    }
    if metrics.fp64_active is Some {
        lemma_activity_published(entry, Family::Fp64Active);
    }
    if metrics.fp32_active is Some {
        lemma_activity_published(entry, Family::Fp32Active);
    }
    if metrics.fp16_active is Some {
        lemma_activity_published(entry, Family::Fp16Active);
    }
    if metrics.integer_active is Some {
        lemma_activity_published(entry, Family::IntegerActive);
    }
    if metrics.memory_bandwidth_utilization is Some {
        lemma_activity_published(entry, Family::MemoryBandwidthUtilization);
    }
    if metrics.pcie_tx_bytes_per_sec is Some {
        lemma_activity_published(entry, Family::PcieTx);
    }
    if metrics.pcie_rx_bytes_per_sec is Some {
        lemma_activity_published(entry, Family::PcieRx);
    }
    if metrics.nvlink_tx_bytes_per_sec is Some {
        lemma_activity_published(entry, Family::NvlinkTx);
    }
    if metrics.nvlink_rx_bytes_per_sec is Some {
        lemma_activity_published(entry, Family::NvlinkRx);
    }
    if metrics.nvdec_active is Some {
        lemma_activity_published(entry, Family::NvdecActive);
    }
    if metrics.nvjpg_active is Some {
        lemma_activity_published(entry, Family::NvjpgActive);
    }
    if metrics.nvofa_active is Some {
        lemma_activity_published(entry, Family::NvofaActive);
    }
}

/// A GPU without activity metrics publishes nothing under the activity names.
pub proof fn law_no_activity_is_invented(entry: Entry, sample: MetricLine)
    requires
        entry.gpu.gpm_metrics is None,
        entry_lines(entry).contains(sample),
    ensures
        sample.family.name_text() != "all_smi_gpu_graphics_active_ratio"@,
        sample.family.name_text() != "all_smi_gpu_sm_active_ratio"@,
        sample.family.name_text() != "all_smi_gpu_sm_occupancy"@,
        sample.family.name_text() != "all_smi_gpu_tensor_active_ratio"@,
        sample.family.name_text() != "all_smi_gpu_tensor_hmma_active_ratio"@,
        sample.family.name_text() != "all_smi_gpu_tensor_imma_active_ratio"@,
        sample.family.name_text() != "all_smi_gpu_tensor_dfma_active_ratio"@,
        sample.family.name_text() != "all_smi_gpu_fp64_active_ratio"@,
        sample.family.name_text() != "all_smi_gpu_fp32_active_ratio"@,
        sample.family.name_text() != "all_smi_gpu_fp16_active_ratio"@,
        sample.family.name_text() != "all_smi_gpu_integer_active_ratio"@,
        sample.family.name_text() != "all_smi_gpu_memory_bandwidth_utilization"@,
        sample.family.name_text() != "all_smi_gpu_pcie_tx_bytes_per_second"@,
        sample.family.name_text() != "all_smi_gpu_pcie_rx_bytes_per_second"@,
        sample.family.name_text() != "all_smi_gpu_nvlink_tx_bytes_per_second"@,
        sample.family.name_text() != "all_smi_gpu_nvlink_rx_bytes_per_second"@,
        sample.family.name_text() != "all_smi_gpu_nvdec_active_ratio"@,
        sample.family.name_text() != "all_smi_gpu_nvjpg_active_ratio"@,
        sample.family.name_text() != "all_smi_gpu_nvofa_active_ratio"@,
        sample.family.name_text() != "all_smi_gpu_hollow_utilization_ratio"@,
{
    lemma_sample_of_its_family(entry, sample);
    lemma_family_of_name(sample.family, Family::GraphicsActive);
    lemma_family_of_name(sample.family, Family::SmActive);
    lemma_family_of_name(sample.family, Family::SmOccupancy);
    lemma_family_of_name(sample.family, Family::TensorActive);
    lemma_family_of_name(sample.family, Family::TensorHmmaActive);
    lemma_family_of_name(sample.family, Family::TensorImmaActive);
    lemma_family_of_name(sample.family, Family::TensorDfmaActive);
    lemma_family_of_name(sample.family, Family::Fp64Active);
    lemma_family_of_name(sample.family, Family::Fp32Active);
    lemma_family_of_name(sample.family, Family::Fp16Active);
    lemma_family_of_name(sample.family, Family::IntegerActive);
    lemma_family_of_name(sample.family, Family::MemoryBandwidthUtilization);
    lemma_family_of_name(sample.family, Family::PcieTx);
    lemma_family_of_name(sample.family, Family::PcieRx);
    lemma_family_of_name(sample.family, Family::NvlinkTx);
    lemma_family_of_name(sample.family, Family::NvlinkRx);
    lemma_family_of_name(sample.family, Family::NvdecActive);
    lemma_family_of_name(sample.family, Family::NvjpgActive);
    lemma_family_of_name(sample.family, Family::NvofaActive);
    lemma_family_of_name(sample.family, Family::HollowUtilization);
}

/// The labels of every sample begin with the name, the instance, the UUID and the
/// place of the GPU, under the names `gpu`, `instance`, `gpu_uuid` and
/// `gpu_index`; activity samples have their source as the only other label.
pub proof fn law_labels_by_name(entry: Entry, sample: MetricLine)
    requires
        entry_lines(entry).contains(sample),
    ensures
        sample.labels.len() >= 4,
        sample.labels[0] == ("gpu"@, entry.gpu.name@),
        sample.labels[1] == ("instance"@, entry.gpu.instance@),
        sample.labels[2] == ("gpu_uuid"@, entry.gpu.uuid@),
        sample.labels[3] == ("gpu_index"@, decimal(entry.index)),
        gpm_families().contains(sample.family) ==> sample.labels.len() == 5 && sample.labels[4] == (
            "source"@,
            match entry.gpu.gpm_metrics->0.source {
                Some(TelemetrySource::Nvml) => "nvml"@,
                Some(TelemetrySource::Dcgm) => "dcgm"@,
                Some(TelemetrySource::Dcgmi) => "dcgmi"@,
                Some(TelemetrySource::Amd) => "amd"@,
                _ => "gpm"@,
            },
        ),
        sample.family.name_text() == "all_smi_gpu_numa_node_id"@ ==> sample.labels.len() == 4,
        sample.family.name_text() == "all_smi_gpu_gsp_firmware_mode"@ ==> sample.labels.len() == 4,
        sample.family.name_text() == "all_smi_gpu_energy_hw_millijoules_total"@
            ==> sample.labels.len() == 4,
        sample.family.name_text() == "all_smi_gpu_remapping_pending"@ ==> sample.labels.len() == 4,
        sample.family.name_text() == "all_smi_gpu_remapping_failed"@ ==> sample.labels.len() == 4,
        sample.family.name_text() == "all_smi_gpu_utilization_sample_p50"@ ==> sample.labels.len()
            == 4,
        sample.family.name_text() == "all_smi_gpu_utilization_sample_p95"@ ==> sample.labels.len()
            == 4,
        sample.family.name_text() == "all_smi_gpu_utilization_sample_max"@ ==> sample.labels.len()
            == 4,
{
    law_samples_begin_with_gpu_labels(entry, sample);
    lemma_sample_of_its_family(entry, sample);
    let first = sample.labels.take(4);
    assert(first[0] == sample.labels[0] && first[1] == sample.labels[1] && first[2]
        == sample.labels[2] && first[3] == sample.labels[3]);
    lemma_family_of_name(sample.family, Family::NumaNodeId);
    lemma_family_of_name(sample.family, Family::GspFirmwareMode);
    lemma_family_of_name(sample.family, Family::EnergyHw);
    lemma_family_of_name(sample.family, Family::RemappingPending);
    lemma_family_of_name(sample.family, Family::RemappingFailed);
    lemma_family_of_name(sample.family, Family::UtilizationP50);
    lemma_family_of_name(sample.family, Family::UtilizationP95);
    lemma_family_of_name(sample.family, Family::UtilizationMax);
}

/// Under each of these names stands what the GPU has under that name: the NUMA
/// node, the firmware mode and version, the energy counter and the flags of the
/// row remapping.
pub proof fn law_scalar_samples_by_name(entry: Entry, sample: MetricLine)
    requires
        entry_lines(entry).contains(sample),
    ensures
        sample.family.name_text() == "all_smi_gpu_numa_node_id"@ ==> (entry.gpu.numa_node_id
            matches Some(node) && sample.value == signed_decimal(node as int)),
        sample.family.name_text() == "all_smi_gpu_gsp_firmware_mode"@ ==> (
        entry.gpu.gsp_firmware_mode matches Some(mode) && sample.value == decimal(mode as nat)),
        sample.family.name_text() == "all_smi_gpu_gsp_firmware_version_info"@ ==> (
        entry.gpu.gsp_firmware_version matches Some(version) && sample.value == "1"@
            && sample.labels.len() == 5 && sample.labels[4] == ("version"@, version@)),
        sample.family.name_text() == "all_smi_gpu_energy_hw_millijoules_total"@ ==> (
        entry.gpu.energy_hw_millijoules matches Some(energy) && sample.value == decimal(
            energy as nat,
        )),
        sample.family.name_text() == "all_smi_gpu_remapped_rows"@ ==> (entry.gpu.remapped_rows
            matches Some(rows) && sample.labels.len() == 5 && ((sample.labels[4] == (
            "cause"@,
            "correctable"@,
        ) && sample.value == decimal(rows.correctable as nat)) || (sample.labels[4] == (
            "cause"@,
            "uncorrectable"@,
        ) && sample.value == decimal(rows.uncorrectable as nat)))),
        sample.family.name_text() == "all_smi_gpu_remapping_pending"@ ==> (entry.gpu.remapped_rows
            matches Some(rows) && sample.value == (if rows.pending {
            "1"@
        } else {
            "0"@
        })),
        sample.family.name_text() == "all_smi_gpu_remapping_failed"@ ==> (entry.gpu.remapped_rows
            matches Some(rows) && sample.value == (if rows.failed {
            "1"@
        } else {
            "0"@
        })),
{
    lemma_sample_of_its_family(entry, sample);
    lemma_family_of_name(sample.family, Family::NumaNodeId);
    lemma_family_of_name(sample.family, Family::GspFirmwareMode);
    lemma_family_of_name(sample.family, Family::GspFirmwareVersion);
    lemma_family_of_name(sample.family, Family::EnergyHw);
    lemma_family_of_name(sample.family, Family::RemappedRows);
    lemma_family_of_name(sample.family, Family::RemappingPending);
    lemma_family_of_name(sample.family, Family::RemappingFailed);
    if remapped_lines(entry).contains(sample) {
        let k = choose|k: int|
            0 <= k < remapped_lines(entry).len() && remapped_lines(entry)[k] == sample;
        assert(k == 0 || k == 1 || k == 2 || k == 3);
    }
}

/// What the GPU has of these is published under its name.
pub proof fn law_scalars_are_published_by_name(entry: Entry)
    ensures
        entry.gpu.numa_node_id matches Some(node) ==> exists|sample: MetricLine| #[trigger]
            entry_lines(entry).contains(sample) && sample.family.name_text()
                == "all_smi_gpu_numa_node_id"@ && sample.value == signed_decimal(node as int),
        entry.gpu.gsp_firmware_mode matches Some(mode) ==> exists|sample: MetricLine| #[trigger]
            entry_lines(entry).contains(sample) && sample.family.name_text()
                == "all_smi_gpu_gsp_firmware_mode"@ && sample.value == decimal(mode as nat),
        entry.gpu.gsp_firmware_version matches Some(version) ==> exists|sample: MetricLine|
            #[trigger]
            entry_lines(entry).contains(sample) && sample.family.name_text()
                == "all_smi_gpu_gsp_firmware_version_info"@ && sample.labels.last() == (
                "version"@,
                version@,
            ),
        entry.gpu.energy_hw_millijoules matches Some(energy) ==> exists|sample: MetricLine|
            #[trigger]
            entry_lines(entry).contains(sample) && sample.family.name_text()
                == "all_smi_gpu_energy_hw_millijoules_total"@ && sample.value == decimal(
                energy as nat,
            ),
        entry.gpu.remapped_rows matches Some(rows) ==> {
            &&& exists|sample: MetricLine| #[trigger]
                entry_lines(entry).contains(sample) && sample.family.name_text()
                    == "all_smi_gpu_remapped_rows"@ && sample.labels.last() == (
                    "cause"@,
                    "correctable"@,
                ) && sample.value == decimal(rows.correctable as nat)
            &&& exists|sample: MetricLine| #[trigger]
                entry_lines(entry).contains(sample) && sample.family.name_text()
                    == "all_smi_gpu_remapped_rows"@ && sample.labels.last() == (
                    "cause"@,
                    "uncorrectable"@,
                ) && sample.value == decimal(rows.uncorrectable as nat)
            &&& exists|sample: MetricLine| #[trigger]
                entry_lines(entry).contains(sample) && sample.family.name_text()
                    == "all_smi_gpu_remapping_pending"@
            &&& exists|sample: MetricLine| #[trigger]
                entry_lines(entry).contains(sample) && sample.family.name_text()
                    == "all_smi_gpu_remapping_failed"@
        },
{
    if entry.gpu.numa_node_id is Some {
        assert(numa_lines(entry).contains(numa_lines(entry)[0]));
        lemma_line_is_published(entry, numa_lines(entry)[0]);
    }
    if entry.gpu.gsp_firmware_mode is Some {
        assert(gsp_mode_lines(entry).contains(gsp_mode_lines(entry)[0]));
        lemma_line_is_published(entry, gsp_mode_lines(entry)[0]);
    }
    if entry.gpu.gsp_firmware_version is Some {
        assert(gsp_version_lines(entry).contains(gsp_version_lines(entry)[0]));
        lemma_line_is_published(entry, gsp_version_lines(entry)[0]);
    }
    if entry.gpu.energy_hw_millijoules is Some {
        assert(energy_lines(entry).contains(energy_lines(entry)[0]));
        lemma_line_is_published(entry, energy_lines(entry)[0]);
    }
    if entry.gpu.remapped_rows is Some {
        let lines = remapped_lines(entry);
        assert(lines.contains(lines[0]) && lines.contains(lines[1]) && lines.contains(lines[2])
            && lines.contains(lines[3]));
        lemma_line_is_published(entry, lines[0]);
        lemma_line_is_published(entry, lines[1]);
        lemma_line_is_published(entry, lines[2]);
        lemma_line_is_published(entry, lines[3]);
    }
}

/// A throttle sample names a reason that is active, by the name of its flag, and
/// every active reason has its sample.
pub proof fn law_throttle_samples_by_name(
    entry: Entry,
    reasons: ThrottleReasons,
    reason: Seq<char>,
)
    requires
        entry.gpu.throttle_reasons == Some(reasons),
    ensures
        (exists|sample: MetricLine| #[trigger]
            entry_lines(entry).contains(sample) && sample.family.name_text()
                == "all_smi_gpu_throttle_reason"@ && sample.value == "1"@ && sample.labels.len()
                == 5 && sample.labels[4] == ("reason"@, reason)) <==> (reasons.gpu_idle && reason
            == "gpu_idle"@) || (reasons.app_clocks && reason == "app_clocks"@) || (
        reasons.sw_power_cap && reason == "sw_power_cap"@) || (reasons.hw_slowdown && reason
            == "hw_slowdown"@) || (reasons.sync_boost && reason == "sync_boost"@) || (
        reasons.sw_thermal && reason == "sw_thermal"@) || (reasons.hw_thermal && reason
            == "hw_thermal"@) || (reasons.hw_power_brake && reason == "hw_power_brake"@) || (
        reasons.display_clocks && reason == "display_clocks"@),
{
    law_labels_name_the_active_reasons(reasons, reason);
    let labels = reasons.labels();
    let lines = reason_lines(entry, labels);
    if labels.contains(reason) {
        let k = choose|k: int| 0 <= k < labels.len() && labels[k] == reason;
        assert(lines[k].labels == base(entry).push(("reason"@, reason)));
        assert(throttle_lines(entry).contains(lines[k]));
        lemma_line_is_published(entry, lines[k]);
    }
    if exists|sample: MetricLine| #[trigger]
        entry_lines(entry).contains(sample) && sample.family.name_text()
            == "all_smi_gpu_throttle_reason"@ && sample.value == "1"@ && sample.labels.len() == 5
            && sample.labels[4] == ("reason"@, reason) {
        let sample = choose|sample: MetricLine| #[trigger]
            entry_lines(entry).contains(sample) && sample.family.name_text()
                == "all_smi_gpu_throttle_reason"@ && sample.value == "1"@ && sample.labels.len()
                == 5 && sample.labels[4] == ("reason"@, reason);
        lemma_sample_of_its_family(entry, sample);
        lemma_family_of_name(sample.family, Family::ThrottleReason);
        assert(lines.contains(sample));
        let k = choose|k: int| 0 <= k < lines.len() && lines[k] == sample;
        assert(labels[k] == reason);
    }
}

/// Every active link has its sample, with its index, what stands at its far end,
/// and its bandwidth where that is known; and there are no others.
pub proof fn law_link_samples_by_name(entry: Entry, sample: MetricLine)
    requires
        sample.family.name_text() == "all_smi_nvlink_remote_device_type"@,
    ensures
        entry_lines(entry).contains(sample) <==> sample.value == "1"@ && exists|k: int|
            0 <= k < entry.gpu.nvlink_remote_devices@.len() && sample.labels == base(entry) + seq![
                (
                    "link_index"@,
                    decimal((#[trigger] entry.gpu.nvlink_remote_devices@[k]).link_index as nat),
                ),
                (
                    "remote_type"@,
                    match entry.gpu.nvlink_remote_devices@[k].remote_type {
                        NvLinkRemoteType::Gpu => "gpu"@,
                        NvLinkRemoteType::Switch => "switch"@,
                        NvLinkRemoteType::IbmNpu => "ibmnpu"@,
                        NvLinkRemoteType::Unknown => "unknown"@,
                    },
                ),
            ] + (match entry.gpu.nvlink_remote_devices@[k].bandwidth_mb_s {
                Some(bandwidth) => seq![("bandwidth_mb_s"@, decimal(bandwidth as nat))],
                None => seq![],
            }),
{
    lemma_family_of_name(sample.family, Family::NvlinkRemoteDeviceType);
    let links = entry.gpu.nvlink_remote_devices@;
    assert forall|k: int| 0 <= k < links.len() implies link_labels(entry, #[trigger] links[k])
        == base(entry) + seq![
        ("link_index"@, decimal(links[k].link_index as nat)),
        (
            "remote_type"@,
            match links[k].remote_type {
                NvLinkRemoteType::Gpu => "gpu"@,
                NvLinkRemoteType::Switch => "switch"@,
                NvLinkRemoteType::IbmNpu => "ibmnpu"@,
                NvLinkRemoteType::Unknown => "unknown"@,
            },
        ),
    ] + (match links[k].bandwidth_mb_s {
        Some(bandwidth) => seq![("bandwidth_mb_s"@, decimal(bandwidth as nat))],
        None => seq![],
    }) by {
        assert(link_labels(entry, links[k]) =~= base(entry) + seq![
            ("link_index"@, decimal(links[k].link_index as nat)),
            (
                "remote_type"@,
                match links[k].remote_type {
                    NvLinkRemoteType::Gpu => "gpu"@,
                    NvLinkRemoteType::Switch => "switch"@,
                    NvLinkRemoteType::IbmNpu => "ibmnpu"@,
                    NvLinkRemoteType::Unknown => "unknown"@,
                },
            ),
        ] + (match links[k].bandwidth_mb_s {
            Some(bandwidth) => seq![("bandwidth_mb_s"@, decimal(bandwidth as nat))],
            None => seq![],
        }));
    }
    if entry_lines(entry).contains(sample) {
        lemma_sample_of_its_family(entry, sample);
        let k = choose|k: int| 0 <= k < nvlink_lines(entry).len() && nvlink_lines(entry)[k]
            == sample;
        assert(sample.labels == link_labels(entry, links[k]));
    }
    assert forall|k: int|
        0 <= k < links.len() && sample.value == "1"@ && sample.labels == link_labels(
            entry,
            #[trigger] links[k],
        ) implies entry_lines(entry).contains(sample) by {
        assert(nvlink_lines(entry)[k] == sample);
        lemma_line_is_published(entry, sample);
    }
}

/// Every NvLink error counter of the GPU has its sample, with its link, its kind
/// and its count; and there are no others.
pub proof fn law_error_samples_by_name(entry: Entry, sample: MetricLine)
    requires
        sample.family.name_text() == "all_smi_gpu_nvlink_errors_total"@,
    ensures
        entry_lines(entry).contains(sample) <==> exists|k: int|
            0 <= k < entry.gpu.nvlink_errors@.len() && sample.value == decimal(
                (#[trigger] entry.gpu.nvlink_errors@[k]).count as nat,
            ) && sample.labels == base(entry) + seq![
                ("link"@, decimal(entry.gpu.nvlink_errors@[k].link_index as nat)),
                ("type"@, entry.gpu.nvlink_errors@[k].error_type@),
            ],
{
    lemma_family_of_name(sample.family, Family::NvlinkErrors);
    let errors = entry.gpu.nvlink_errors@;
    assert forall|k: int| 0 <= k < errors.len() implies nvlink_error_lines(entry)[k].labels == base(
        entry,
    ) + seq![
        ("link"@, decimal((#[trigger] errors[k]).link_index as nat)),
        ("type"@, errors[k].error_type@),
    ] by {
        assert(nvlink_error_lines(entry)[k].labels =~= base(entry) + seq![
            ("link"@, decimal(errors[k].link_index as nat)),
            ("type"@, errors[k].error_type@),
        ]);
    }
    if entry_lines(entry).contains(sample) {
        lemma_sample_of_its_family(entry, sample);
        let k = choose|k: int|
            0 <= k < nvlink_error_lines(entry).len() && nvlink_error_lines(entry)[k] == sample;
        assert(errors[k].count == errors[k].count);
    }
    assert forall|k: int|
        0 <= k < errors.len() && sample.value == decimal((#[trigger] errors[k]).count as nat)
            && sample.labels == base(entry) + seq![
            ("link"@, decimal(errors[k].link_index as nat)),
            ("type"@, errors[k].error_type@),
        ] implies entry_lines(entry).contains(sample) by {
        assert(nvlink_error_lines(entry)[k] == sample);
        lemma_line_is_published(entry, sample);
    }
}

/// Every event code of the GPU has its sample, with the code and how often it
/// occurred; and there are no others.
pub proof fn law_event_samples_by_name(entry: Entry, sample: MetricLine)
    requires
        sample.family.name_text() == "all_smi_gpu_xid_events_total"@,
    ensures
        entry_lines(entry).contains(sample) <==> exists|code: u32| #[trigger]
            entry.gpu.xid_event_counts@.contains_key(code) && sample.value == decimal(
                entry.gpu.xid_event_counts@[code] as nat,
            ) && sample.labels == base(entry).push(("xid"@, decimal(code as nat))),
{
    lemma_family_of_name(sample.family, Family::XidEvents);
    let counts = entry.gpu.xid_event_counts@;
    vstd::std_specs::hash::axiom_hashmap_view_finite_dom(entry.gpu.xid_event_counts);
    lemma_counts_ordered(counts);
    let list = in_order(coded(counts));
    if entry_lines(entry).contains(sample) {
        lemma_sample_of_its_family(entry, sample);
        let k = choose|k: int| 0 <= k < xid_lines(entry).len() && xid_lines(entry)[k] == sample;
        assert(list.to_set().contains(list[k]));
        assert(coded(counts).contains(list[k]));
        assert(counts.contains_key(list[k].0 as u32));
    }
    assert forall|code: u32| #[trigger]
        counts.contains_key(code) && sample.value == decimal(counts[code] as nat) && sample.labels
            == base(entry).push(("xid"@, decimal(code as nat))) implies entry_lines(
        entry,
    ).contains(sample) by {
        let item = (code as i64, counts[code]);
        assert(coded(counts).contains(item));
        assert(list.to_set().contains(item));
        let k = choose|k: int| 0 <= k < list.len() && list[k] == item;
        assert(xid_lines(entry)[k] == sample);
        lemma_line_is_published(entry, sample);
    }
}

/// What the published percentiles are, by counting samples: among up to 65536 of
/// them, the value under `p50` (and `p95`) is the text of a sample such that no
/// more than 50 (95) hundredths of the others, rounded to the nearest rank, are
/// less, and more than that are not greater. The value under `max` is the text of
/// a sample that no other exceeds, as long as all are numbers.
pub proof fn law_percentile_samples_by_counting(
    entry: Entry,
    samples: Seq<UtilizationSample>,
    sample: MetricLine,
)
    requires
        entry.gpu.utilization_samples matches Some(list) && list@ == samples,
        0 < samples.len() <= 0x1_0000,
        entry_lines(entry).contains(sample),
    ensures
        sample.family.name_text() == "all_smi_gpu_utilization_sample_p50"@ ==> exists|
            v: UtilizationSample,
        | #[trigger]
            samples.contains(v) && sample.value == v.value.text@ && samples.filter(
                |s: UtilizationSample| single_key(s.value.bits) < single_key(v.value.bits),
            ).len() <= (50 * (samples.len() - 1) + 50) / 100 && samples.filter(
                |s: UtilizationSample| single_key(s.value.bits) <= single_key(v.value.bits),
            ).len() > (50 * (samples.len() - 1) + 50) / 100,
        sample.family.name_text() == "all_smi_gpu_utilization_sample_p95"@ ==> exists|
            v: UtilizationSample,
        | #[trigger]
            samples.contains(v) && sample.value == v.value.text@ && samples.filter(
                |s: UtilizationSample| single_key(s.value.bits) < single_key(v.value.bits),
            ).len() <= (95 * (samples.len() - 1) + 50) / 100 && samples.filter(
                |s: UtilizationSample| single_key(s.value.bits) <= single_key(v.value.bits),
            ).len() > (95 * (samples.len() - 1) + 50) / 100,
        sample.family.name_text() == "all_smi_gpu_utilization_sample_max"@ && (forall|i: int|
            0 <= i < samples.len() ==> !single_is_nan(#[trigger] samples[i].value.bits)) ==> exists|
            v: UtilizationSample,
        | #[trigger]
            samples.contains(v) && sample.value == v.value.text@ && samples.filter(
                |s: UtilizationSample| single_key(s.value.bits) > single_key(v.value.bits),
            ).len() == 0,
{
    lemma_sample_of_its_family(entry, sample);
    lemma_family_of_name(sample.family, Family::UtilizationP50);
    lemma_family_of_name(sample.family, Family::UtilizationP95);
    lemma_family_of_name(sample.family, Family::UtilizationMax);
    let len = samples.len();
    law_rank_of_fifty(len);
    law_rank_of_ninety_five(len);
    law_rank_is_a_count(samples, percentile_rank(0x4248_0000, len));
    law_rank_is_a_count(samples, percentile_rank(0x42BE_0000, len));
    if utilization_lines(entry).contains(sample) {
        let k = choose|k: int|
            0 <= k < utilization_lines(entry).len() && utilization_lines(entry)[k] == sample;
        assert(k == 0 || k == 1 || k == 2);
    }
    if forall|i: int|
        0 <= i < samples.len() ==> !single_is_nan(#[trigger] samples[i].value.bits) {
        law_maximum_by_counting(samples);
    }
}

/// A GPU with utilization samples publishes all three summaries.
pub proof fn law_percentiles_are_published_by_name(entry: Entry)
    requires
        entry.gpu.utilization_samples matches Some(list) && list@.len() > 0,
    ensures
        exists|sample: MetricLine| #[trigger]
            entry_lines(entry).contains(sample) && sample.family.name_text()
                == "all_smi_gpu_utilization_sample_p50"@,
        exists|sample: MetricLine| #[trigger]
            entry_lines(entry).contains(sample) && sample.family.name_text()
                == "all_smi_gpu_utilization_sample_p95"@,
        exists|sample: MetricLine| #[trigger]
            entry_lines(entry).contains(sample) && sample.family.name_text()
                == "all_smi_gpu_utilization_sample_max"@,
{
    let lines = utilization_lines(entry);
    assert(lines.contains(lines[0]) && lines.contains(lines[1]) && lines.contains(lines[2]));
    lemma_line_is_published(entry, lines[0]);
    lemma_line_is_published(entry, lines[1]);
    lemma_line_is_published(entry, lines[2]);
}

/// The samples are those of the given GPUs, each under its own place and with its
/// own difference.
pub proof fn law_entries_are_the_gpus(gpus: Seq<GpuInfo>, gaps: Seq<Option<Single>>, i: int)
    requires
        0 <= i < gpus.len(),
    ensures
        entries(gpus, gaps).len() == gpus.len(),
        entries(gpus, gaps)[i].gpu == gpus[i],
        entries(gpus, gaps)[i].index == i,
        i < gaps.len() ==> entries(gpus, gaps)[i].gap == gaps[i],
        i >= gaps.len() ==> entries(gpus, gaps)[i].gap is None,
{
}

/// Every sample stands in the text as a line of its own: after the beginning of
/// the text or the end of a line, its name, its labels in braces, its value, and
/// the end of the line.
pub proof fn law_every_sample_is_a_line(lines: Seq<MetricLine>, i: int)
    requires
        0 <= i < lines.len(),
    ensures
        exists|before: Seq<char>, after: Seq<char>|
            exposition(lines) == #[trigger] (before + (lines[i].family.name_text() + "{"@
                + labels_text(lines[i].labels) + "} "@ + lines[i].value + "\n"@) + after) && (
            before.len() == 0 || before.last() == '\n'),
{
    law_header_before_first_sample(lines, i);
    let text = line_text(lines[i]);
    let start = exposition(lines.take(i)) + (if mentions(lines.take(i), lines[i].family) {
        seq![]
    } else {
        lines[i].family.header()
    });
    assert(exposition(lines.take(i + 1)) =~= start + text);
    if i + 1 < lines.len() {
        law_header_before_first_sample(lines, i + 1);
    } else {
        assert(lines.take(i + 1) =~= lines);
    }
    let whole = exposition(lines);
    let n = (start + text).len() as int;
    let after = whole.skip(n);
    assert(whole =~= (start + text) + after);
    lemma_ends_of_lines(lines.take(i));
    lemma_header_ends(lines[i].family);
    if start.len() > 0 {
        if mentions(lines.take(i), lines[i].family) {
            assert(start =~= exposition(lines.take(i)));
        } else {
            assert(start.last() == lines[i].family.header().last());
        }
    }
    assert(text == lines[i].family.name_text() + "{"@ + labels_text(lines[i].labels) + "} "@
        + lines[i].value + "\n"@);
    assert(whole == start + text + after);
}

/// An exposition is empty or ends with the end of a line.
proof fn lemma_ends_of_lines(lines: Seq<MetricLine>)
    ensures
        exposition(lines).len() == 0 || exposition(lines).last() == '\n',
{
    reveal_strlit("\n");
    if lines.len() > 0 {
        let text = line_text(lines.last());
        assert(text.last() == "\n"@.last());
        assert(exposition(lines).last() == text.last());
    }
}

/// A header ends with the end of a line.
proof fn lemma_header_ends(family: Family)
    ensures
        family.header().len() > 0,
        family.header().last() == '\n',
{
    reveal_strlit("\n");
    let text = type_line(family.name_text(), family.kind_text());
    assert(text.last() == "\n"@.last());
    assert(family.header().last() == text.last());
}

/// Every sample of every given GPU stands in the text as a line of its own.
pub proof fn law_every_gpu_is_in_the_text(
    gpus: Seq<GpuInfo>,
    gaps: Seq<Option<Single>>,
    i: int,
    sample: MetricLine,
)
    requires
        0 <= i < gpus.len(),
        entry_lines(entries(gpus, gaps)[i]).contains(sample),
    ensures
        exists|before: Seq<char>, after: Seq<char>|
            exposition(hardware_lines(entries(gpus, gaps))) == #[trigger] (before + (
            sample.family.name_text() + "{"@ + labels_text(sample.labels) + "} "@ + sample.value
                + "\n"@) + after) && (before.len() == 0 || before.last() == '\n'),
{
    let all = entries(gpus, gaps);
    law_entries_are_the_gpus(gpus, gaps, i);
    law_samples_are_those_of_the_gpus(all, sample);
    let lines = hardware_lines(all);
    assert(entry_lines(all[i]).contains(sample));
    let k = choose|k: int| 0 <= k < lines.len() && lines[k] == sample;
    law_every_sample_is_a_line(lines, k);
}

/// The place of a family among the families of an exposition. The remapping
/// families share one, and so do the summaries of the utilization samples.
pub open spec fn family_place(family: Family) -> int {
    match family {
        Family::NumaNodeId => 0,
        Family::GspFirmwareMode => 1,
        Family::GspFirmwareVersion => 2,
        Family::NvlinkRemoteDeviceType => 3,
        Family::GraphicsActive => 4,
        Family::SmActive => 5,
        Family::SmOccupancy => 6,
        Family::TensorActive => 7,
        Family::TensorHmmaActive => 8,
        Family::TensorImmaActive => 9,
        Family::TensorDfmaActive => 10,
        Family::Fp64Active => 11,
        Family::Fp32Active => 12,
        Family::Fp16Active => 13,
        Family::IntegerActive => 14,
        Family::MemoryBandwidthUtilization => 15,
        Family::PcieTx => 16,
        Family::PcieRx => 17,
        Family::NvlinkTx => 18,
        Family::NvlinkRx => 19,
        Family::NvdecActive => 20,
        Family::NvjpgActive => 21,
        Family::NvofaActive => 22,
        Family::HollowUtilization => 23,
        Family::ThrottleReason => 24,
        Family::EnergyHw => 25,
        Family::RemappedRows => 26,
        Family::RemappingPending => 26,
        Family::RemappingFailed => 26,
        Family::NvlinkErrors => 27,
        Family::UtilizationP50 => 28,
        Family::UtilizationP95 => 28,
        Family::UtilizationMax => 28,
        Family::XidEvents => 29,
    }
}

/// The places of the families ascend, and stay between two bounds.
spec fn graded(lines: Seq<MetricLine>, low: int, high: int) -> bool {
    &&& forall|i: int|
        0 <= i < lines.len() ==> low <= family_place((#[trigger] lines[i]).family) < high
    &&& forall|i: int, j: int|
        0 <= i < j < lines.len() ==> family_place((#[trigger] lines[i]).family) <= family_place(
            (#[trigger] lines[j]).family,
        )
}

/// Of two samples of one place, the later one is of no earlier GPU.
spec fn in_gpu_order(all: Seq<Entry>, lines: Seq<MetricLine>) -> bool {
    forall|i: int, j: int|
        0 <= i < j < lines.len() && family_place((#[trigger] lines[i]).family) == family_place(
            (#[trigger] lines[j]).family,
        ) ==> of_gpus_in_order(all, lines[i], lines[j])
}

/// The first sample is of one of the GPUs, and the second of that one or a later
/// one.
pub open spec fn of_gpus_in_order(all: Seq<Entry>, first: MetricLine, second: MetricLine) -> bool {
    exists|a: int, b: int|
        0 <= a <= b < all.len() && entry_lines(#[trigger] all[a]).contains(first) && entry_lines(
            #[trigger] all[b],
        ).contains(second)
}

/// Two samples of a list of items are of two items in the same order.
proof fn lemma_flat_owners<T>(
    items: Seq<T>,
    f: spec_fn(T) -> Seq<MetricLine>,
    i: int,
    j: int,
) -> (owners: (int, int))
    requires
        0 <= i <= j < flat(items, f).len(),
    ensures
        0 <= owners.0 <= owners.1 < items.len(),
        f(items[owners.0]).contains(flat(items, f)[i]),
        f(items[owners.1]).contains(flat(items, f)[j]),
    decreases items.len(),
{
    let earlier = items.drop_last();
    let last = items.len() - 1;
    let before = flat(earlier, f).len();
    let (first, second) = (flat(items, f)[i], flat(items, f)[j]);
    if j < before {
        let owners = lemma_flat_owners(earlier, f, i, j);
        (owners.0, owners.1)
    } else {
        assert(f(items.last())[j - before] == second);
        if i < before {
            let owners = lemma_flat_owners(earlier, f, i, i);
            (owners.0, last)
        } else {
            assert(f(items.last())[i - before] == first);
            (last, last)
        }
    }
}

/// The samples of one place, GPU by GPU, are in the order of the GPUs.
proof fn lemma_kind_in_order(
    all: Seq<Entry>,
    f: spec_fn(Entry) -> Seq<MetricLine>,
    place: int,
)
    requires
        forall|entry: Entry, sample: MetricLine| #[trigger]
            f(entry).contains(sample) ==> entry_lines(entry).contains(sample) && family_place(
                sample.family,
            ) == place,
    ensures
        in_gpu_order(all, flat(all, f)),
        graded(flat(all, f), place, place + 1),
{
    let lines = flat(all, f);
    assert forall|i: int| 0 <= i < lines.len() implies family_place((#[trigger] lines[i]).family)
        == place by {
        let owners = lemma_flat_owners(all, f, i, i);
        assert(f(all[owners.0]).contains(lines[i]));
    }
    assert forall|i: int, j: int|
        0 <= i < j < lines.len() && family_place((#[trigger] lines[i]).family) == family_place(
            (#[trigger] lines[j]).family,
        ) implies of_gpus_in_order(all, lines[i], lines[j]) by {
        let owners = lemma_flat_owners(all, f, i, j);
        assert(f(all[owners.0]).contains(lines[i]));
        assert(f(all[owners.1]).contains(lines[j]));
    }
}

/// Lists whose places follow each other make an ordered list.
proof fn lemma_order_joined(
    all: Seq<Entry>,
    a: Seq<MetricLine>,
    b: Seq<MetricLine>,
    low: int,
    middle: int,
    high: int,
)
    requires
        low <= middle <= high,
        in_gpu_order(all, a),
        in_gpu_order(all, b),
        graded(a, low, middle),
        graded(b, middle, high),
    ensures
        in_gpu_order(all, a + b),
        graded(a + b, low, high),
{
    let lines = a + b;
    let n = a.len() as int;
    assert forall|i: int, j: int| 0 <= i < j < lines.len() implies family_place(
        (#[trigger] lines[i]).family,
    ) <= family_place((#[trigger] lines[j]).family) && (family_place(lines[i].family)
        == family_place(lines[j].family) ==> of_gpus_in_order(all, lines[i], lines[j])) by {
        if j < n {
            assert(lines[i] == a[i] && lines[j] == a[j]);
        } else if i < n {
            assert(lines[i] == a[i] && lines[j] == b[j - n]);
        } else {
            assert(lines[i] == b[i - n] && lines[j] == b[j - n]);
        }
    }
}

/// The activity samples are in order.
proof fn lemma_activity_in_order(all: Seq<Entry>, n: int)
    requires
        0 <= n <= gpm_families().len(),
    ensures
        in_gpu_order(
            all,
            flat(
                gpm_families().take(n),
                |family: Family| flat(all, |entry: Entry| gpm_lines(entry, family)),
            ),
        ),
        graded(
            flat(
                gpm_families().take(n),
                |family: Family| flat(all, |entry: Entry| gpm_lines(entry, family)),
            ),
            4,
            4 + n,
        ),
    decreases n,
{
    let by_family = |family: Family| flat(all, |entry: Entry| gpm_lines(entry, family));
    if n > 0 {
        lemma_activity_in_order(all, n - 1);
        let family = gpm_families()[n - 1];
        let f = |entry: Entry| gpm_lines(entry, family);
        assert forall|entry: Entry, sample: MetricLine| #[trigger]
            f(entry).contains(sample) implies entry_lines(entry).contains(sample) && family_place(
            sample.family,
        ) == 3 + n by {
            assert(sample == gpm_lines(entry, family)[0]);
            assert(gpm_lines(entry, gpm_families()[n - 1]).contains(sample));
            lemma_line_is_published(entry, sample);
        }
        lemma_kind_in_order(all, f, 3 + n);
        lemma_flat_next(gpm_families(), by_family, n - 1);
        lemma_order_joined(
            all,
            flat(gpm_families().take(n - 1), by_family),
            flat(all, f),
            4,
            3 + n,
            4 + n,
        );
    }
}

/// These samples are in order.
proof fn lemma_numa_in_order(all: Seq<Entry>)
    ensures
        in_gpu_order(all, flat(all, |entry: Entry| numa_lines(entry))),
        graded(flat(all, |entry: Entry| numa_lines(entry)), 0, 1),
{
    let f = |entry: Entry| numa_lines(entry);
    assert forall|entry: Entry, sample: MetricLine| #[trigger]
        f(entry).contains(sample) implies entry_lines(entry).contains(sample) && family_place(
        sample.family,
    ) == 0 by {
        assert(numa_lines(entry).contains(sample));
        lemma_line_is_published(entry, sample);
    }
    lemma_kind_in_order(all, f, 0);
}

/// These samples are in order.
proof fn lemma_gsp_mode_in_order(all: Seq<Entry>)
    ensures
        in_gpu_order(all, flat(all, |entry: Entry| gsp_mode_lines(entry))),
        graded(flat(all, |entry: Entry| gsp_mode_lines(entry)), 1, 2),
{
    let f = |entry: Entry| gsp_mode_lines(entry);
    assert forall|entry: Entry, sample: MetricLine| #[trigger]
        f(entry).contains(sample) implies entry_lines(entry).contains(sample) && family_place(
        sample.family,
    ) == 1 by {
        assert(gsp_mode_lines(entry).contains(sample));
        lemma_line_is_published(entry, sample);
    }
    lemma_kind_in_order(all, f, 1);
}

/// These samples are in order.
proof fn lemma_gsp_version_in_order(all: Seq<Entry>)
    ensures
        in_gpu_order(all, flat(all, |entry: Entry| gsp_version_lines(entry))),
        graded(flat(all, |entry: Entry| gsp_version_lines(entry)), 2, 3),
{
    let f = |entry: Entry| gsp_version_lines(entry);
    assert forall|entry: Entry, sample: MetricLine| #[trigger]
        f(entry).contains(sample) implies entry_lines(entry).contains(sample) && family_place(
        sample.family,
    ) == 2 by {
        assert(gsp_version_lines(entry).contains(sample));
        lemma_line_is_published(entry, sample);
    }
    lemma_kind_in_order(all, f, 2);
}

/// These samples are in order.
proof fn lemma_nvlink_in_order(all: Seq<Entry>)
    ensures
        in_gpu_order(all, flat(all, |entry: Entry| nvlink_lines(entry))),
        graded(flat(all, |entry: Entry| nvlink_lines(entry)), 3, 4),
{
    let f = |entry: Entry| nvlink_lines(entry);
    assert forall|entry: Entry, sample: MetricLine| #[trigger]
        f(entry).contains(sample) implies entry_lines(entry).contains(sample) && family_place(
        sample.family,
    ) == 3 by {
        assert(nvlink_lines(entry).contains(sample));
        lemma_line_is_published(entry, sample);
    }
    lemma_kind_in_order(all, f, 3);
}

/// These samples are in order.
proof fn lemma_throttle_in_order(all: Seq<Entry>)
    ensures
        in_gpu_order(all, flat(all, |entry: Entry| throttle_lines(entry))),
        graded(flat(all, |entry: Entry| throttle_lines(entry)), 24, 25),
{
    let f = |entry: Entry| throttle_lines(entry);
    assert forall|entry: Entry, sample: MetricLine| #[trigger]
        f(entry).contains(sample) implies entry_lines(entry).contains(sample) && family_place(
        sample.family,
    ) == 24 by {
        assert(throttle_lines(entry).contains(sample));
        let reasons = entry.gpu.throttle_reasons->0.labels();
        assert(reason_lines(entry, reasons).contains(sample));
        lemma_line_is_published(entry, sample);
    }
    lemma_kind_in_order(all, f, 24);
}

/// These samples are in order.
proof fn lemma_energy_in_order(all: Seq<Entry>)
    ensures
        in_gpu_order(all, flat(all, |entry: Entry| energy_lines(entry))),
        graded(flat(all, |entry: Entry| energy_lines(entry)), 25, 26),
{
    let f = |entry: Entry| energy_lines(entry);
    assert forall|entry: Entry, sample: MetricLine| #[trigger]
        f(entry).contains(sample) implies entry_lines(entry).contains(sample) && family_place(
        sample.family,
    ) == 25 by {
        assert(energy_lines(entry).contains(sample));
        lemma_line_is_published(entry, sample);
    }
    lemma_kind_in_order(all, f, 25);
}

/// These samples are in order.
proof fn lemma_remapped_in_order(all: Seq<Entry>)
    ensures
        in_gpu_order(all, flat(all, |entry: Entry| remapped_lines(entry))),
        graded(flat(all, |entry: Entry| remapped_lines(entry)), 26, 27),
{
    let f = |entry: Entry| remapped_lines(entry);
    assert forall|entry: Entry, sample: MetricLine| #[trigger]
        f(entry).contains(sample) implies entry_lines(entry).contains(sample) && family_place(
        sample.family,
    ) == 26 by {
        assert(remapped_lines(entry).contains(sample));
        lemma_line_is_published(entry, sample);
    }
    lemma_kind_in_order(all, f, 26);
}

/// These samples are in order.
proof fn lemma_nvlink_error_in_order(all: Seq<Entry>)
    ensures
        in_gpu_order(all, flat(all, |entry: Entry| nvlink_error_lines(entry))),
        graded(flat(all, |entry: Entry| nvlink_error_lines(entry)), 27, 28),
{
    let f = |entry: Entry| nvlink_error_lines(entry);
    assert forall|entry: Entry, sample: MetricLine| #[trigger]
        f(entry).contains(sample) implies entry_lines(entry).contains(sample) && family_place(
        sample.family,
    ) == 27 by {
        assert(nvlink_error_lines(entry).contains(sample));
        lemma_line_is_published(entry, sample);
    }
    lemma_kind_in_order(all, f, 27);
}

/// These samples are in order.
proof fn lemma_utilization_in_order(all: Seq<Entry>)
    ensures
        in_gpu_order(all, flat(all, |entry: Entry| utilization_lines(entry))),
        graded(flat(all, |entry: Entry| utilization_lines(entry)), 28, 29),
{
    let f = |entry: Entry| utilization_lines(entry);
    assert forall|entry: Entry, sample: MetricLine| #[trigger]
        f(entry).contains(sample) implies entry_lines(entry).contains(sample) && family_place(
        sample.family,
    ) == 28 by {
        assert(utilization_lines(entry).contains(sample));
        lemma_line_is_published(entry, sample);
    }
    lemma_kind_in_order(all, f, 28);
}

/// These samples are in order.
proof fn lemma_xid_in_order(all: Seq<Entry>)
    ensures
        in_gpu_order(all, flat(all, |entry: Entry| xid_lines(entry))),
        graded(flat(all, |entry: Entry| xid_lines(entry)), 29, 30),
{
    let f = |entry: Entry| xid_lines(entry);
    assert forall|entry: Entry, sample: MetricLine| #[trigger]
        f(entry).contains(sample) implies entry_lines(entry).contains(sample) && family_place(
        sample.family,
    ) == 29 by {
        assert(xid_lines(entry).contains(sample));
        lemma_line_is_published(entry, sample);
    }
    lemma_kind_in_order(all, f, 29);
}

/// The families stand in their order, and the samples of a family in the order of
/// the GPUs.
pub proof fn law_samples_stand_in_order(all: Seq<Entry>, i: int, j: int)
    requires
        0 <= i < j < hardware_lines(all).len(),
    ensures
        family_place(hardware_lines(all)[i].family) <= family_place(hardware_lines(all)[j].family),
        hardware_lines(all)[i].family == hardware_lines(all)[j].family ==> of_gpus_in_order(
            all,
            hardware_lines(all)[i],
            hardware_lines(all)[j],
        ),
{
    lemma_numa_in_order(all);
    let sofar = flat(all, |entry: Entry| numa_lines(entry));
    lemma_gsp_mode_in_order(all);
    let next = flat(all, |entry: Entry| gsp_mode_lines(entry));
    lemma_order_joined(all, sofar, next, 0, 1, 2);
    let sofar = sofar + next;
    lemma_gsp_version_in_order(all);
    let next = flat(all, |entry: Entry| gsp_version_lines(entry));
    lemma_order_joined(all, sofar, next, 0, 2, 3);
    let sofar = sofar + next;
    lemma_nvlink_in_order(all);
    let next = flat(all, |entry: Entry| nvlink_lines(entry));
    lemma_order_joined(all, sofar, next, 0, 3, 4);
    let sofar = sofar + next;
    lemma_activity_in_order(all, 20);
    assert(gpm_families().take(20) =~= gpm_families());
    let next = all_gpm_lines(all);
    lemma_order_joined(all, sofar, next, 0, 4, 24);
    let sofar = sofar + next;
    lemma_throttle_in_order(all);
    let next = flat(all, |entry: Entry| throttle_lines(entry));
    lemma_order_joined(all, sofar, next, 0, 24, 25);
    let sofar = sofar + next;
    lemma_energy_in_order(all);
    let next = flat(all, |entry: Entry| energy_lines(entry));
    lemma_order_joined(all, sofar, next, 0, 25, 26);
    let sofar = sofar + next;
    lemma_remapped_in_order(all);
    let next = flat(all, |entry: Entry| remapped_lines(entry));
    lemma_order_joined(all, sofar, next, 0, 26, 27);
    let sofar = sofar + next;
    lemma_nvlink_error_in_order(all);
    let next = flat(all, |entry: Entry| nvlink_error_lines(entry));
    lemma_order_joined(all, sofar, next, 0, 27, 28);
    let sofar = sofar + next;
    lemma_utilization_in_order(all);
    let next = flat(all, |entry: Entry| utilization_lines(entry));
    lemma_order_joined(all, sofar, next, 0, 28, 29);
    let sofar = sofar + next;
    lemma_xid_in_order(all);
    let next = flat(all, |entry: Entry| xid_lines(entry));
    lemma_order_joined(all, sofar, next, 0, 29, 30);
    let sofar = sofar + next;
    assert(sofar == hardware_lines(all));
}

/// The event samples of a GPU ascend by their codes.
pub proof fn law_event_samples_ascend(entry: Entry, i: int, j: int)
    requires
        0 <= i < j < xid_lines(entry).len(),
    ensures
        exists|a: u32, b: u32|
            a < b && #[trigger] entry.gpu.xid_event_counts@.contains_key(a) && #[trigger]
            entry.gpu.xid_event_counts@.contains_key(b) && xid_lines(entry)[i].labels.last() == (
                "xid"@,
                decimal(a as nat),
            ) && xid_lines(entry)[j].labels.last() == ("xid"@, decimal(b as nat)),
{
    let counts = entry.gpu.xid_event_counts@;
    vstd::std_specs::hash::axiom_hashmap_view_finite_dom(entry.gpu.xid_event_counts);
    lemma_counts_ordered(counts);
    let list = in_order(coded(counts));
    assert(list.to_set().contains(list[i]) && list.to_set().contains(list[j]));
    assert(coded(counts).contains(list[i]) && coded(counts).contains(list[j]));
    let (a, b) = (list[i].0 as u32, list[j].0 as u32);
    assert(counts.contains_key(a) && counts.contains_key(b));
}

/// The same of any number of samples: the published percentiles are samples whose
/// ranks, by counting, lie within one and a 2^20th of the number of samples of half, and
/// of 95 hundredths, of the greatest rank.
pub proof fn law_percentile_samples_of_many(
    entry: Entry,
    samples: Seq<UtilizationSample>,
    sample: MetricLine,
)
    requires
        entry.gpu.utilization_samples matches Some(list) && list@ == samples,
        0 < samples.len() <= u64::MAX,
        entry_lines(entry).contains(sample),
    ensures
        sample.family.name_text() == "all_smi_gpu_utilization_sample_p50"@ ==> exists|
            v: UtilizationSample,
            rank: int,
        | #[trigger]
            samples.contains(v) && sample.value == v.value.text@ && samples.filter(
                |s: UtilizationSample| single_key(s.value.bits) < single_key(v.value.bits),
            ).len() <= rank && samples.filter(
                |s: UtilizationSample| single_key(s.value.bits) <= single_key(v.value.bits),
            ).len() > rank && #[trigger] near_share(rank, 50, samples.len()),
        sample.family.name_text() == "all_smi_gpu_utilization_sample_p95"@ ==> exists|
            v: UtilizationSample,
            rank: int,
        | #[trigger]
            samples.contains(v) && sample.value == v.value.text@ && samples.filter(
                |s: UtilizationSample| single_key(s.value.bits) < single_key(v.value.bits),
            ).len() <= rank && samples.filter(
                |s: UtilizationSample| single_key(s.value.bits) <= single_key(v.value.bits),
            ).len() > rank && #[trigger] near_share(rank, 95, samples.len()),
{
    lemma_sample_of_its_family(entry, sample);
    lemma_family_of_name(sample.family, Family::UtilizationP50);
    lemma_family_of_name(sample.family, Family::UtilizationP95);
    let len = samples.len();
    law_published_ranks_are_near(len);
    let (half, most) = (percentile_rank(0x4248_0000, len), percentile_rank(0x42BE_0000, len));
    law_rank_is_a_count(samples, half);
    law_rank_is_a_count(samples, most);
}

/// How many of the samples belong to a family.
pub open spec fn samples_of(lines: Seq<MetricLine>, family: Family) -> nat {
    lines.filter(|line: MetricLine| line.family == family).len()
}

/// The samples of a family in two lists are those of both.
proof fn lemma_samples_joined(a: Seq<MetricLine>, b: Seq<MetricLine>, family: Family)
    ensures
        samples_of(a + b, family) == samples_of(a, family) + samples_of(b, family),
{
    Seq::filter_distributes_over_add(a, b, |line: MetricLine| line.family == family);
}

/// A list whose samples are all of other families has none of a family, and one of a
/// single sample at most one.
proof fn lemma_few_samples(lines: Seq<MetricLine>, family: Family)
    ensures
        samples_of(lines, family) <= lines.len(),
        (forall|i: int| 0 <= i < lines.len() ==> (#[trigger] lines[i]).family != family)
            ==> samples_of(lines, family) == 0,
    decreases lines.len(),
{
    reveal(Seq::filter);
    if lines.len() > 0 {
        let earlier = lines.drop_last();
        lemma_few_samples(earlier, family);
        if forall|i: int| 0 <= i < lines.len() ==> (#[trigger] lines[i]).family != family {
            assert(lines[lines.len() - 1].family != family);
            assert forall|i: int| 0 <= i < earlier.len() implies (#[trigger] earlier[i]).family
                != family by {
                assert(lines[i].family != family);
            }
        }
    }
}

/// The activity families have one sample at most.
proof fn lemma_one_activity_sample(entry: Entry, family: Family, n: int)
    requires
        0 <= n <= gpm_families().len(),
    ensures
        samples_of(
            flat(gpm_families().take(n), |family: Family| gpm_lines(entry, family)),
            family,
        ) <= (if 4 <= family_place(family) < 4 + n {
            1int
        } else {
            0
        }),
    decreases n,
{
    let of_entry = |family: Family| gpm_lines(entry, family);
    if n > 0 {
        lemma_one_activity_sample(entry, family, n - 1);
        lemma_flat_next(gpm_families(), of_entry, n - 1);
        let own = gpm_families()[n - 1];
        assert(family_place(own) == 3 + n);
        lemma_samples_joined(flat(gpm_families().take(n - 1), of_entry), of_entry(own), family);
        lemma_few_samples(of_entry(own), family);
        assert(forall|i: int|
            0 <= i < of_entry(own).len() ==> (#[trigger] of_entry(own)[i]).family == own);
    } else {
        lemma_few_samples(flat(gpm_families().take(0), of_entry), family);
    }
}

/// A GPU has one sample at most of every family but those that have one for each link,
/// reason, cause, error counter or event code; of the remapped rows it has two.
pub proof fn law_one_sample_of_a_family(entry: Entry, family: Family)
    ensures
        family.name_text() == "all_smi_nvlink_remote_device_type"@ ==> samples_of(
            entry_lines(entry),
            family,
        ) <= entry.gpu.nvlink_remote_devices@.len(),
        family.name_text() == "all_smi_gpu_throttle_reason"@ ==> samples_of(
            entry_lines(entry),
            family,
        ) <= 9,
        family.name_text() == "all_smi_gpu_remapped_rows"@ ==> samples_of(
            entry_lines(entry),
            family,
        ) <= 2,
        family.name_text() == "all_smi_gpu_nvlink_errors_total"@ ==> samples_of(
            entry_lines(entry),
            family,
        ) <= entry.gpu.nvlink_errors@.len(),
        family.name_text() != "all_smi_nvlink_remote_device_type"@ && family.name_text()
            != "all_smi_gpu_throttle_reason"@ && family.name_text() != "all_smi_gpu_remapped_rows"@
            && family.name_text() != "all_smi_gpu_nvlink_errors_total"@ && family.name_text()
            != "all_smi_gpu_xid_events_total"@ ==> samples_of(entry_lines(entry), family) <= 1,
{
    lemma_family_of_name(family, Family::NvlinkRemoteDeviceType);
    lemma_family_of_name(family, Family::ThrottleReason);
    lemma_family_of_name(family, Family::RemappedRows);
    lemma_family_of_name(family, Family::NvlinkErrors);
    let activity = flat(gpm_families(), |family: Family| gpm_lines(entry, family));
    lemma_one_activity_sample(entry, family, 20);
    assert(gpm_families().take(20) =~= gpm_families());
    lemma_samples_by_kind(entry, family);
    let a = numa_lines(entry);
    let b = gsp_mode_lines(entry);
    let c = gsp_version_lines(entry);
    let d = nvlink_lines(entry);
    let f = throttle_lines(entry);
    let g = energy_lines(entry);
    let h = remapped_lines(entry);
    let k = nvlink_error_lines(entry);
    let l = utilization_lines(entry);
    let m = xid_lines(entry);
    lemma_samples_joined(a, b, family);
    lemma_samples_joined(a + b, c, family);
    lemma_samples_joined(a + b + c, d, family);
    lemma_samples_joined(a + b + c + d, activity, family);
    lemma_samples_joined(a + b + c + d + activity, f, family);
    lemma_samples_joined(a + b + c + d + activity + f, g, family);
    lemma_samples_joined(a + b + c + d + activity + f + g, h, family);
    lemma_samples_joined(a + b + c + d + activity + f + g + h, k, family);
    lemma_samples_joined(a + b + c + d + activity + f + g + h + k, l, family);
    lemma_samples_joined(a + b + c + d + activity + f + g + h + k + l, m, family);
}

/// How many samples of a family each kind of samples has.
proof fn lemma_samples_by_kind(entry: Entry, family: Family)
    ensures
        samples_of(numa_lines(entry), family) <= (if family == Family::NumaNodeId {
            1int
        } else {
            0
        }),
        samples_of(gsp_mode_lines(entry), family) <= (if family == Family::GspFirmwareMode {
            1int
        } else {
            0
        }),
        samples_of(gsp_version_lines(entry), family) <= (if family == Family::GspFirmwareVersion {
            1int
        } else {
            0
        }),
        samples_of(nvlink_lines(entry), family) <= (if family == Family::NvlinkRemoteDeviceType {
            entry.gpu.nvlink_remote_devices@.len() as int
        } else {
            0
        }),
        samples_of(throttle_lines(entry), family) <= (if family == Family::ThrottleReason {
            9int
        } else {
            0
        }),
        samples_of(energy_lines(entry), family) <= (if family == Family::EnergyHw {
            1int
        } else {
            0
        }),
        samples_of(remapped_lines(entry), family) <= (match family {
            Family::RemappedRows => 2int,
            Family::RemappingPending => 1,
            Family::RemappingFailed => 1,
            _ => 0,
        }),
        samples_of(nvlink_error_lines(entry), family) <= (if family == Family::NvlinkErrors {
            entry.gpu.nvlink_errors@.len() as int
        } else {
            0
        }),
        samples_of(utilization_lines(entry), family) <= (match family {
            Family::UtilizationP50 => 1int,
            Family::UtilizationP95 => 1,
            Family::UtilizationMax => 1,
            _ => 0,
        }),
        family != Family::XidEvents ==> samples_of(xid_lines(entry), family) == 0,
{
    lemma_few_samples(numa_lines(entry), family);
    lemma_few_samples(gsp_mode_lines(entry), family);
    lemma_few_samples(gsp_version_lines(entry), family);
    lemma_few_samples(nvlink_lines(entry), family);
    lemma_few_samples(energy_lines(entry), family);
    lemma_few_samples(nvlink_error_lines(entry), family);
    lemma_few_samples(xid_lines(entry), family);
    lemma_few_samples(throttle_lines(entry), family);
    if entry.gpu.throttle_reasons is Some {
        let reasons = entry.gpu.throttle_reasons->0;
        law_labels_are_few(reasons);
        assert(throttle_lines(entry).len() == reasons.labels().len());
    }
    let rows = remapped_lines(entry);
    if rows.len() > 0 {
        assert(rows =~= seq![rows[0]] + seq![rows[1]] + seq![rows[2]] + seq![rows[3]]);
        lemma_samples_joined(seq![rows[0]], seq![rows[1]], family);
        lemma_samples_joined(seq![rows[0]] + seq![rows[1]], seq![rows[2]], family);
        lemma_samples_joined(
            seq![rows[0]] + seq![rows[1]] + seq![rows[2]],
            seq![rows[3]],
            family,
        );
        lemma_few_samples(seq![rows[0]], family);
        lemma_few_samples(seq![rows[1]], family);
        lemma_few_samples(seq![rows[2]], family);
        lemma_few_samples(seq![rows[3]], family);
    } else {
        lemma_few_samples(rows, family);
    }
    let summaries = utilization_lines(entry);
    if summaries.len() > 0 {
        assert(summaries =~= seq![summaries[0]] + seq![summaries[1]] + seq![summaries[2]]);
        lemma_samples_joined(seq![summaries[0]], seq![summaries[1]], family);
        lemma_samples_joined(seq![summaries[0]] + seq![summaries[1]], seq![summaries[2]], family);
        lemma_few_samples(seq![summaries[0]], family);
        lemma_few_samples(seq![summaries[1]], family);
        lemma_few_samples(seq![summaries[2]], family);
    } else {
        lemma_few_samples(summaries, family);
    }
}

} // verus!
