//! What plain NVML queries add to the activity metrics: throttle reasons, the
//! PCIe fallback, remapped rows, NvLink errors, utilization samples and
//! per-process utilization.
//!
//! The queries themselves are made by the caller; a query that failed arrives
//! here as `None`.
use crate::number::{
    cut_to_u64, double_at_least_zero, double_finite, double_to_u64, is_at_least_zero, is_finite,
    is_whole_number, law_zero_is_zero, whole_number, Double,
};
use crate::types::{
    unmeasured, GpmMetrics, NvLinkErrorCount, RemappedRowsInfo, TelemetrySource,
    ThrottleReasons, UtilizationSample,
};
use nvml_wrapper::bitmasks::device::ThrottleReasons as NvmlThrottleReasons;
use std::collections::HashMap;
use vstd::prelude::*;

verus! {

/// At most this many utilization samples are kept.
pub const MAX_UTIL_SAMPLES: usize = 64;

/// Links with an index below this are probed for errors.
pub const MAX_NVLINKS: usize = 18;

/// NVML's bit for an idle GPU.
pub const REASON_GPU_IDLE: u64 = 0x1;

/// NVML's bit for the application clock setting.
pub const REASON_APP_CLOCKS: u64 = 0x2;

/// NVML's bit for the software power cap.
pub const REASON_SW_POWER_CAP: u64 = 0x4;

/// NVML's bit for the hardware slowdown.
pub const REASON_HW_SLOWDOWN: u64 = 0x8;

/// NVML's bit for sync boost.
pub const REASON_SYNC_BOOST: u64 = 0x10;

/// NVML's bit for the software thermal slowdown.
pub const REASON_SW_THERMAL: u64 = 0x20;

/// NVML's bit for the hardware thermal slowdown.
pub const REASON_HW_THERMAL: u64 = 0x40;

/// NVML's bit for the hardware power brake.
pub const REASON_HW_POWER_BRAKE: u64 = 0x80;

/// NVML's bit for the display clock setting.
pub const REASON_DISPLAY_CLOCKS: u64 = 0x100;

/// Asks `ThrottleReasons::contains` of `nvml_wrapper`, on values made with
/// `from_bits_retain`, whether `reasons` has every bit of `flag`.
#[verifier::external_body]
fn throttle_contains(reasons: u64, flag: u64) -> (contained: bool)
    ensures
        contained == (reasons & flag == flag),
{
    NvmlThrottleReasons::from_bits_retain(reasons).contains(
        NvmlThrottleReasons::from_bits_retain(flag),
    )
}

/// The reasons that a mask of NVML reason bits names.
pub open spec fn reasons_of(mask: u64) -> ThrottleReasons {
    ThrottleReasons {
        gpu_idle: mask & REASON_GPU_IDLE == REASON_GPU_IDLE,
        app_clocks: mask & REASON_APP_CLOCKS == REASON_APP_CLOCKS,
        sw_power_cap: mask & REASON_SW_POWER_CAP == REASON_SW_POWER_CAP,
        hw_slowdown: mask & REASON_HW_SLOWDOWN == REASON_HW_SLOWDOWN,
        sync_boost: mask & REASON_SYNC_BOOST == REASON_SYNC_BOOST,
        sw_thermal: mask & REASON_SW_THERMAL == REASON_SW_THERMAL,
        hw_thermal: mask & REASON_HW_THERMAL == REASON_HW_THERMAL,
        hw_power_brake: mask & REASON_HW_POWER_BRAKE == REASON_HW_POWER_BRAKE,
        display_clocks: mask & REASON_DISPLAY_CLOCKS == REASON_DISPLAY_CLOCKS,
    }
}

/// Reads the mask that `current_throttle_reasons` returned.
pub fn collect_throttle_reasons(mask: Option<u64>) -> (reasons: Option<ThrottleReasons>)
    ensures
        reasons == match mask {
            Some(mask) => Some(reasons_of(mask)),
            None => None::<ThrottleReasons>,
        },
{
    match mask {
        None => None,
        Some(mask) => Some(
            ThrottleReasons {
                gpu_idle: throttle_contains(mask, REASON_GPU_IDLE),
                app_clocks: throttle_contains(mask, REASON_APP_CLOCKS),
                sw_power_cap: throttle_contains(mask, REASON_SW_POWER_CAP),
                hw_slowdown: throttle_contains(mask, REASON_HW_SLOWDOWN),
                sync_boost: throttle_contains(mask, REASON_SYNC_BOOST),
                sw_thermal: throttle_contains(mask, REASON_SW_THERMAL),
                hw_thermal: throttle_contains(mask, REASON_HW_THERMAL),
                hw_power_brake: throttle_contains(mask, REASON_HW_POWER_BRAKE),
                display_clocks: throttle_contains(mask, REASON_DISPLAY_CLOCKS),
            },
        ),
    }
}

/// A reading, or what stands in for it when there is none.
pub open spec fn or_else<T>(reading: Option<T>, fallback: Option<T>) -> Option<T> {
    if reading is Some {
        reading
    } else {
        fallback
    }
}

/// The metrics after the PCIe fallback: a missing rate is taken from the
/// fallback, and metrics that had no source are then attributed to NVML.
pub open spec fn with_pcie_fallback(
    gpm: Option<GpmMetrics>,
    tx: Option<Double>,
    rx: Option<Double>,
) -> Option<GpmMetrics> {
    if tx is None && rx is None {
        gpm
    } else {
        let metrics = match gpm {
            Some(metrics) => metrics,
            None => unmeasured(),
        };
        let used = (metrics.pcie_tx_bytes_per_sec is None && tx is Some) || (
        metrics.pcie_rx_bytes_per_sec is None && rx is Some);
        Some(
            GpmMetrics {
                pcie_tx_bytes_per_sec: or_else(metrics.pcie_tx_bytes_per_sec, tx),
                pcie_rx_bytes_per_sec: or_else(metrics.pcie_rx_bytes_per_sec, rx),
                source: if used && metrics.source is None {
                    Some(TelemetrySource::Nvml)
                } else {
                    metrics.source
                },
                ..metrics
            },
        )
    }
}

/// Whether `rate` is the rate in bytes per second of a throughput in KiB per
/// second, absent where there is no throughput.
pub open spec fn is_rate_of(rate: Option<Double>, throughput: Option<u32>) -> bool {
    match throughput {
        Some(kib) => rate matches Some(rate) && is_whole_number(rate, (kib * 1024) as nat),
        None => rate is None,
    }
}

/// The rate in bytes per second of a throughput in KiB per second.
fn rate_of_throughput(throughput: Option<u32>) -> (rate: Option<Double>)
    ensures
        is_rate_of(rate, throughput),
{
    match throughput {
        Some(kib) => Some(whole_number(kib as u64 * 1024)),
        None => None,
    }
}

/// Fills the PCIe rates that the activity metrics lack from the throughput
/// that NVML reported for each direction, in KiB per second.
pub fn apply_pcie_throughput_fallback(
    tx_throughput: Option<u32>,
    rx_throughput: Option<u32>,
    gpm: &mut Option<GpmMetrics>,
)
    ensures
        exists|tx: Option<Double>, rx: Option<Double>|
            is_rate_of(tx, tx_throughput) && is_rate_of(rx, rx_throughput) && *final(gpm)
                == #[trigger] with_pcie_fallback(*old(gpm), tx, rx),
{
    let tx = rate_of_throughput(tx_throughput);
    let rx = rate_of_throughput(rx_throughput);
    let ghost (tx_rate, rx_rate) = (tx, rx);
    if tx.is_none() && rx.is_none() {
        assert(*gpm == with_pcie_fallback(*old(gpm), tx_rate, rx_rate));
        return ;
    }
    let mut metrics: GpmMetrics = match gpm.take() {
        Some(metrics) => metrics,
        None => GpmMetrics::default(),
    };
    let mut used_fallback = false;
    if metrics.pcie_tx_bytes_per_sec.is_none() {
        if let Some(rate) = tx {
            metrics.pcie_tx_bytes_per_sec = Some(rate);
            used_fallback = true;
        }
    }
    if metrics.pcie_rx_bytes_per_sec.is_none() {
        if let Some(rate) = rx {
            metrics.pcie_rx_bytes_per_sec = Some(rate);
            used_fallback = true;
        }
    }
    if used_fallback && metrics.source.is_none() {
        metrics.source = Some(TelemetrySource::Nvml);
    }
    *gpm = Some(metrics);
    assert(*gpm == with_pcie_fallback(*old(gpm), tx_rate, rx_rate));
}

/// A value of one of NVML's sample types; a double by its bit pattern.
#[derive(Clone, Copy, Debug, PartialEq, Eq, Structural)]
pub enum SampleValue {
    F64(u64),
    U32(u32),
    U64(u64),
    I64(i64),
}

/// The value as an unsigned integer, when it is a finite number not below zero.
pub open spec fn unsigned_value(value: SampleValue) -> Option<u64> {
    match value {
        SampleValue::U32(v) => Some(v as u64),
        SampleValue::U64(v) => Some(v),
        SampleValue::I64(v) => if v >= 0 {
            Some(v as u64)
        } else {
            None
        },
        SampleValue::F64(bits) => if double_at_least_zero(bits) && double_finite(bits) {
            Some(double_to_u64(bits) as u64)
        } else {
            None
        },
    }
}

/// Computes [`unsigned_value`].
pub fn sample_value_as_u64(value: &SampleValue) -> (number: Option<u64>)
    ensures
        number == unsigned_value(*value),
{
    match *value {
        SampleValue::U32(v) => Some(v as u64),
        SampleValue::U64(v) => Some(v),
        SampleValue::I64(v) => if v >= 0 {
            Some(v as u64)
        } else {
            None
        },
        SampleValue::F64(bits) => if is_at_least_zero(bits) && is_finite(bits) {
            Some(cut_to_u64(bits))
        } else {
            None
        },
    }
}

/// NVML's field of the rows remapped for correctable errors.
pub const FIELD_REMAPPED_CORRECTABLE: u32 = 142;

/// NVML's field of the rows remapped for uncorrectable errors.
pub const FIELD_REMAPPED_UNCORRECTABLE: u32 = 143;

/// NVML's field that tells whether a row remapping is pending.
pub const FIELD_REMAPPING_PENDING: u32 = 144;

/// NVML's field that tells whether a row remapping failed.
pub const FIELD_REMAPPING_FAILED: u32 = 145;

/// The fields to query for the row-remapping state, in order.
pub fn remapped_row_fields() -> (fields: Vec<u32>)
    ensures
        fields@ == seq![
            FIELD_REMAPPED_CORRECTABLE,
            FIELD_REMAPPED_UNCORRECTABLE,
            FIELD_REMAPPING_PENDING,
            FIELD_REMAPPING_FAILED,
        ],
        fields@ == seq![142u32, 143, 144, 145],
{
    let fields: Vec<u32> = vec![
        FIELD_REMAPPED_CORRECTABLE,
        FIELD_REMAPPED_UNCORRECTABLE,
        FIELD_REMAPPING_PENDING,
        FIELD_REMAPPING_FAILED,
    ];
    assert(fields@ =~= seq![
        FIELD_REMAPPED_CORRECTABLE,
        FIELD_REMAPPED_UNCORRECTABLE,
        FIELD_REMAPPING_PENDING,
        FIELD_REMAPPING_FAILED,
    ]);
    fields
}

/// The number read for the field at place `i`: zero when the field was not
/// delivered or is not a number that can be counted.
pub open spec fn field_number(values: Seq<Option<SampleValue>>, i: int) -> u64 {
    if 0 <= i < values.len() && values[i] is Some && unsigned_value(values[i]->0) is Some {
        unsigned_value(values[i]->0)->0
    } else {
        0
    }
}

/// The remapping state read from the first `n` fields.
pub open spec fn remapped_from(values: Seq<Option<SampleValue>>, n: int) -> RemappedRowsInfo {
    RemappedRowsInfo {
        correctable: if n > 0 {
            field_number(values, 0) as u32
        } else {
            0
        },
        uncorrectable: if n > 1 {
            field_number(values, 1) as u32
        } else {
            0
        },
        pending: n > 2 && field_number(values, 2) != 0,
        failed: n > 3 && field_number(values, 3) != 0,
    }
}

/// Whether any of the first `n` fields was delivered.
pub open spec fn any_delivered(values: Seq<Option<SampleValue>>, n: int) -> bool {
    exists|i: int| 0 <= i < n && #[trigger] values[i] is Some
}

/// Reads the values of [`remapped_row_fields`]: correctable rows, uncorrectable rows,
/// pending, failed. Nothing is reported unless a field was delivered.
pub fn collect_remapped_rows(values: Option<&[Option<SampleValue>]>) -> (info: Option<
    RemappedRowsInfo,
>)
    ensures
        info == match values {
            Some(values) => if any_delivered(values@, values@.len() as int) {
                Some(remapped_from(values@, values@.len() as int))
            } else {
                None
            },
            None => None::<RemappedRowsInfo>,
        },
{
    let values: &[Option<SampleValue>] = match values {
        Some(values) => values,
        None => {
            return None;
        },
    };
    let mut info = RemappedRowsInfo::default();
    let mut any = false;
    let mut i: usize = 0;
    while i < values.len()
        invariant
            i <= values@.len(),
            info == remapped_from(values@, i as int),
            any == any_delivered(values@, i as int),
        decreases values@.len() - i,
    {
        if let Some(value) = &values[i] {
            any = true;
            assert(values@[i as int] is Some);
            let number: u64 = match sample_value_as_u64(value) {
                Some(number) => number,
                None => 0,
            };
            if i == 0 {
                info.correctable = #[verifier::truncate] (number as u32);
            } else if i == 1 {
                info.uncorrectable = #[verifier::truncate] (number as u32);
            } else if i == 2 {
                info.pending = number != 0;
            } else if i == 3 {
                info.failed = number != 0;
            }
        }
        i += 1;
    }
    if any {
        Some(info)
    } else {
        None
    }
}

/// What was read of one NvLink: whether it is active, and its error counters.
#[derive(Clone, Copy, Debug, PartialEq, Eq)]
pub struct LinkReading {
    pub active: Option<bool>,
    pub crc_flit: Option<u64>,
    pub crc_data: Option<u64>,
    pub replay: Option<u64>,
    pub recovery: Option<u64>,
}

/// An error counter: link, kind of error, count.
pub type ErrorCount = (u32, Seq<char>, u64);

/// The content of a reported counter.
pub open spec fn error_count(error: NvLinkErrorCount) -> ErrorCount {
    (error.link_index, error.error_type@, error.count)
}

/// The contents of reported counters.
pub open spec fn error_counts(errors: Seq<NvLinkErrorCount>) -> Seq<ErrorCount> {
    errors.map_values(|error: NvLinkErrorCount| error_count(error))
}

/// One counter, when it could be read.
pub open spec fn counter(link: u32, kind: Seq<char>, count: Option<u64>) -> Seq<ErrorCount> {
    match count {
        Some(count) => seq![(link, kind, count)],
        None => seq![],
    }
}

/// The counters of one link; none while it is not known to be active.
pub open spec fn link_counts(link: u32, reading: LinkReading) -> Seq<ErrorCount> {
    if reading.active == Some(true) {
        counter(link, "crc_flit"@, reading.crc_flit) + counter(
            link,
            "crc_data"@,
            reading.crc_data,
        ) + counter(link, "replay"@, reading.replay) + counter(
            link,
            "recovery"@,
            reading.recovery,
        )
    } else {
        seq![]
    }
}

/// The counters of all links, in the order of the links.
pub open spec fn all_counts(links: Seq<LinkReading>) -> Seq<ErrorCount>
    decreases links.len(),
{
    if links.len() == 0 {
        seq![]
    } else {
        all_counts(links.drop_last()) + link_counts((links.len() - 1) as u32, links.last())
    }
}

/// Appends a counter that could be read.
fn push_counter(
    errors: &mut Vec<NvLinkErrorCount>,
    link_index: u32,
    kind: &str,
    count: Option<u64>,
)
    ensures
        error_counts(final(errors)@) == error_counts(old(errors)@) + counter(
            link_index,
            kind@,
            count,
        ),
{
    if let Some(count) = count {
        errors.push(NvLinkErrorCount { link_index, error_type: kind.to_owned(), count });
    }
    assert(error_counts(errors@) =~= error_counts(old(errors)@) + counter(
        link_index,
        kind@,
        count,
    ));
}

/// The error counters of the active links; `links[i]` is what was read of the
/// link with index `i`.
pub fn collect_nvlink_errors(links: &[LinkReading]) -> (errors: Vec<NvLinkErrorCount>)
    ensures
        error_counts(errors@) == all_counts(
            links@.take(vstd::math::min(links@.len() as int, MAX_NVLINKS as int)),
        ),
        error_counts(errors@) == all_counts(
            links@.take(
                if links@.len() < 18 {
                    links@.len() as int
                } else {
                    18
                },
            ),
        ),
        forall|k: int| 0 <= k < errors@.len() ==> {
            let error = #[trigger] errors@[k];
            let link = error.link_index as int;
            &&& link < 18 && link < links@.len() && links@[link].active == Some(true)
            &&& error.error_type@ == "crc_flit"@ ==> links@[link].crc_flit == Some(error.count)
            &&& error.error_type@ == "crc_data"@ ==> links@[link].crc_data == Some(error.count)
            &&& error.error_type@ == "replay"@ ==> links@[link].replay == Some(error.count)
            &&& error.error_type@ == "recovery"@ ==> links@[link].recovery == Some(error.count)
        },
{
    let mut errors: Vec<NvLinkErrorCount> = Vec::new();
    let mut i: usize = 0;
    assert(error_counts(errors@) =~= all_counts(links@.take(0)));
    while i < links.len() && i < MAX_NVLINKS
        invariant
            i <= links@.len(),
            i <= MAX_NVLINKS,
            error_counts(errors@) == all_counts(links@.take(i as int)),
        decreases MAX_NVLINKS - i,
    {
        let link = links[i];
        let active: bool = match link.active {
            Some(active) => active,
            None => false,
        };
        let ghost earlier = error_counts(errors@);
        if active {
            push_counter(&mut errors, i as u32, "crc_flit", link.crc_flit);
            push_counter(&mut errors, i as u32, "crc_data", link.crc_data);
            push_counter(&mut errors, i as u32, "replay", link.replay);
            push_counter(&mut errors, i as u32, "recovery", link.recovery);
        }
        proof {
            assert(links@.take(i + 1).drop_last() =~= links@.take(i as int));
            assert(error_counts(errors@) =~= earlier + link_counts(i as u32, link));
        }
        i += 1;
    }
    proof {
        let probed = links@.take(i as int);
        assert forall|k: int| 0 <= k < errors@.len() implies {
            let error = #[trigger] errors@[k];
            let link = error.link_index as int;
            &&& link < 18 && link < links@.len() && links@[link].active == Some(true)
            &&& error.error_type@ == "crc_flit"@ ==> links@[link].crc_flit == Some(error.count)
            &&& error.error_type@ == "crc_data"@ ==> links@[link].crc_data == Some(error.count)
            &&& error.error_type@ == "replay"@ ==> links@[link].replay == Some(error.count)
            &&& error.error_type@ == "recovery"@ ==> links@[link].recovery == Some(error.count)
        } by {
            let error = errors@[k];
            assert(error_counts(errors@)[k] == error_count(error));
            assert(error_counts(errors@).contains(error_count(error)));
            law_errors_are_those_of_active_links(probed, error_count(error));
            assert(probed[error.link_index as int] == links@[error.link_index as int]);
            lemma_kinds_differ();
        }
    }
    errors
}

/// The kinds of NvLink errors have different names.
proof fn lemma_kinds_differ()
    ensures
        "crc_flit"@ != "crc_data"@,
        "crc_flit"@ != "replay"@,
        "crc_flit"@ != "recovery"@,
        "crc_data"@ != "replay"@,
        "crc_data"@ != "recovery"@,
        "replay"@ != "recovery"@,
{
    reveal_strlit("crc_flit");
    reveal_strlit("crc_data");
    reveal_strlit("replay");
    reveal_strlit("recovery");
    assert("crc_flit"@[4] == 'f' && "crc_data"@[4] == 'd');
    assert("crc_flit"@[0] == 'c' && "crc_data"@[0] == 'c');
    assert("replay"@.len() == 6 && "recovery"@.len() == 8);
    assert("replay"@[0] == 'r' && "recovery"@[0] == 'r');
}

/// A counter of a joined list is one of either part.
proof fn lemma_joined_counts(a: Seq<ErrorCount>, b: Seq<ErrorCount>, error: ErrorCount)
    ensures
        (a + b).contains(error) <==> a.contains(error) || b.contains(error),
{
    if a.contains(error) {
        let i = choose|i: int| 0 <= i < a.len() && a[i] == error;
        assert((a + b)[i] == error);
    }
    if b.contains(error) {
        let i = choose|i: int| 0 <= i < b.len() && b[i] == error;
        assert((a + b)[a.len() + i] == error);
    }
    if (a + b).contains(error) {
        let i = choose|i: int| 0 <= i < (a + b).len() && (a + b)[i] == error;
        if i < a.len() {
            assert(a[i] == error);
        } else {
            assert(b[i - a.len()] == error);
        }
    }
}

/// A counter is reported exactly when its link is active and its own kind was
/// read with that count: `crc_flit`, `crc_data`, `replay` and `recovery` each
/// from the reading of that name, and no other link or kind.
pub proof fn law_errors_are_those_of_active_links(links: Seq<LinkReading>, error: ErrorCount)
    requires
        links.len() <= u32::MAX,
    ensures
        all_counts(links).contains(error) <==> error.0 < links.len() && links[error.0 as int].active
            == Some(true) && ((error.1 == "crc_flit"@ && links[error.0 as int].crc_flit == Some(
            error.2,
        )) || (error.1 == "crc_data"@ && links[error.0 as int].crc_data == Some(error.2)) || (
        error.1 == "replay"@ && links[error.0 as int].replay == Some(error.2)) || (error.1
            == "recovery"@ && links[error.0 as int].recovery == Some(error.2))),
    decreases links.len(),
{
    if links.len() > 0 {
        let link = (links.len() - 1) as u32;
        let reading = links.last();
        let earlier = links.drop_last();
        law_errors_are_those_of_active_links(earlier, error);
        if error.0 < link {
            assert(earlier[error.0 as int] == links[error.0 as int]);
        }
        let flit = counter(link, "crc_flit"@, reading.crc_flit);
        let data = counter(link, "crc_data"@, reading.crc_data);
        let replay = counter(link, "replay"@, reading.replay);
        let recovery = counter(link, "recovery"@, reading.recovery);
        lemma_joined_counts(all_counts(earlier), link_counts(link, reading), error);
        lemma_joined_counts(flit, data, error);
        lemma_joined_counts(flit + data, replay, error);
        lemma_joined_counts(flit + data + replay, recovery, error);
        if reading.crc_flit is Some {
            assert(flit[0] == (link, "crc_flit"@, reading.crc_flit->0));
        }
        if reading.crc_data is Some {
            assert(data[0] == (link, "crc_data"@, reading.crc_data->0));
        }
        if reading.replay is Some {
            assert(replay[0] == (link, "replay"@, reading.replay->0));
        }
        if reading.recovery is Some {
            assert(recovery[0] == (link, "recovery"@, reading.recovery->0));
        }
    }
}

/// No counter of a link is reported twice, and the links come in order.
pub proof fn law_links_are_reported_in_order(links: Seq<LinkReading>, j: int, k: int)
    requires
        links.len() <= u32::MAX,
        0 <= j < k < all_counts(links).len(),
    ensures
        all_counts(links)[j].0 <= all_counts(links)[k].0,
        all_counts(links)[j].0 == all_counts(links)[k].0 ==> all_counts(links)[j].1 != all_counts(
            links,
        )[k].1,
        all_counts(links)[k].0 < links.len(),
    decreases links.len(),
{
    let earlier = links.drop_last();
    let before = all_counts(earlier).len();
    let link = (links.len() - 1) as u32;
    lemma_kinds_differ();
    if k < before {
        law_links_are_reported_in_order(earlier, j, k);
    } else if j < before {
        assert(all_counts(earlier).contains(all_counts(earlier)[j]));
        law_errors_are_those_of_active_links(earlier, all_counts(earlier)[j]);
        assert(link_counts(link, links.last())[k - before].0 == link);
    } else {
        let own = link_counts(link, links.last());
        assert(own[j - before].0 == link && own[k - before].0 == link);
    }
}

/// The latest time stamp of the samples, no earlier than `start`.
pub open spec fn latest(times: Seq<u64>, start: u64) -> u64
    decreases times.len(),
{
    if times.len() == 0 {
        start
    } else if times.last() > latest(times.drop_last(), start) {
        times.last()
    } else {
        latest(times.drop_last(), start)
    }
}

/// A time stamp that may be missing, with zero in its place.
pub open spec fn time_or_zero(time: Option<u64>) -> u64 {
    match time {
        Some(time) => time,
        None => 0,
    }
}

/// The time stamps of utilization samples.
pub open spec fn sample_times(samples: Seq<UtilizationSample>) -> Seq<u64> {
    samples.map_values(|sample: UtilizationSample| sample.timestamp_us)
}

/// The newest samples, at most [`MAX_UTIL_SAMPLES`] of them.
pub open spec fn newest_samples(samples: Seq<UtilizationSample>) -> Seq<UtilizationSample> {
    if samples.len() > MAX_UTIL_SAMPLES {
        samples.skip(samples.len() - MAX_UTIL_SAMPLES)
    } else {
        samples
    }
}

/// Recent utilization samples, newest last and capped at [`MAX_UTIL_SAMPLES`],
/// with the time stamp to continue from. Nothing when the query failed or
/// delivered no sample.
pub fn collect_utilization_samples(
    samples: Option<Vec<UtilizationSample>>,
    last_ts: Option<u64>,
) -> (collected: Option<(Vec<UtilizationSample>, u64)>)
    ensures
        match collected {
            Some((kept, newest)) => {
                &&& samples matches Some(delivered)
                &&& delivered@.len() > 0
                &&& kept@ == newest_samples(delivered@)
                &&& newest == latest(sample_times(delivered@), time_or_zero(last_ts))
            },
            None => samples matches Some(delivered) ==> delivered@.len() == 0,
        },
{
    let mut out: Vec<UtilizationSample> = match samples {
        Some(samples) => samples,
        None => {
            return None;
        },
    };
    if out.len() == 0 {
        return None;
    }
    let mut newest_ts: u64 = match last_ts {
        Some(time) => time,
        None => 0,
    };
    let ghost delivered = out@;
    let mut i: usize = 0;
    assert(sample_times(delivered).take(0).len() == 0);
    while i < out.len()
        invariant
            out@ == delivered,
            i <= out@.len(),
            newest_ts == latest(sample_times(delivered).take(i as int), time_or_zero(last_ts)),
        decreases out@.len() - i,
    {
        let ghost times = sample_times(delivered);
        assert(times.take(i + 1).drop_last() =~= times.take(i as int));
        if out[i].timestamp_us > newest_ts {
            newest_ts = out[i].timestamp_us;
        }
        i += 1;
    }
    assert(sample_times(delivered).take(i as int) =~= sample_times(delivered));
    if out.len() > MAX_UTIL_SAMPLES {
        let skip: usize = out.len() - MAX_UTIL_SAMPLES;
        out = out.split_off(skip);
        assert(out@ =~= newest_samples(delivered));
    }
    Some((out, newest_ts))
}

/// One reading of the utilization of one process, in percent.
#[derive(Clone, Copy, Debug, PartialEq, Eq)]
pub struct ProcessUtilReading {
    pub pid: u32,
    pub timestamp: u64,
    pub sm_util: u32,
    pub mem_util: u32,
    pub enc_util: u32,
    pub dec_util: u32,
}

/// The utilization of one process, in percent.
#[derive(Clone, Copy, Debug, PartialEq, Eq)]
pub struct ProcessUtil {
    pub sm: u32,
    pub mem: Option<u32>,
    pub enc: Option<u32>,
    pub dec: Option<u32>,
}

impl Default for ProcessUtil {
    fn default() -> (util: Self)
        ensures
            util == (ProcessUtil { sm: 0, mem: None, enc: None, dec: None }),
    {
        ProcessUtil { sm: 0, mem: None, enc: None, dec: None }
    }
}

/// The utilization that a reading reports.
pub open spec fn process_util(reading: ProcessUtilReading) -> ProcessUtil {
    ProcessUtil {
        sm: reading.sm_util,
        mem: Some(reading.mem_util),
        enc: Some(reading.enc_util),
        dec: Some(reading.dec_util),
    }
}

/// The utilization by process: the last reading of each.
pub open spec fn util_by_pid(readings: Seq<ProcessUtilReading>) -> Map<u32, ProcessUtil>
    decreases readings.len(),
{
    if readings.len() == 0 {
        Map::empty()
    } else {
        util_by_pid(readings.drop_last()).insert(
            readings.last().pid,
            process_util(readings.last()),
        )
    }
}

/// The time stamps of process readings.
pub open spec fn reading_times(readings: Seq<ProcessUtilReading>) -> Seq<u64> {
    readings.map_values(|reading: ProcessUtilReading| reading.timestamp)
}

/// The last utilization reading of each process, with the time stamp to
/// continue from. An empty map when the query failed.
pub fn collect_process_util_by_pid(
    readings: Option<&[ProcessUtilReading]>,
    last_seen: Option<u64>,
) -> (collected: (HashMap<u32, ProcessUtil>, u64))
    ensures
        collected.0@ == match readings {
            Some(readings) => util_by_pid(readings@),
            None => Map::<u32, ProcessUtil>::empty(),
        },
        collected.1 == match readings {
            Some(readings) => latest(reading_times(readings@), time_or_zero(last_seen)),
            None => time_or_zero(last_seen),
        },
{
    broadcast use vstd::std_specs::hash::group_hash_axioms;

    let mut newest: u64 = match last_seen {
        Some(time) => time,
        None => 0,
    };
    let mut map: HashMap<u32, ProcessUtil> = HashMap::new();
    let readings: &[ProcessUtilReading] = match readings {
        Some(readings) => readings,
        None => {
            return (map, newest);
        },
    };
    let mut i: usize = 0;
    while i < readings.len()
        invariant
            i <= readings@.len(),
            map@ == util_by_pid(readings@.take(i as int)),
            newest == latest(reading_times(readings@).take(i as int), time_or_zero(last_seen)),
        decreases readings@.len() - i,
    {
        let reading = readings[i];
        if reading.timestamp > newest {
            newest = reading.timestamp;
        }
        map.insert(
            reading.pid,
            ProcessUtil {
                sm: reading.sm_util,
                mem: Some(reading.mem_util),
                enc: Some(reading.enc_util),
                dec: Some(reading.dec_util),
            },
        );
        proof {
            assert(readings@.take(i + 1).drop_last() =~= readings@.take(i as int));
            let times = reading_times(readings@);
            assert(times.take(i + 1).drop_last() =~= times.take(i as int));
        }
        i += 1;
    }
    proof {
        assert(readings@.take(i as int) =~= readings@);
        assert(reading_times(readings@).take(i as int) =~= reading_times(readings@));
    }
    (map, newest)
}

/// The time stamp to continue from is the latest of all, and never before the
/// one that the query started from.
pub proof fn law_latest_is_the_maximum(times: Seq<u64>, start: u64)
    ensures
        latest(times, start) >= start,
        forall|i: int| 0 <= i < times.len() ==> latest(times, start) >= #[trigger] times[i],
        latest(times, start) == start || times.contains(latest(times, start)),
    decreases times.len(),
{
    if times.len() > 0 {
        let earlier = times.drop_last();
        law_latest_is_the_maximum(earlier, start);
        assert forall|i: int| 0 <= i < times.len() implies latest(times, start)
            >= #[trigger] times[i] by {
            if i < times.len() - 1 {
                assert(earlier[i] == times[i]);
            }
        }
        if latest(times, start) == times.last() {
            assert(times[times.len() - 1] == latest(times, start));
        } else if earlier.contains(latest(earlier, start)) {
            let i = choose|i: int| 0 <= i < earlier.len() && earlier[i] == latest(earlier, start);
            assert(times[i] == latest(times, start));
        }
    }
}

/// The fallback keeps every rate that was measured, and every source.
pub proof fn law_pcie_fallback_only_fills(
    metrics: GpmMetrics,
    tx: Option<Double>,
    rx: Option<Double>,
)
    ensures
        with_pcie_fallback(Some(metrics), tx, rx) matches Some(after) && (
        metrics.pcie_tx_bytes_per_sec is Some ==> after.pcie_tx_bytes_per_sec
            == metrics.pcie_tx_bytes_per_sec) && (metrics.pcie_rx_bytes_per_sec is Some
            ==> after.pcie_rx_bytes_per_sec == metrics.pcie_rx_bytes_per_sec) && (metrics.source
            is Some ==> after.source == metrics.source),
{
}

/// No more samples are kept than the limit, and those are the last ones.
pub proof fn law_newest_samples_are_kept(samples: Seq<UtilizationSample>, i: int)
    requires
        0 <= i < newest_samples(samples).len(),
    ensures
        newest_samples(samples).len() <= MAX_UTIL_SAMPLES,
        newest_samples(samples)[i] == samples[samples.len() - newest_samples(samples).len() + i],
{
}

/// A process has the utilization of its last reading.
pub proof fn law_last_reading_counts(readings: Seq<ProcessUtilReading>, i: int)
    requires
        0 <= i < readings.len(),
        forall|j: int| i < j < readings.len() ==> (#[trigger] readings[j]).pid != readings[i].pid,
    ensures
        util_by_pid(readings).contains_key(readings[i].pid),
        util_by_pid(readings)[readings[i].pid] == process_util(readings[i]),
    decreases readings.len(),
{
    let last = readings.len() - 1;
    if i < last {
        let earlier = readings.drop_last();
        assert(readings[last].pid != readings[i].pid);
        assert forall|j: int| i < j < earlier.len() implies (#[trigger] earlier[j]).pid
            != earlier[i].pid by {
            assert(readings[j].pid != readings[i].pid);
        }
        law_last_reading_counts(earlier, i);
    }
}

/// Each throttle reason stands for its own bit of the mask, and for no other.
pub proof fn law_reasons_stand_for_bits(mask: u64)
    ensures
        ({
            let reasons = reasons_of(mask);
            &&& reasons.gpu_idle <==> mask & 0x1 != 0
            &&& reasons.app_clocks <==> mask & 0x2 != 0
            &&& reasons.sw_power_cap <==> mask & 0x4 != 0
            &&& reasons.hw_slowdown <==> mask & 0x8 != 0
            &&& reasons.sync_boost <==> mask & 0x10 != 0
            &&& reasons.sw_thermal <==> mask & 0x20 != 0
            &&& reasons.hw_thermal <==> mask & 0x40 != 0
            &&& reasons.hw_power_brake <==> mask & 0x80 != 0
            &&& reasons.display_clocks <==> mask & 0x100 != 0
        }),
{
    assert(forall|flag: u64|
        flag == 0x1 || flag == 0x2 || flag == 0x4 || flag == 0x8 || flag == 0x10 || flag == 0x20
            || flag == 0x40 || flag == 0x80 || flag == 0x100 ==> ((#[trigger] (mask & flag) != 0)
            <==> mask & flag == flag)) by (bit_vector);
}

/// A missing PCIe rate becomes the throughput of its own direction, 1024 bytes
/// for each KiB; the rates and everything else that were there stay.
pub proof fn law_pcie_rates_are_of_their_direction(
    before: Option<GpmMetrics>,
    tx_throughput: Option<u32>,
    rx_throughput: Option<u32>,
    tx: Option<Double>,
    rx: Option<Double>,
    after: Option<GpmMetrics>,
)
    requires
        is_rate_of(tx, tx_throughput),
        is_rate_of(rx, rx_throughput),
        after == with_pcie_fallback(before, tx, rx),
    ensures
        tx_throughput is None && rx_throughput is None ==> after == before,
        tx_throughput matches Some(kib) ==> (after matches Some(now) && now.pcie_tx_bytes_per_sec
            matches Some(rate) && (if before is Some && before->0.pcie_tx_bytes_per_sec is Some {
            rate == before->0.pcie_tx_bytes_per_sec->0
        } else {
            is_whole_number(rate, (kib * 1024) as nat)
        })),
        rx_throughput matches Some(kib) ==> (after matches Some(now) && now.pcie_rx_bytes_per_sec
            matches Some(rate) && (if before is Some && before->0.pcie_rx_bytes_per_sec is Some {
            rate == before->0.pcie_rx_bytes_per_sec->0
        } else {
            is_whole_number(rate, (kib * 1024) as nat)
        })),
        after is Some && tx_throughput is None ==> after->0.pcie_tx_bytes_per_sec == (
        if before is Some {
            before->0.pcie_tx_bytes_per_sec
        } else {
            None
        }),
        after is Some && rx_throughput is None ==> after->0.pcie_rx_bytes_per_sec == (
        if before is Some {
            before->0.pcie_rx_bytes_per_sec
        } else {
            None
        }),
        before matches Some(was) ==> (after matches Some(now) && was == (GpmMetrics {
            pcie_tx_bytes_per_sec: was.pcie_tx_bytes_per_sec,
            pcie_rx_bytes_per_sec: was.pcie_rx_bytes_per_sec,
            source: was.source,
            ..now
        })),
        before is Some && before->0.source is Some ==> after->0.source == before->0.source,
        before is None && after is Some ==> after->0.source == Some(TelemetrySource::Nvml),
        before is Some && before->0.source is None ==> after->0.source == (if (
        before->0.pcie_tx_bytes_per_sec is None && tx_throughput is Some) || (
        before->0.pcie_rx_bytes_per_sec is None && rx_throughput is Some) {
            Some(TelemetrySource::Nvml)
        } else {
            None
        }),
{
}

/// The four fields are correctable rows, uncorrectable rows, the pending and the
/// failed flag, in this order; each depends on its own value alone, and without
/// any delivered value there is no state.
pub proof fn law_remapped_fields_in_order(values: Seq<Option<SampleValue>>)
    requires
        values.len() == 4,
    ensures
        ({
            let info = remapped_from(values, 4);
            &&& info.correctable == (match values[0] {
                Some(SampleValue::U32(v)) => v,
                Some(SampleValue::U64(v)) => v as u32,
                Some(SampleValue::I64(v)) => if v < 0 {
                    0
                } else {
                    (v as u64) as u32
                },
                Some(SampleValue::F64(v)) => if v < 0x7FF0_0000_0000_0000 {
                    (double_to_u64(v) as u64) as u32
                } else {
                    0
                },
                None => 0,
            })
            &&& info.uncorrectable == (match values[1] {
                Some(SampleValue::U32(v)) => v,
                Some(SampleValue::U64(v)) => v as u32,
                Some(SampleValue::I64(v)) => if v < 0 {
                    0
                } else {
                    (v as u64) as u32
                },
                Some(SampleValue::F64(v)) => if v < 0x7FF0_0000_0000_0000 {
                    (double_to_u64(v) as u64) as u32
                } else {
                    0
                },
                None => 0,
            })
            &&& info.pending == (match values[2] {
                Some(SampleValue::U32(v)) => v != 0,
                Some(SampleValue::U64(v)) => v != 0,
                Some(SampleValue::I64(v)) => v > 0,
                Some(SampleValue::F64(v)) => v < 0x7FF0_0000_0000_0000 && double_to_u64(v) != 0,
                None => false,
            })
            &&& info.failed == (match values[3] {
                Some(SampleValue::U32(v)) => v != 0,
                Some(SampleValue::U64(v)) => v != 0,
                Some(SampleValue::I64(v)) => v > 0,
                Some(SampleValue::F64(v)) => v < 0x7FF0_0000_0000_0000 && double_to_u64(v) != 0,
                None => false,
            })
        }),
        any_delivered(values, 4) <==> values[0] is Some || values[1] is Some || values[2] is Some
            || values[3] is Some,
{
    law_zero_is_zero();
}

/// A process has the utilization that its reading names: SM, memory, encoder and
/// decoder each from the reading of that name.
pub proof fn law_utilization_goes_to_its_field(readings: Seq<ProcessUtilReading>, i: int)
    requires
        0 <= i < readings.len(),
        forall|j: int| i < j < readings.len() ==> (#[trigger] readings[j]).pid != readings[i].pid,
    ensures
        ({
            let util = util_by_pid(readings)[readings[i].pid];
            &&& util.sm == readings[i].sm_util
            &&& util.mem == Some(readings[i].mem_util)
            &&& util.enc == Some(readings[i].enc_util)
            &&& util.dec == Some(readings[i].dec_util)
        }),
{
    law_last_reading_counts(readings, i);
}

/// Only processes with a reading have a utilization.
pub proof fn law_no_utilization_is_invented(readings: Seq<ProcessUtilReading>, pid: u32)
    ensures
        util_by_pid(readings).contains_key(pid) <==> exists|i: int|
            0 <= i < readings.len() && (#[trigger] readings[i]).pid == pid,
    decreases readings.len(),
{
    if readings.len() > 0 {
        let earlier = readings.drop_last();
        law_no_utilization_is_invented(earlier, pid);
        if util_by_pid(readings).contains_key(pid) && readings.last().pid != pid {
            let i = choose|i: int| 0 <= i < earlier.len() && (#[trigger] earlier[i]).pid == pid;
            assert(readings[i].pid == pid);
        }
        if exists|i: int| 0 <= i < readings.len() && (#[trigger] readings[i]).pid == pid {
            let i = choose|i: int| 0 <= i < readings.len() && (#[trigger] readings[i]).pid == pid;
            if i < earlier.len() {
                assert(earlier[i].pid == pid);
            }
        }
    }
}

/// Up to 64 samples are all kept; of more, the last 64 are.
pub proof fn law_sixty_four_samples_are_kept(samples: Seq<UtilizationSample>)
    ensures
        samples.len() <= 64 ==> newest_samples(samples) == samples,
        samples.len() > 64 ==> newest_samples(samples).len() == 64 && newest_samples(samples)
            == samples.subrange(samples.len() - 64, samples.len() as int),
{
    if samples.len() > 64 {
        assert(newest_samples(samples) =~= samples.subrange(
            samples.len() - 64,
            samples.len() as int,
        ));
    }
}

/// A field that was not queried counts as zero or as not set, and values behind the
/// fourth do not matter.
pub proof fn law_remapped_fields_have_their_places(values: Seq<Option<SampleValue>>)
    ensures
        ({
            let info = remapped_from(values, values.len() as int);
            &&& values.len() < 1 ==> info.correctable == 0
            &&& values.len() < 2 ==> info.uncorrectable == 0
            &&& values.len() < 3 ==> !info.pending
            &&& values.len() < 4 ==> !info.failed
            &&& values.len() >= 1
                ==> info.correctable == remapped_from(values.take(1), 1).correctable
            &&& values.len() >= 2 ==> info.uncorrectable == remapped_from(
                values.take(2),
                2,
            ).uncorrectable
            &&& values.len() >= 3 ==> info.pending == remapped_from(values.take(3), 3).pending
            &&& values.len() >= 4 ==> info == remapped_from(values.take(4), 4)
        }),
{
}

/// Integers that are not negative are read as they are, and finite numbers that are not
/// below zero are cut to integers; anything else is no count.
pub proof fn law_counts_are_not_negative(value: SampleValue)
    ensures
        value matches SampleValue::U32(v) ==> unsigned_value(value) == Some(v as u64),
        value matches SampleValue::U64(v) ==> unsigned_value(value) == Some(v),
        value matches SampleValue::I64(v) ==> (unsigned_value(value) is Some <==> v >= 0) && (v
            >= 0 ==> unsigned_value(value)->0 == v),
        value matches SampleValue::F64(bits) ==> (unsigned_value(value) is Some <==> bits
            < 0x7FF0_0000_0000_0000 || bits == 0x8000_0000_0000_0000) && (bits
            < 0x7FF0_0000_0000_0000 ==> unsigned_value(value)->0 == double_to_u64(bits)) && (bits
            == 0x8000_0000_0000_0000 ==> unsigned_value(value) == Some(0u64)),
{
    law_zero_is_zero();
}

/// The time stamp to continue from goes by the time stamps of the readings, and by zero
/// where there was none before.
pub proof fn law_times_are_those_of_the_readings(
    samples: Seq<UtilizationSample>,
    readings: Seq<ProcessUtilReading>,
    time: u64,
)
    ensures
        sample_times(samples).len() == samples.len(),
        forall|i: int|
            0 <= i < samples.len() ==> #[trigger] sample_times(samples)[i]
                == samples[i].timestamp_us,
        reading_times(readings).len() == readings.len(),
        forall|i: int|
            0 <= i < readings.len() ==> #[trigger] reading_times(readings)[i]
                == readings[i].timestamp,
        time_or_zero(None) == 0,
        time_or_zero(Some(time)) == time,
{
}

} // verus!
