//! NVML GPU performance monitoring: from two time-separated samples to
//! activity metrics.
//!
//! The handle of the previous sample of each GPU is kept across polls. The
//! first poll stores a sample and has no metrics; each later poll compares its
//! sample with the one before.
use crate::number::{
    double_at_least_zero, double_finite, is_at_least_zero, is_finite, single_is_nan, single_key,
    single_nan, single_order, Double, Single, SINGLE_ONE,
};
use crate::text_map::TextMap;
use crate::types::{GpmMetrics, TelemetrySource};
use vstd::prelude::*;

verus! {

/// The environment variable that switches the collector off when it is set to
/// anything but `0`, `false`, `no` or blanks.
pub const DISABLE_GPM_ENV_VAR: &'static str = "ALL_SMI_NVIDIA_DISABLE_GPM";

/// The metrics of NVML that are used, and any other one.
#[derive(Clone, Copy, Debug, PartialEq, Eq, Structural)]
pub enum GpmMetricId {
    GraphicsUtil,
    SmUtil,
    SmOccupancy,
    AnyTensorUtil,
    HmmaTensorUtil,
    ImmaTensorUtil,
    DfmaTensorUtil,
    Fp64Util,
    Fp32Util,
    Fp16Util,
    IntegerUtil,
    DramBwUtil,
    PcieTxPerSec,
    PcieRxPerSec,
    NvlinkTotalTxPerSec,
    NvlinkTotalRxPerSec,
    Nvdec0Util,
    Nvdec1Util,
    Nvdec2Util,
    Nvdec3Util,
    Nvdec4Util,
    Nvdec5Util,
    Nvdec6Util,
    Nvdec7Util,
    Nvjpg0Util,
    Nvjpg1Util,
    Nvjpg2Util,
    Nvjpg3Util,
    Nvjpg4Util,
    Nvjpg5Util,
    Nvjpg6Util,
    Nvjpg7Util,
    Nvofa0Util,
    Nvofa1Util,
    Other,
}

/// The metrics that every poll asks for, in order.
pub open spec fn requested() -> Seq<GpmMetricId> {
    seq![
        GpmMetricId::GraphicsUtil,
        GpmMetricId::SmUtil,
        GpmMetricId::SmOccupancy,
        GpmMetricId::AnyTensorUtil,
        GpmMetricId::HmmaTensorUtil,
        GpmMetricId::ImmaTensorUtil,
        GpmMetricId::DfmaTensorUtil,
        GpmMetricId::Fp64Util,
        GpmMetricId::Fp32Util,
        GpmMetricId::Fp16Util,
        GpmMetricId::IntegerUtil,
        GpmMetricId::DramBwUtil,
        GpmMetricId::PcieTxPerSec,
        GpmMetricId::PcieRxPerSec,
        GpmMetricId::NvlinkTotalTxPerSec,
        GpmMetricId::NvlinkTotalRxPerSec,
        GpmMetricId::Nvdec0Util,
        GpmMetricId::Nvdec1Util,
        GpmMetricId::Nvdec2Util,
        GpmMetricId::Nvdec3Util,
        GpmMetricId::Nvdec4Util,
        GpmMetricId::Nvdec5Util,
        GpmMetricId::Nvdec6Util,
        GpmMetricId::Nvdec7Util,
        GpmMetricId::Nvjpg0Util,
        GpmMetricId::Nvjpg1Util,
        GpmMetricId::Nvjpg2Util,
        GpmMetricId::Nvjpg3Util,
        GpmMetricId::Nvjpg4Util,
        GpmMetricId::Nvjpg5Util,
        GpmMetricId::Nvjpg6Util,
        GpmMetricId::Nvjpg7Util,
        GpmMetricId::Nvofa0Util,
        GpmMetricId::Nvofa1Util,
    ]
}

/// The metrics that every poll asks for, in order.
pub fn requested_ids() -> (ids: Vec<GpmMetricId>)
    ensures
        ids@ == requested(),
{
    let ids = vec![
        GpmMetricId::GraphicsUtil,
        GpmMetricId::SmUtil,
        GpmMetricId::SmOccupancy,
        GpmMetricId::AnyTensorUtil,
        GpmMetricId::HmmaTensorUtil,
        GpmMetricId::ImmaTensorUtil,
        GpmMetricId::DfmaTensorUtil,
        GpmMetricId::Fp64Util,
        GpmMetricId::Fp32Util,
        GpmMetricId::Fp16Util,
        GpmMetricId::IntegerUtil,
        GpmMetricId::DramBwUtil,
        GpmMetricId::PcieTxPerSec,
        GpmMetricId::PcieRxPerSec,
        GpmMetricId::NvlinkTotalTxPerSec,
        GpmMetricId::NvlinkTotalRxPerSec,
        GpmMetricId::Nvdec0Util,
        GpmMetricId::Nvdec1Util,
        GpmMetricId::Nvdec2Util,
        GpmMetricId::Nvdec3Util,
        GpmMetricId::Nvdec4Util,
        GpmMetricId::Nvdec5Util,
        GpmMetricId::Nvdec6Util,
        GpmMetricId::Nvdec7Util,
        GpmMetricId::Nvjpg0Util,
        GpmMetricId::Nvjpg1Util,
        GpmMetricId::Nvjpg2Util,
        GpmMetricId::Nvjpg3Util,
        GpmMetricId::Nvjpg4Util,
        GpmMetricId::Nvjpg5Util,
        GpmMetricId::Nvjpg6Util,
        GpmMetricId::Nvjpg7Util,
        GpmMetricId::Nvofa0Util,
        GpmMetricId::Nvofa1Util,
    ];
    assert(ids@ =~= requested());
    ids
}

/// A metric that NVML delivered.
#[derive(Debug, PartialEq, Eq)]
pub struct GpmReading {
    pub metric_id: GpmMetricId,
    /// The bit pattern of the value.
    pub value: u64,
    /// A hundredth of the value, rounded to single precision.
    pub ratio: Single,
    /// A million times the value.
    pub rate: Double,
}

/// Bit pattern of the greatest ratio that still counts as one, 1.05.
pub const RATIO_TOLERANCE: u32 = 0x3F86_6666;

/// The single-precision number one.
pub open spec fn is_one(value: Single) -> bool {
    value.bits == SINGLE_ONE && value.text@ == "1"@
}

/// Whether `ratio` is the activity that a percentage stands for: from zero to
/// one it is itself, up to five percent more counts as one.
pub open spec fn is_activity(value: u64, ratio: Single, activity: Option<Single>) -> bool {
    if !double_finite(value) || single_is_nan(ratio.bits) || single_key(ratio.bits) < 0
        || single_key(ratio.bits) > single_key(RATIO_TOLERANCE) {
        activity is None
    } else if single_key(ratio.bits) <= single_key(SINGLE_ONE) {
        activity == Some(ratio)
    } else {
        activity matches Some(one) && is_one(one)
    }
}

/// The activity that a percentage stands for, given the bit pattern of the
/// percentage and the ratio that it makes.
pub fn pct_to_ratio(value: u64, ratio: &Single) -> (activity: Option<Single>)
    ensures
        is_activity(value, *ratio, activity),
        value < 0x7FF0_0000_0000_0000 && ratio.bits <= 0x3F80_0000 ==> activity == Some(*ratio),
        activity matches Some(published) ==> published == *ratio || (0x3F80_0000 < ratio.bits
            <= 0x3F86_6666 && published.bits == 0x3F80_0000),
{
    if !is_finite(value) || single_nan(ratio.bits) {
        return None;
    }
    let key: i64 = single_order(ratio.bits);
    if 0 <= key && key <= single_order(SINGLE_ONE) {
        Some(ratio.clone())
    } else if key > single_order(SINGLE_ONE) && key <= single_order(RATIO_TOLERANCE) {
        Some(Single { bits: SINGLE_ONE, text: "1".to_owned() })
    } else {
        None
    }
}

/// The rate in bytes per second that a value stands for: the scaled value,
/// unless the value is negative or not a number.
pub open spec fn rate_of(value: u64, rate: Double) -> Option<Double> {
    if double_finite(value) && double_at_least_zero(value) {
        Some(rate)
    } else {
        None
    }
}

/// Computes [`rate_of`].
pub fn rate_bytes(value: u64, rate: &Double) -> (bytes: Option<Double>)
    ensures
        bytes == rate_of(value, *rate),
{
    if is_finite(value) && is_at_least_zero(value) {
        Some(rate.clone())
    } else {
        None
    }
}

/// What a delivered metric at place `i` measures: what was asked for at that
/// place; behind the last request, what the metric itself says.
pub open spec fn measured(i: int, reading: GpmReading) -> GpmMetricId {
    if i < requested().len() {
        requested()[i]
    } else {
        reading.metric_id
    }
}

/// The reading that counts for a metric: the last one that was delivered.
pub open spec fn reading_of(results: Seq<Option<GpmReading>>, id: GpmMetricId) -> Option<
    GpmReading,
>
    decreases results.len(),
{
    if results.len() == 0 {
        None
    } else {
        match results.last() {
            Some(reading) if measured(results.len() - 1, reading) == id => Some(reading),
            _ => reading_of(results.drop_last(), id),
        }
    }
}

/// Whether a field holds the activity of a metric.
pub open spec fn holds_activity(
    results: Seq<Option<GpmReading>>,
    id: GpmMetricId,
    field: Option<Single>,
) -> bool {
    match reading_of(results, id) {
        Some(reading) => is_activity(reading.value, reading.ratio, field),
        None => field is None,
    }
}

/// The rate of a metric.
pub open spec fn rate_in(results: Seq<Option<GpmReading>>, id: GpmMetricId) -> Option<Double> {
    match reading_of(results, id) {
        Some(reading) => rate_of(reading.value, reading.rate),
        None => None,
    }
}

/// The engines of which there are several, each with a metric of its own.
#[derive(Clone, Copy, Debug, PartialEq, Eq, Structural)]
pub enum Engine {
    Nvdec,
    Nvjpg,
    Nvofa,
}

/// The engine that a metric belongs to.
pub open spec fn engine_of(id: GpmMetricId) -> Option<Engine> {
    match id {
        GpmMetricId::Nvdec0Util
        | GpmMetricId::Nvdec1Util
        | GpmMetricId::Nvdec2Util
        | GpmMetricId::Nvdec3Util
        | GpmMetricId::Nvdec4Util
        | GpmMetricId::Nvdec5Util
        | GpmMetricId::Nvdec6Util
        | GpmMetricId::Nvdec7Util => Some(Engine::Nvdec),
        GpmMetricId::Nvjpg0Util
        | GpmMetricId::Nvjpg1Util
        | GpmMetricId::Nvjpg2Util
        | GpmMetricId::Nvjpg3Util
        | GpmMetricId::Nvjpg4Util
        | GpmMetricId::Nvjpg5Util
        | GpmMetricId::Nvjpg6Util
        | GpmMetricId::Nvjpg7Util => Some(Engine::Nvjpg),
        GpmMetricId::Nvofa0Util
        | GpmMetricId::Nvofa1Util => Some(Engine::Nvofa),
        _ => None,
    }
}

/// Computes [`engine_of`].
fn engine(id: GpmMetricId) -> (engine: Option<Engine>)
    ensures
        engine == engine_of(id),
{
    match id {
        GpmMetricId::Nvdec0Util
        | GpmMetricId::Nvdec1Util
        | GpmMetricId::Nvdec2Util
        | GpmMetricId::Nvdec3Util
        | GpmMetricId::Nvdec4Util
        | GpmMetricId::Nvdec5Util
        | GpmMetricId::Nvdec6Util
        | GpmMetricId::Nvdec7Util => Some(Engine::Nvdec),
        GpmMetricId::Nvjpg0Util
        | GpmMetricId::Nvjpg1Util
        | GpmMetricId::Nvjpg2Util
        | GpmMetricId::Nvjpg3Util
        | GpmMetricId::Nvjpg4Util
        | GpmMetricId::Nvjpg5Util
        | GpmMetricId::Nvjpg6Util
        | GpmMetricId::Nvjpg7Util => Some(Engine::Nvjpg),
        GpmMetricId::Nvofa0Util
        | GpmMetricId::Nvofa1Util => Some(Engine::Nvofa),
        _ => None,
    }
}

/// Whether a reading is an activity of the engine.
pub open spec fn counts_for(i: int, result: Option<GpmReading>, engine: Engine) -> bool {
    match result {
        Some(reading) => engine_of(measured(i, reading)) == Some(engine) && !is_activity(
            reading.value,
            reading.ratio,
            None,
        ),
        None => false,
    }
}

/// Whether the list holds the activities of the instances of an engine, in the
/// order they were delivered.
pub open spec fn engine_activities(
    results: Seq<Option<GpmReading>>,
    engine: Engine,
    list: Seq<Single>,
) -> bool
    decreases results.len(),
{
    if results.len() == 0 {
        list.len() == 0
    } else if counts_for(results.len() - 1, results.last(), engine) {
        &&& list.len() > 0
        &&& is_activity(results.last()->0.value, results.last()->0.ratio, Some(list.last()))
        &&& engine_activities(results.drop_last(), engine, list.drop_last())
    } else {
        engine_activities(results.drop_last(), engine, list)
    }
}

/// Whether an instance of the engine was active.
pub open spec fn engine_seen(results: Seq<Option<GpmReading>>, engine: Engine) -> bool {
    exists|i: int| 0 <= i < results.len() && #[trigger] counts_for(i, results[i], engine)
}

/// The activities of the instances of an engine, in the order they were
/// delivered. Their mean is the activity of the engine.
pub fn engine_ratios(results: &[Option<GpmReading>], wanted: Engine) -> (list: Vec<Single>)
    ensures
        engine_activities(results@, wanted, list@),
        list@.len() > 0 <==> engine_seen(results@, wanted),
{
    let ids = requested_ids();
    let mut list: Vec<Single> = Vec::new();
    let mut i: usize = 0;
    while i < results.len()
        invariant
            i <= results@.len(),
            ids@ == requested(),
            engine_activities(results@.take(i as int), wanted, list@),
            list@.len() > 0 <==> engine_seen(results@.take(i as int), wanted),
        decreases results@.len() - i,
    {
        let ghost before = list@;
        let ghost shorter = results@.take(i as int);
        let ghost longer = results@.take(i + 1);
        assert(longer.drop_last() =~= shorter);
        if let Some(reading) = &results[i] {
            let id: GpmMetricId = if i < ids.len() {
                ids[i]
            } else {
                reading.metric_id
            };
            if engine(id) == Some(wanted) {
                if let Some(activity) = pct_to_ratio(reading.value, &reading.ratio) {
                    list.push(activity);
                    assert(list@.drop_last() =~= before);
                }
            }
        }
        proof {
            lemma_engine_seen(results@, i as int, wanted);
        }
        i += 1;
    }
    assert(results@.take(i as int) =~= results@);
    list
}

/// One more result makes an engine seen when it counts for it.
proof fn lemma_engine_seen(results: Seq<Option<GpmReading>>, i: int, engine: Engine)
    requires
        0 <= i < results.len(),
    ensures
        engine_seen(results.take(i + 1), engine) <==> engine_seen(results.take(i), engine)
            || counts_for(i, results[i], engine),
{
    let shorter = results.take(i);
    let longer = results.take(i + 1);
    if engine_seen(shorter, engine) {
        let j = choose|j: int| 0 <= j < shorter.len()
            && #[trigger] counts_for(j, shorter[j], engine);
        assert(counts_for(j, longer[j], engine));
    }
    if counts_for(i, results[i], engine) {
        assert(counts_for(i, longer[i], engine));
    }
    if engine_seen(longer, engine) {
        let j = choose|j: int| 0 <= j < longer.len() && #[trigger] counts_for(j, longer[j], engine);
        if j < i {
            assert(counts_for(j, shorter[j], engine));
        }
    }
}

/// The means of the activities of the engines, each meaningful only where an
/// instance was active.
#[derive(Debug, PartialEq, Eq)]
pub struct EngineMeans {
    pub nvdec: Single,
    pub nvjpg: Single,
    pub nvofa: Single,
}

/// The mean of a list of activities; nothing for none.
pub fn mean_ratio(values: &[Single], mean: &Single) -> (ratio: Option<Single>)
    ensures
        ratio == (if values@.len() == 0 {
            None::<Single>
        } else {
            Some(*mean)
        }),
{
    if values.len() == 0 {
        None
    } else {
        Some(mean.clone())
    }
}

/// Whether the metrics hold the readings that have a field each.
pub open spec fn scalars_hold(results: Seq<Option<GpmReading>>, metrics: GpmMetrics) -> bool {
    &&& holds_activity(results, GpmMetricId::GraphicsUtil, metrics.graphics_active)
    &&& holds_activity(results, GpmMetricId::SmUtil, metrics.sm_active)
    &&& holds_activity(results, GpmMetricId::SmOccupancy, metrics.sm_occupancy)
    &&& holds_activity(results, GpmMetricId::AnyTensorUtil, metrics.tensor_active)
    &&& holds_activity(results, GpmMetricId::HmmaTensorUtil, metrics.tensor_hmma_active)
    &&& holds_activity(results, GpmMetricId::ImmaTensorUtil, metrics.tensor_imma_active)
    &&& holds_activity(results, GpmMetricId::DfmaTensorUtil, metrics.tensor_dfma_active)
    &&& holds_activity(results, GpmMetricId::Fp64Util, metrics.fp64_active)
    &&& holds_activity(results, GpmMetricId::Fp32Util, metrics.fp32_active)
    &&& holds_activity(results, GpmMetricId::Fp16Util, metrics.fp16_active)
    &&& holds_activity(results, GpmMetricId::IntegerUtil, metrics.integer_active)
    &&& holds_activity(results, GpmMetricId::DramBwUtil, metrics.memory_bandwidth_utilization)
    &&& metrics.pcie_tx_bytes_per_sec == rate_in(results, GpmMetricId::PcieTxPerSec)
    &&& metrics.pcie_rx_bytes_per_sec == rate_in(results, GpmMetricId::PcieRxPerSec)
    &&& metrics.nvlink_tx_bytes_per_sec == rate_in(results, GpmMetricId::NvlinkTotalTxPerSec)
    &&& metrics.nvlink_rx_bytes_per_sec == rate_in(results, GpmMetricId::NvlinkTotalRxPerSec)
    &&& metrics.source == Some(TelemetrySource::Gpm)
}

/// Whether the metrics are those of the results.
pub open spec fn metrics_hold(
    results: Seq<Option<GpmReading>>,
    means: EngineMeans,
    metrics: GpmMetrics,
) -> bool {
    &&& scalars_hold(results, metrics)
    &&& metrics.nvdec_active == mean_of(results, Engine::Nvdec, means.nvdec)
    &&& metrics.nvjpg_active == mean_of(results, Engine::Nvjpg, means.nvjpg)
    &&& metrics.nvofa_active == mean_of(results, Engine::Nvofa, means.nvofa)
}

/// The mean, where an instance of the engine was active.
pub open spec fn mean_of(
    results: Seq<Option<GpmReading>>,
    engine: Engine,
    mean: Single,
) -> Option<Single> {
    if engine_seen(results, engine) {
        Some(mean)
    } else {
        None
    }
}

/// Puts a reading into the field of its metric.
fn apply(metrics: &mut GpmMetrics, id: GpmMetricId, reading: &GpmReading)
    ensures
        if id == GpmMetricId::GraphicsUtil {
            is_activity(reading.value, reading.ratio, final(metrics).graphics_active)
        } else {
            final(metrics).graphics_active == old(metrics).graphics_active
        },
        if id == GpmMetricId::SmUtil {
            is_activity(reading.value, reading.ratio, final(metrics).sm_active)
        } else {
            final(metrics).sm_active == old(metrics).sm_active
        },
        if id == GpmMetricId::SmOccupancy {
            is_activity(reading.value, reading.ratio, final(metrics).sm_occupancy)
        } else {
            final(metrics).sm_occupancy == old(metrics).sm_occupancy
        },
        if id == GpmMetricId::AnyTensorUtil {
            is_activity(reading.value, reading.ratio, final(metrics).tensor_active)
        } else {
            final(metrics).tensor_active == old(metrics).tensor_active
        },
        if id == GpmMetricId::HmmaTensorUtil {
            is_activity(reading.value, reading.ratio, final(metrics).tensor_hmma_active)
        } else {
            final(metrics).tensor_hmma_active == old(metrics).tensor_hmma_active
        },
        if id == GpmMetricId::ImmaTensorUtil {
            is_activity(reading.value, reading.ratio, final(metrics).tensor_imma_active)
        } else {
            final(metrics).tensor_imma_active == old(metrics).tensor_imma_active
        },
        if id == GpmMetricId::DfmaTensorUtil {
            is_activity(reading.value, reading.ratio, final(metrics).tensor_dfma_active)
        } else {
            final(metrics).tensor_dfma_active == old(metrics).tensor_dfma_active
        },
        if id == GpmMetricId::Fp64Util {
            is_activity(reading.value, reading.ratio, final(metrics).fp64_active)
        } else {
            final(metrics).fp64_active == old(metrics).fp64_active
        },
        if id == GpmMetricId::Fp32Util {
            is_activity(reading.value, reading.ratio, final(metrics).fp32_active)
        } else {
            final(metrics).fp32_active == old(metrics).fp32_active
        },
        if id == GpmMetricId::Fp16Util {
            is_activity(reading.value, reading.ratio, final(metrics).fp16_active)
        } else {
            final(metrics).fp16_active == old(metrics).fp16_active
        },
        if id == GpmMetricId::IntegerUtil {
            is_activity(reading.value, reading.ratio, final(metrics).integer_active)
        } else {
            final(metrics).integer_active == old(metrics).integer_active
        },
        if id == GpmMetricId::DramBwUtil {
            is_activity(reading.value, reading.ratio, final(metrics).memory_bandwidth_utilization)
        } else {
            final(metrics).memory_bandwidth_utilization == old(metrics).memory_bandwidth_utilization
        },
        final(metrics).pcie_tx_bytes_per_sec == (if id == GpmMetricId::PcieTxPerSec {
            rate_of(reading.value, reading.rate)
        } else {
            old(metrics).pcie_tx_bytes_per_sec
        }),
        final(metrics).pcie_rx_bytes_per_sec == (if id == GpmMetricId::PcieRxPerSec {
            rate_of(reading.value, reading.rate)
        } else {
            old(metrics).pcie_rx_bytes_per_sec
        }),
        final(metrics).nvlink_tx_bytes_per_sec == (if id == GpmMetricId::NvlinkTotalTxPerSec {
            rate_of(reading.value, reading.rate)
        } else {
            old(metrics).nvlink_tx_bytes_per_sec
        }),
        final(metrics).nvlink_rx_bytes_per_sec == (if id == GpmMetricId::NvlinkTotalRxPerSec {
            rate_of(reading.value, reading.rate)
        } else {
            old(metrics).nvlink_rx_bytes_per_sec
        }),
        final(metrics).source == old(metrics).source,
{
    match id {
        GpmMetricId::GraphicsUtil => {
            metrics.graphics_active = pct_to_ratio(reading.value, &reading.ratio);
        },
        GpmMetricId::SmUtil => {
            metrics.sm_active = pct_to_ratio(reading.value, &reading.ratio);
        },
        GpmMetricId::SmOccupancy => {
            metrics.sm_occupancy = pct_to_ratio(reading.value, &reading.ratio);
        },
        GpmMetricId::AnyTensorUtil => {
            metrics.tensor_active = pct_to_ratio(reading.value, &reading.ratio);
        },
        GpmMetricId::HmmaTensorUtil => {
            metrics.tensor_hmma_active = pct_to_ratio(reading.value, &reading.ratio);
        },
        GpmMetricId::ImmaTensorUtil => {
            metrics.tensor_imma_active = pct_to_ratio(reading.value, &reading.ratio);
        },
        GpmMetricId::DfmaTensorUtil => {
            metrics.tensor_dfma_active = pct_to_ratio(reading.value, &reading.ratio);
        },
        GpmMetricId::Fp64Util => {
            metrics.fp64_active = pct_to_ratio(reading.value, &reading.ratio);
        },
        GpmMetricId::Fp32Util => {
            metrics.fp32_active = pct_to_ratio(reading.value, &reading.ratio);
        },
        GpmMetricId::Fp16Util => {
            metrics.fp16_active = pct_to_ratio(reading.value, &reading.ratio);
        },
        GpmMetricId::IntegerUtil => {
            metrics.integer_active = pct_to_ratio(reading.value, &reading.ratio);
        },
        GpmMetricId::DramBwUtil => {
            metrics.memory_bandwidth_utilization = pct_to_ratio(reading.value, &reading.ratio);
        },
        GpmMetricId::PcieTxPerSec => {
            metrics.pcie_tx_bytes_per_sec = rate_bytes(reading.value, &reading.rate);
        },
        GpmMetricId::PcieRxPerSec => {
            metrics.pcie_rx_bytes_per_sec = rate_bytes(reading.value, &reading.rate);
        },
        GpmMetricId::NvlinkTotalTxPerSec => {
            metrics.nvlink_tx_bytes_per_sec = rate_bytes(reading.value, &reading.rate);
        },
        GpmMetricId::NvlinkTotalRxPerSec => {
            metrics.nvlink_rx_bytes_per_sec = rate_bytes(reading.value, &reading.rate);
        },
        _ => (),
    }
}

/// One more result leaves the reading of a metric as it is, unless it measures
/// that metric.
proof fn lemma_reading_next(results: Seq<Option<GpmReading>>, i: int, id: GpmMetricId)
    requires
        0 <= i < results.len(),
    ensures
        reading_of(results.take(i + 1), id) == (match results[i] {
            Some(reading) if measured(i, reading) == id => Some(reading),
            _ => reading_of(results.take(i), id),
        }),
{
    assert(results.take(i + 1).drop_last() =~= results.take(i));
}

/// The metrics of a poll: of each scalar metric the last reading, of each
/// engine with several instances the mean of their activities.
pub fn metrics_from_results(results: &[Option<GpmReading>], means: &EngineMeans) -> (metrics:
    GpmMetrics)
    ensures
        metrics_hold(results@, *means, metrics),
{
    let ids = requested_ids();
    let mut metrics = GpmMetrics::default();
    metrics.source = Some(TelemetrySource::Gpm);
    let mut i: usize = 0;
    while i < results.len()
        invariant
            i <= results@.len(),
            ids@ == requested(),
            scalars_hold(results@.take(i as int), metrics),
        decreases results@.len() - i,
    {
        proof {
            lemma_reading_next(results@, i as int, GpmMetricId::GraphicsUtil);
            lemma_reading_next(results@, i as int, GpmMetricId::SmUtil);
            lemma_reading_next(results@, i as int, GpmMetricId::SmOccupancy);
            lemma_reading_next(results@, i as int, GpmMetricId::AnyTensorUtil);
            lemma_reading_next(results@, i as int, GpmMetricId::HmmaTensorUtil);
            lemma_reading_next(results@, i as int, GpmMetricId::ImmaTensorUtil);
            lemma_reading_next(results@, i as int, GpmMetricId::DfmaTensorUtil);
            lemma_reading_next(results@, i as int, GpmMetricId::Fp64Util);
            lemma_reading_next(results@, i as int, GpmMetricId::Fp32Util);
            lemma_reading_next(results@, i as int, GpmMetricId::Fp16Util);
            lemma_reading_next(results@, i as int, GpmMetricId::IntegerUtil);
            lemma_reading_next(results@, i as int, GpmMetricId::DramBwUtil);
            lemma_reading_next(results@, i as int, GpmMetricId::PcieTxPerSec);
            lemma_reading_next(results@, i as int, GpmMetricId::PcieRxPerSec);
            lemma_reading_next(results@, i as int, GpmMetricId::NvlinkTotalTxPerSec);
            lemma_reading_next(results@, i as int, GpmMetricId::NvlinkTotalRxPerSec);
        }
        if let Some(reading) = &results[i] {
            let id: GpmMetricId = if i < ids.len() {
                ids[i]
            } else {
                reading.metric_id
            };
            apply(&mut metrics, id, reading);
        }
        i += 1;
    }
    assert(results@.take(i as int) =~= results@);
    let nvdec = engine_ratios(results, Engine::Nvdec);
    let nvjpg = engine_ratios(results, Engine::Nvjpg);
    let nvofa = engine_ratios(results, Engine::Nvofa);
    metrics.nvdec_active = mean_ratio(nvdec.as_slice(), &means.nvdec);
    metrics.nvjpg_active = mean_ratio(nvjpg.as_slice(), &means.nvjpg);
    metrics.nvofa_active = mean_ratio(nvofa.as_slice(), &means.nvofa);
    metrics
}

/// A metric that no result measures has no reading: it is left out, not zero.
pub proof fn law_undelivered_metric_is_absent(results: Seq<Option<GpmReading>>, id: GpmMetricId)
    requires
        forall|i: int|
            0 <= i < results.len() ==> ((#[trigger] results[i]) matches Some(reading)
                ==> measured(i, reading) != id),
    ensures
        reading_of(results, id) is None,
    decreases results.len(),
{
    if results.len() > 0 {
        let last = results.len() - 1;
        assert(results[last] matches Some(reading) ==> measured(last, reading) != id);
        assert forall|i: int| 0 <= i < results.drop_last().len() implies ((
        #[trigger] results.drop_last()[i]) matches Some(reading) ==> measured(i, reading)
            != id) by {
            assert(results[i] matches Some(reading) ==> measured(i, reading) != id);
        }
        law_undelivered_metric_is_absent(results.drop_last(), id);
    }
}

/// A published activity lies between zero and one.
pub proof fn law_activity_is_a_fraction(value: u64, ratio: Single, activity: Single)
    requires
        is_activity(value, ratio, Some(activity)),
    ensures
        !single_is_nan(activity.bits),
        0 <= single_key(activity.bits) <= single_key(SINGLE_ONE),
{
}

/// What becomes of a percentage, by the patterns of the numbers: a ratio from
/// zero (of either sign) to one is published as it is, with its own pattern and
/// text; one beyond one and up to 1.05 is published as one; any other ratio, and
/// a percentage that is not finite, is not published.
pub proof fn law_only_overshoot_is_changed(value: u64, ratio: Single, activity: Option<Single>)
    requires
        is_activity(value, ratio, activity),
    ensures
        value % 0x8000_0000_0000_0000 < 0x7FF0_0000_0000_0000 && (ratio.bits <= 0x3F80_0000
            || ratio.bits == 0x8000_0000) ==> activity == Some(ratio),
        value % 0x8000_0000_0000_0000 < 0x7FF0_0000_0000_0000 && 0x3F80_0000 < ratio.bits
            <= 0x3F86_6666 ==> (activity matches Some(one) && one.bits == 0x3F80_0000 && one.text@
            == "1"@),
        value % 0x8000_0000_0000_0000 >= 0x7FF0_0000_0000_0000 ==> activity is None,
        ratio.bits > 0x3F86_6666 && ratio.bits != 0x8000_0000 ==> activity is None,
{
}

/// A higher ratio makes no lower activity.
pub proof fn law_activity_keeps_the_order(
    value: u64,
    low: Single,
    lower: Single,
    other: u64,
    high: Single,
    higher: Single,
)
    requires
        is_activity(value, low, Some(lower)),
        is_activity(other, high, Some(higher)),
        single_key(low.bits) <= single_key(high.bits),
    ensures
        single_key(lower.bits) <= single_key(higher.bits),
{
}

/// A rate is the value in millions: it is published as it was scaled for every
/// finite value that is not below zero, and for no other.
pub proof fn law_rates_are_not_negative(value: u64, rate: Double)
    ensures
        value < 0x7FF0_0000_0000_0000 || value == 0x8000_0000_0000_0000 ==> rate_of(value, rate)
            == Some(rate),
        value >= 0x7FF0_0000_0000_0000 && value != 0x8000_0000_0000_0000 ==> rate_of(value, rate)
            is None,
{
}

/// Where a metric stands among those asked for.
spec fn request_place(id: GpmMetricId) -> int {
    match id {
        GpmMetricId::GraphicsUtil => 0,
        GpmMetricId::SmUtil => 1,
        GpmMetricId::SmOccupancy => 2,
        GpmMetricId::AnyTensorUtil => 3,
        GpmMetricId::HmmaTensorUtil => 4,
        GpmMetricId::ImmaTensorUtil => 5,
        GpmMetricId::DfmaTensorUtil => 6,
        GpmMetricId::Fp64Util => 7,
        GpmMetricId::Fp32Util => 8,
        GpmMetricId::Fp16Util => 9,
        GpmMetricId::IntegerUtil => 10,
        GpmMetricId::DramBwUtil => 11,
        GpmMetricId::PcieTxPerSec => 12,
        GpmMetricId::PcieRxPerSec => 13,
        GpmMetricId::NvlinkTotalTxPerSec => 14,
        GpmMetricId::NvlinkTotalRxPerSec => 15,
        GpmMetricId::Nvdec0Util => 16,
        GpmMetricId::Nvdec1Util => 17,
        GpmMetricId::Nvdec2Util => 18,
        GpmMetricId::Nvdec3Util => 19,
        GpmMetricId::Nvdec4Util => 20,
        GpmMetricId::Nvdec5Util => 21,
        GpmMetricId::Nvdec6Util => 22,
        GpmMetricId::Nvdec7Util => 23,
        GpmMetricId::Nvjpg0Util => 24,
        GpmMetricId::Nvjpg1Util => 25,
        GpmMetricId::Nvjpg2Util => 26,
        GpmMetricId::Nvjpg3Util => 27,
        GpmMetricId::Nvjpg4Util => 28,
        GpmMetricId::Nvjpg5Util => 29,
        GpmMetricId::Nvjpg6Util => 30,
        GpmMetricId::Nvjpg7Util => 31,
        GpmMetricId::Nvofa0Util => 32,
        GpmMetricId::Nvofa1Util => 33,
        GpmMetricId::Other => -1,
    }
}

/// Every metric that is used is asked for once, and nothing else is.
pub proof fn law_every_metric_is_requested_once(id: GpmMetricId, i: int, j: int)
    ensures
        requested().contains(id) <==> id != GpmMetricId::Other,
        0 <= i < j < requested().len() ==> requested()[i] != requested()[j],
{
    if id != GpmMetricId::Other {
        assert(requested()[request_place(id)] == id);
    }
    if 0 <= i < requested().len() {
        assert(request_place(requested()[i]) == i);
    }
    if 0 <= j < requested().len() {
        assert(request_place(requested()[j]) == j);
    }
}

/// The reading at a place counts for its metric when no later one measures the
/// same metric.
proof fn lemma_last_reading(results: Seq<Option<GpmReading>>, k: int, id: GpmMetricId)
    requires
        0 <= k < results.len(),
        results[k] matches Some(reading) && measured(k, reading) == id,
        forall|j: int|
            k < j < results.len() ==> ((#[trigger] results[j]) matches Some(reading)
                ==> measured(j, reading) != id),
    ensures
        reading_of(results, id) == results[k],
    decreases results.len(),
{
    let last = results.len() - 1;
    if k < last {
        assert(results[last] matches Some(reading) ==> measured(last, reading) != id);
        let earlier = results.drop_last();
        assert forall|j: int| k < j < earlier.len() implies ((#[trigger] earlier[j]) matches Some(
            reading,
        ) ==> measured(j, reading) != id) by {
            assert(results[j] matches Some(reading) ==> measured(j, reading) != id);
        }
        lemma_last_reading(earlier, k, id);
    }
}

/// Each metric goes to the field of its name. A reading of a metric that no later
/// result measures, with a finite percentage whose ratio lies between zero and
/// one, makes the field that very ratio; the rates go to the fields of their
/// direction.
pub proof fn law_readings_go_to_their_fields(
    results: Seq<Option<GpmReading>>,
    means: EngineMeans,
    metrics: GpmMetrics,
    k: int,
    reading: GpmReading,
    id: GpmMetricId,
)
    requires
        metrics_hold(results, means, metrics),
        0 <= k < results.len(),
        results[k] == Some(reading),
        id == (if k < requested().len() {
            requested()[k]
        } else {
            reading.metric_id
        }),
        forall|j: int|
            k < j < results.len() ==> ((#[trigger] results[j]) matches Some(later) ==> id != (if j
                < requested().len() {
                requested()[j]
            } else {
                later.metric_id
            })),
        reading.value < 0x7FF0_0000_0000_0000,
        reading.ratio.bits <= 0x3F80_0000,
    ensures
        id == GpmMetricId::GraphicsUtil ==> metrics.graphics_active == Some(reading.ratio),
        id == GpmMetricId::SmUtil ==> metrics.sm_active == Some(reading.ratio),
        id == GpmMetricId::SmOccupancy ==> metrics.sm_occupancy == Some(reading.ratio),
        id == GpmMetricId::AnyTensorUtil ==> metrics.tensor_active == Some(reading.ratio),
        id == GpmMetricId::HmmaTensorUtil ==> metrics.tensor_hmma_active == Some(reading.ratio),
        id == GpmMetricId::ImmaTensorUtil ==> metrics.tensor_imma_active == Some(reading.ratio),
        id == GpmMetricId::DfmaTensorUtil ==> metrics.tensor_dfma_active == Some(reading.ratio),
        id == GpmMetricId::Fp64Util ==> metrics.fp64_active == Some(reading.ratio),
        id == GpmMetricId::Fp32Util ==> metrics.fp32_active == Some(reading.ratio),
        id == GpmMetricId::Fp16Util ==> metrics.fp16_active == Some(reading.ratio),
        id == GpmMetricId::IntegerUtil ==> metrics.integer_active == Some(reading.ratio),
        id == GpmMetricId::DramBwUtil ==> metrics.memory_bandwidth_utilization == Some(
            reading.ratio,
        ),
        id == GpmMetricId::PcieTxPerSec ==> metrics.pcie_tx_bytes_per_sec == Some(reading.rate),
        id == GpmMetricId::PcieRxPerSec ==> metrics.pcie_rx_bytes_per_sec == Some(reading.rate),
        id == GpmMetricId::NvlinkTotalTxPerSec ==> metrics.nvlink_tx_bytes_per_sec == Some(
            reading.rate,
        ),
        id == GpmMetricId::NvlinkTotalRxPerSec ==> metrics.nvlink_rx_bytes_per_sec == Some(
            reading.rate,
        ),
        metrics.source == Some(TelemetrySource::Gpm),
{
    lemma_last_reading(results, k, id);
}

/// A field is the activity of its metric, and is absent where the metric was
/// not delivered at all.
pub proof fn law_fields_without_a_reading_are_absent(
    results: Seq<Option<GpmReading>>,
    means: EngineMeans,
    metrics: GpmMetrics,
    id: GpmMetricId,
)
    requires
        metrics_hold(results, means, metrics),
        forall|j: int|
            0 <= j < results.len() ==> ((#[trigger] results[j]) matches Some(reading)
                ==> id != (if j
                < requested().len() {
                requested()[j]
            } else {
                reading.metric_id
            })),
    ensures
        id == GpmMetricId::GraphicsUtil ==> metrics.graphics_active is None,
        id == GpmMetricId::SmUtil ==> metrics.sm_active is None,
        id == GpmMetricId::SmOccupancy ==> metrics.sm_occupancy is None,
        id == GpmMetricId::AnyTensorUtil ==> metrics.tensor_active is None,
        id == GpmMetricId::HmmaTensorUtil ==> metrics.tensor_hmma_active is None,
        id == GpmMetricId::ImmaTensorUtil ==> metrics.tensor_imma_active is None,
        id == GpmMetricId::DfmaTensorUtil ==> metrics.tensor_dfma_active is None,
        id == GpmMetricId::Fp64Util ==> metrics.fp64_active is None,
        id == GpmMetricId::Fp32Util ==> metrics.fp32_active is None,
        id == GpmMetricId::Fp16Util ==> metrics.fp16_active is None,
        id == GpmMetricId::IntegerUtil ==> metrics.integer_active is None,
        id == GpmMetricId::DramBwUtil ==> metrics.memory_bandwidth_utilization is None,
        id == GpmMetricId::PcieTxPerSec ==> metrics.pcie_tx_bytes_per_sec is None,
        id == GpmMetricId::PcieRxPerSec ==> metrics.pcie_rx_bytes_per_sec is None,
        id == GpmMetricId::NvlinkTotalTxPerSec ==> metrics.nvlink_tx_bytes_per_sec is None,
        id == GpmMetricId::NvlinkTotalRxPerSec ==> metrics.nvlink_rx_bytes_per_sec is None,
{
    law_undelivered_metric_is_absent(results, id);
}

/// A reading that stands for no activity leaves its field absent: no percentage
/// is invented for a value that is not finite or out of range.
pub proof fn law_nonsense_leaves_the_field_absent(
    results: Seq<Option<GpmReading>>,
    means: EngineMeans,
    metrics: GpmMetrics,
    k: int,
    reading: GpmReading,
    id: GpmMetricId,
)
    requires
        metrics_hold(results, means, metrics),
        0 <= k < results.len(),
        results[k] == Some(reading),
        id == (if k < requested().len() {
            requested()[k]
        } else {
            reading.metric_id
        }),
        forall|j: int|
            k < j < results.len() ==> ((#[trigger] results[j]) matches Some(later) ==> id != (if j
                < requested().len() {
                requested()[j]
            } else {
                later.metric_id
            })),
        reading.value % 0x8000_0000_0000_0000 >= 0x7FF0_0000_0000_0000 || (reading.ratio.bits
            > 0x3F86_6666 && reading.ratio.bits != 0x8000_0000),
    ensures
        id == GpmMetricId::GraphicsUtil ==> metrics.graphics_active is None,
        id == GpmMetricId::SmUtil ==> metrics.sm_active is None,
        id == GpmMetricId::SmOccupancy ==> metrics.sm_occupancy is None,
        id == GpmMetricId::AnyTensorUtil ==> metrics.tensor_active is None,
        id == GpmMetricId::HmmaTensorUtil ==> metrics.tensor_hmma_active is None,
        id == GpmMetricId::ImmaTensorUtil ==> metrics.tensor_imma_active is None,
        id == GpmMetricId::DfmaTensorUtil ==> metrics.tensor_dfma_active is None,
        id == GpmMetricId::Fp64Util ==> metrics.fp64_active is None,
        id == GpmMetricId::Fp32Util ==> metrics.fp32_active is None,
        id == GpmMetricId::Fp16Util ==> metrics.fp16_active is None,
        id == GpmMetricId::IntegerUtil ==> metrics.integer_active is None,
        id == GpmMetricId::DramBwUtil ==> metrics.memory_bandwidth_utilization is None,
{
    lemma_last_reading(results, k, id);
}

/// The mean of an engine is published exactly when one of its instances, and of
/// no other engine, delivered a finite percentage whose ratio lies between zero
/// and 1.05.
pub proof fn law_engine_means_need_an_instance(
    results: Seq<Option<GpmReading>>,
    means: EngineMeans,
    metrics: GpmMetrics,
)
    requires
        metrics_hold(results, means, metrics),
        results.len() <= requested().len(),
    ensures
        metrics.nvdec_active == (if exists|i: int|
            0 <= i < results.len() && ((#[trigger] results[i]) matches Some(r) && r.value
                % 0x8000_0000_0000_0000 < 0x7FF0_0000_0000_0000 && (r.ratio.bits <= 0x3F86_6666
                || r.ratio.bits == 0x8000_0000) && (requested()[i] == GpmMetricId::Nvdec0Util
                || requested()[i] == GpmMetricId::Nvdec1Util || requested()[i]
                == GpmMetricId::Nvdec2Util || requested()[i] == GpmMetricId::Nvdec3Util
                || requested()[i] == GpmMetricId::Nvdec4Util || requested()[i]
                == GpmMetricId::Nvdec5Util || requested()[i] == GpmMetricId::Nvdec6Util
                || requested()[i] == GpmMetricId::Nvdec7Util)) {
            Some(means.nvdec)
        } else {
            None
        }),
        metrics.nvjpg_active == (if exists|i: int|
            0 <= i < results.len() && ((#[trigger] results[i]) matches Some(r) && r.value
                % 0x8000_0000_0000_0000 < 0x7FF0_0000_0000_0000 && (r.ratio.bits <= 0x3F86_6666
                || r.ratio.bits == 0x8000_0000) && (requested()[i] == GpmMetricId::Nvjpg0Util
                || requested()[i] == GpmMetricId::Nvjpg1Util || requested()[i]
                == GpmMetricId::Nvjpg2Util || requested()[i] == GpmMetricId::Nvjpg3Util
                || requested()[i] == GpmMetricId::Nvjpg4Util || requested()[i]
                == GpmMetricId::Nvjpg5Util || requested()[i] == GpmMetricId::Nvjpg6Util
                || requested()[i] == GpmMetricId::Nvjpg7Util)) {
            Some(means.nvjpg)
        } else {
            None
        }),
        metrics.nvofa_active == (if exists|i: int|
            0 <= i < results.len() && ((#[trigger] results[i]) matches Some(r) && r.value
                % 0x8000_0000_0000_0000 < 0x7FF0_0000_0000_0000 && (r.ratio.bits <= 0x3F86_6666
                || r.ratio.bits == 0x8000_0000) && (requested()[i] == GpmMetricId::Nvofa0Util
                || requested()[i] == GpmMetricId::Nvofa1Util)) {
            Some(means.nvofa)
        } else {
            None
        }),
{
    assert forall|i: int, engine: Engine| 0 <= i < results.len() implies #[trigger] counts_for(
        i,
        results[i],
        engine,
    ) == (results[i] matches Some(r) && r.value % 0x8000_0000_0000_0000 < 0x7FF0_0000_0000_0000 && (
    r.ratio.bits <= 0x3F86_6666 || r.ratio.bits == 0x8000_0000)
        && engine_of(requested()[i]) == Some(
        engine,
    )) by {}
    if engine_seen(results, Engine::Nvdec) {
        let i = choose|i: int|
            0 <= i < results.len() && #[trigger] counts_for(i, results[i], Engine::Nvdec);
        assert(results[i] is Some);
    }
    if engine_seen(results, Engine::Nvjpg) {
        let i = choose|i: int|
            0 <= i < results.len() && #[trigger] counts_for(i, results[i], Engine::Nvjpg);
        assert(results[i] is Some);
    }
    if engine_seen(results, Engine::Nvofa) {
        let i = choose|i: int|
            0 <= i < results.len() && #[trigger] counts_for(i, results[i], Engine::Nvofa);
        assert(results[i] is Some);
    }
    assert forall|i: int| 0 <= i < results.len() implies (#[trigger] results[i] matches Some(r)
        ==> counts_for(i, results[i], Engine::Nvdec) == counts_for(i, Some(r), Engine::Nvdec)
        && counts_for(i, results[i], Engine::Nvjpg) == counts_for(i, Some(r), Engine::Nvjpg)
        && counts_for(i, results[i], Engine::Nvofa) == counts_for(i, Some(r), Engine::Nvofa)) by {}
}

/// The ratios that go into the mean of an engine are those of its own instances,
/// each once: there are as many as instances that delivered an activity, and one
/// of a fraction is that fraction.
pub proof fn law_engine_ratios_are_of_its_instances(
    results: Seq<Option<GpmReading>>,
    engine: Engine,
    list: Seq<Single>,
    i: int,
)
    requires
        engine_activities(results, engine, list),
        0 <= i < results.len() <= requested().len(),
        results[i] matches Some(reading) && reading.value < 0x7FF0_0000_0000_0000
            && reading.ratio.bits <= 0x3F80_0000,
        match engine {
            Engine::Nvdec => 16 <= i < 24,
            Engine::Nvjpg => 24 <= i < 32,
            Engine::Nvofa => 32 <= i < 34,
        },
    ensures
        list.contains(results[i]->0.ratio),
        list.len() <= (match engine {
            Engine::Nvdec => 8int,
            Engine::Nvjpg => 8,
            Engine::Nvofa => 2,
        }),
    decreases results.len(),
{
    lemma_engine_count(results, engine, list);
    let last = results.len() - 1;
    if i == last {
        assert(counts_for(last, results.last(), engine));
        assert(list[list.len() - 1] == results[i]->0.ratio);
    } else if counts_for(last, results.last(), engine) {
        assert(results.drop_last()[i] == results[i]);
        law_engine_ratios_are_of_its_instances(results.drop_last(), engine, list.drop_last(), i);
        let k = choose|k: int|
            0 <= k < list.drop_last().len() && list.drop_last()[k] == results[i]->0.ratio;
        assert(list[k] == results[i]->0.ratio);
    } else {
        assert(results.drop_last()[i] == results[i]);
        law_engine_ratios_are_of_its_instances(results.drop_last(), engine, list, i);
    }
}

/// An engine has no more activities than instances.
proof fn lemma_engine_count(results: Seq<Option<GpmReading>>, engine: Engine, list: Seq<Single>)
    requires
        engine_activities(results, engine, list),
        results.len() <= requested().len(),
    ensures
        list.len() <= (match engine {
            Engine::Nvdec => if results.len() <= 16 {
                0
            } else if results.len() <= 24 {
                results.len() - 16
            } else {
                8
            },
            Engine::Nvjpg => if results.len() <= 24 {
                0
            } else if results.len() <= 32 {
                results.len() - 24
            } else {
                8
            },
            Engine::Nvofa => if results.len() <= 32 {
                0
            } else {
                results.len() - 32
            },
        }),
    decreases results.len(),
{
    if results.len() > 0 {
        if counts_for(results.len() - 1, results.last(), engine) {
            lemma_engine_count(results.drop_last(), engine, list.drop_last());
        } else {
            lemma_engine_count(results.drop_last(), engine, list);
        }
    }
}

/// Characters with the Unicode property `White_Space`.
pub open spec fn is_blank(c: char) -> bool {
    ||| '\u{9}' <= c <= '\u{d}'
    ||| c == ' '
    ||| c == '\u{85}'
    ||| c == '\u{a0}'
    ||| c == '\u{1680}'
    ||| '\u{2000}' <= c <= '\u{200a}'
    ||| c == '\u{2028}'
    ||| c == '\u{2029}'
    ||| c == '\u{202f}'
    ||| c == '\u{205f}'
    ||| c == '\u{3000}'
}

/// Decides [`is_blank`].
fn blank(c: char) -> (blank: bool)
    ensures
        blank == is_blank(c),
{
    ('\u{9}' <= c && c <= '\u{d}') || c == ' ' || c == '\u{85}' || c == '\u{a0}' || c == '\u{1680}'
        || ('\u{2000}' <= c && c <= '\u{200a}') || c == '\u{2028}' || c == '\u{2029}' || c
        == '\u{202f}' || c == '\u{205f}' || c == '\u{3000}'
}

/// The text without the blanks at its beginning.
pub open spec fn without_leading_blanks(text: Seq<char>) -> Seq<char>
    decreases text.len(),
{
    if text.len() > 0 && is_blank(text[0]) {
        without_leading_blanks(text.drop_first())
    } else {
        text
    }
}

/// The text without the blanks at its end.
pub open spec fn without_trailing_blanks(text: Seq<char>) -> Seq<char>
    decreases text.len(),
{
    if text.len() > 0 && is_blank(text.last()) {
        without_trailing_blanks(text.drop_last())
    } else {
        text
    }
}

/// An ASCII capital letter as a small one; any other character as it is.
pub open spec fn small(c: char) -> char {
    if 'A' <= c <= 'Z' {
        (c as u32 + 32) as char
    } else {
        c
    }
}

/// The text trimmed, in small letters.
pub open spec fn normalized(text: Seq<char>) -> Seq<char> {
    without_trailing_blanks(without_leading_blanks(text)).map_values(|c: char| small(c))
}

/// Whether a setting of the variable switches the collector off.
pub open spec fn switches_off(text: Seq<char>) -> bool {
    let word = normalized(text);
    !(word.len() == 0 || word == "0"@ || word == "false"@ || word == "no"@)
}

/// Without blanks at its ends a text is trimmed already.
proof fn lemma_blank_at_the_end(text: Seq<char>, c: char)
    requires
        is_blank(c),
    ensures
        without_trailing_blanks(without_leading_blanks(text.push(c))) == without_trailing_blanks(
            without_leading_blanks(text),
        ),
    decreases text.len(),
{
    let longer = text.push(c);
    if text.len() == 0 {
        assert(longer.drop_first() =~= text);
    } else if is_blank(text[0]) {
        assert(longer.drop_first() =~= text.drop_first().push(c));
        lemma_blank_at_the_end(text.drop_first(), c);
    } else {
        assert(longer.drop_last() =~= text);
    }
}

/// Blanks around a setting do not matter, nor does the case of its letters; of
/// the settings without blanks and capital letters, the empty one, `0`, `false`
/// and `no` leave the collector on, and any other switches it off.
pub proof fn law_settings_are_words(text: Seq<char>, blank: char, i: int)
    ensures
        blank == ' ' || blank == '\t' || blank == '\n' || blank == '\r' ==> switches_off(
            seq![blank] + text,
        ) == switches_off(text) && switches_off(text.push(blank)) == switches_off(text),
        0 <= i < text.len() && 'A' <= text[i] <= 'Z' ==> switches_off(
            text.update(i, (text[i] as u32 + 32) as char),
        ) == switches_off(text),
        (forall|j: int|
            0 <= j < text.len() ==> !is_blank(#[trigger] text[j]) && !('A' <= text[j] <= 'Z')) ==> (
        switches_off(text) <==> text.len() > 0 && text != "0"@ && text != "false"@ && text
            != "no"@),
{
    if blank == ' ' || blank == '\t' || blank == '\n' || blank == '\r' {
        assert((seq![blank] + text).drop_first() =~= text);
        lemma_blank_at_the_end(text, blank);
    }
    if 0 <= i < text.len() && 'A' <= text[i] <= 'Z' {
        lemma_case_does_not_matter(text, i);
    }
    if forall|j: int|
        0 <= j < text.len() ==> !is_blank(#[trigger] text[j]) && !('A' <= text[j] <= 'Z') {
        assert(without_leading_blanks(text) == text);
        assert(without_trailing_blanks(text) == text);
        assert(normalized(text) =~= text);
    }
}

/// A capital letter and its small one are the same to a setting.
proof fn lemma_case_does_not_matter(text: Seq<char>, i: int)
    requires
        0 <= i < text.len(),
        'A' <= text[i] <= 'Z',
    ensures
        normalized(text.update(i, (text[i] as u32 + 32) as char)) == normalized(text),
    decreases text.len(),
{
    let c = (text[i] as u32 + 32) as char;
    let other = text.update(i, c);
    if is_blank(text[0]) {
        assert(other.drop_first() =~= text.drop_first().update(i - 1, c));
        lemma_case_does_not_matter(text.drop_first(), i - 1);
    } else {
        lemma_case_behind(text, i);
    }
}

/// The same behind the leading blanks.
proof fn lemma_case_behind(text: Seq<char>, i: int)
    requires
        0 <= i < text.len(),
        'A' <= text[i] <= 'Z',
    ensures
        without_trailing_blanks(text.update(i, (text[i] as u32 + 32) as char)).map_values(
            |c: char| small(c),
        ) == without_trailing_blanks(text).map_values(|c: char| small(c)),
    decreases text.len(),
{
    let c = (text[i] as u32 + 32) as char;
    let other = text.update(i, c);
    if is_blank(text.last()) {
        assert(other.drop_last() =~= text.drop_last().update(i, c));
        lemma_case_behind(text.drop_last(), i);
    } else {
        assert(other.map_values(|c: char| small(c)) =~= text.map_values(|c: char| small(c)));
    }
}

/// Computes [`small`].
fn lower(c: char) -> (lowered: char)
    ensures
        lowered == small(c),
{
    if 'A' <= c && c <= 'Z' {
        ((c as u8) + 32) as char
    } else {
        c
    }
}

/// Computes [`normalized`].
fn normalize(text: &str) -> (word: String)
    ensures
        word@ == normalized(text@),
{
    let mut letters: Vec<char> = Vec::new();
    for c in chars: text.chars()
        invariant
            chars.seq() == text@,
            letters@ == text@.take(chars.index()),
    {
        assert(text@.take(chars.index() + 1) =~= text@.take(chars.index()).push(c));
        letters.push(c);
    }
    assert(letters@ =~= text@);
    let mut start: usize = 0;
    assert(text@.skip(0) =~= text@);
    while start < letters.len() && blank(letters[start])
        invariant
            letters@ == text@,
            start <= letters@.len(),
            without_leading_blanks(text@) == without_leading_blanks(text@.skip(start as int)),
        decreases letters@.len() - start,
    {
        assert(text@.skip(start as int).drop_first() =~= text@.skip(start + 1));
        start += 1;
    }
    let ghost led = text@.skip(start as int);
    let mut end: usize = letters.len();
    assert(text@.subrange(start as int, end as int) =~= led);
    while end > start && blank(letters[end - 1])
        invariant
            letters@ == text@,
            start <= end <= letters@.len(),
            without_trailing_blanks(led) == without_trailing_blanks(
                text@.subrange(start as int, end as int),
            ),
        decreases end,
    {
        assert(text@.subrange(start as int, end as int).drop_last() =~= text@.subrange(
            start as int,
            end - 1,
        ));
        end -= 1;
    }
    let ghost kept = text@.subrange(start as int, end as int);
    let mut word = String::new();
    let mut i: usize = start;
    while i < end
        invariant
            letters@ == text@,
            start <= i <= end <= letters@.len(),
            kept == text@.subrange(start as int, end as int),
            word@ == kept.take(i - start).map_values(|c: char| small(c)),
        decreases end - i,
    {
        word.push(lower(letters[i]));
        assert(kept.take(i + 1 - start) =~= kept.take(i - start).push(letters@[i as int]));
        assert(word@ =~= kept.take(i + 1 - start).map_values(|c: char| small(c)));
        i += 1;
    }
    assert(kept.take(i - start) =~= kept);
    word
}

/// What a poll of a GPU brought.
#[derive(Debug, PartialEq, Eq)]
pub enum Poll {
    /// The collector is switched off.
    Disabled,
    /// The GPU has no performance monitoring.
    Unsupported,
    /// The UUID could not be read.
    NoUuid,
    /// No sample could be taken.
    NoSample,
    /// A sample was taken.
    Sampled { uuid: String, handle: usize },
}

/// The handles of the previous samples, by GPU UUID.
pub struct GpmState {
    prev: TextMap<usize>,
}

impl View for GpmState {
    type V = Map<Seq<char>, usize>;

    closed spec fn view(&self) -> Map<Seq<char>, usize> {
        self.prev@
    }
}

/// The previous sample that a poll is compared with.
pub open spec fn previous(held: Map<Seq<char>, usize>, poll: Poll) -> Option<usize> {
    match poll {
        Poll::Sampled { uuid, .. } => if held.contains_key(uuid@) {
            Some(held[uuid@])
        } else {
            None
        },
        _ => None,
    }
}

/// The handles after a poll: its sample takes the place of the previous one.
pub open spec fn held_after(held: Map<Seq<char>, usize>, poll: Poll) -> Map<Seq<char>, usize> {
    match poll {
        Poll::Sampled { uuid, handle } => held.insert(uuid@, handle),
        _ => held,
    }
}

impl GpmState {
    /// No samples yet.
    pub fn new() -> (state: Self)
        ensures
            state@ == Map::<Seq<char>, usize>::empty(),
    {
        GpmState { prev: TextMap::new() }
    }

    /// Whether the value of the environment variable switches the collector off;
    /// without a value it is on.
    pub fn is_disabled(value: Option<&str>) -> (disabled: bool)
        ensures
            disabled == match value {
                Some(text) => switches_off(text@),
                None => false,
            },
    {
        match value {
            Some(text) => {
                let word = normalize(text);
                proof {
                    reveal_strlit("");
                    if word@ == ""@ {
                        assert(word@.len() == 0);
                    }
                    if word@.len() == 0 {
                        assert(word@ =~= ""@);
                    }
                }
                !(word == "".to_owned() || word == "0".to_owned() || word == "false".to_owned()
                    || word == "no".to_owned())
            },
            None => false,
        }
    }

    /// Keeps the sample of a poll, and hands back the one before it. Of a poll
    /// without a sample nothing is kept; a first sample has none before it, and
    /// makes no metrics.
    pub fn collect(&mut self, poll: &Poll) -> (earlier: Option<usize>)
        ensures
            earlier == previous(old(self)@, *poll),
            final(self)@ == held_after(old(self)@, *poll),
    {
        match poll {
            Poll::Sampled { uuid, handle } => {
                let earlier: Option<usize> = match self.prev.get(uuid.as_str()) {
                    Some(earlier) => Some(*earlier),
                    None => None,
                };
                self.prev.insert(uuid.clone(), *handle);
                earlier
            },
            _ => None,
        }
    }

    /// Forgets every sample without freeing it, for when the library that they
    /// belong to is gone.
    pub fn abandon(&mut self)
        ensures
            final(self)@ == Map::<Seq<char>, usize>::empty(),
    {
        self.prev = TextMap::new();
    }

    /// Hands every sample back to be freed.
    pub fn free_all(&mut self) -> (samples: Vec<(String, usize)>)
        ensures
            final(self)@ == Map::<Seq<char>, usize>::empty(),
            forall|i: int, j: int|
                0 <= i < j < samples@.len() ==> #[trigger] samples@[i].0@
                    != #[trigger] samples@[j].0@,
            forall|i: int|
                0 <= i < samples@.len() ==> old(self)@.contains_key(#[trigger] samples@[i].0@)
                    && old(self)@[samples@[i].0@] == samples@[i].1,
            forall|uuid: Seq<char>| #[trigger]
                old(self)@.contains_key(uuid) ==> exists|i: int|
                    0 <= i < samples@.len() && #[trigger] samples@[i].0@ == uuid,
    {
        self.prev.drain()
    }
}

impl Default for GpmState {
    fn default() -> (state: Self)
        ensures
            state@ == Map::<Seq<char>, usize>::empty(),
    {
        GpmState::new()
    }
}

/// The first sample of a GPU has none before it; each later one is compared
/// with the one before, whatever was polled of other GPUs in between.
pub proof fn law_samples_follow_each_other(
    held: Map<Seq<char>, usize>,
    first: Poll,
    between: Poll,
    second: Poll,
)
    requires
        first is Sampled,
        second is Sampled,
        first->uuid@ == second->uuid@,
        between is Sampled ==> between->uuid@ != first->uuid@,
    ensures
        previous(Map::empty(), first) is None,
        previous(held_after(held, first), second) == Some(first->handle),
        previous(held_after(held_after(held, first), between), second) == Some(first->handle),
{
}

/// No sample is lost: a poll hands back the sample that it replaces, and keeps
/// all others.
pub proof fn law_no_sample_is_lost(held: Map<Seq<char>, usize>, poll: Poll, uuid: Seq<char>)
    requires
        held.contains_key(uuid),
    ensures
        held_after(held, poll).contains_key(uuid),
        held_after(held, poll)[uuid] == held[uuid] || previous(held, poll) == Some(held[uuid]),
{
}

/// The metrics are asked for in this order.
pub proof fn law_metrics_are_requested_in_order()
    ensures
        requested().len() == 34,
        requested()[0] == GpmMetricId::GraphicsUtil,
        requested()[1] == GpmMetricId::SmUtil,
        requested()[2] == GpmMetricId::SmOccupancy,
        requested()[3] == GpmMetricId::AnyTensorUtil,
        requested()[4] == GpmMetricId::HmmaTensorUtil,
        requested()[5] == GpmMetricId::ImmaTensorUtil,
        requested()[6] == GpmMetricId::DfmaTensorUtil,
        requested()[7] == GpmMetricId::Fp64Util,
        requested()[8] == GpmMetricId::Fp32Util,
        requested()[9] == GpmMetricId::Fp16Util,
        requested()[10] == GpmMetricId::IntegerUtil,
        requested()[11] == GpmMetricId::DramBwUtil,
        requested()[12] == GpmMetricId::PcieTxPerSec,
        requested()[13] == GpmMetricId::PcieRxPerSec,
        requested()[14] == GpmMetricId::NvlinkTotalTxPerSec,
        requested()[15] == GpmMetricId::NvlinkTotalRxPerSec,
        requested()[16] == GpmMetricId::Nvdec0Util,
        requested()[17] == GpmMetricId::Nvdec1Util,
        requested()[18] == GpmMetricId::Nvdec2Util,
        requested()[19] == GpmMetricId::Nvdec3Util,
        requested()[20] == GpmMetricId::Nvdec4Util,
        requested()[21] == GpmMetricId::Nvdec5Util,
        requested()[22] == GpmMetricId::Nvdec6Util,
        requested()[23] == GpmMetricId::Nvdec7Util,
        requested()[24] == GpmMetricId::Nvjpg0Util,
        requested()[25] == GpmMetricId::Nvjpg1Util,
        requested()[26] == GpmMetricId::Nvjpg2Util,
        requested()[27] == GpmMetricId::Nvjpg3Util,
        requested()[28] == GpmMetricId::Nvjpg4Util,
        requested()[29] == GpmMetricId::Nvjpg5Util,
        requested()[30] == GpmMetricId::Nvjpg6Util,
        requested()[31] == GpmMetricId::Nvjpg7Util,
        requested()[32] == GpmMetricId::Nvofa0Util,
        requested()[33] == GpmMetricId::Nvofa1Util,
{
}

/// A reading a little beyond one, up to 1.05, makes its field one.
pub proof fn law_overshoot_makes_the_field_one(
    results: Seq<Option<GpmReading>>,
    means: EngineMeans,
    metrics: GpmMetrics,
    k: int,
    reading: GpmReading,
    id: GpmMetricId,
)
    requires
        metrics_hold(results, means, metrics),
        0 <= k < results.len(),
        results[k] == Some(reading),
        id == (if k < requested().len() {
            requested()[k]
        } else {
            reading.metric_id
        }),
        forall|j: int|
            k < j < results.len() ==> ((#[trigger] results[j]) matches Some(later) ==> id != (if j
                < requested().len() {
                requested()[j]
            } else {
                later.metric_id
            })),
        reading.value < 0x7FF0_0000_0000_0000,
        0x3F80_0000 < reading.ratio.bits <= 0x3F86_6666,
    ensures
        id == GpmMetricId::GraphicsUtil ==> (metrics.graphics_active matches Some(one) && one.bits
            == 0x3F80_0000 && one.text@ == "1"@),
        id == GpmMetricId::SmUtil ==> (metrics.sm_active matches Some(one) && one.bits
            == 0x3F80_0000 && one.text@ == "1"@),
        id == GpmMetricId::SmOccupancy ==> (metrics.sm_occupancy matches Some(one) && one.bits
            == 0x3F80_0000 && one.text@ == "1"@),
        id == GpmMetricId::AnyTensorUtil ==> (metrics.tensor_active matches Some(one) && one.bits
            == 0x3F80_0000 && one.text@ == "1"@),
        id == GpmMetricId::HmmaTensorUtil ==> (metrics.tensor_hmma_active matches Some(one)
            && one.bits
            == 0x3F80_0000 && one.text@ == "1"@),
        id == GpmMetricId::ImmaTensorUtil ==> (metrics.tensor_imma_active matches Some(one)
            && one.bits
            == 0x3F80_0000 && one.text@ == "1"@),
        id == GpmMetricId::DfmaTensorUtil ==> (metrics.tensor_dfma_active matches Some(one)
            && one.bits
            == 0x3F80_0000 && one.text@ == "1"@),
        id == GpmMetricId::Fp64Util ==> (metrics.fp64_active matches Some(one) && one.bits
            == 0x3F80_0000 && one.text@ == "1"@),
        id == GpmMetricId::Fp32Util ==> (metrics.fp32_active matches Some(one) && one.bits
            == 0x3F80_0000 && one.text@ == "1"@),
        id == GpmMetricId::Fp16Util ==> (metrics.fp16_active matches Some(one) && one.bits
            == 0x3F80_0000 && one.text@ == "1"@),
        id == GpmMetricId::IntegerUtil ==> (metrics.integer_active matches Some(one) && one.bits
            == 0x3F80_0000 && one.text@ == "1"@),
        id == GpmMetricId::DramBwUtil
            ==> (metrics.memory_bandwidth_utilization matches Some(one) && one.bits
            == 0x3F80_0000 && one.text@ == "1"@),
{
    lemma_last_reading(results, k, id);
}

/// A rate goes to the field of its direction whenever its value is finite and not below
/// zero, however large it is; any other value leaves the field absent.
pub proof fn law_rates_go_to_their_fields(
    results: Seq<Option<GpmReading>>,
    means: EngineMeans,
    metrics: GpmMetrics,
    k: int,
    reading: GpmReading,
    id: GpmMetricId,
    published: Option<Double>,
)
    requires
        metrics_hold(results, means, metrics),
        0 <= k < results.len(),
        results[k] == Some(reading),
        id == (if k < requested().len() {
            requested()[k]
        } else {
            reading.metric_id
        }),
        forall|j: int|
            k < j < results.len() ==> ((#[trigger] results[j]) matches Some(later) ==> id != (if j
                < requested().len() {
                requested()[j]
            } else {
                later.metric_id
            })),
        published == (if reading.value < 0x7FF0_0000_0000_0000 || reading.value
            == 0x8000_0000_0000_0000 {
            Some(reading.rate)
        } else {
            None
        }),
    ensures
        id == GpmMetricId::PcieTxPerSec ==> metrics.pcie_tx_bytes_per_sec == published,
        id == GpmMetricId::PcieRxPerSec ==> metrics.pcie_rx_bytes_per_sec == published,
        id == GpmMetricId::NvlinkTotalTxPerSec ==> metrics.nvlink_tx_bytes_per_sec == published,
        id == GpmMetricId::NvlinkTotalRxPerSec ==> metrics.nvlink_rx_bytes_per_sec == published,
{
    lemma_last_reading(results, k, id);
}

/// One more result adds one ratio to an engine exactly when it is asked for at one of
/// the places of the engine and delivered a finite percentage whose ratio lies between
/// zero and 1.05: that ratio, or one where it is greater.
pub proof fn law_engine_ratios_grow_by_instances(
    results: Seq<Option<GpmReading>>,
    result: Option<GpmReading>,
    engine: Engine,
    list: Seq<Single>,
)
    requires
        results.len() < 34,
    ensures
        ({
            let place = results.len();
            let counted = (result matches Some(r) && r.value % 0x8000_0000_0000_0000
                < 0x7FF0_0000_0000_0000 && (r.ratio.bits <= 0x3F86_6666 || r.ratio.bits
                == 0x8000_0000)) && (match engine {
                Engine::Nvdec => 16 <= place < 24,
                Engine::Nvjpg => 24 <= place < 32,
                Engine::Nvofa => 32 <= place < 34,
            });
            let ratio = result->0.ratio;
            &&& !counted ==> (engine_activities(results.push(result), engine, list)
                <==> engine_activities(results, engine, list))
            &&& counted ==> (engine_activities(results.push(result), engine, list) <==> list.len()
                > 0 && engine_activities(results, engine, list.drop_last()) && (if 0x3F80_0000
                < ratio.bits <= 0x3F86_6666 {
                list.last().bits == 0x3F80_0000 && list.last().text@ == "1"@
            } else {
                list.last() == ratio
            }))
        }),
        engine_activities(Seq::<Option<GpmReading>>::empty(), engine, list) <==> list.len() == 0,
{
    let longer = results.push(result);
    assert(longer.drop_last() =~= results);
    assert(longer.last() == result);
    law_metrics_are_requested_in_order();
}

/// The characters that count as blanks.
pub proof fn law_blank_characters(c: char)
    ensures
        is_blank(c) <==> (9 <= c as u32 <= 13) || c as u32 == 0x20 || c as u32 == 0x85 || c as u32
            == 0xA0 || c as u32 == 0x1680 || (0x2000 <= c as u32 <= 0x200A) || c as u32 == 0x2028
            || c as u32 == 0x2029 || c as u32 == 0x202F || c as u32 == 0x205F || c as u32 == 0x3000,
        DISABLE_GPM_ENV_VAR@ == "ALL_SMI_NVIDIA_DISABLE_GPM"@,
{
}

/// A poll with a sample keeps it as the one of its GPU and hands back the one that was
/// kept before; without a sample nothing changes and nothing is handed back.
pub proof fn law_a_poll_keeps_its_sample(
    held: Map<Seq<char>, usize>,
    poll: Poll,
    uuid: Seq<char>,
)
    ensures
        !(poll is Sampled) ==> held_after(held, poll) == held && previous(held, poll) is None,
        poll is Sampled && uuid == poll->uuid@ ==> held_after(held, poll).contains_pair(
            uuid,
            poll->handle,
        ) && (previous(held, poll) is Some <==> held.contains_key(uuid)) && (held.contains_key(uuid)
            ==> previous(held, poll) == Some(held[uuid])),
        poll is Sampled && uuid != poll->uuid@ ==> held_after(held, poll).contains_key(uuid)
            == held.contains_key(uuid) && (held.contains_key(uuid) ==> held_after(held, poll)[uuid]
            == held[uuid]),
{
}

} // verus!
