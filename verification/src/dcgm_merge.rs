//! Merging DCGM samples into GPU rows.
//!
//! Per scalar, what a row already has is kept; what it lacks is taken from the
//! sample, and the detail map records under `Source: <field>` that DCGM
//! supplied it.
use crate::number::{Double, Single};
use crate::nvidia_extras::or_else;
use crate::text::{decimal, u64_text};
use crate::text_map::TextMap;
use crate::types::{
    unmeasured, GpmMetrics, GpuInfo, RemappedRowsInfo, TelemetrySource, ThrottleReasons,
};
use std::collections::HashMap;
use vstd::prelude::*;

verus! {

/// The DCGM sample of one GPU.
#[derive(Clone, Debug)]
pub struct DcgmGpuSample {
    pub uuid: String,
    pub graphics_active: Option<Single>,
    pub sm_active: Option<Single>,
    pub sm_occupancy: Option<Single>,
    pub tensor_active: Option<Single>,
    pub fp64_active: Option<Single>,
    pub fp32_active: Option<Single>,
    pub fp16_active: Option<Single>,
    pub memory_bandwidth_utilization: Option<Single>,
    pub pcie_tx_bytes_per_sec: Option<Double>,
    pub pcie_rx_bytes_per_sec: Option<Double>,
    pub nvlink_tx_bytes_per_sec: Option<Double>,
    pub nvlink_rx_bytes_per_sec: Option<Double>,
    pub throttle_reasons: Option<ThrottleReasons>,
    pub remapped_rows: Option<RemappedRowsInfo>,
    pub xid_event_counts: HashMap<u32, u64>,
}

impl Default for DcgmGpuSample {
    fn default() -> (sample: Self)
        ensures
            sample.uuid@ == Seq::<char>::empty(),
            sample.graphics_active is None,
            sample.sm_active is None,
            sample.sm_occupancy is None,
            sample.tensor_active is None,
            sample.fp64_active is None,
            sample.fp32_active is None,
            sample.fp16_active is None,
            sample.memory_bandwidth_utilization is None,
            sample.pcie_tx_bytes_per_sec is None,
            sample.pcie_rx_bytes_per_sec is None,
            sample.nvlink_tx_bytes_per_sec is None,
            sample.nvlink_rx_bytes_per_sec is None,
            sample.throttle_reasons is None,
            sample.remapped_rows is None,
            sample.xid_event_counts@ == Map::<u32, u64>::empty(),
    {
        DcgmGpuSample {
            uuid: String::new(),
            graphics_active: None,
            sm_active: None,
            sm_occupancy: None,
            tensor_active: None,
            fp64_active: None,
            fp32_active: None,
            fp16_active: None,
            memory_bandwidth_utilization: None,
            pcie_tx_bytes_per_sec: None,
            pcie_rx_bytes_per_sec: None,
            nvlink_tx_bytes_per_sec: None,
            nvlink_rx_bytes_per_sec: None,
            throttle_reasons: None,
            remapped_rows: None,
            xid_event_counts: HashMap::new(),
        }
    }
}

/// Whether a missing value is supplied.
pub open spec fn fills<T>(dst: Option<T>, src: Option<T>) -> bool {
    dst is None && src is Some
}

/// The key under which the source of a field is recorded.
pub open spec fn source_key(field: Seq<char>) -> Seq<char> {
    "Source: "@ + field
}

/// The key of a field that was supplied.
#[verifier::opaque]
pub open spec fn mark(supplied: bool, field: Seq<char>) -> Set<Seq<char>> {
    if supplied {
        set![source_key(field)]
    } else {
        set![]
    }
}

/// The detail map with the keys attributed to DCGM.
#[verifier::opaque]
pub open spec fn attributed(
    detail: Map<Seq<char>, Seq<char>>,
    keys: Set<Seq<char>>,
) -> Map<Seq<char>, Seq<char>> {
    Map::new(
        |key: Seq<char>| detail.contains_key(key) || keys.contains(key),
        |key: Seq<char>|
            if keys.contains(key) {
                "dcgm"@
            } else {
                detail[key]
            },
    )
}

/// Whether the sample supplies one of the engine and pipe values that the metrics lack.
pub open spec fn pipe_contributes(metrics: GpmMetrics, sample: DcgmGpuSample) -> bool {
    ||| fills(metrics.graphics_active, sample.graphics_active)
    ||| fills(metrics.sm_active, sample.sm_active)
    ||| fills(metrics.sm_occupancy, sample.sm_occupancy)
    ||| fills(metrics.tensor_active, sample.tensor_active)
}

/// The keys of the engine and pipe values that the sample supplies.
pub open spec fn pipe_marks(metrics: GpmMetrics, sample: DcgmGpuSample) -> Set<Seq<char>> {
    mark(fills(metrics.graphics_active, sample.graphics_active), "graphics_active"@)
        + mark(fills(metrics.sm_active, sample.sm_active), "sm_active"@)
        + mark(fills(metrics.sm_occupancy, sample.sm_occupancy), "sm_occupancy"@)
        + mark(fills(metrics.tensor_active, sample.tensor_active), "tensor_active"@)
}

/// Whether the sample supplies one of the precision and memory values that the metrics lack.
pub open spec fn precision_contributes(metrics: GpmMetrics, sample: DcgmGpuSample) -> bool {
    ||| fills(metrics.fp64_active, sample.fp64_active)
    ||| fills(metrics.fp32_active, sample.fp32_active)
    ||| fills(metrics.fp16_active, sample.fp16_active)
    ||| fills(metrics.memory_bandwidth_utilization, sample.memory_bandwidth_utilization)
}

/// The keys of the precision and memory values that the sample supplies.
pub open spec fn precision_marks(metrics: GpmMetrics, sample: DcgmGpuSample) -> Set<Seq<char>> {
    mark(fills(metrics.fp64_active, sample.fp64_active), "fp64_active"@)
        + mark(fills(metrics.fp32_active, sample.fp32_active), "fp32_active"@)
        + mark(fills(metrics.fp16_active, sample.fp16_active), "fp16_active"@)
        + mark(
            fills(metrics.memory_bandwidth_utilization, sample.memory_bandwidth_utilization),
            "memory_bandwidth_utilization"@,
        )
}

/// Whether the sample supplies one of the transfer rates that the metrics lack.
pub open spec fn rate_contributes(metrics: GpmMetrics, sample: DcgmGpuSample) -> bool {
    ||| fills(metrics.pcie_tx_bytes_per_sec, sample.pcie_tx_bytes_per_sec)
    ||| fills(metrics.pcie_rx_bytes_per_sec, sample.pcie_rx_bytes_per_sec)
    ||| fills(metrics.nvlink_tx_bytes_per_sec, sample.nvlink_tx_bytes_per_sec)
    ||| fills(metrics.nvlink_rx_bytes_per_sec, sample.nvlink_rx_bytes_per_sec)
}

/// The keys of the transfer rates that the sample supplies.
pub open spec fn rate_marks(metrics: GpmMetrics, sample: DcgmGpuSample) -> Set<Seq<char>> {
    mark(fills(metrics.pcie_tx_bytes_per_sec, sample.pcie_tx_bytes_per_sec), "pcie_tx"@)
        + mark(fills(metrics.pcie_rx_bytes_per_sec, sample.pcie_rx_bytes_per_sec), "pcie_rx"@)
        + mark(fills(metrics.nvlink_tx_bytes_per_sec, sample.nvlink_tx_bytes_per_sec), "nvlink_tx"@)
        + mark(fills(metrics.nvlink_rx_bytes_per_sec, sample.nvlink_rx_bytes_per_sec), "nvlink_rx"@)
}

/// Whether the sample supplies an activity value that the metrics lack.
pub open spec fn contributes(metrics: GpmMetrics, sample: DcgmGpuSample) -> bool {
    ||| pipe_contributes(metrics, sample)
    ||| precision_contributes(metrics, sample)
    ||| rate_contributes(metrics, sample)
}

/// The keys of the activity values that the sample supplies.
pub open spec fn activity_marks(metrics: GpmMetrics, sample: DcgmGpuSample) -> Set<Seq<char>> {
    pipe_marks(metrics, sample) + precision_marks(metrics, sample) + rate_marks(metrics, sample)
}

/// The metrics with the values that the sample supplies. If it supplies any,
/// the metrics count as DCGM metrics, unless GPM has claimed them.
pub open spec fn merged_metrics(metrics: GpmMetrics, sample: DcgmGpuSample) -> GpmMetrics {
    GpmMetrics {
        graphics_active: or_else(metrics.graphics_active, sample.graphics_active),
        sm_active: or_else(metrics.sm_active, sample.sm_active),
        sm_occupancy: or_else(metrics.sm_occupancy, sample.sm_occupancy),
        tensor_active: or_else(metrics.tensor_active, sample.tensor_active),
        fp64_active: or_else(metrics.fp64_active, sample.fp64_active),
        fp32_active: or_else(metrics.fp32_active, sample.fp32_active),
        fp16_active: or_else(metrics.fp16_active, sample.fp16_active),
        memory_bandwidth_utilization: or_else(
            metrics.memory_bandwidth_utilization,
            sample.memory_bandwidth_utilization,
        ),
        pcie_tx_bytes_per_sec: or_else(metrics.pcie_tx_bytes_per_sec, sample.pcie_tx_bytes_per_sec),
        pcie_rx_bytes_per_sec: or_else(metrics.pcie_rx_bytes_per_sec, sample.pcie_rx_bytes_per_sec),
        nvlink_tx_bytes_per_sec: or_else(
            metrics.nvlink_tx_bytes_per_sec,
            sample.nvlink_tx_bytes_per_sec,
        ),
        nvlink_rx_bytes_per_sec: or_else(
            metrics.nvlink_rx_bytes_per_sec,
            sample.nvlink_rx_bytes_per_sec,
        ),
        source: if contributes(metrics, sample) && metrics.source != Some(
            TelemetrySource::Gpm,
        ) {
            Some(TelemetrySource::Dcgm)
        } else {
            metrics.source
        },
        ..metrics
    }
}

/// The metrics of a row; none measured where it has none.
pub open spec fn metrics_of(gpu: GpuInfo) -> GpmMetrics {
    match gpu.gpm_metrics {
        Some(metrics) => metrics,
        None => unmeasured(),
    }
}

/// The count of an event code; zero where there is none.
pub open spec fn count_of(counts: Map<u32, u64>, code: u32) -> u64 {
    if counts.contains_key(code) {
        counts[code]
    } else {
        0
    }
}

/// The event counts of a row and a sample together: of each code the greater
/// count.
pub open spec fn merged_counts(mine: Map<u32, u64>, theirs: Map<u32, u64>) -> Map<u32, u64> {
    Map::new(
        |code: u32| mine.contains_key(code) || theirs.contains_key(code),
        |code: u32|
            if count_of(mine, code) < count_of(theirs, code) {
                count_of(theirs, code)
            } else {
                count_of(mine, code)
            },
    )
}

/// Whether the sample counts more events of the code.
pub open spec fn raises(mine: Map<u32, u64>, theirs: Map<u32, u64>, code: u32) -> bool {
    theirs.contains_key(code) && count_of(mine, code) < theirs[code]
}

/// The keys of the event counts that the sample raises.
pub open spec fn xid_marks(mine: Map<u32, u64>, theirs: Map<u32, u64>) -> Set<Seq<char>> {
    Set::new(
        |key: Seq<char>|
            exists|code: u32|
                #[trigger] raises(mine, theirs, code) && key == source_key(
                    "xid_"@ + decimal(code as nat),
                ),
    )
}

/// The keys of everything that the sample supplies.
pub open spec fn marks(gpu: GpuInfo, sample: DcgmGpuSample) -> Set<Seq<char>> {
    activity_marks(metrics_of(gpu), sample) + mark(
        fills(gpu.throttle_reasons, sample.throttle_reasons),
        "throttle"@,
    ) + mark(fills(gpu.remapped_rows, sample.remapped_rows), "remapped_rows"@) + xid_marks(
        gpu.xid_event_counts@,
        sample.xid_event_counts@,
    )
}

/// What a merge leaves alone.
pub open spec fn same_otherwise(before: GpuInfo, after: GpuInfo) -> bool {
    &&& after.uuid == before.uuid
    &&& after.name == before.name
    &&& after.instance == before.instance
    &&& after.numa_node_id == before.numa_node_id
    &&& after.gsp_firmware_mode == before.gsp_firmware_mode
    &&& after.gsp_firmware_version == before.gsp_firmware_version
    &&& after.nvlink_remote_devices == before.nvlink_remote_devices
    &&& after.energy_hw_millijoules == before.energy_hw_millijoules
    &&& after.nvlink_errors == before.nvlink_errors
    &&& after.utilization_samples == before.utilization_samples
}

/// Whether `after` is the row `before` with the sample merged into it.
pub open spec fn merged(before: GpuInfo, sample: DcgmGpuSample, after: GpuInfo) -> bool {
    &&& same_otherwise(before, after)
    &&& after.gpm_metrics == Some(merged_metrics(metrics_of(before), sample))
    &&& after.throttle_reasons == or_else(before.throttle_reasons, sample.throttle_reasons)
    &&& after.remapped_rows == or_else(before.remapped_rows, sample.remapped_rows)
    &&& after.xid_event_counts@ == merged_counts(
        before.xid_event_counts@,
        sample.xid_event_counts@,
    )
    &&& after.detail@ == attributed(before.detail@, marks(before, sample))
}

/// Records that DCGM supplied the field.
fn attribute(detail: &mut TextMap<String>, field: &str)
    ensures
        final(detail)@ == old(detail)@.insert(source_key(field@), "dcgm"@),
{
    let mut key: String = "Source: ".to_owned();
    key.append(field);
    detail.insert(key, "dcgm".to_owned());
}

/// Takes a missing single-precision value from the sample, and records that DCGM
/// supplied it.
pub fn fill_f32(
    dst: &mut Option<Single>,
    src: Option<Single>,
    detail: &mut TextMap<String>,
    field: &str,
) -> (filled: bool)
    ensures
        filled == fills(*old(dst), src),
        *final(dst) == or_else(*old(dst), src),
        final(detail)@ == attributed(old(detail)@, mark(filled, field@)),
{
    proof {
        lemma_attribute(detail@, fills(*dst, src), field@);
    }
    if dst.is_some() {
        return false;
    }
    match src {
        Some(value) => {
            *dst = Some(value);
            attribute(detail, field);
            true
        },
        None => false,
    }
}

/// Takes a missing double-precision value from the sample, and records that DCGM
/// supplied it.
pub fn fill_f64(
    dst: &mut Option<Double>,
    src: Option<Double>,
    detail: &mut TextMap<String>,
    field: &str,
) -> (filled: bool)
    ensures
        filled == fills(*old(dst), src),
        *final(dst) == or_else(*old(dst), src),
        final(detail)@ == attributed(old(detail)@, mark(filled, field@)),
{
    proof {
        lemma_attribute(detail@, fills(*dst, src), field@);
    }
    if dst.is_some() {
        return false;
    }
    match src {
        Some(value) => {
            *dst = Some(value);
            attribute(detail, field);
            true
        },
        None => false,
    }
}

/// Attributing keys twice attributes them all.
proof fn lemma_attributed_twice(
    detail: Map<Seq<char>, Seq<char>>,
    first: Set<Seq<char>>,
    second: Set<Seq<char>>,
)
    ensures
        attributed(attributed(detail, first), second) == attributed(detail, first + second),
{
    reveal(attributed);
    assert(attributed(attributed(detail, first), second) =~= attributed(detail, first + second));
}

/// Fills the engine and pipe values that the metrics lack.
fn fill_pipe_values(
    metrics: &mut GpmMetrics,
    sample: &DcgmGpuSample,
    detail: &mut TextMap<String>,
) -> (filled: bool)
    ensures
        filled == pipe_contributes(*old(metrics), *sample),
        *final(metrics) == (GpmMetrics {
            graphics_active: or_else(old(metrics).graphics_active, sample.graphics_active),
            sm_active: or_else(old(metrics).sm_active, sample.sm_active),
            sm_occupancy: or_else(old(metrics).sm_occupancy, sample.sm_occupancy),
            tensor_active: or_else(old(metrics).tensor_active, sample.tensor_active),
            ..*old(metrics)
        }),
        final(detail)@ == attributed(old(detail)@, pipe_marks(*old(metrics), *sample)),
{
    let ghost start = detail@;
    let first = fill_f32(
        &mut metrics.graphics_active,
        sample.graphics_active.clone(),
        detail,
        "graphics_active",
    );
    let second = fill_f32(&mut metrics.sm_active, sample.sm_active.clone(), detail, "sm_active");
    let third = fill_f32(
        &mut metrics.sm_occupancy,
        sample.sm_occupancy.clone(),
        detail,
        "sm_occupancy",
    );
    let fourth = fill_f32(
        &mut metrics.tensor_active,
        sample.tensor_active.clone(),
        detail,
        "tensor_active",
    );
    proof {
        lemma_attributed_twice(start, mark(first, "graphics_active"@), mark(second, "sm_active"@));
        lemma_attributed_twice(
            start,
            mark(first, "graphics_active"@) + mark(second, "sm_active"@),
            mark(third, "sm_occupancy"@),
        );
        lemma_attributed_twice(
            start,
            mark(first, "graphics_active"@) + mark(second, "sm_active"@)
                + mark(third, "sm_occupancy"@),
            mark(fourth, "tensor_active"@),
        );
    }
    first || second || third || fourth
}

/// Fills the precision and memory values that the metrics lack.
fn fill_precision_values(
    metrics: &mut GpmMetrics,
    sample: &DcgmGpuSample,
    detail: &mut TextMap<String>,
) -> (filled: bool)
    ensures
        filled == precision_contributes(*old(metrics), *sample),
        *final(metrics) == (GpmMetrics {
            fp64_active: or_else(old(metrics).fp64_active, sample.fp64_active),
            fp32_active: or_else(old(metrics).fp32_active, sample.fp32_active),
            fp16_active: or_else(old(metrics).fp16_active, sample.fp16_active),
            memory_bandwidth_utilization: or_else(
                old(metrics).memory_bandwidth_utilization,
                sample.memory_bandwidth_utilization,
            ),
            ..*old(metrics)
        }),
        final(detail)@ == attributed(old(detail)@, precision_marks(*old(metrics), *sample)),
{
    let ghost start = detail@;
    let first = fill_f32(
        &mut metrics.fp64_active,
        sample.fp64_active.clone(),
        detail,
        "fp64_active",
    );
    let second = fill_f32(
        &mut metrics.fp32_active,
        sample.fp32_active.clone(),
        detail,
        "fp32_active",
    );
    let third = fill_f32(
        &mut metrics.fp16_active,
        sample.fp16_active.clone(),
        detail,
        "fp16_active",
    );
    let fourth = fill_f32(
        &mut metrics.memory_bandwidth_utilization,
        sample.memory_bandwidth_utilization.clone(),
        detail,
        "memory_bandwidth_utilization",
    );
    proof {
        lemma_attributed_twice(start, mark(first, "fp64_active"@), mark(second, "fp32_active"@));
        lemma_attributed_twice(
            start,
            mark(first, "fp64_active"@) + mark(second, "fp32_active"@),
            mark(third, "fp16_active"@),
        );
        lemma_attributed_twice(
            start,
            mark(first, "fp64_active"@) + mark(second, "fp32_active"@)
                + mark(third, "fp16_active"@),
            mark(fourth, "memory_bandwidth_utilization"@),
        );
    }
    first || second || third || fourth
}

/// Fills the transfer rates that the metrics lack.
fn fill_rate_values(
    metrics: &mut GpmMetrics,
    sample: &DcgmGpuSample,
    detail: &mut TextMap<String>,
) -> (filled: bool)
    ensures
        filled == rate_contributes(*old(metrics), *sample),
        *final(metrics) == (GpmMetrics {
            pcie_tx_bytes_per_sec: or_else(
                old(metrics).pcie_tx_bytes_per_sec,
                sample.pcie_tx_bytes_per_sec,
            ),
            pcie_rx_bytes_per_sec: or_else(
                old(metrics).pcie_rx_bytes_per_sec,
                sample.pcie_rx_bytes_per_sec,
            ),
            nvlink_tx_bytes_per_sec: or_else(
                old(metrics).nvlink_tx_bytes_per_sec,
                sample.nvlink_tx_bytes_per_sec,
            ),
            nvlink_rx_bytes_per_sec: or_else(
                old(metrics).nvlink_rx_bytes_per_sec,
                sample.nvlink_rx_bytes_per_sec,
            ),
            ..*old(metrics)
        }),
        final(detail)@ == attributed(old(detail)@, rate_marks(*old(metrics), *sample)),
{
    let ghost start = detail@;
    let first = fill_f64(
        &mut metrics.pcie_tx_bytes_per_sec,
        sample.pcie_tx_bytes_per_sec.clone(),
        detail,
        "pcie_tx",
    );
    let second = fill_f64(
        &mut metrics.pcie_rx_bytes_per_sec,
        sample.pcie_rx_bytes_per_sec.clone(),
        detail,
        "pcie_rx",
    );
    let third = fill_f64(
        &mut metrics.nvlink_tx_bytes_per_sec,
        sample.nvlink_tx_bytes_per_sec.clone(),
        detail,
        "nvlink_tx",
    );
    let fourth = fill_f64(
        &mut metrics.nvlink_rx_bytes_per_sec,
        sample.nvlink_rx_bytes_per_sec.clone(),
        detail,
        "nvlink_rx",
    );
    proof {
        lemma_attributed_twice(start, mark(first, "pcie_tx"@), mark(second, "pcie_rx"@));
        lemma_attributed_twice(
            start,
            mark(first, "pcie_tx"@) + mark(second, "pcie_rx"@),
            mark(third, "nvlink_tx"@),
        );
        lemma_attributed_twice(
            start,
            mark(first, "pcie_tx"@) + mark(second, "pcie_rx"@) + mark(third, "nvlink_tx"@),
            mark(fourth, "nvlink_rx"@),
        );
    }
    first || second || third || fourth
}

/// Fills what the activity metrics lack.
fn fill_metrics(metrics: &mut GpmMetrics, sample: &DcgmGpuSample, detail: &mut TextMap<String>)
    ensures
        *final(metrics) == merged_metrics(*old(metrics), *sample),
        final(detail)@ == attributed(old(detail)@, activity_marks(*old(metrics), *sample)),
{
    let ghost start = detail@;
    let ghost before = *metrics;
    let pipe = fill_pipe_values(metrics, sample, detail);
    let precision = fill_precision_values(metrics, sample, detail);
    let rate = fill_rate_values(metrics, sample, detail);
    proof {
        lemma_attributed_twice(
            start,
            pipe_marks(before, *sample),
            precision_marks(before, *sample),
        );
        lemma_attributed_twice(
            start,
            pipe_marks(before, *sample) + precision_marks(before, *sample),
            rate_marks(before, *sample),
        );
    }
    if (pipe || precision || rate) && metrics.source != Some(TelemetrySource::Gpm) {
        metrics.source = Some(TelemetrySource::Dcgm);
    }
}

/// The codes of the first `n` pairs of a walk through a map.
spec fn seen(pairs: Seq<(&u32, &u64)>, n: int) -> Set<u32> {
    Set::new(|code: u32| exists|j: int| 0 <= j < n && *(#[trigger] pairs[j]).0 == code)
}

/// Takes over the event counts that exceed those of the row.
fn raise_counts(
    mine: &mut HashMap<u32, u64>,
    theirs: &HashMap<u32, u64>,
    detail: &mut TextMap<String>,
)
    ensures
        final(mine)@ == merged_counts(old(mine)@, theirs@),
        final(detail)@ == attributed(old(detail)@, xid_marks(old(mine)@, theirs@)),
{
    broadcast use vstd::std_specs::hash::group_hash_axioms;

    let ghost start = detail@;
    let ghost before = mine@;
    let ghost given = theirs@;
    proof {
        let pairs = vstd::std_specs::iter::IteratorSpec::remaining(&theirs.iter());
        reveal(attributed);
        assert(merged_counts(before, given.restrict(seen(pairs, 0))) =~= before);
        assert(attributed(start, xid_marks(before, given.restrict(seen(pairs, 0)))) =~= start);
    }
    for (code, count) in iter: theirs.iter()
        invariant
            iter.seq() == vstd::std_specs::iter::IteratorSpec::remaining(&theirs.iter()),
            iter.seq().no_duplicates(),
            given == theirs@,
            mine@ == merged_counts(before, given.restrict(seen(iter.seq(), iter.index()))),
            detail@ == attributed(
                start,
                xid_marks(before, given.restrict(seen(iter.seq(), iter.index()))),
            ),
    {
        let ghost pairs = iter.seq();
        let ghost n = iter.index();
        let ghost sofar = given.restrict(seen(pairs, n));
        let ghost next = given.restrict(seen(pairs, n + 1));
        proof {
            assert(pairs[n] == (code, count));
            assert(pairs.contains(pairs[n]));
            assert(given.contains_key(*code) && given[*code] == *count);
            if seen(pairs, n).contains(*code) {
                let j = choose|j: int| 0 <= j < n && *(#[trigger] pairs[j]).0 == *code;
                assert(pairs.contains(pairs[j]));
                assert(given[*code] == *pairs[j].1);
                assert(pairs[j] == pairs[n]);
            }
            assert(next =~= sofar.insert(*code, *count)) by {
                assert(seen(pairs, n + 1) =~= seen(pairs, n).insert(*code));
            }
            lemma_one_more_count(before, sofar, *code, *count);
        }
        let existing: u64 = match mine.get(code) {
            Some(existing) => *existing,
            None => 0,
        };
        if existing < *count {
            mine.insert(*code, *count);
            let mut field: String = "xid_".to_owned();
            field.append(u64_text(*code as u64).as_str());
            attribute(detail, field.as_str());
            proof {
                reveal(attributed);
                assert(detail@ =~= attributed(start, xid_marks(before, next)));
            }
        } else {
            mine.insert(*code, existing);
        }
        assert(mine@ =~= merged_counts(before, next));
    }
    proof {
        let pairs = vstd::std_specs::iter::IteratorSpec::remaining(&theirs.iter());
        assert forall|code: u32| given.contains_key(code) implies seen(
            pairs,
            pairs.len() as int,
        ).contains(code) by {
            assert(pairs.contains((&code, &given[code])));
            let j = choose|j: int| 0 <= j < pairs.len() && pairs[j] == (&code, &given[code]);
            assert(*pairs[j].0 == code);
        }
        assert(given.restrict(seen(pairs, pairs.len() as int)) =~= given);
    }
}

/// One more counted code raises at most the count of that code.
proof fn lemma_one_more_count(mine: Map<u32, u64>, theirs: Map<u32, u64>, code: u32, count: u64)
    requires
        !theirs.contains_key(code),
    ensures
        xid_marks(mine, theirs.insert(code, count)) == (if count_of(mine, code) < count {
            xid_marks(mine, theirs).insert(source_key("xid_"@ + decimal(code as nat)))
        } else {
            xid_marks(mine, theirs)
        }),
{
    let next = theirs.insert(code, count);
    assert(forall|c: u32| c != code ==> raises(mine, next, c) == raises(mine, theirs, c));
    assert(!raises(mine, theirs, code));
    assert(raises(mine, next, code) == (count_of(mine, code) < count));
    let wanted = if count_of(mine, code) < count {
        xid_marks(mine, theirs).insert(source_key("xid_"@ + decimal(code as nat)))
    } else {
        xid_marks(mine, theirs)
    };
    assert forall|key: Seq<char>| xid_marks(mine, next).contains(key) == wanted.contains(key) by {
        if xid_marks(mine, next).contains(key) {
            let c = choose|c: u32|
                #[trigger] raises(mine, next, c) && key == source_key("xid_"@ + decimal(c as nat));
            if c != code {
                assert(raises(mine, theirs, c));
            }
        }
        if xid_marks(mine, theirs).contains(key) {
            let c = choose|c: u32|
                #[trigger] raises(mine, theirs, c)
                    && key == source_key("xid_"@ + decimal(c as nat));
            assert(raises(mine, next, c));
        }
    }
    assert(xid_marks(mine, next) =~= wanted);
}

/// Merges a DCGM sample into a row.
pub fn merge_sample(gpu: &mut GpuInfo, sample: &DcgmGpuSample)
    ensures
        merged(*old(gpu), *sample, *final(gpu)),
{
    let ghost before = *gpu;
    let ghost start = gpu.detail@;
    let mut metrics = match gpu.gpm_metrics.take() {
        Some(metrics) => metrics,
        None => GpmMetrics::default(),
    };
    fill_metrics(&mut metrics, sample, &mut gpu.detail);
    gpu.gpm_metrics = Some(metrics);
    let ghost keys = activity_marks(metrics_of(before), *sample);

    let throttled = gpu.throttle_reasons.is_none() && sample.throttle_reasons.is_some();
    if throttled {
        gpu.throttle_reasons = sample.throttle_reasons;
        attribute(&mut gpu.detail, "throttle");
    }
    proof {
        lemma_attribute(attributed(start, keys), throttled, "throttle"@);
        lemma_attributed_twice(start, keys, mark(throttled, "throttle"@));
    }
    let ghost keys = keys + mark(throttled, "throttle"@);

    let remapped = gpu.remapped_rows.is_none() && sample.remapped_rows.is_some();
    if remapped {
        gpu.remapped_rows = sample.remapped_rows;
        attribute(&mut gpu.detail, "remapped_rows");
    }
    proof {
        lemma_attribute(attributed(start, keys), remapped, "remapped_rows"@);
        lemma_attributed_twice(start, keys, mark(remapped, "remapped_rows"@));
    }
    let ghost keys = keys + mark(remapped, "remapped_rows"@);

    raise_counts(&mut gpu.xid_event_counts, &sample.xid_event_counts, &mut gpu.detail);
    proof {
        lemma_attributed_twice(
            start,
            keys,
            xid_marks(before.xid_event_counts@, sample.xid_event_counts@),
        );
    }
}

/// Attributing one field, or none.
proof fn lemma_attribute(detail: Map<Seq<char>, Seq<char>>, supplied: bool, field: Seq<char>)
    ensures
        attributed(detail, mark(supplied, field)) == (if supplied {
            detail.insert(source_key(field), "dcgm"@)
        } else {
            detail
        }),
{
    reveal(mark);
    reveal(attributed);
    assert(attributed(detail, mark(supplied, field)) =~= (if supplied {
        detail.insert(source_key(field), "dcgm"@)
    } else {
        detail
    }));
}

/// Whether the sample at place `k` is the one used for the GPU: of several
/// samples of a GPU the last one counts.
pub open spec fn chosen(samples: Seq<DcgmGpuSample>, uuid: Seq<char>, k: int) -> bool {
    &&& 0 <= k < samples.len()
    &&& samples[k].uuid@ == uuid
    &&& forall|j: int| k < j < samples.len() ==> (#[trigger] samples[j]).uuid@ != uuid
}

/// Whether there is a sample of the GPU.
pub open spec fn sampled(samples: Seq<DcgmGpuSample>, uuid: Seq<char>) -> bool {
    exists|k: int| 0 <= k < samples.len() && (#[trigger] samples[k]).uuid@ == uuid
}

/// The sample used for the GPU.
fn sample_of<'a>(samples: &'a [DcgmGpuSample], uuid: &String) -> (sample: Option<&'a DcgmGpuSample>)
    ensures
        match sample {
            Some(sample) => exists|k: int|
                #[trigger] chosen(samples@, uuid@, k) && *sample == samples@[k],
            None => !sampled(samples@, uuid@),
        },
{
    let mut i: usize = samples.len();
    while i > 0
        invariant
            i <= samples@.len(),
            forall|j: int| i <= j < samples@.len() ==> (#[trigger] samples@[j]).uuid@ != uuid@,
        decreases i,
    {
        i -= 1;
        if samples[i].uuid == *uuid {
            assert(chosen(samples@, uuid@, i as int));
            return Some(&samples[i]);
        }
    }
    None
}

/// Whether `after` is the row `before` after the samples were merged: a row
/// with a sample has it merged into it, any other is unchanged.
pub open spec fn merged_row(
    before: GpuInfo,
    samples: Seq<DcgmGpuSample>,
    after: GpuInfo,
) -> bool {
    if sampled(samples, before.uuid@) {
        exists|k: int|
            #[trigger] chosen(samples, before.uuid@, k) && merged(before, samples[k], after)
    } else {
        after == before
    }
}

/// Merges the samples of the DCGM backend into the GPU rows by UUID. Rows stay
/// as they are while the backend is unavailable or its sampling fails.
///
/// Per scalar an existing value is kept; a missing one is filled from DCGM,
/// with `Source: <field>` set to `dcgm` in `detail`.
pub fn merge_into_gpus(gpus: &mut [GpuInfo], samples: &Result<Vec<DcgmGpuSample>, String>)
    ensures
        final(gpus)@.len() == old(gpus)@.len(),
        match samples {
            Ok(samples) => forall|i: int|
                0 <= i < old(gpus)@.len() ==> merged_row(
                    old(gpus)@[i],
                    samples@,
                    #[trigger] final(gpus)@[i],
                ),
            Err(_) => final(gpus)@ == old(gpus)@,
        },
{
    if let Ok(samples) = samples {
        let ghost before = gpus@;
        let mut i: usize = 0;
        while i < gpus.len()
            invariant
                i <= gpus@.len(),
                gpus@.len() == before.len(),
                forall|j: int|
                    0 <= j < i ==> merged_row(before[j], samples@, #[trigger] gpus@[j]),
                forall|j: int| i <= j < before.len() ==> #[trigger] gpus@[j] == before[j],
            decreases gpus@.len() - i,
        {
            match sample_of(samples.as_slice(), &gpus[i].uuid) {
                Some(sample) => {
                    merge_sample(&mut gpus[i], sample);
                },
                None => (),
            }
            i += 1;
        }
    }
}

/// A merge keeps every value that the row had: activity values, throttle
/// reasons and remapped rows stay, and no event count goes down.
pub proof fn law_merge_keeps_what_is_there(before: GpuInfo, sample: DcgmGpuSample, after: GpuInfo)
    requires
        merged(before, sample, after),
    ensures
        before.gpm_metrics matches Some(metrics) ==> {
            let now = after.gpm_metrics->0;
            &&& metrics.graphics_active is Some ==> now.graphics_active == metrics.graphics_active
            &&& metrics.sm_active is Some ==> now.sm_active == metrics.sm_active
            &&& metrics.sm_occupancy is Some ==> now.sm_occupancy == metrics.sm_occupancy
            &&& metrics.tensor_active is Some ==> now.tensor_active == metrics.tensor_active
            &&& metrics.fp64_active is Some ==> now.fp64_active == metrics.fp64_active
            &&& metrics.fp32_active is Some ==> now.fp32_active == metrics.fp32_active
            &&& metrics.fp16_active is Some ==> now.fp16_active == metrics.fp16_active
            &&& metrics.memory_bandwidth_utilization is Some
                ==> now.memory_bandwidth_utilization == metrics.memory_bandwidth_utilization
            &&& metrics.pcie_tx_bytes_per_sec is Some
                ==> now.pcie_tx_bytes_per_sec == metrics.pcie_tx_bytes_per_sec
            &&& metrics.pcie_rx_bytes_per_sec is Some
                ==> now.pcie_rx_bytes_per_sec == metrics.pcie_rx_bytes_per_sec
            &&& metrics.nvlink_tx_bytes_per_sec is Some
                ==> now.nvlink_tx_bytes_per_sec == metrics.nvlink_tx_bytes_per_sec
            &&& metrics.nvlink_rx_bytes_per_sec is Some
                ==> now.nvlink_rx_bytes_per_sec == metrics.nvlink_rx_bytes_per_sec
            &&& now.tensor_hmma_active == metrics.tensor_hmma_active
            &&& now.tensor_imma_active == metrics.tensor_imma_active
            &&& now.tensor_dfma_active == metrics.tensor_dfma_active
            &&& now.integer_active == metrics.integer_active
            &&& now.nvdec_active == metrics.nvdec_active
            &&& now.nvjpg_active == metrics.nvjpg_active
            &&& now.nvofa_active == metrics.nvofa_active
            &&& metrics.source == Some(TelemetrySource::Gpm) ==> now.source == metrics.source
        },
        before.throttle_reasons is Some ==> after.throttle_reasons == before.throttle_reasons,
        before.remapped_rows is Some ==> after.remapped_rows == before.remapped_rows,
        forall|code: u32|
            before.xid_event_counts@.contains_key(code)
                ==> #[trigger] after.xid_event_counts@.contains_key(code)
                && after.xid_event_counts@[code] >= before.xid_event_counts@[code],
        forall|key: Seq<char>|
            before.detail@.contains_key(key) ==> #[trigger] after.detail@.contains_key(key),
{
    reveal(attributed);
}

/// Whether the detail map says that DCGM supplied the field.
pub open spec fn from_dcgm(gpu: GpuInfo, field: Seq<char>) -> bool {
    gpu.detail@.contains_key(source_key(field)) && gpu.detail@[source_key(field)] == "dcgm"@
}

/// A merge fills what the row lacks from the sample, and the detail map says
/// where it came from.
pub proof fn law_merge_fills_what_is_missing(
    before: GpuInfo,
    sample: DcgmGpuSample,
    after: GpuInfo,
)
    requires
        merged(before, sample, after),
    ensures
        ({
            let metrics = metrics_of(before);
            let now = after.gpm_metrics->0;
            &&& fills(metrics.graphics_active, sample.graphics_active) ==> now.graphics_active
                == sample.graphics_active && from_dcgm(after, "graphics_active"@)
            &&& fills(metrics.sm_active, sample.sm_active) ==> now.sm_active
                == sample.sm_active && from_dcgm(after, "sm_active"@)
            &&& fills(metrics.sm_occupancy, sample.sm_occupancy) ==> now.sm_occupancy
                == sample.sm_occupancy && from_dcgm(after, "sm_occupancy"@)
            &&& fills(metrics.tensor_active, sample.tensor_active) ==> now.tensor_active
                == sample.tensor_active && from_dcgm(after, "tensor_active"@)
            &&& fills(metrics.fp64_active, sample.fp64_active) ==> now.fp64_active
                == sample.fp64_active && from_dcgm(after, "fp64_active"@)
            &&& fills(metrics.fp32_active, sample.fp32_active) ==> now.fp32_active
                == sample.fp32_active && from_dcgm(after, "fp32_active"@)
            &&& fills(metrics.fp16_active, sample.fp16_active) ==> now.fp16_active
                == sample.fp16_active && from_dcgm(after, "fp16_active"@)
            &&& fills(metrics.memory_bandwidth_utilization, sample.memory_bandwidth_utilization)
                ==> now.memory_bandwidth_utilization
                == sample.memory_bandwidth_utilization
                    && from_dcgm(after, "memory_bandwidth_utilization"@)
            &&& fills(metrics.pcie_tx_bytes_per_sec, sample.pcie_tx_bytes_per_sec)
                ==> now.pcie_tx_bytes_per_sec
                == sample.pcie_tx_bytes_per_sec && from_dcgm(after, "pcie_tx"@)
            &&& fills(metrics.pcie_rx_bytes_per_sec, sample.pcie_rx_bytes_per_sec)
                ==> now.pcie_rx_bytes_per_sec
                == sample.pcie_rx_bytes_per_sec && from_dcgm(after, "pcie_rx"@)
            &&& fills(metrics.nvlink_tx_bytes_per_sec, sample.nvlink_tx_bytes_per_sec)
                ==> now.nvlink_tx_bytes_per_sec
                == sample.nvlink_tx_bytes_per_sec && from_dcgm(after, "nvlink_tx"@)
            &&& fills(metrics.nvlink_rx_bytes_per_sec, sample.nvlink_rx_bytes_per_sec)
                ==> now.nvlink_rx_bytes_per_sec
                == sample.nvlink_rx_bytes_per_sec && from_dcgm(after, "nvlink_rx"@)
            &&& contributes(metrics, sample) && metrics.source != Some(TelemetrySource::Gpm)
                ==> now.source == Some(TelemetrySource::Dcgm)
            &&& fills(before.throttle_reasons, sample.throttle_reasons)
                ==> after.throttle_reasons == sample.throttle_reasons
                    && from_dcgm(after, "throttle"@)
            &&& fills(before.remapped_rows, sample.remapped_rows) ==> after.remapped_rows
                == sample.remapped_rows && from_dcgm(after, "remapped_rows"@)
            &&& forall|code: u32| #[trigger]
                raises(before.xid_event_counts@, sample.xid_event_counts@, code)
                    ==> after.xid_event_counts@[code] == sample.xid_event_counts@[code]
                    && from_dcgm(after, "xid_"@ + decimal(code as nat))
        }),
{
    let keys = marks(before, sample);
    assert forall|key: Seq<char>| #[trigger] keys.contains(key) implies after.detail@.contains_key(
        key,
    ) && after.detail@[key] == "dcgm"@ by {
        reveal(attributed);
    }
    reveal(mark);
    assert forall|code: u32| #[trigger]
        raises(before.xid_event_counts@, sample.xid_event_counts@, code) implies keys.contains(
        source_key("xid_"@ + decimal(code as nat)),
    ) by {
        assert(xid_marks(before.xid_event_counts@, sample.xid_event_counts@).contains(
            source_key("xid_"@ + decimal(code as nat)),
        ));
    }
    assert(fills(before.throttle_reasons, sample.throttle_reasons) ==> keys.contains(
        source_key("throttle"@),
    ));
    assert(fills(before.remapped_rows, sample.remapped_rows) ==> keys.contains(
        source_key("remapped_rows"@),
    ));
    assert(fills(metrics_of(before).graphics_active, sample.graphics_active) ==> keys.contains(
        source_key("graphics_active"@),
    ));
    assert(fills(metrics_of(before).sm_active, sample.sm_active) ==> keys.contains(
        source_key("sm_active"@),
    ));
    assert(fills(metrics_of(before).sm_occupancy, sample.sm_occupancy) ==> keys.contains(
        source_key("sm_occupancy"@),
    ));
    assert(fills(metrics_of(before).tensor_active, sample.tensor_active) ==> keys.contains(
        source_key("tensor_active"@),
    ));
    assert(fills(metrics_of(before).fp64_active, sample.fp64_active) ==> keys.contains(
        source_key("fp64_active"@),
    ));
    assert(fills(metrics_of(before).fp32_active, sample.fp32_active) ==> keys.contains(
        source_key("fp32_active"@),
    ));
    assert(fills(metrics_of(before).fp16_active, sample.fp16_active) ==> keys.contains(
        source_key("fp16_active"@),
    ));
    assert(fills(
        metrics_of(before).memory_bandwidth_utilization,
        sample.memory_bandwidth_utilization,
    ) ==> keys.contains(
        source_key("memory_bandwidth_utilization"@),
    ));
    assert(fills(
        metrics_of(before).pcie_tx_bytes_per_sec,
        sample.pcie_tx_bytes_per_sec,
    ) ==> keys.contains(
        source_key("pcie_tx"@),
    ));
    assert(fills(
        metrics_of(before).pcie_rx_bytes_per_sec,
        sample.pcie_rx_bytes_per_sec,
    ) ==> keys.contains(
        source_key("pcie_rx"@),
    ));
    assert(fills(
        metrics_of(before).nvlink_tx_bytes_per_sec,
        sample.nvlink_tx_bytes_per_sec,
    ) ==> keys.contains(
        source_key("nvlink_tx"@),
    ));
    assert(fills(
        metrics_of(before).nvlink_rx_bytes_per_sec,
        sample.nvlink_rx_bytes_per_sec,
    ) ==> keys.contains(
        source_key("nvlink_rx"@),
    ));
}

/// Merging a sample a second time changes nothing.
pub proof fn law_merge_twice_is_merge_once(
    before: GpuInfo,
    sample: DcgmGpuSample,
    once: GpuInfo,
    twice: GpuInfo,
)
    requires
        merged(before, sample, once),
        merged(once, sample, twice),
    ensures
        same_otherwise(once, twice),
        twice.gpm_metrics == once.gpm_metrics,
        twice.throttle_reasons == once.throttle_reasons,
        twice.remapped_rows == once.remapped_rows,
        twice.xid_event_counts@ == once.xid_event_counts@,
        twice.detail@ == once.detail@,
{
    assert(twice.xid_event_counts@ =~= once.xid_event_counts@);
    assert(marks(once, sample) =~= Set::empty()) by {
        reveal(mark);
        assert forall|code: u32| !#[trigger]
            raises(once.xid_event_counts@, sample.xid_event_counts@, code) by {}
    }
    reveal(attributed);
    assert(twice.detail@ =~= once.detail@);
}

/// A row that the samples do not name stays as it is.
pub proof fn law_other_rows_unchanged(before: GpuInfo, samples: Seq<DcgmGpuSample>, after: GpuInfo)
    requires
        merged_row(before, samples, after),
        forall|k: int| 0 <= k < samples.len() ==> (#[trigger] samples[k]).uuid@ != before.uuid@,
    ensures
        after == before,
{
}

/// A row without activity metrics gets those of the sample, field by field, and
/// they count as DCGM metrics if there are any.
pub proof fn law_merge_into_a_bare_row(
    before: GpuInfo,
    sample: DcgmGpuSample,
    after: GpuInfo,
    now: GpmMetrics,
)
    requires
        merged(before, sample, after),
        before.gpm_metrics is None,
        after.gpm_metrics == Some(now),
    ensures
        now.graphics_active == sample.graphics_active,
        now.sm_active == sample.sm_active,
        now.sm_occupancy == sample.sm_occupancy,
        now.tensor_active == sample.tensor_active,
        now.fp64_active == sample.fp64_active,
        now.fp32_active == sample.fp32_active,
        now.fp16_active == sample.fp16_active,
        now.memory_bandwidth_utilization == sample.memory_bandwidth_utilization,
        now.pcie_tx_bytes_per_sec == sample.pcie_tx_bytes_per_sec,
        now.pcie_rx_bytes_per_sec == sample.pcie_rx_bytes_per_sec,
        now.nvlink_tx_bytes_per_sec == sample.nvlink_tx_bytes_per_sec,
        now.nvlink_rx_bytes_per_sec == sample.nvlink_rx_bytes_per_sec,
        now.tensor_hmma_active is None,
        now.tensor_imma_active is None,
        now.tensor_dfma_active is None,
        now.integer_active is None,
        now.nvdec_active is None,
        now.nvjpg_active is None,
        now.nvofa_active is None,
        now.source == (if sample.graphics_active is Some || sample.sm_active is Some
            || sample.sm_occupancy is Some || sample.tensor_active is Some
            || sample.fp64_active is Some || sample.fp32_active is Some
            || sample.fp16_active is Some || sample.memory_bandwidth_utilization is Some
            || sample.pcie_tx_bytes_per_sec is Some || sample.pcie_rx_bytes_per_sec is Some
            || sample.nvlink_tx_bytes_per_sec is Some || sample.nvlink_rx_bytes_per_sec is Some {
            Some(TelemetrySource::Dcgm)
        } else {
            None
        }),
{
}

/// Field by field, a row has its own value after a merge where it had one, and that
/// of the sample otherwise. The metrics count as DCGM metrics as soon as one field
/// came from the sample, except where GPM has claimed them.
pub proof fn law_merge_goes_field_by_field(
    before: GpuInfo,
    metrics: GpmMetrics,
    sample: DcgmGpuSample,
    after: GpuInfo,
    now: GpmMetrics,
)
    requires
        merged(before, sample, after),
        before.gpm_metrics == Some(metrics),
        after.gpm_metrics == Some(now),
    ensures
        now.graphics_active == (if metrics.graphics_active is Some {
            metrics.graphics_active
        } else {
            sample.graphics_active
        }),
        now.sm_active == (if metrics.sm_active is Some {
            metrics.sm_active
        } else {
            sample.sm_active
        }),
        now.sm_occupancy == (if metrics.sm_occupancy is Some {
            metrics.sm_occupancy
        } else {
            sample.sm_occupancy
        }),
        now.tensor_active == (if metrics.tensor_active is Some {
            metrics.tensor_active
        } else {
            sample.tensor_active
        }),
        now.fp64_active == (if metrics.fp64_active is Some {
            metrics.fp64_active
        } else {
            sample.fp64_active
        }),
        now.fp32_active == (if metrics.fp32_active is Some {
            metrics.fp32_active
        } else {
            sample.fp32_active
        }),
        now.fp16_active == (if metrics.fp16_active is Some {
            metrics.fp16_active
        } else {
            sample.fp16_active
        }),
        now.memory_bandwidth_utilization == (if metrics.memory_bandwidth_utilization is Some {
            metrics.memory_bandwidth_utilization
        } else {
            sample.memory_bandwidth_utilization
        }),
        now.pcie_tx_bytes_per_sec == (if metrics.pcie_tx_bytes_per_sec is Some {
            metrics.pcie_tx_bytes_per_sec
        } else {
            sample.pcie_tx_bytes_per_sec
        }),
        now.pcie_rx_bytes_per_sec == (if metrics.pcie_rx_bytes_per_sec is Some {
            metrics.pcie_rx_bytes_per_sec
        } else {
            sample.pcie_rx_bytes_per_sec
        }),
        now.nvlink_tx_bytes_per_sec == (if metrics.nvlink_tx_bytes_per_sec is Some {
            metrics.nvlink_tx_bytes_per_sec
        } else {
            sample.nvlink_tx_bytes_per_sec
        }),
        now.nvlink_rx_bytes_per_sec == (if metrics.nvlink_rx_bytes_per_sec is Some {
            metrics.nvlink_rx_bytes_per_sec
        } else {
            sample.nvlink_rx_bytes_per_sec
        }),
        now.tensor_hmma_active == metrics.tensor_hmma_active,
        now.tensor_imma_active == metrics.tensor_imma_active,
        now.tensor_dfma_active == metrics.tensor_dfma_active,
        now.integer_active == metrics.integer_active,
        now.nvdec_active == metrics.nvdec_active,
        now.nvjpg_active == metrics.nvjpg_active,
        now.nvofa_active == metrics.nvofa_active,
        now.source == (if metrics.source != Some(TelemetrySource::Gpm)
            && ((metrics.graphics_active is None && sample.graphics_active is Some)
            || (metrics.sm_active is None && sample.sm_active is Some)
            || (metrics.sm_occupancy is None && sample.sm_occupancy is Some)
            || (metrics.tensor_active is None && sample.tensor_active is Some)
            || (metrics.fp64_active is None && sample.fp64_active is Some)
            || (metrics.fp32_active is None && sample.fp32_active is Some)
            || (metrics.fp16_active is None && sample.fp16_active is Some)
            || (metrics.memory_bandwidth_utilization is None
            && sample.memory_bandwidth_utilization is Some)
            || (metrics.pcie_tx_bytes_per_sec is None && sample.pcie_tx_bytes_per_sec is Some)
            || (metrics.pcie_rx_bytes_per_sec is None && sample.pcie_rx_bytes_per_sec is Some)
            || (metrics.nvlink_tx_bytes_per_sec is None
            && sample.nvlink_tx_bytes_per_sec is Some)
            || (metrics.nvlink_rx_bytes_per_sec is None
            && sample.nvlink_rx_bytes_per_sec is Some)) {
            Some(TelemetrySource::Dcgm)
        } else {
            metrics.source
        }),
{
}

/// A row always has activity metrics after a merge; its throttle reasons and
/// remapped rows are its own where it had them, and those of the sample otherwise;
/// what DCGM does not measure stays.
pub proof fn law_merge_of_the_other_fields(before: GpuInfo, sample: DcgmGpuSample, after: GpuInfo)
    requires
        merged(before, sample, after),
    ensures
        after.gpm_metrics is Some,
        after.throttle_reasons == (if before.throttle_reasons is Some {
            before.throttle_reasons
        } else {
            sample.throttle_reasons
        }),
        after.remapped_rows == (if before.remapped_rows is Some {
            before.remapped_rows
        } else {
            sample.remapped_rows
        }),
        after.uuid == before.uuid,
        after.name == before.name,
        after.instance == before.instance,
        after.numa_node_id == before.numa_node_id,
        after.gsp_firmware_mode == before.gsp_firmware_mode,
        after.gsp_firmware_version == before.gsp_firmware_version,
        after.nvlink_remote_devices == before.nvlink_remote_devices,
        after.energy_hw_millijoules == before.energy_hw_millijoules,
        after.nvlink_errors == before.nvlink_errors,
        after.utilization_samples == before.utilization_samples,
{
}

/// Of each event code the row has the greater of the two counts.
pub proof fn law_greater_count_is_kept(
    before: GpuInfo,
    sample: DcgmGpuSample,
    after: GpuInfo,
    code: u32,
)
    requires
        merged(before, sample, after),
    ensures
        after.xid_event_counts@.contains_key(code) <==> before.xid_event_counts@.contains_key(code)
            || sample.xid_event_counts@.contains_key(code),
        before.xid_event_counts@.contains_key(code) ==> after.xid_event_counts@[code]
            >= before.xid_event_counts@[code],
        sample.xid_event_counts@.contains_key(code) ==> after.xid_event_counts@[code]
            >= sample.xid_event_counts@[code],
        after.xid_event_counts@.contains_key(code) ==> (before.xid_event_counts@.contains_key(code)
            && after.xid_event_counts@[code] == before.xid_event_counts@[code]) || (
        sample.xid_event_counts@.contains_key(code) && after.xid_event_counts@[code]
            == sample.xid_event_counts@[code]),
{
}

/// The detail map says `dcgm` under `Source: ` and the name of each value that came
/// from the sample.
pub proof fn law_supplied_values_are_attributed(
    before: GpuInfo,
    metrics: GpmMetrics,
    sample: DcgmGpuSample,
    after: GpuInfo,
)
    requires
        merged(before, sample, after),
        before.gpm_metrics == Some(metrics) || (before.gpm_metrics is None && metrics
            == unmeasured()),
    ensures
        metrics.graphics_active is None && sample.graphics_active is Some
            ==> after.detail@.contains_pair(
            "Source: "@ + "graphics_active"@,
            "dcgm"@,
        ),
        metrics.sm_active is None && sample.sm_active is Some ==> after.detail@.contains_pair(
            "Source: "@ + "sm_active"@,
            "dcgm"@,
        ),
        metrics.sm_occupancy is None && sample.sm_occupancy is Some ==> after.detail@.contains_pair(
            "Source: "@ + "sm_occupancy"@,
            "dcgm"@,
        ),
        metrics.tensor_active is None && sample.tensor_active is Some
            ==> after.detail@.contains_pair(
            "Source: "@ + "tensor_active"@,
            "dcgm"@,
        ),
        metrics.fp64_active is None && sample.fp64_active is Some ==> after.detail@.contains_pair(
            "Source: "@ + "fp64_active"@,
            "dcgm"@,
        ),
        metrics.fp32_active is None && sample.fp32_active is Some ==> after.detail@.contains_pair(
            "Source: "@ + "fp32_active"@,
            "dcgm"@,
        ),
        metrics.fp16_active is None && sample.fp16_active is Some ==> after.detail@.contains_pair(
            "Source: "@ + "fp16_active"@,
            "dcgm"@,
        ),
        metrics.memory_bandwidth_utilization is None
            && sample.memory_bandwidth_utilization is Some ==> after.detail@.contains_pair(
            "Source: "@ + "memory_bandwidth_utilization"@,
            "dcgm"@,
        ),
        metrics.pcie_tx_bytes_per_sec is None && sample.pcie_tx_bytes_per_sec is Some
            ==> after.detail@.contains_pair(
            "Source: "@ + "pcie_tx"@,
            "dcgm"@,
        ),
        metrics.pcie_rx_bytes_per_sec is None && sample.pcie_rx_bytes_per_sec is Some
            ==> after.detail@.contains_pair(
            "Source: "@ + "pcie_rx"@,
            "dcgm"@,
        ),
        metrics.nvlink_tx_bytes_per_sec is None && sample.nvlink_tx_bytes_per_sec is Some
            ==> after.detail@.contains_pair(
            "Source: "@ + "nvlink_tx"@,
            "dcgm"@,
        ),
        metrics.nvlink_rx_bytes_per_sec is None && sample.nvlink_rx_bytes_per_sec is Some
            ==> after.detail@.contains_pair(
            "Source: "@ + "nvlink_rx"@,
            "dcgm"@,
        ),
        before.throttle_reasons is None && sample.throttle_reasons is Some
            ==> after.detail@.contains_pair("Source: "@ + "throttle"@, "dcgm"@),
        before.remapped_rows is None && sample.remapped_rows is Some
            ==> after.detail@.contains_pair("Source: "@ + "remapped_rows"@, "dcgm"@),
        forall|code: u32| #[trigger]
            sample.xid_event_counts@.contains_key(code) && (
            if before.xid_event_counts@.contains_key(code) {
                before.xid_event_counts@[code] < sample.xid_event_counts@[code]
            } else {
                0 < sample.xid_event_counts@[code]
            }) ==> after.detail@.contains_pair(
                "Source: "@ + ("xid_"@ + decimal(code as nat)),
                "dcgm"@,
            ),
{
    let keys = marks(before, sample);
    assert forall|key: Seq<char>| #[trigger] keys.contains(key) implies after.detail@.contains_pair(
        key,
        "dcgm"@,
    ) by {
        reveal(attributed);
    }
    reveal(mark);
    assert(metrics.graphics_active is None && sample.graphics_active is Some ==> keys.contains(
        "Source: "@ + "graphics_active"@,
    ));
    assert(metrics.sm_active is None && sample.sm_active is Some ==> keys.contains(
        "Source: "@ + "sm_active"@,
    ));
    assert(metrics.sm_occupancy is None && sample.sm_occupancy is Some ==> keys.contains(
        "Source: "@ + "sm_occupancy"@,
    ));
    assert(metrics.tensor_active is None && sample.tensor_active is Some ==> keys.contains(
        "Source: "@ + "tensor_active"@,
    ));
    assert(metrics.fp64_active is None && sample.fp64_active is Some ==> keys.contains(
        "Source: "@ + "fp64_active"@,
    ));
    assert(metrics.fp32_active is None && sample.fp32_active is Some ==> keys.contains(
        "Source: "@ + "fp32_active"@,
    ));
    assert(metrics.fp16_active is None && sample.fp16_active is Some ==> keys.contains(
        "Source: "@ + "fp16_active"@,
    ));
    assert(metrics.memory_bandwidth_utilization is None
        && sample.memory_bandwidth_utilization is Some ==> keys.contains(
        "Source: "@ + "memory_bandwidth_utilization"@,
    ));
    assert(metrics.pcie_tx_bytes_per_sec is None && sample.pcie_tx_bytes_per_sec is Some
        ==> keys.contains(
        "Source: "@ + "pcie_tx"@,
    ));
    assert(metrics.pcie_rx_bytes_per_sec is None && sample.pcie_rx_bytes_per_sec is Some
        ==> keys.contains(
        "Source: "@ + "pcie_rx"@,
    ));
    assert(metrics.nvlink_tx_bytes_per_sec is None && sample.nvlink_tx_bytes_per_sec is Some
        ==> keys.contains(
        "Source: "@ + "nvlink_tx"@,
    ));
    assert(metrics.nvlink_rx_bytes_per_sec is None && sample.nvlink_rx_bytes_per_sec is Some
        ==> keys.contains(
        "Source: "@ + "nvlink_rx"@,
    ));
    assert(before.throttle_reasons is None && sample.throttle_reasons is Some ==> keys.contains(
        "Source: "@ + "throttle"@,
    ));
    assert(before.remapped_rows is None && sample.remapped_rows is Some ==> keys.contains(
        "Source: "@ + "remapped_rows"@,
    ));
    assert forall|code: u32| #[trigger]
        sample.xid_event_counts@.contains_key(code) && (
        if before.xid_event_counts@.contains_key(code) {
            before.xid_event_counts@[code] < sample.xid_event_counts@[code]
        } else {
            0 < sample.xid_event_counts@[code]
        }) implies after.detail@.contains_pair(
        "Source: "@ + ("xid_"@ + decimal(code as nat)),
        "dcgm"@,
    ) by {
        assert(raises(before.xid_event_counts@, sample.xid_event_counts@, code));
        let key = "Source: "@ + ("xid_"@ + decimal(code as nat));
        assert(xid_marks(before.xid_event_counts@, sample.xid_event_counts@).contains(key));
        assert(keys.contains(key));
    }
}

/// Nothing else in the detail map changes: a key whose entry is new or differs names
/// a value that came from the sample.
pub proof fn law_other_details_stay(
    before: GpuInfo,
    metrics: GpmMetrics,
    sample: DcgmGpuSample,
    after: GpuInfo,
    key: Seq<char>,
)
    requires
        merged(before, sample, after),
        before.gpm_metrics == Some(metrics) || (before.gpm_metrics is None && metrics
            == unmeasured()),
    ensures
        before.detail@.contains_key(key) ==> after.detail@.contains_key(key),
        after.detail@.contains_key(key) && !before.detail@.contains_pair(key, after.detail@[key])
            ==> {
            ||| metrics.graphics_active is None && sample.graphics_active is Some
                && key == "Source: "@
                + "graphics_active"@
            ||| metrics.sm_active is None && sample.sm_active is Some && key == "Source: "@
                + "sm_active"@
            ||| metrics.sm_occupancy is None && sample.sm_occupancy is Some && key == "Source: "@
                + "sm_occupancy"@
            ||| metrics.tensor_active is None && sample.tensor_active is Some && key == "Source: "@
                + "tensor_active"@
            ||| metrics.fp64_active is None && sample.fp64_active is Some && key == "Source: "@
                + "fp64_active"@
            ||| metrics.fp32_active is None && sample.fp32_active is Some && key == "Source: "@
                + "fp32_active"@
            ||| metrics.fp16_active is None && sample.fp16_active is Some && key == "Source: "@
                + "fp16_active"@
            ||| metrics.memory_bandwidth_utilization is None
                && sample.memory_bandwidth_utilization is Some && key == "Source: "@
                + "memory_bandwidth_utilization"@
            ||| metrics.pcie_tx_bytes_per_sec is None && sample.pcie_tx_bytes_per_sec is Some
                && key == "Source: "@
                + "pcie_tx"@
            ||| metrics.pcie_rx_bytes_per_sec is None && sample.pcie_rx_bytes_per_sec is Some
                && key == "Source: "@
                + "pcie_rx"@
            ||| metrics.nvlink_tx_bytes_per_sec is None
                && sample.nvlink_tx_bytes_per_sec is Some && key == "Source: "@
                + "nvlink_tx"@
            ||| metrics.nvlink_rx_bytes_per_sec is None
                && sample.nvlink_rx_bytes_per_sec is Some && key == "Source: "@
                + "nvlink_rx"@
            ||| before.throttle_reasons is None && sample.throttle_reasons is Some && key
                == "Source: "@ + "throttle"@
            ||| before.remapped_rows is None && sample.remapped_rows is Some && key == "Source: "@
                + "remapped_rows"@
            ||| exists|code: u32| #[trigger]
                sample.xid_event_counts@.contains_key(code) && (
                if before.xid_event_counts@.contains_key(code) {
                    before.xid_event_counts@[code] < sample.xid_event_counts@[code]
                } else {
                    0 < sample.xid_event_counts@[code]
                }) && key == "Source: "@ + ("xid_"@ + decimal(code as nat))
        },
{
    reveal(attributed);
    reveal(mark);
    let (mine, theirs) = (before.xid_event_counts@, sample.xid_event_counts@);
    if xid_marks(mine, theirs).contains(key) {
        let code = choose|code: u32| #[trigger]
            raises(mine, theirs, code) && key == source_key("xid_"@ + decimal(code as nat));
        assert(theirs.contains_key(code));
    }
}

/// Of several samples of a GPU the last one is merged into its row.
pub proof fn law_last_sample_of_a_gpu_counts(
    before: GpuInfo,
    samples: Seq<DcgmGpuSample>,
    after: GpuInfo,
    k: int,
)
    requires
        merged_row(before, samples, after),
        0 <= k < samples.len(),
        samples[k].uuid@ == before.uuid@,
        forall|j: int| k < j < samples.len() ==> (#[trigger] samples[j]).uuid@ != before.uuid@,
    ensures
        merged(before, samples[k], after),
{
    assert(sampled(samples, before.uuid@));
    let chosen_place = choose|i: int| #[trigger]
        chosen(samples, before.uuid@, i) && merged(before, samples[i], after);
    if chosen_place < k {
        assert(samples[k].uuid@ != before.uuid@);
    } else if chosen_place > k {
        assert(samples[chosen_place].uuid@ != before.uuid@);
    }
}

} // verus!
