//! Decoding of DCGM field values into GPU samples.
use crate::bindings::{
    DCGM_CLOCKS_EVENT_REASON_CLOCKS_SETTING,
    DCGM_CLOCKS_EVENT_REASON_DISPLAY_CLOCKS,
    DCGM_CLOCKS_EVENT_REASON_GPU_IDLE,
    DCGM_CLOCKS_EVENT_REASON_HW_POWER_BRAKE,
    DCGM_CLOCKS_EVENT_REASON_HW_SLOWDOWN,
    DCGM_CLOCKS_EVENT_REASON_HW_THERMAL,
    DCGM_CLOCKS_EVENT_REASON_SW_POWER_CAP,
    DCGM_CLOCKS_EVENT_REASON_SW_THERMAL,
    DCGM_CLOCKS_EVENT_REASON_SYNC_BOOST,
    DCGM_FI_DEV_CLOCK_THROTTLE_REASONS,
    DCGM_FI_DEV_ROW_REMAP_CORRECTABLE_TOTAL,
    DCGM_FI_DEV_ROW_REMAP_FAILED,
    DCGM_FI_DEV_ROW_REMAP_PENDING,
    DCGM_FI_DEV_ROW_REMAP_UNCORRECTABLE_TOTAL,
    DCGM_FI_DEV_UUID,
    DCGM_FI_DEV_XID_ERRORS,
    DCGM_FI_PROF_DRAM_ACTIVE,
    DCGM_FI_PROF_GR_ENGINE_ACTIVE,
    DCGM_FI_PROF_NVLINK_RX_BYTES,
    DCGM_FI_PROF_NVLINK_TX_BYTES,
    DCGM_FI_PROF_PCIE_RX_BYTES,
    DCGM_FI_PROF_PCIE_TX_BYTES,
    DCGM_FI_PROF_PIPE_FP16_ACTIVE,
    DCGM_FI_PROF_PIPE_FP32_ACTIVE,
    DCGM_FI_PROF_PIPE_FP64_ACTIVE,
    DCGM_FI_PROF_PIPE_TENSOR_ACTIVE,
    DCGM_FI_PROF_SM_ACTIVE,
    DCGM_FI_PROF_SM_OCCUPANCY,
    DCGM_FP64_BLANK_BITS,
    DCGM_FT_DOUBLE,
    DCGM_FT_INT64,
    DCGM_FT_STRING,
    DCGM_INT64_BLANK,
    DCGM_ST_OK,
};
use crate::number::{cut_to_i64, double_finite, double_to_i64, is_finite, DOUBLE_ONE};
use crate::nvidia_extras::reasons_of;
use crate::types::{RemappedRowsInfo, ThrottleReasons};
use std::collections::HashMap;
use vstd::prelude::*;

verus! {

/// The fields that are watched and read, in order.
pub open spec fn watched_fields() -> Seq<u16> {
    seq![
        DCGM_FI_DEV_UUID,
        DCGM_FI_PROF_GR_ENGINE_ACTIVE,
        DCGM_FI_PROF_SM_ACTIVE,
        DCGM_FI_PROF_SM_OCCUPANCY,
        DCGM_FI_PROF_PIPE_TENSOR_ACTIVE,
        DCGM_FI_PROF_DRAM_ACTIVE,
        DCGM_FI_PROF_PIPE_FP64_ACTIVE,
        DCGM_FI_PROF_PIPE_FP32_ACTIVE,
        DCGM_FI_PROF_PIPE_FP16_ACTIVE,
        DCGM_FI_PROF_PCIE_TX_BYTES,
        DCGM_FI_PROF_PCIE_RX_BYTES,
        DCGM_FI_PROF_NVLINK_TX_BYTES,
        DCGM_FI_PROF_NVLINK_RX_BYTES,
        DCGM_FI_DEV_CLOCK_THROTTLE_REASONS,
        DCGM_FI_DEV_ROW_REMAP_CORRECTABLE_TOTAL,
        DCGM_FI_DEV_ROW_REMAP_UNCORRECTABLE_TOTAL,
        DCGM_FI_DEV_ROW_REMAP_PENDING,
        DCGM_FI_DEV_ROW_REMAP_FAILED,
        DCGM_FI_DEV_XID_ERRORS,
    ]
}

/// The fields that are watched and read, in order.
pub fn field_ids() -> (ids: Vec<u16>)
    ensures
        ids@ == watched_fields(),
{
    let ids = vec![
        DCGM_FI_DEV_UUID,
        DCGM_FI_PROF_GR_ENGINE_ACTIVE,
        DCGM_FI_PROF_SM_ACTIVE,
        DCGM_FI_PROF_SM_OCCUPANCY,
        DCGM_FI_PROF_PIPE_TENSOR_ACTIVE,
        DCGM_FI_PROF_DRAM_ACTIVE,
        DCGM_FI_PROF_PIPE_FP64_ACTIVE,
        DCGM_FI_PROF_PIPE_FP32_ACTIVE,
        DCGM_FI_PROF_PIPE_FP16_ACTIVE,
        DCGM_FI_PROF_PCIE_TX_BYTES,
        DCGM_FI_PROF_PCIE_RX_BYTES,
        DCGM_FI_PROF_NVLINK_TX_BYTES,
        DCGM_FI_PROF_NVLINK_RX_BYTES,
        DCGM_FI_DEV_CLOCK_THROTTLE_REASONS,
        DCGM_FI_DEV_ROW_REMAP_CORRECTABLE_TOTAL,
        DCGM_FI_DEV_ROW_REMAP_UNCORRECTABLE_TOTAL,
        DCGM_FI_DEV_ROW_REMAP_PENDING,
        DCGM_FI_DEV_ROW_REMAP_FAILED,
        DCGM_FI_DEV_XID_ERRORS,
    ];
    assert(ids@ =~= watched_fields());
    ids
}

/// A field value as DCGM delivers it.
#[derive(Debug, PartialEq, Eq)]
pub struct FieldValue {
    pub field_id: u16,
    pub field_type: u16,
    pub status: i32,
    /// The first eight bytes of the value, as an integer in the byte order of
    /// the machine: an integer, or the bit pattern of a number.
    pub word: u64,
    /// The bytes of the value.
    pub bytes: Vec<u8>,
}

/// A number as a field delivers it.
#[derive(Clone, Copy, Debug, PartialEq, Eq, Structural)]
pub enum Number {
    Int(i64),
    /// The bit pattern of a double-precision number.
    Double(u64),
}

/// The number that a field value holds: none where it is blank, not finite or
/// no number at all.
pub open spec fn number_in(value: FieldValue) -> Option<Number> {
    if value.field_type as u8 == DCGM_FT_DOUBLE {
        if value.word == DCGM_FP64_BLANK_BITS || !double_finite(value.word) {
            None
        } else {
            Some(Number::Double(value.word))
        }
    } else if value.field_type as u8 == DCGM_FT_INT64 {
        if value.word == DCGM_INT64_BLANK {
            None
        } else {
            Some(Number::Int(value.word as i64))
        }
    } else {
        None
    }
}

/// Computes [`number_in`].
pub fn read_f64(value: &FieldValue) -> (number: Option<Number>)
    ensures
        number == number_in(*value),
{
    #[verifier::truncate]
    let kind: u8 = value.field_type as u8;
    if kind == DCGM_FT_DOUBLE {
        if value.word == DCGM_FP64_BLANK_BITS || !is_finite(value.word) {
            None
        } else {
            Some(Number::Double(value.word))
        }
    } else if kind == DCGM_FT_INT64 {
        if value.word == DCGM_INT64_BLANK {
            None
        } else {
            #[verifier::truncate]
            let whole: i64 = value.word as i64;
            Some(Number::Int(whole))
        }
    } else {
        None
    }
}

/// A number brought into the range from zero to one.
pub open spec fn clamped(number: Number) -> Number {
    match number {
        Number::Int(whole) => Number::Int(
            if whole < 0 {
                0
            } else if whole > 1 {
                1
            } else {
                whole
            },
        ),
        Number::Double(bits) => Number::Double(
            if bits > 0x8000_0000_0000_0000 {
                0
            } else if DOUBLE_ONE < bits < 0x8000_0000_0000_0000 {
                DOUBLE_ONE
            } else {
                bits
            },
        ),
    }
}

/// The ratio that a field value holds.
pub open spec fn ratio_in(value: FieldValue) -> Option<Number> {
    match number_in(value) {
        Some(number) => Some(clamped(number)),
        None => None,
    }
}

/// Computes [`ratio_in`].
pub fn read_ratio(value: &FieldValue) -> (ratio: Option<Number>)
    ensures
        ratio == ratio_in(*value),
{
    match read_f64(value) {
        Some(Number::Int(whole)) => {
            if whole < 0 {
                Some(Number::Int(0))
            } else if whole > 1 {
                Some(Number::Int(1))
            } else {
                Some(Number::Int(whole))
            }
        },
        Some(Number::Double(bits)) => {
            if bits > 0x8000_0000_0000_0000 {
                Some(Number::Double(0))
            } else if DOUBLE_ONE < bits && bits < 0x8000_0000_0000_0000 {
                Some(Number::Double(DOUBLE_ONE))
            } else {
                Some(Number::Double(bits))
            }
        },
        None => None,
    }
}

/// The integer that a field value holds; a number loses its fraction.
pub open spec fn integer_in(value: FieldValue) -> Option<i64> {
    match number_in(value) {
        Some(Number::Int(whole)) => Some(whole),
        Some(Number::Double(bits)) => Some(double_to_i64(bits) as i64),
        None => None,
    }
}

/// Computes [`integer_in`].
pub fn read_i64(value: &FieldValue) -> (integer: Option<i64>)
    ensures
        integer == integer_in(*value),
{
    match read_f64(value) {
        Some(Number::Int(whole)) => Some(whole),
        Some(Number::Double(bits)) => Some(cut_to_i64(bits)),
        None => None,
    }
}

/// The bytes before the first NUL.
pub open spec fn until_nul(bytes: Seq<u8>) -> Seq<u8>
    decreases bytes.len(),
{
    if bytes.len() == 0 || bytes[0] == 0 {
        seq![]
    } else {
        seq![bytes[0]] + until_nul(bytes.drop_first())
    }
}

/// The text of a byte string, with replacement characters for what is no UTF-8.
pub uninterp spec fn lossy(bytes: Seq<u8>) -> Seq<char>;

/// `String::from_utf8_lossy`: the text whose encoding the bytes are, or, where
/// they are no valid UTF-8, a text with replacement characters. The text is
/// left to the name [`lossy`]; of valid bytes it is the text that they encode.
#[verifier::external_body]
fn lossy_text(bytes: &[u8]) -> (text: String)
    ensures
        text@ == lossy(bytes@),
        forall|encoded: Seq<char>|
            bytes@ == #[trigger] vstd::utf8::encode_utf8(encoded) ==> text@ == encoded,
{
    String::from_utf8_lossy(bytes).into_owned()
}

/// Whether a text has `NULL` in it.
pub open spec fn says_null(text: Seq<char>) -> bool {
    exists|i: int|
        0 <= i && i + 4 <= text.len() && #[trigger] text[i] == 'N' && text[i + 1] == 'U' && text[i
            + 2] == 'L' && text[i + 3] == 'L'
}

/// A text that means something: neither empty nor a `NULL` of some kind.
pub open spec fn usable(text: Seq<char>) -> Option<Seq<char>> {
    if text.len() == 0 || says_null(text) {
        None
    } else {
        Some(text)
    }
}

/// The text, if it means something.
pub fn usable_text(text: String) -> (kept: Option<String>)
    ensures
        match usable(text@) {
            Some(_) => kept == Some(text),
            None => kept is None,
        },
{
    let mut letters: Vec<char> = Vec::new();
    for c in chars: text.as_str().chars()
        invariant
            chars.seq() == text@,
            letters@ == text@.take(chars.index()),
    {
        assert(text@.take(chars.index() + 1) =~= text@.take(chars.index()).push(c));
        letters.push(c);
    }
    assert(letters@ =~= text@);
    if letters.len() == 0 {
        return None;
    }
    let mut i: usize = 0;
    while i < letters.len() && letters.len() - i >= 4
        invariant
            letters@ == text@,
            letters@.len() > 0,
            i <= letters@.len(),
            forall|j: int|
                0 <= j < i && j + 4 <= text@.len() ==> !(#[trigger] text@[j] == 'N' && text@[j + 1]
                    == 'U' && text@[j + 2] == 'L' && text@[j + 3] == 'L'),
        decreases letters@.len() - i,
    {
        if letters[i] == 'N' && letters[i + 1] == 'U' && letters[i + 2] == 'L' && letters[i + 3]
            == 'L' {
            assert(says_null(text@));
            return None;
        }
        i += 1;
    }
    assert(!says_null(text@));
    Some(text)
}

/// The text that a field value holds.
pub open spec fn text_in(value: FieldValue) -> Option<Seq<char>> {
    if value.field_type as u8 != DCGM_FT_STRING {
        None
    } else {
        usable(lossy(until_nul(value.bytes@)))
    }
}

/// Computes [`until_nul`].
fn before_nul(bytes: &[u8]) -> (part: Vec<u8>)
    ensures
        part@ == until_nul(bytes@),
{
    let mut part: Vec<u8> = Vec::new();
    let mut i: usize = 0;
    assert(bytes@.skip(0) =~= bytes@);
    assert(part@ + until_nul(bytes@.skip(0)) =~= until_nul(bytes@));
    while i < bytes.len() && bytes[i] != 0
        invariant
            i <= bytes@.len(),
            part@ + until_nul(bytes@.skip(i as int)) == until_nul(bytes@),
        decreases bytes@.len() - i,
    {
        let ghost rest = bytes@.skip(i as int);
        let ghost before = part@;
        part.push(bytes[i]);
        proof {
            assert(rest.drop_first() =~= bytes@.skip(i + 1));
            assert(part@ + until_nul(bytes@.skip(i + 1)) =~= before + until_nul(rest));
        }
        i += 1;
    }
    assert(part@ =~= part@ + until_nul(bytes@.skip(i as int)));
    part
}

/// The text that a field value holds.
pub fn read_string(value: &FieldValue) -> (text: Option<String>)
    ensures
        match text_in(*value) {
            Some(wanted) => text matches Some(text) && text@ == wanted,
            None => text is None,
        },
{
    #[verifier::truncate]
    let kind: u8 = value.field_type as u8;
    if kind != DCGM_FT_STRING {
        return None;
    }
    let part = before_nul(value.bytes.as_slice());
    usable_text(lossy_text(part.as_slice()))
}

/// The throttle reasons of a mask.
pub open spec fn reasons_in(bits: u64) -> ThrottleReasons {
    ThrottleReasons {
        gpu_idle: bits & DCGM_CLOCKS_EVENT_REASON_GPU_IDLE != 0,
        app_clocks: bits & DCGM_CLOCKS_EVENT_REASON_CLOCKS_SETTING != 0,
        sw_power_cap: bits & DCGM_CLOCKS_EVENT_REASON_SW_POWER_CAP != 0,
        hw_slowdown: bits & DCGM_CLOCKS_EVENT_REASON_HW_SLOWDOWN != 0,
        sync_boost: bits & DCGM_CLOCKS_EVENT_REASON_SYNC_BOOST != 0,
        sw_thermal: bits & DCGM_CLOCKS_EVENT_REASON_SW_THERMAL != 0,
        hw_thermal: bits & DCGM_CLOCKS_EVENT_REASON_HW_THERMAL != 0,
        hw_power_brake: bits & DCGM_CLOCKS_EVENT_REASON_HW_POWER_BRAKE != 0,
        display_clocks: bits & DCGM_CLOCKS_EVENT_REASON_DISPLAY_CLOCKS != 0,
    }
}

/// Computes [`reasons_in`].
pub fn throttle_from_bits(bits: u64) -> (reasons: ThrottleReasons)
    ensures
        reasons == reasons_in(bits),
{
    ThrottleReasons {
        gpu_idle: bits & DCGM_CLOCKS_EVENT_REASON_GPU_IDLE != 0,
        app_clocks: bits & DCGM_CLOCKS_EVENT_REASON_CLOCKS_SETTING != 0,
        sw_power_cap: bits & DCGM_CLOCKS_EVENT_REASON_SW_POWER_CAP != 0,
        hw_slowdown: bits & DCGM_CLOCKS_EVENT_REASON_HW_SLOWDOWN != 0,
        sync_boost: bits & DCGM_CLOCKS_EVENT_REASON_SYNC_BOOST != 0,
        sw_thermal: bits & DCGM_CLOCKS_EVENT_REASON_SW_THERMAL != 0,
        hw_thermal: bits & DCGM_CLOCKS_EVENT_REASON_HW_THERMAL != 0,
        hw_power_brake: bits & DCGM_CLOCKS_EVENT_REASON_HW_POWER_BRAKE != 0,
        display_clocks: bits & DCGM_CLOCKS_EVENT_REASON_DISPLAY_CLOCKS != 0,
    }
}

/// The DCGM sample of one GPU.
#[derive(Debug)]
pub struct GpuSample {
    pub uuid: String,
    pub graphics_active: Option<Number>,
    pub sm_active: Option<Number>,
    pub sm_occupancy: Option<Number>,
    pub tensor_active: Option<Number>,
    pub fp64_active: Option<Number>,
    pub fp32_active: Option<Number>,
    pub fp16_active: Option<Number>,
    pub memory_bandwidth_utilization: Option<Number>,
    pub pcie_tx_bytes_per_sec: Option<Number>,
    pub pcie_rx_bytes_per_sec: Option<Number>,
    pub nvlink_tx_bytes_per_sec: Option<Number>,
    pub nvlink_rx_bytes_per_sec: Option<Number>,
    pub throttle_reasons: Option<ThrottleReasons>,
    pub remapped_rows: Option<RemappedRowsInfo>,
    pub xid_event_counts: HashMap<u32, u64>,
}

/// The samples of all GPUs.
#[derive(Debug)]
pub struct SampleEnvelope {
    pub gpus: Vec<GpuSample>,
}

/// Whether a value was delivered for a field.
pub open spec fn delivers(value: FieldValue, field: u16) -> bool {
    value.status == DCGM_ST_OK && value.field_id == field
}

/// The value that counts for a field: the last one that was delivered.
pub open spec fn value_of(values: Seq<FieldValue>, field: u16) -> Option<FieldValue>
    decreases values.len(),
{
    if values.len() == 0 {
        None
    } else if delivers(values.last(), field) {
        Some(values.last())
    } else {
        value_of(values.drop_last(), field)
    }
}

/// The ratio of a field.
pub open spec fn ratio_of(values: Seq<FieldValue>, field: u16) -> Option<Number> {
    match value_of(values, field) {
        Some(value) => ratio_in(value),
        None => None,
    }
}

/// The number of a field.
pub open spec fn number_of(values: Seq<FieldValue>, field: u16) -> Option<Number> {
    match value_of(values, field) {
        Some(value) => number_in(value),
        None => None,
    }
}

/// The last integer that was delivered for a field.
pub open spec fn integer_of(values: Seq<FieldValue>, field: u16) -> Option<i64>
    decreases values.len(),
{
    if values.len() == 0 {
        None
    } else if delivers(values.last(), field) && integer_in(values.last()) is Some {
        integer_in(values.last())
    } else {
        integer_of(values.drop_last(), field)
    }
}

/// The last text that was delivered for a field.
pub open spec fn text_of(values: Seq<FieldValue>, field: u16) -> Option<Seq<char>>
    decreases values.len(),
{
    if values.len() == 0 {
        None
    } else if delivers(values.last(), field) && text_in(values.last()) is Some {
        text_in(values.last())
    } else {
        text_of(values.drop_last(), field)
    }
}

/// A count as it is reported: not below zero, in its low 32 bits.
pub open spec fn row_count(n: Option<i64>) -> u32 {
    match n {
        Some(n) => if n < 0 {
            0
        } else {
            n as u32
        },
        None => 0,
    }
}

/// A flag as it is reported: set by anything but zero.
pub open spec fn row_flag(n: Option<i64>) -> bool {
    match n {
        Some(n) => n != 0,
        None => false,
    }
}

/// The row-remapping state, if anything of it was delivered; what was not
/// delivered is zero.
pub open spec fn remap_of(values: Seq<FieldValue>) -> Option<RemappedRowsInfo> {
    let correctable = integer_of(values, DCGM_FI_DEV_ROW_REMAP_CORRECTABLE_TOTAL);
    let uncorrectable = integer_of(values, DCGM_FI_DEV_ROW_REMAP_UNCORRECTABLE_TOTAL);
    let pending = integer_of(values, DCGM_FI_DEV_ROW_REMAP_PENDING);
    let failed = integer_of(values, DCGM_FI_DEV_ROW_REMAP_FAILED);
    if correctable is Some || uncorrectable is Some || pending is Some || failed is Some {
        Some(
            RemappedRowsInfo {
                correctable: row_count(correctable),
                uncorrectable: row_count(uncorrectable),
                pending: row_flag(pending),
                failed: row_flag(failed),
            },
        )
    } else {
        None
    }
}

/// The throttle reasons of the last mask that was delivered.
pub open spec fn throttle_of(values: Seq<FieldValue>) -> Option<ThrottleReasons> {
    match integer_of(values, DCGM_FI_DEV_CLOCK_THROTTLE_REASONS) {
        Some(bits) => Some(reasons_in(bits as u64)),
        None => None,
    }
}

/// The XID code that a value reports.
pub open spec fn xid_in(value: FieldValue) -> Option<u32> {
    if delivers(value, DCGM_FI_DEV_XID_ERRORS) {
        match integer_in(value) {
            Some(code) => if code > 0 {
                Some(code as u32)
            } else {
                None
            },
            None => None,
        }
    } else {
        None
    }
}

/// How often each XID code was reported.
pub open spec fn xids_of(values: Seq<FieldValue>) -> Map<u32, u64>
    decreases values.len(),
{
    if values.len() == 0 {
        Map::empty()
    } else {
        let earlier = xids_of(values.drop_last());
        match xid_in(values.last()) {
            Some(code) => earlier.insert(
                code,
                if earlier.contains_key(code) {
                    (earlier[code] + 1) as u64
                } else {
                    1
                },
            ),
            None => earlier,
        }
    }
}

/// Whether a sample holds what the values deliver.
pub open spec fn decoded(values: Seq<FieldValue>, sample: GpuSample) -> bool {
    &&& sample.graphics_active == ratio_of(values, DCGM_FI_PROF_GR_ENGINE_ACTIVE)
    &&& sample.sm_active == ratio_of(values, DCGM_FI_PROF_SM_ACTIVE)
    &&& sample.sm_occupancy == ratio_of(values, DCGM_FI_PROF_SM_OCCUPANCY)
    &&& sample.tensor_active == ratio_of(values, DCGM_FI_PROF_PIPE_TENSOR_ACTIVE)
    &&& sample.memory_bandwidth_utilization == ratio_of(values, DCGM_FI_PROF_DRAM_ACTIVE)
    &&& sample.fp64_active == ratio_of(values, DCGM_FI_PROF_PIPE_FP64_ACTIVE)
    &&& sample.fp32_active == ratio_of(values, DCGM_FI_PROF_PIPE_FP32_ACTIVE)
    &&& sample.fp16_active == ratio_of(values, DCGM_FI_PROF_PIPE_FP16_ACTIVE)
    &&& sample.pcie_tx_bytes_per_sec == number_of(values, DCGM_FI_PROF_PCIE_TX_BYTES)
    &&& sample.pcie_rx_bytes_per_sec == number_of(values, DCGM_FI_PROF_PCIE_RX_BYTES)
    &&& sample.nvlink_tx_bytes_per_sec == number_of(values, DCGM_FI_PROF_NVLINK_TX_BYTES)
    &&& sample.nvlink_rx_bytes_per_sec == number_of(values, DCGM_FI_PROF_NVLINK_RX_BYTES)
    &&& sample.throttle_reasons == throttle_of(values)
    &&& sample.remapped_rows == remap_of(values)
    &&& sample.xid_event_counts@ == xids_of(values)
}

/// A sample in the making.
struct Draft {
    uuid: Option<String>,
    graphics_active: Option<Number>,
    sm_active: Option<Number>,
    sm_occupancy: Option<Number>,
    tensor_active: Option<Number>,
    fp64_active: Option<Number>,
    fp32_active: Option<Number>,
    fp16_active: Option<Number>,
    memory_bandwidth_utilization: Option<Number>,
    pcie_tx_bytes_per_sec: Option<Number>,
    pcie_rx_bytes_per_sec: Option<Number>,
    nvlink_tx_bytes_per_sec: Option<Number>,
    nvlink_rx_bytes_per_sec: Option<Number>,
    throttle: Option<i64>,
    correctable: Option<i64>,
    uncorrectable: Option<i64>,
    pending: Option<i64>,
    failed: Option<i64>,
    xids: HashMap<u32, u64>,
}

/// Whether a draft holds the engine and pipe ratios that the values deliver.
spec fn pipes_drafted(values: Seq<FieldValue>, draft: Draft) -> bool {
    &&& draft.graphics_active == ratio_of(values, DCGM_FI_PROF_GR_ENGINE_ACTIVE)
    &&& draft.sm_active == ratio_of(values, DCGM_FI_PROF_SM_ACTIVE)
    &&& draft.sm_occupancy == ratio_of(values, DCGM_FI_PROF_SM_OCCUPANCY)
    &&& draft.tensor_active == ratio_of(values, DCGM_FI_PROF_PIPE_TENSOR_ACTIVE)
}

/// Whether a value was put into the engine and pipe ratios of a draft.
spec fn pipes_applied(before: Draft, value: FieldValue, after: Draft) -> bool {
    &&& after.graphics_active == (if delivers(value, DCGM_FI_PROF_GR_ENGINE_ACTIVE) {
        ratio_in(value)
    } else {
        before.graphics_active
    })
    &&& after.sm_active == (if delivers(value, DCGM_FI_PROF_SM_ACTIVE) {
        ratio_in(value)
    } else {
        before.sm_active
    })
    &&& after.sm_occupancy == (if delivers(value, DCGM_FI_PROF_SM_OCCUPANCY) {
        ratio_in(value)
    } else {
        before.sm_occupancy
    })
    &&& after.tensor_active == (if delivers(value, DCGM_FI_PROF_PIPE_TENSOR_ACTIVE) {
        ratio_in(value)
    } else {
        before.tensor_active
    })
}

/// Whether a draft holds the memory and precision ratios that the values deliver.
spec fn units_drafted(values: Seq<FieldValue>, draft: Draft) -> bool {
    &&& draft.memory_bandwidth_utilization == ratio_of(values, DCGM_FI_PROF_DRAM_ACTIVE)
    &&& draft.fp64_active == ratio_of(values, DCGM_FI_PROF_PIPE_FP64_ACTIVE)
    &&& draft.fp32_active == ratio_of(values, DCGM_FI_PROF_PIPE_FP32_ACTIVE)
    &&& draft.fp16_active == ratio_of(values, DCGM_FI_PROF_PIPE_FP16_ACTIVE)
}

/// Whether a value was put into the memory and precision ratios of a draft.
spec fn units_applied(before: Draft, value: FieldValue, after: Draft) -> bool {
    &&& after.memory_bandwidth_utilization == (if delivers(value, DCGM_FI_PROF_DRAM_ACTIVE) {
        ratio_in(value)
    } else {
        before.memory_bandwidth_utilization
    })
    &&& after.fp64_active == (if delivers(value, DCGM_FI_PROF_PIPE_FP64_ACTIVE) {
        ratio_in(value)
    } else {
        before.fp64_active
    })
    &&& after.fp32_active == (if delivers(value, DCGM_FI_PROF_PIPE_FP32_ACTIVE) {
        ratio_in(value)
    } else {
        before.fp32_active
    })
    &&& after.fp16_active == (if delivers(value, DCGM_FI_PROF_PIPE_FP16_ACTIVE) {
        ratio_in(value)
    } else {
        before.fp16_active
    })
}

/// Whether a draft holds the rates that the values deliver.
spec fn rates_drafted(values: Seq<FieldValue>, draft: Draft) -> bool {
    &&& draft.pcie_tx_bytes_per_sec == number_of(values, DCGM_FI_PROF_PCIE_TX_BYTES)
    &&& draft.pcie_rx_bytes_per_sec == number_of(values, DCGM_FI_PROF_PCIE_RX_BYTES)
    &&& draft.nvlink_tx_bytes_per_sec == number_of(values, DCGM_FI_PROF_NVLINK_TX_BYTES)
    &&& draft.nvlink_rx_bytes_per_sec == number_of(values, DCGM_FI_PROF_NVLINK_RX_BYTES)
}

/// Whether a value was put into the rates of a draft.
spec fn rates_applied(before: Draft, value: FieldValue, after: Draft) -> bool {
    &&& after.pcie_tx_bytes_per_sec == (if delivers(value, DCGM_FI_PROF_PCIE_TX_BYTES) {
        number_in(value)
    } else {
        before.pcie_tx_bytes_per_sec
    })
    &&& after.pcie_rx_bytes_per_sec == (if delivers(value, DCGM_FI_PROF_PCIE_RX_BYTES) {
        number_in(value)
    } else {
        before.pcie_rx_bytes_per_sec
    })
    &&& after.nvlink_tx_bytes_per_sec == (if delivers(value, DCGM_FI_PROF_NVLINK_TX_BYTES) {
        number_in(value)
    } else {
        before.nvlink_tx_bytes_per_sec
    })
    &&& after.nvlink_rx_bytes_per_sec == (if delivers(value, DCGM_FI_PROF_NVLINK_RX_BYTES) {
        number_in(value)
    } else {
        before.nvlink_rx_bytes_per_sec
    })
}

/// Whether a draft holds the integers that the values deliver.
spec fn integers_drafted(values: Seq<FieldValue>, draft: Draft) -> bool {
    &&& draft.throttle == integer_of(values, DCGM_FI_DEV_CLOCK_THROTTLE_REASONS)
    &&& draft.correctable == integer_of(values, DCGM_FI_DEV_ROW_REMAP_CORRECTABLE_TOTAL)
    &&& draft.uncorrectable == integer_of(values, DCGM_FI_DEV_ROW_REMAP_UNCORRECTABLE_TOTAL)
    &&& draft.pending == integer_of(values, DCGM_FI_DEV_ROW_REMAP_PENDING)
    &&& draft.failed == integer_of(values, DCGM_FI_DEV_ROW_REMAP_FAILED)
}

/// Whether a value was put into the integers of a draft.
spec fn integers_applied(before: Draft, value: FieldValue, after: Draft) -> bool {
    &&& after.throttle
        == (if delivers(value, DCGM_FI_DEV_CLOCK_THROTTLE_REASONS) && integer_in(value) is Some {
        integer_in(value)
    } else {
        before.throttle
    })
    &&& after.correctable
        == (if delivers(
            value,
            DCGM_FI_DEV_ROW_REMAP_CORRECTABLE_TOTAL,
        ) && integer_in(value) is Some {
        integer_in(value)
    } else {
        before.correctable
    })
    &&& after.uncorrectable
        == (if delivers(
            value,
            DCGM_FI_DEV_ROW_REMAP_UNCORRECTABLE_TOTAL,
        ) && integer_in(value) is Some {
        integer_in(value)
    } else {
        before.uncorrectable
    })
    &&& after.pending
        == (if delivers(value, DCGM_FI_DEV_ROW_REMAP_PENDING) && integer_in(value) is Some {
        integer_in(value)
    } else {
        before.pending
    })
    &&& after.failed
        == (if delivers(value, DCGM_FI_DEV_ROW_REMAP_FAILED) && integer_in(value) is Some {
        integer_in(value)
    } else {
        before.failed
    })
}

/// Whether a draft holds the UUID and the XID counts that the values deliver.
spec fn rest_drafted(values: Seq<FieldValue>, draft: Draft) -> bool {
    &&& text_is(draft.uuid, text_of(values, DCGM_FI_DEV_UUID))
    &&& draft.xids@ == xids_of(values)
}

/// Whether a value was put into the UUID and the XID counts of a draft.
spec fn rest_applied(before: Draft, value: FieldValue, after: Draft) -> bool {
    &&& if delivers(value, DCGM_FI_DEV_UUID) && text_in(value) is Some {
        text_is(after.uuid, text_in(value))
    } else {
        after.uuid == before.uuid
    }
    &&& after.xids@ == (match xid_in(value) {
        Some(code) => before.xids@.insert(
            code,
            if before.xids@.contains_key(code) {
                (before.xids@[code] + 1) as u64
            } else {
                1
            },
        ),
        None => before.xids@,
    })
}

/// Whether a draft holds what the values deliver.
spec fn drafted(values: Seq<FieldValue>, draft: Draft) -> bool {
    &&& pipes_drafted(values, draft)
    &&& units_drafted(values, draft)
    &&& rates_drafted(values, draft)
    &&& integers_drafted(values, draft)
    &&& rest_drafted(values, draft)
}

/// Whether a value was put into a draft.
spec fn applied(before: Draft, value: FieldValue, after: Draft) -> bool {
    &&& pipes_applied(before, value, after)
    &&& units_applied(before, value, after)
    &&& rates_applied(before, value, after)
    &&& integers_applied(before, value, after)
    &&& rest_applied(before, value, after)
}

/// Whether a text is the wanted one.
spec fn text_is(text: Option<String>, wanted: Option<Seq<char>>) -> bool {
    match wanted {
        Some(wanted) => text matches Some(text) && text@ == wanted,
        None => text is None,
    }
}

/// One more value changes what counts for its own field alone.
proof fn lemma_next_value(values: Seq<FieldValue>, i: int, field: u16)
    requires
        0 <= i < values.len(),
    ensures
        value_of(values.take(i + 1), field) == (if delivers(values[i], field) {
            Some(values[i])
        } else {
            value_of(values.take(i), field)
        }),
        integer_of(values.take(i + 1), field) == (if delivers(values[i], field) && integer_in(
            values[i],
        ) is Some {
            integer_in(values[i])
        } else {
            integer_of(values.take(i), field)
        }),
        text_of(values.take(i + 1), field) == (if delivers(values[i], field) && text_in(
            values[i],
        ) is Some {
            text_in(values[i])
        } else {
            text_of(values.take(i), field)
        }),
{
    assert(values.take(i + 1).drop_last() =~= values.take(i));
}

/// No XID code is counted more often than there are values.
proof fn lemma_xids_bounded(values: Seq<FieldValue>)
    requires
        values.len() <= usize::MAX,
    ensures
        forall|code: u32| #[trigger]
            xids_of(values).contains_key(code) ==> xids_of(values)[code] <= values.len(),
    decreases values.len(),
{
    if values.len() > 0 {
        let earlier = xids_of(values.drop_last());
        lemma_xids_bounded(values.drop_last());
        assert forall|code: u32| #[trigger] xids_of(values).contains_key(code) implies xids_of(
            values,
        )[code] <= values.len() by {
            assert(earlier.contains_key(code) ==> earlier[code] <= values.len() - 1);
        }
    }
}

/// One more value goes into the engine and pipe ratios.
proof fn lemma_pipes_next(values: Seq<FieldValue>, i: int, before: Draft, after: Draft)
    requires
        0 <= i < values.len(),
        pipes_drafted(values.take(i), before),
        pipes_applied(before, values[i], after),
    ensures
        pipes_drafted(values.take(i + 1), after),
{
    lemma_next_value(values, i, DCGM_FI_PROF_GR_ENGINE_ACTIVE);
    lemma_next_value(values, i, DCGM_FI_PROF_SM_ACTIVE);
    lemma_next_value(values, i, DCGM_FI_PROF_SM_OCCUPANCY);
    lemma_next_value(values, i, DCGM_FI_PROF_PIPE_TENSOR_ACTIVE);
}

/// One more value goes into the memory and precision ratios.
proof fn lemma_units_next(values: Seq<FieldValue>, i: int, before: Draft, after: Draft)
    requires
        0 <= i < values.len(),
        units_drafted(values.take(i), before),
        units_applied(before, values[i], after),
    ensures
        units_drafted(values.take(i + 1), after),
{
    lemma_next_value(values, i, DCGM_FI_PROF_DRAM_ACTIVE);
    lemma_next_value(values, i, DCGM_FI_PROF_PIPE_FP64_ACTIVE);
    lemma_next_value(values, i, DCGM_FI_PROF_PIPE_FP32_ACTIVE);
    lemma_next_value(values, i, DCGM_FI_PROF_PIPE_FP16_ACTIVE);
}

/// One more value goes into the rates.
proof fn lemma_rates_next(values: Seq<FieldValue>, i: int, before: Draft, after: Draft)
    requires
        0 <= i < values.len(),
        rates_drafted(values.take(i), before),
        rates_applied(before, values[i], after),
    ensures
        rates_drafted(values.take(i + 1), after),
{
    lemma_next_value(values, i, DCGM_FI_PROF_PCIE_TX_BYTES);
    lemma_next_value(values, i, DCGM_FI_PROF_PCIE_RX_BYTES);
    lemma_next_value(values, i, DCGM_FI_PROF_NVLINK_TX_BYTES);
    lemma_next_value(values, i, DCGM_FI_PROF_NVLINK_RX_BYTES);
}

/// One more value goes into the integers.
proof fn lemma_integers_next(values: Seq<FieldValue>, i: int, before: Draft, after: Draft)
    requires
        0 <= i < values.len(),
        integers_drafted(values.take(i), before),
        integers_applied(before, values[i], after),
    ensures
        integers_drafted(values.take(i + 1), after),
{
    lemma_next_value(values, i, DCGM_FI_DEV_CLOCK_THROTTLE_REASONS);
    lemma_next_value(values, i, DCGM_FI_DEV_ROW_REMAP_CORRECTABLE_TOTAL);
    lemma_next_value(values, i, DCGM_FI_DEV_ROW_REMAP_UNCORRECTABLE_TOTAL);
    lemma_next_value(values, i, DCGM_FI_DEV_ROW_REMAP_PENDING);
    lemma_next_value(values, i, DCGM_FI_DEV_ROW_REMAP_FAILED);
}

/// One more value goes into the draft.
proof fn lemma_draft_next(values: Seq<FieldValue>, i: int, before: Draft, after: Draft)
    requires
        0 <= i < values.len(),
        drafted(values.take(i), before),
        applied(before, values[i], after),
    ensures
        drafted(values.take(i + 1), after),
{
    lemma_pipes_next(values, i, before, after);
    lemma_units_next(values, i, before, after);
    lemma_rates_next(values, i, before, after);
    lemma_integers_next(values, i, before, after);
    assert(rest_drafted(values.take(i + 1), after)) by {
        lemma_next_value(values, i, DCGM_FI_DEV_UUID);
        assert(values.take(i + 1).drop_last() =~= values.take(i));
    }
}

/// Counts an XID code.
fn count_xid(xids: &mut HashMap<u32, u64>, code: u32)
    requires
        old(xids)@.contains_key(code) ==> old(xids)@[code] < u64::MAX,
    ensures
        final(xids)@ == old(xids)@.insert(
            code,
            if old(xids)@.contains_key(code) {
                (old(xids)@[code] + 1) as u64
            } else {
                1
            },
        ),
{
    broadcast use vstd::std_specs::hash::group_hash_axioms;

    let count: u64 = match xids.get(&code) {
        Some(count) => *count,
        None => 0,
    };
    xids.insert(code, count + 1);
}

/// Puts a delivered value into the draft.
fn apply(draft: &mut Draft, value: &FieldValue)
    requires
        forall|code: u32| #[trigger]
            old(draft).xids@.contains_key(code) ==> old(draft).xids@[code] < u64::MAX,
    ensures
        applied(*old(draft), *value, *final(draft)),
{
    if value.status != DCGM_ST_OK {
        return ;
    }
    let field: u16 = value.field_id;
    if field == DCGM_FI_DEV_UUID {
        if let Some(text) = read_string(value) {
            draft.uuid = Some(text);
        }
    } else if field == DCGM_FI_PROF_GR_ENGINE_ACTIVE {
        draft.graphics_active = read_ratio(value);
    } else if field == DCGM_FI_PROF_SM_ACTIVE {
        draft.sm_active = read_ratio(value);
    } else if field == DCGM_FI_PROF_SM_OCCUPANCY {
        draft.sm_occupancy = read_ratio(value);
    } else if field == DCGM_FI_PROF_PIPE_TENSOR_ACTIVE {
        draft.tensor_active = read_ratio(value);
    } else if field == DCGM_FI_PROF_DRAM_ACTIVE {
        draft.memory_bandwidth_utilization = read_ratio(value);
    } else if field == DCGM_FI_PROF_PIPE_FP64_ACTIVE {
        draft.fp64_active = read_ratio(value);
    } else if field == DCGM_FI_PROF_PIPE_FP32_ACTIVE {
        draft.fp32_active = read_ratio(value);
    } else if field == DCGM_FI_PROF_PIPE_FP16_ACTIVE {
        draft.fp16_active = read_ratio(value);
    } else if field == DCGM_FI_PROF_PCIE_TX_BYTES {
        draft.pcie_tx_bytes_per_sec = read_f64(value);
    } else if field == DCGM_FI_PROF_PCIE_RX_BYTES {
        draft.pcie_rx_bytes_per_sec = read_f64(value);
    } else if field == DCGM_FI_PROF_NVLINK_TX_BYTES {
        draft.nvlink_tx_bytes_per_sec = read_f64(value);
    } else if field == DCGM_FI_PROF_NVLINK_RX_BYTES {
        draft.nvlink_rx_bytes_per_sec = read_f64(value);
    } else if field == DCGM_FI_DEV_CLOCK_THROTTLE_REASONS {
        if let Some(n) = read_i64(value) {
            draft.throttle = Some(n);
        }
    } else if field == DCGM_FI_DEV_ROW_REMAP_CORRECTABLE_TOTAL {
        if let Some(n) = read_i64(value) {
            draft.correctable = Some(n);
        }
    } else if field == DCGM_FI_DEV_ROW_REMAP_UNCORRECTABLE_TOTAL {
        if let Some(n) = read_i64(value) {
            draft.uncorrectable = Some(n);
        }
    } else if field == DCGM_FI_DEV_ROW_REMAP_PENDING {
        if let Some(n) = read_i64(value) {
            draft.pending = Some(n);
        }
    } else if field == DCGM_FI_DEV_ROW_REMAP_FAILED {
        if let Some(n) = read_i64(value) {
            draft.failed = Some(n);
        }
    } else if field == DCGM_FI_DEV_XID_ERRORS {
        if let Some(code) = read_i64(value) {
            if code > 0 {
                #[verifier::truncate]
                let xid: u32 = code as u32;
                count_xid(&mut draft.xids, xid);
            }
        }
    }
}

/// Computes [`row_count`].
fn count_rows(n: Option<i64>) -> (count: u32)
    ensures
        count == row_count(n),
{
    match n {
        Some(n) => if n < 0 {
            0
        } else {
            #[verifier::truncate]
            let count: u32 = n as u32;
            count
        },
        None => 0,
    }
}

/// The sample that the values of a GPU make; none without the UUID of the GPU.
pub fn decode_values(values: &[FieldValue]) -> (sample: Option<GpuSample>)
    ensures
        match text_of(values@, DCGM_FI_DEV_UUID) {
            Some(uuid) => sample matches Some(sample) && sample.uuid@ == uuid && decoded(
                values@,
                sample,
            ),
            None => sample is None,
        },
        sample is Some <==> text_of(values@, 54) is Some,
        sample matches Some(sample) ==> {
            &&& text_of(values@, 54) == Some(sample.uuid@)
            &&& sample.graphics_active == ratio_of(values@, 1001)
            &&& sample.sm_active == ratio_of(values@, 1002)
            &&& sample.sm_occupancy == ratio_of(values@, 1003)
            &&& sample.tensor_active == ratio_of(values@, 1004)
            &&& sample.memory_bandwidth_utilization == ratio_of(values@, 1005)
            &&& sample.fp64_active == ratio_of(values@, 1006)
            &&& sample.fp32_active == ratio_of(values@, 1007)
            &&& sample.fp16_active == ratio_of(values@, 1008)
            &&& sample.pcie_tx_bytes_per_sec == number_of(values@, 1009)
            &&& sample.pcie_rx_bytes_per_sec == number_of(values@, 1010)
            &&& sample.nvlink_tx_bytes_per_sec == number_of(values@, 1011)
            &&& sample.nvlink_rx_bytes_per_sec == number_of(values@, 1012)
        },
{
    let mut draft = Draft {
        uuid: None,
        graphics_active: None,
        sm_active: None,
        sm_occupancy: None,
        tensor_active: None,
        fp64_active: None,
        fp32_active: None,
        fp16_active: None,
        memory_bandwidth_utilization: None,
        pcie_tx_bytes_per_sec: None,
        pcie_rx_bytes_per_sec: None,
        nvlink_tx_bytes_per_sec: None,
        nvlink_rx_bytes_per_sec: None,
        throttle: None,
        correctable: None,
        uncorrectable: None,
        pending: None,
        failed: None,
        xids: HashMap::new(),
    };
    let mut i: usize = 0;
    while i < values.len()
        invariant
            i <= values@.len(),
            drafted(values@.take(i as int), draft),
        decreases values@.len() - i,
    {
        proof {
            lemma_xids_bounded(values@.take(i as int));
        }
        let ghost before = draft;
        apply(&mut draft, &values[i]);
        proof {
            lemma_draft_next(values@, i as int, before, draft);
        }
        i += 1;
    }
    assert(values@.take(i as int) =~= values@);
    let remapped = draft.correctable.is_some() || draft.uncorrectable.is_some()
        || draft.pending.is_some() || draft.failed.is_some();
    let remapped_rows: Option<RemappedRowsInfo> = if remapped {
        Some(
            RemappedRowsInfo {
                correctable: count_rows(draft.correctable),
                uncorrectable: count_rows(draft.uncorrectable),
                pending: flag_rows(draft.pending),
                failed: flag_rows(draft.failed),
            },
        )
    } else {
        None
    };
    let throttle_reasons: Option<ThrottleReasons> = match draft.throttle {
        Some(bits) => {
            #[verifier::truncate]
            let mask: u64 = bits as u64;
            Some(throttle_from_bits(mask))
        },
        None => None,
    };
    match draft.uuid {
        Some(uuid) => Some(
            GpuSample {
                uuid,
                graphics_active: draft.graphics_active,
                sm_active: draft.sm_active,
                sm_occupancy: draft.sm_occupancy,
                tensor_active: draft.tensor_active,
                fp64_active: draft.fp64_active,
                fp32_active: draft.fp32_active,
                fp16_active: draft.fp16_active,
                memory_bandwidth_utilization: draft.memory_bandwidth_utilization,
                pcie_tx_bytes_per_sec: draft.pcie_tx_bytes_per_sec,
                pcie_rx_bytes_per_sec: draft.pcie_rx_bytes_per_sec,
                nvlink_tx_bytes_per_sec: draft.nvlink_tx_bytes_per_sec,
                nvlink_rx_bytes_per_sec: draft.nvlink_rx_bytes_per_sec,
                throttle_reasons,
                remapped_rows,
                xid_event_counts: draft.xids,
            },
        ),
        None => None,
    }
}

/// Computes [`row_flag`].
fn flag_rows(n: Option<i64>) -> (flag: bool)
    ensures
        flag == row_flag(n),
{
    match n {
        Some(n) => n != 0,
        None => false,
    }
}

/// A mask means the same throttle reasons whether DCGM or NVML reports it.
pub proof fn law_throttle_masks_agree(bits: u64)
    ensures
        reasons_in(bits) == reasons_of(bits),
{
    assert(forall|flag: u64|
        flag == 0x1 || flag == 0x2 || flag == 0x4 || flag == 0x8 || flag == 0x10 || flag == 0x20
            || flag == 0x40 || flag == 0x80 || flag == 0x100 ==> ((#[trigger] (bits & flag) != 0)
            <==> bits & flag == flag)) by (bit_vector);
}

/// What DCGM marks as blank is no number, no ratio and no integer.
pub proof fn law_blank_is_absent(value: FieldValue)
    requires
        value.field_type as u8 == DCGM_FT_DOUBLE && value.word == DCGM_FP64_BLANK_BITS
            || value.field_type as u8 == DCGM_FT_INT64 && value.word == DCGM_INT64_BLANK,
    ensures
        number_in(value) is None,
        ratio_in(value) is None,
        integer_in(value) is None,
{
}

/// A ratio lies between zero and one.
pub proof fn law_ratio_is_a_fraction(value: FieldValue)
    ensures
        match ratio_in(value) {
            Some(Number::Int(whole)) => 0 <= whole <= 1,
            Some(Number::Double(bits)) => bits <= DOUBLE_ONE || bits == 0x8000_0000_0000_0000,
            None => true,
        },
{
}

/// The values that were delivered, whatever their field.
pub open spec fn delivered(values: Seq<FieldValue>) -> Seq<FieldValue> {
    values.filter(|value: FieldValue| value.status == DCGM_ST_OK)
}

/// Leaving out the values that were not delivered leaves what counts for a field
/// as it is.
proof fn lemma_delivered(values: Seq<FieldValue>, field: u16)
    ensures
        value_of(delivered(values), field) == value_of(values, field),
        integer_of(delivered(values), field) == integer_of(values, field),
        text_of(delivered(values), field) == text_of(values, field),
        xids_of(delivered(values)) == xids_of(values),
    decreases values.len(),
{
    reveal(Seq::filter);
    if values.len() > 0 {
        lemma_delivered(values.drop_last(), field);
        if values.last().status == DCGM_ST_OK {
            assert(delivered(values).drop_last() =~= delivered(values.drop_last()));
        } else {
            assert(delivered(values) =~= delivered(values.drop_last()));
        }
    }
}

/// Values that were not delivered do not matter: without them the same sample
/// is made, or none.
pub proof fn law_failed_values_do_not_count(values: Seq<FieldValue>, sample: GpuSample)
    ensures
        text_of(delivered(values), DCGM_FI_DEV_UUID) == text_of(values, DCGM_FI_DEV_UUID),
        decoded(delivered(values), sample) == decoded(values, sample),
{
    assert forall|field: u16| #[trigger] value_of(delivered(values), field) == value_of(
        values,
        field,
    ) by {
        lemma_delivered(values, field);
    }
    lemma_delivered(values, DCGM_FI_DEV_UUID);
    lemma_delivered(values, DCGM_FI_DEV_CLOCK_THROTTLE_REASONS);
    lemma_delivered(values, DCGM_FI_DEV_ROW_REMAP_CORRECTABLE_TOTAL);
    lemma_delivered(values, DCGM_FI_DEV_ROW_REMAP_UNCORRECTABLE_TOTAL);
    lemma_delivered(values, DCGM_FI_DEV_ROW_REMAP_PENDING);
    lemma_delivered(values, DCGM_FI_DEV_ROW_REMAP_FAILED);
}

/// Where a value is the last that was delivered for its field, it is the one that
/// counts.
proof fn lemma_last_delivered(values: Seq<FieldValue>, i: int)
    requires
        0 <= i < values.len(),
        values[i].status == 0,
        forall|j: int|
            i < j < values.len() ==> (#[trigger] values[j]).status != 0 || values[j].field_id
                != values[i].field_id,
    ensures
        value_of(values, values[i].field_id) == Some(values[i]),
        integer_in(values[i]) is Some ==> integer_of(values, values[i].field_id) == integer_in(
            values[i],
        ),
        text_in(values[i]) is Some ==> text_of(values, values[i].field_id) == text_in(values[i]),
    decreases values.len(),
{
    let last = values.len() - 1;
    if i < last {
        let earlier = values.drop_last();
        assert(values[last].status != 0 || values[last].field_id != values[i].field_id);
        assert forall|j: int| i < j < earlier.len() implies (#[trigger] earlier[j]).status != 0
            || earlier[j].field_id != earlier[i].field_id by {
            assert(values[j].status != 0 || values[j].field_id != values[i].field_id);
        }
        lemma_last_delivered(earlier, i);
    }
}

/// Each field number has its own place in the sample. The last value that was
/// delivered for a field makes the part of the sample that the field stands for,
/// whatever was delivered for other fields: 1001 the graphics engine, 1002 the
/// SMs, 1003 their occupancy, 1004 the tensor pipes, 1005 the memory, 1006 to 1008
/// the FP64, FP32 and FP16 pipes, 1009 and 1010 PCIe transmit and receive, 1011
/// and 1012 NvLink transmit and receive.
pub proof fn law_fields_have_their_places(values: Seq<FieldValue>, sample: GpuSample, i: int)
    requires
        decoded(values, sample),
        0 <= i < values.len(),
        values[i].status == 0,
        forall|j: int|
            i < j < values.len() ==> (#[trigger] values[j]).status != 0 || values[j].field_id
                != values[i].field_id,
    ensures
        values[i].field_id == 1001 ==> sample.graphics_active == ratio_in(values[i]),
        values[i].field_id == 1002 ==> sample.sm_active == ratio_in(values[i]),
        values[i].field_id == 1003 ==> sample.sm_occupancy == ratio_in(values[i]),
        values[i].field_id == 1004 ==> sample.tensor_active == ratio_in(values[i]),
        values[i].field_id == 1005 ==> sample.memory_bandwidth_utilization == ratio_in(values[i]),
        values[i].field_id == 1006 ==> sample.fp64_active == ratio_in(values[i]),
        values[i].field_id == 1007 ==> sample.fp32_active == ratio_in(values[i]),
        values[i].field_id == 1008 ==> sample.fp16_active == ratio_in(values[i]),
        values[i].field_id == 1009 ==> sample.pcie_tx_bytes_per_sec == number_in(values[i]),
        values[i].field_id == 1010 ==> sample.pcie_rx_bytes_per_sec == number_in(values[i]),
        values[i].field_id == 1011 ==> sample.nvlink_tx_bytes_per_sec == number_in(values[i]),
        values[i].field_id == 1012 ==> sample.nvlink_rx_bytes_per_sec == number_in(values[i]),
{
    lemma_last_delivered(values, i);
}

/// A field for which nothing was delivered is absent from the sample, whatever
/// was delivered for other fields.
pub proof fn law_undelivered_fields_are_absent(
    values: Seq<FieldValue>,
    sample: GpuSample,
    field: u16,
)
    requires
        decoded(values, sample),
        forall|j: int|
            0 <= j < values.len() ==> (#[trigger] values[j]).status != 0 || values[j].field_id
                != field,
    ensures
        field == 1001 ==> sample.graphics_active is None,
        field == 1002 ==> sample.sm_active is None,
        field == 1003 ==> sample.sm_occupancy is None,
        field == 1004 ==> sample.tensor_active is None,
        field == 1005 ==> sample.memory_bandwidth_utilization is None,
        field == 1006 ==> sample.fp64_active is None,
        field == 1007 ==> sample.fp32_active is None,
        field == 1008 ==> sample.fp16_active is None,
        field == 1009 ==> sample.pcie_tx_bytes_per_sec is None,
        field == 1010 ==> sample.pcie_rx_bytes_per_sec is None,
        field == 1011 ==> sample.nvlink_tx_bytes_per_sec is None,
        field == 1012 ==> sample.nvlink_rx_bytes_per_sec is None,
        field == 112 ==> sample.throttle_reasons is None,
        field == 230 ==> sample.xid_event_counts@ == Map::<u32, u64>::empty(),
{
    lemma_nothing_delivered(values, field);
}

/// Nothing counts for a field for which nothing was delivered.
proof fn lemma_nothing_delivered(values: Seq<FieldValue>, field: u16)
    requires
        forall|j: int|
            0 <= j < values.len() ==> (#[trigger] values[j]).status != 0 || values[j].field_id
                != field,
    ensures
        value_of(values, field) is None,
        integer_of(values, field) is None,
        text_of(values, field) is None,
        field == DCGM_FI_DEV_XID_ERRORS ==> xids_of(values) == Map::<u32, u64>::empty(),
    decreases values.len(),
{
    if values.len() > 0 {
        let last = values.len() - 1;
        let earlier = values.drop_last();
        assert(values[last].status != 0 || values[last].field_id != field);
        assert forall|j: int| 0 <= j < earlier.len() implies (#[trigger] earlier[j]).status != 0
            || earlier[j].field_id != field by {
            assert(values[j].status != 0 || values[j].field_id != field);
        }
        lemma_nothing_delivered(earlier, field);
    }
}

/// The last integers that were delivered make the throttle reasons (field 112)
/// and the row-remapping state: 394 counts the correctable rows, 393 the
/// uncorrectable ones, 396 tells that a remapping is pending and 395 that one
/// failed.
pub proof fn law_integers_have_their_places(
    values: Seq<FieldValue>,
    sample: GpuSample,
    i: int,
    whole: i64,
)
    requires
        decoded(values, sample),
        0 <= i < values.len(),
        values[i].status == 0,
        integer_in(values[i]) == Some(whole),
        forall|j: int|
            i < j < values.len() ==> (#[trigger] values[j]).status != 0 || values[j].field_id
                != values[i].field_id,
    ensures
        values[i].field_id == 112 ==> (sample.throttle_reasons matches Some(reasons) && {
            let mask = whole as u64;
            &&& reasons.gpu_idle <==> mask & 0x1 != 0
            &&& reasons.app_clocks <==> mask & 0x2 != 0
            &&& reasons.sw_power_cap <==> mask & 0x4 != 0
            &&& reasons.hw_slowdown <==> mask & 0x8 != 0
            &&& reasons.sync_boost <==> mask & 0x10 != 0
            &&& reasons.sw_thermal <==> mask & 0x20 != 0
            &&& reasons.hw_thermal <==> mask & 0x40 != 0
            &&& reasons.hw_power_brake <==> mask & 0x80 != 0
            &&& reasons.display_clocks <==> mask & 0x100 != 0
        }),
        values[i].field_id == 394 ==> (sample.remapped_rows matches Some(rows) && (if whole < 0 {
            rows.correctable == 0
        } else {
            rows.correctable == whole as u32
        })),
        values[i].field_id == 393 ==> (sample.remapped_rows matches Some(rows) && (if whole < 0 {
            rows.uncorrectable == 0
        } else {
            rows.uncorrectable == whole as u32
        })),
        values[i].field_id == 396 ==> (sample.remapped_rows matches Some(rows) && rows.pending == (
        whole != 0)),
        values[i].field_id == 395 ==> (sample.remapped_rows matches Some(rows) && rows.failed == (
        whole != 0)),
{
    lemma_last_delivered(values, i);
}

/// What was not delivered of the row-remapping state counts as zero, and without
/// any of it there is no state.
pub proof fn law_undelivered_rows_are_zero(values: Seq<FieldValue>, sample: GpuSample, field: u16)
    requires
        decoded(values, sample),
        forall|j: int|
            0 <= j < values.len() ==> (#[trigger] values[j]).status != 0 || values[j].field_id
                != field,
    ensures
        sample.remapped_rows matches Some(rows) ==> {
            &&& field == 394 ==> rows.correctable == 0
            &&& field == 393 ==> rows.uncorrectable == 0
            &&& field == 396 ==> !rows.pending
            &&& field == 395 ==> !rows.failed
        },
        (forall|j: int|
            0 <= j < values.len() ==> (#[trigger] values[j]).status != 0 || !(393
                <= values[j].field_id <= 396)) ==> sample.remapped_rows is None,
{
    lemma_nothing_delivered(values, field);
    if forall|j: int|
        0 <= j < values.len() ==> (#[trigger] values[j]).status != 0 || !(393 <= values[j].field_id
            <= 396) {
        lemma_nothing_delivered(values, 393);
        lemma_nothing_delivered(values, 394);
        lemma_nothing_delivered(values, 395);
        lemma_nothing_delivered(values, 396);
    }
}

/// An XID code is counted as often as it was delivered for field 230, as an
/// integer above zero and in its low 32 bits.
pub proof fn law_xids_are_counted(values: Seq<FieldValue>, sample: GpuSample, code: u32)
    requires
        decoded(values, sample),
        values.len() <= u64::MAX,
    ensures
        ({
            let reports = values.filter(
                |value: FieldValue|
                    value.status == 0 && value.field_id == 230 && (integer_in(value) matches Some(
                        whole,
                    ) && whole > 0 && whole as u32 == code),
            ).len();
            &&& sample.xid_event_counts@.contains_key(code) <==> reports > 0
            &&& reports > 0 ==> sample.xid_event_counts@[code] == reports
        }),
{
    lemma_xid_count(values, code);
}

/// The count of an XID code, by induction on the values.
proof fn lemma_xid_count(values: Seq<FieldValue>, code: u32)
    requires
        values.len() <= u64::MAX,
    ensures
        ({
            let reports = values.filter(
                |value: FieldValue|
                    value.status == 0 && value.field_id == 230 && (integer_in(value) matches Some(
                        whole,
                    ) && whole > 0 && whole as u32 == code),
            ).len();
            &&& reports <= values.len()
            &&& xids_of(values).contains_key(code) <==> reports > 0
            &&& reports > 0 ==> xids_of(values)[code] == reports
        }),
    decreases values.len(),
{
    reveal(Seq::filter);
    if values.len() > 0 {
        lemma_xid_count(values.drop_last(), code);
    }
}

/// The UUID of a sample is the text that was delivered last for field 54, as far
/// as a text was; there is a sample exactly when there was one.
pub proof fn law_uuid_is_the_last_text(values: Seq<FieldValue>, i: int)
    requires
        0 <= i < values.len(),
        values[i].status == 0,
        values[i].field_id == 54,
        text_in(values[i]) is Some,
        forall|j: int|
            i < j < values.len() ==> (#[trigger] values[j]).status != 0 || values[j].field_id != 54,
    ensures
        text_of(values, DCGM_FI_DEV_UUID) == text_in(values[i]),
{
    lemma_last_delivered(values, i);
}

/// The number of a value by its type: `d` is a double-precision pattern, `i` an
/// integer; the blank ones, what is not finite, and any other type are no number.
pub proof fn law_number_goes_by_its_type(value: FieldValue)
    ensures
        value.field_type as u8 == 100 && value.word % 0x8000_0000_0000_0000 < 0x7FF0_0000_0000_0000
            && value.word != 0x42E0_0000_0000_0000 ==> number_in(value) == Some(
            Number::Double(value.word),
        ),
        value.field_type as u8 == 100 && (value.word % 0x8000_0000_0000_0000
            >= 0x7FF0_0000_0000_0000 || value.word == 0x42E0_0000_0000_0000) ==> number_in(value)
            is None,
        value.field_type as u8 == 105 && value.word != 0x7FFF_FFFF_FFFF_FFF0 ==> number_in(value)
            == Some(Number::Int(value.word as i64)),
        value.field_type as u8 == 105 && value.word == 0x7FFF_FFFF_FFFF_FFF0 ==> number_in(value)
            is None,
        value.field_type as u8 != 100 && value.field_type as u8 != 105 ==> number_in(value) is None,
        integer_in(value) is Some <==> number_in(value) is Some,
        number_in(value) matches Some(Number::Int(whole)) ==> integer_in(value) == Some(whole),
        number_in(value) matches Some(Number::Double(bits)) ==> integer_in(value) == Some(
            double_to_i64(bits) as i64,
        ),
{
}

/// A ratio is the number itself between zero and one, zero below and one above.
pub proof fn law_ratio_is_the_number_clamped(value: FieldValue)
    ensures
        ratio_in(value) is Some <==> number_in(value) is Some,
        number_in(value) matches Some(Number::Double(bits)) ==> ratio_in(value) == Some(
            if bits <= 0x3FF0_0000_0000_0000 || bits == 0x8000_0000_0000_0000 {
                Number::Double(bits)
            } else if bits < 0x8000_0000_0000_0000 {
                Number::Double(0x3FF0_0000_0000_0000)
            } else {
                Number::Double(0)
            },
        ),
        number_in(value) matches Some(Number::Int(whole)) ==> ratio_in(value) == Some(
            if whole <= 0 {
                Number::Int(0)
            } else {
                Number::Int(1)
            },
        ),
{
}

/// A text is what stands before the first NUL, unless that is empty or has `NULL`
/// in it; only a field of type `s` holds one.
pub proof fn law_text_ends_at_nul(value: FieldValue, n: int)
    requires
        0 <= n <= value.bytes@.len(),
        forall|j: int| 0 <= j < n ==> #[trigger] value.bytes@[j] != 0,
        n < value.bytes@.len() ==> value.bytes@[n] == 0,
    ensures
        value.field_type as u8 != 115 ==> text_in(value) is None,
        value.field_type as u8 == 115 ==> ({
            let text = lossy(value.bytes@.take(n));
            let null = exists|i: int|
                0 <= i && i + 4 <= text.len() && #[trigger] text[i] == 'N' && text[i + 1] == 'U'
                    && text[i + 2] == 'L' && text[i + 3] == 'L';
            text_in(value) == (if text.len() == 0 || null {
                None
            } else {
                Some(text)
            })
        }),
{
    lemma_until_nul(value.bytes@, n);
}

/// The bytes before the first NUL.
proof fn lemma_until_nul(bytes: Seq<u8>, n: int)
    requires
        0 <= n <= bytes.len(),
        forall|j: int| 0 <= j < n ==> #[trigger] bytes[j] != 0,
        n < bytes.len() ==> bytes[n] == 0,
    ensures
        until_nul(bytes) == bytes.take(n),
    decreases n,
{
    if n == 0 {
        assert(bytes.take(0) =~= seq![]);
    } else {
        assert(bytes[0] != 0);
        assert forall|j: int| 0 <= j < n - 1 implies #[trigger] bytes.drop_first()[j] != 0 by {
            assert(bytes[j + 1] != 0);
        }
        lemma_until_nul(bytes.drop_first(), n - 1);
        assert(bytes.take(n) =~= seq![bytes[0]] + bytes.drop_first().take(n - 1));
    }
}

/// The last integer of a field counts, also where values without an integer follow.
proof fn lemma_last_integer(values: Seq<FieldValue>, i: int, field: u16)
    requires
        0 <= i < values.len(),
        values[i].status == 0,
        values[i].field_id == field,
        integer_in(values[i]) is Some,
        forall|j: int|
            i < j < values.len() ==> (#[trigger] values[j]).status != 0 || values[j].field_id
                != field || integer_in(values[j]) is None,
    ensures
        integer_of(values, field) == integer_in(values[i]),
    decreases values.len(),
{
    let last = values.len() - 1;
    if i < last {
        assert(values[last].status != 0 || values[last].field_id != field || integer_in(
            values[last],
        ) is None);
        let earlier = values.drop_last();
        assert forall|j: int| i < j < earlier.len() implies (#[trigger] earlier[j]).status != 0
            || earlier[j].field_id != field || integer_in(earlier[j]) is None by {
            assert(values[j].status != 0 || values[j].field_id != field || integer_in(values[j])
                is None);
        }
        lemma_last_integer(earlier, i, field);
    }
}

/// A blank value does not take back what was delivered before it: the throttle mask and
/// the remapped rows are those of the last values that hold integers.
pub proof fn law_blanks_take_nothing_back(
    values: Seq<FieldValue>,
    sample: GpuSample,
    i: int,
    whole: i64,
)
    requires
        decoded(values, sample),
        0 <= i < values.len(),
        values[i].status == 0,
        integer_in(values[i]) == Some(whole),
        forall|j: int|
            i < j < values.len() ==> (#[trigger] values[j]).status != 0 || values[j].field_id
                != values[i].field_id || integer_in(values[j]) is None,
    ensures
        values[i].field_id == 112 ==> (sample.throttle_reasons matches Some(reasons) && {
            let mask = whole as u64;
            &&& reasons.gpu_idle <==> mask & 0x1 != 0
            &&& reasons.app_clocks <==> mask & 0x2 != 0
            &&& reasons.sw_power_cap <==> mask & 0x4 != 0
            &&& reasons.hw_slowdown <==> mask & 0x8 != 0
            &&& reasons.sync_boost <==> mask & 0x10 != 0
            &&& reasons.sw_thermal <==> mask & 0x20 != 0
            &&& reasons.hw_thermal <==> mask & 0x40 != 0
            &&& reasons.hw_power_brake <==> mask & 0x80 != 0
            &&& reasons.display_clocks <==> mask & 0x100 != 0
        }),
        values[i].field_id == 394 ==> (sample.remapped_rows matches Some(rows) && (if whole < 0 {
            rows.correctable == 0
        } else {
            rows.correctable == whole as u32
        })),
        values[i].field_id == 393 ==> (sample.remapped_rows matches Some(rows) && (if whole < 0 {
            rows.uncorrectable == 0
        } else {
            rows.uncorrectable == whole as u32
        })),
        values[i].field_id == 396 ==> (sample.remapped_rows matches Some(rows) && rows.pending == (
        whole != 0)),
        values[i].field_id == 395 ==> (sample.remapped_rows matches Some(rows) && rows.failed == (
        whole != 0)),
{
    lemma_last_integer(values, i, values[i].field_id);
}

/// A text that means nothing does not take back the one before it, and without any
/// that means something there is no UUID.
pub proof fn law_uuid_is_the_last_usable_text(values: Seq<FieldValue>, value: FieldValue)
    ensures
        text_of(values.push(value), 54) == (if value.status == 0 && value.field_id == 54 && text_in(
            value,
        ) is Some {
            text_in(value)
        } else {
            text_of(values, 54)
        }),
        text_of(Seq::<FieldValue>::empty(), 54) is None,
{
    assert(values.push(value).drop_last() =~= values);
}

} // verus!
