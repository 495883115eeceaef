//! Constants and version words of the DCGM 4.x C interface.
use vstd::prelude::*;

verus! {

/// The status of a call that succeeded.
pub const DCGM_ST_OK: i32 = 0;

/// An embedded engine that updates the fields by itself.
pub const DCGM_OPERATION_MODE_AUTO: u32 = 1;

/// A group of all devices.
pub const DCGM_GROUP_DEFAULT: u32 = 0;

/// The most devices that DCGM lists.
pub const DCGM_MAX_NUM_DEVICES: usize = 32;

/// The type of a floating-point field, the letter `d`.
pub const DCGM_FT_DOUBLE: u8 = 100;

/// The type of an integer field, the letter `i`.
pub const DCGM_FT_INT64: u8 = 105;

/// The type of a text field, the letter `s`.
pub const DCGM_FT_STRING: u8 = 115;

/// The integer that stands for no value.
pub const DCGM_INT64_BLANK: u64 = 0x7FFF_FFFF_FFFF_FFF0;

/// Bit pattern of the double-precision number that stands for no value, 2^47.
pub const DCGM_FP64_BLANK_BITS: u64 = 0x42E0_0000_0000_0000;

/// The UUID of a device.
pub const DCGM_FI_DEV_UUID: u16 = 54;

/// The mask of the clock throttle reasons.
pub const DCGM_FI_DEV_CLOCK_THROTTLE_REASONS: u16 = 112;

/// The last XID error.
pub const DCGM_FI_DEV_XID_ERRORS: u16 = 230;

/// Rows remapped for uncorrectable errors.
pub const DCGM_FI_DEV_ROW_REMAP_UNCORRECTABLE_TOTAL: u16 = 393;

/// Rows remapped for correctable errors.
pub const DCGM_FI_DEV_ROW_REMAP_CORRECTABLE_TOTAL: u16 = 394;

/// Whether a row remapping failed.
pub const DCGM_FI_DEV_ROW_REMAP_FAILED: u16 = 395;

/// Whether a row remapping is pending.
pub const DCGM_FI_DEV_ROW_REMAP_PENDING: u16 = 396;

/// Activity of the graphics engine.
pub const DCGM_FI_PROF_GR_ENGINE_ACTIVE: u16 = 1001;

/// Activity of the SMs.
pub const DCGM_FI_PROF_SM_ACTIVE: u16 = 1002;

/// Occupancy of the SMs.
pub const DCGM_FI_PROF_SM_OCCUPANCY: u16 = 1003;

/// Activity of the tensor pipes.
pub const DCGM_FI_PROF_PIPE_TENSOR_ACTIVE: u16 = 1004;

/// Activity of the memory interface.
pub const DCGM_FI_PROF_DRAM_ACTIVE: u16 = 1005;

/// Activity of the FP64 pipes.
pub const DCGM_FI_PROF_PIPE_FP64_ACTIVE: u16 = 1006;

/// Activity of the FP32 pipes.
pub const DCGM_FI_PROF_PIPE_FP32_ACTIVE: u16 = 1007;

/// Activity of the FP16 pipes.
pub const DCGM_FI_PROF_PIPE_FP16_ACTIVE: u16 = 1008;

/// PCIe transmit rate.
pub const DCGM_FI_PROF_PCIE_TX_BYTES: u16 = 1009;

/// PCIe receive rate.
pub const DCGM_FI_PROF_PCIE_RX_BYTES: u16 = 1010;

/// NvLink transmit rate.
pub const DCGM_FI_PROF_NVLINK_TX_BYTES: u16 = 1011;

/// NvLink receive rate.
pub const DCGM_FI_PROF_NVLINK_RX_BYTES: u16 = 1012;

/// The GPU is idle.
pub const DCGM_CLOCKS_EVENT_REASON_GPU_IDLE: u64 = 0x1;

/// The clocks are set by applications.
pub const DCGM_CLOCKS_EVENT_REASON_CLOCKS_SETTING: u64 = 0x2;

/// The software power cap is reached.
pub const DCGM_CLOCKS_EVENT_REASON_SW_POWER_CAP: u64 = 0x4;

/// The hardware slows down.
pub const DCGM_CLOCKS_EVENT_REASON_HW_SLOWDOWN: u64 = 0x8;

/// The GPU is in a sync boost group.
pub const DCGM_CLOCKS_EVENT_REASON_SYNC_BOOST: u64 = 0x10;

/// The software slows the clocks down for heat.
pub const DCGM_CLOCKS_EVENT_REASON_SW_THERMAL: u64 = 0x20;

/// The hardware slows the clocks down for heat.
pub const DCGM_CLOCKS_EVENT_REASON_HW_THERMAL: u64 = 0x40;

/// The hardware power brake is on.
pub const DCGM_CLOCKS_EVENT_REASON_HW_POWER_BRAKE: u64 = 0x80;

/// The clocks are set for a display.
pub const DCGM_CLOCKS_EVENT_REASON_DISPLAY_CLOCKS: u64 = 0x100;

/// `MAKE_DCGM_VERSION(type, ver)` from `dcgm_structs.h`: the size of the
/// structure in the low 24 bits and the version number in the high eight.
pub fn make_dcgm_version<T>(ver: u32) -> (version: u32)
    ensures
        version == (vstd::layout::size_of::<T>() as u32) | (ver << 24),
{
    #[verifier::truncate]
    let size: u32 = core::mem::size_of::<T>() as u32;
    size | (ver << 24)
}

/// A version word gives back the size and the version number that it was made
/// of, as long as the size fits into 24 bits and the number into eight.
pub proof fn law_version_word_is_readable(size: u32, ver: u32)
    requires
        size < 0x100_0000,
        ver < 0x100,
    ensures
        (size | (ver << 24)) & 0xFF_FFFF == size,
        (size | (ver << 24)) >> 24 == ver,
{
    assert((size | (ver << 24)) & 0xFF_FFFF == size && (size | (ver << 24)) >> 24 == ver)
        by (bit_vector)
        requires
            size < 0x100_0000,
            ver < 0x100,
    ;
}

} // verus!
