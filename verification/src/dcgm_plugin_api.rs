//! Versioned interface between the DCGM runtime loader and its plugin.
//!
//! The plugin owns libdcgm; the loader reaches it through an opaque session
//! handle and a table of functions that hand out JSON buffers. Addresses are
//! held as integers, with zero for null.
use vstd::prelude::*;

verus! {

/// The version of the function table.
pub const DCGM_PLUGIN_ABI_VERSION: u32 = 1;

/// The NUL-terminated name of the entry point.
pub const DCGM_PLUGIN_ENTRY_SYMBOL: &'static str = "all_smi_dcgm_plugin_entry_v1\0";

/// The name of the wire format.
pub const DCGM_PLUGIN_WIRE_FORMAT: &'static str = "all-smi-dcgm-json-v1";

/// A buffer that the plugin allocates.
#[derive(Clone, Copy, Debug, PartialEq, Eq, Structural)]
pub struct DcgmPluginBuffer {
    /// Address of the first byte.
    pub ptr: usize,
    pub len: usize,
    pub capacity: usize,
}

impl Default for DcgmPluginBuffer {
    fn default() -> (buffer: Self)
        ensures
            buffer == (DcgmPluginBuffer { ptr: 0, len: 0, capacity: 0 }),
    {
        DcgmPluginBuffer { ptr: 0, len: 0, capacity: 0 }
    }
}

/// The function table, each function by its address.
#[derive(Clone, Copy, Debug, PartialEq, Eq)]
pub struct DcgmPluginApiV1 {
    pub abi_version: u32,
    pub struct_size: usize,
    pub create_session: Option<usize>,
    pub destroy_session: Option<usize>,
    pub sample_json: Option<usize>,
    pub read_metadata_json: Option<usize>,
    pub free_buffer: Option<usize>,
}

/// The loader and the plugin agree on version one, its entry point and its wire format.
pub proof fn law_names_of_version_one()
    ensures
        DCGM_PLUGIN_ABI_VERSION == 1,
        DCGM_PLUGIN_ENTRY_SYMBOL@ == "all_smi_dcgm_plugin_entry_v1\0"@,
        DCGM_PLUGIN_WIRE_FORMAT@ == "all-smi-dcgm-json-v1"@,
{
}

} // verus!
