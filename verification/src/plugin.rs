//! Rules of the DCGM plugin: the statuses that its functions return, what they
//! do with buffers, and the table and metadata that they present.
use crate::dcgm::{buffer_problem, complete, header_problem, metadata_problem, PluginMetadata};
use crate::dcgm_plugin_api::{
    DcgmPluginApiV1, DcgmPluginBuffer, DCGM_PLUGIN_ABI_VERSION, DCGM_PLUGIN_WIRE_FORMAT,
};
use vstd::prelude::*;

verus! {

/// The call succeeded.
pub const STATUS_OK: i32 = 0;

/// A pointer that the call needs is null.
pub const STATUS_INVALID_ARGUMENT: i32 = -1;

/// The call failed.
pub const STATUS_FAILED: i32 = -2;

/// The buffer without contents.
pub open spec fn no_buffer() -> DcgmPluginBuffer {
    DcgmPluginBuffer { ptr: 0, len: 0, capacity: 0 }
}

/// What a call that hands out a buffer returns, and what it writes.
#[derive(Clone, Copy, Debug, PartialEq, Eq)]
pub struct Written {
    pub status: i32,
    pub buffer: Option<DcgmPluginBuffer>,
}

/// What handing out a serialized value at the address `out` comes to.
pub open spec fn json_written(out: usize, serialized: Option<DcgmPluginBuffer>) -> Written {
    if out == 0 {
        Written { status: STATUS_INVALID_ARGUMENT, buffer: None }
    } else {
        match serialized {
            Some(buffer) => Written { status: STATUS_OK, buffer: Some(buffer) },
            None => Written { status: STATUS_FAILED, buffer: None },
        }
    }
}

/// Hands out the bytes of a value at the address `out`. `serialized` is the
/// buffer with the bytes, none where the value could not be serialized.
pub fn write_json(out: usize, serialized: Option<DcgmPluginBuffer>) -> (written: Written)
    ensures
        written == json_written(out, serialized),
{
    if out == 0 {
        return Written { status: STATUS_INVALID_ARGUMENT, buffer: None };
    }
    match serialized {
        Some(buffer) => Written { status: STATUS_OK, buffer: Some(buffer) },
        None => Written { status: STATUS_FAILED, buffer: None },
    }
}

/// The handle of the session that was opened, null if none was.
pub fn create_session(opened: Option<usize>) -> (handle: usize)
    ensures
        handle == match opened {
            Some(handle) => handle,
            None => 0,
        },
{
    match opened {
        Some(handle) => handle,
        None => 0,
    }
}

/// The session to destroy; none for a null handle.
pub fn destroy_session(handle: usize) -> (destroyed: Option<usize>)
    ensures
        destroyed == (if handle == 0 {
            None
        } else {
            Some(handle)
        }),
{
    if handle == 0 {
        None
    } else {
        Some(handle)
    }
}

/// Whether a session can be sampled: neither its handle nor the address for the
/// buffer is null.
pub fn can_sample(handle: usize, out: usize) -> (possible: bool)
    ensures
        possible == (handle != 0 && out != 0),
{
    handle != 0 && out != 0
}

/// What became of a sample.
#[derive(Clone, Copy, Debug, PartialEq, Eq)]
pub enum Sampled {
    /// A sample was taken; the buffer with its bytes, if it could be serialized.
    Taken { serialized: Option<DcgmPluginBuffer> },
    /// No sample could be taken.
    Failed,
    /// The sampling panicked.
    Panicked,
}

/// Hands out the bytes of a sample.
pub fn sample_json(handle: usize, out: usize, sampled: Sampled) -> (written: Written)
    ensures
        written == (if handle == 0 || out == 0 {
            Written { status: STATUS_INVALID_ARGUMENT, buffer: None }
        } else {
            match sampled {
                Sampled::Taken { serialized } => json_written(out, serialized),
                _ => Written { status: STATUS_FAILED, buffer: None },
            }
        }),
        written.status == -1 <==> handle == 0 || out == 0,
        written.status == 0 <==> handle != 0 && out != 0 && (
        sampled matches Sampled::Taken { serialized } && serialized is Some),
        written.status == 0 || written.status == -1 || written.status == -2,
        written.buffer is Some <==> written.status == 0,
        written.status == 0 ==> written.buffer == sampled->serialized,
{
    if !can_sample(handle, out) {
        return Written { status: STATUS_INVALID_ARGUMENT, buffer: None };
    }
    match sampled {
        Sampled::Taken { serialized } => write_json(out, serialized),
        Sampled::Failed => Written { status: STATUS_FAILED, buffer: None },
        Sampled::Panicked => Written { status: STATUS_FAILED, buffer: None },
    }
}

/// Whether a buffer holds memory.
pub open spec fn holds_memory(buffer: DcgmPluginBuffer) -> bool {
    buffer.ptr != 0 && buffer.capacity > 0
}

/// Takes the memory of a buffer to release it, and leaves the buffer empty.
pub fn free_buffer(buffer: &mut DcgmPluginBuffer) -> (released: Option<DcgmPluginBuffer>)
    ensures
        released == (if holds_memory(*old(buffer)) {
            Some(*old(buffer))
        } else {
            None
        }),
        *final(buffer) == no_buffer(),
        !holds_memory(*final(buffer)),
        released is Some <==> old(buffer).ptr != 0 && old(buffer).capacity > 0,
        released matches Some(memory) ==> memory == *old(buffer),
        final(buffer).ptr == 0 && final(buffer).len == 0 && final(buffer).capacity == 0,
{
    let contents: DcgmPluginBuffer = *buffer;
    *buffer = DcgmPluginBuffer::default();
    if contents.ptr != 0 && contents.capacity > 0 {
        Some(contents)
    } else {
        None
    }
}

/// The loader parses a buffer that was handed out with bytes in it, and takes
/// every failure of the plugin for one.
pub proof fn law_loader_understands_the_plugin(out: usize, serialized: Option<DcgmPluginBuffer>)
    requires
        serialized matches Some(buffer) ==> buffer.ptr != 0 && buffer.len > 0,
    ensures
        match json_written(out, serialized).buffer {
            Some(buffer) => buffer_problem(json_written(out, serialized).status, buffer) is None,
            None => buffer_problem(json_written(out, serialized).status, no_buffer()) is Some,
        },
{
}

/// The function table of the plugin.
pub fn function_table(
    table_size: usize,
    create_session: usize,
    destroy_session: usize,
    sample_json: usize,
    read_metadata_json: usize,
    free_buffer: usize,
) -> (api: DcgmPluginApiV1)
    ensures
        api == (DcgmPluginApiV1 {
            abi_version: DCGM_PLUGIN_ABI_VERSION,
            struct_size: table_size,
            create_session: Some(create_session),
            destroy_session: Some(destroy_session),
            sample_json: Some(sample_json),
            read_metadata_json: Some(read_metadata_json),
            free_buffer: Some(free_buffer),
        }),
        header_problem(api.abi_version, api.struct_size, table_size) is None,
        complete(api),
        api.abi_version == 1,
{
    DcgmPluginApiV1 {
        abi_version: DCGM_PLUGIN_ABI_VERSION,
        struct_size: table_size,
        create_session: Some(create_session),
        destroy_session: Some(destroy_session),
        sample_json: Some(sample_json),
        read_metadata_json: Some(read_metadata_json),
        free_buffer: Some(free_buffer),
    }
}

/// The metadata of the plugin.
pub fn plugin_metadata(plugin_version: &str) -> (metadata: PluginMetadata)
    ensures
        metadata.plugin_version@ == plugin_version@,
        metadata.wire_format@ == DCGM_PLUGIN_WIRE_FORMAT@,
        metadata_problem(metadata) is None,
        metadata.wire_format@ == "all-smi-dcgm-json-v1"@,
{
    PluginMetadata {
        plugin_version: plugin_version.to_owned(),
        wire_format: DCGM_PLUGIN_WIRE_FORMAT.to_owned(),
    }
}

/// Handing out a value returns zero with the buffer that holds it, -1 where there is
/// no address to write to, and -2 where the value could not be serialized; only in
/// the first case a buffer is written.
pub proof fn law_statuses_of_handing_out(out: usize, serialized: Option<DcgmPluginBuffer>)
    ensures
        out == 0 ==> json_written(out, serialized).status == -1,
        out != 0 && serialized is Some ==> json_written(out, serialized).status == 0,
        out != 0 && serialized is None ==> json_written(out, serialized).status == -2,
        json_written(out, serialized).buffer == (if out != 0 {
            serialized
        } else {
            None
        }),
{
}

} // verus!
