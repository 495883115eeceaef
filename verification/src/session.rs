//! The life of a DCGM session: which calls open it, what a sample is made of,
//! and which calls take everything down again.
use crate::bindings::{
    DCGM_FI_DEV_UUID, DCGM_GROUP_DEFAULT, DCGM_MAX_NUM_DEVICES, DCGM_OPERATION_MODE_AUTO,
    DCGM_ST_OK,
};
use crate::dcgm_values::{
    decode_values, decoded, field_ids, text_of, watched_fields, FieldValue, GpuSample,
    SampleEnvelope,
};
use crate::text::{i32_text, signed_decimal};
use vstd::prelude::*;

verus! {

/// The address of the host engine.
pub const HOST_ENGINE_ADDRESS: &'static str = "127.0.0.1";

/// How long to wait for the host engine, in milliseconds.
pub const CONNECT_TIMEOUT_MILLIS: u32 = 3000;

/// The version of the connection parameters.
pub const CONNECT_PARAMS_VERSION: u32 = 2;

/// The version of a field value.
pub const FIELD_VALUE_VERSION: u32 = 1;

/// The name of the device group.
pub const GROUP_NAME: &'static str = "all-smi-dcgm";

/// The name of the field group.
pub const FIELD_GROUP_NAME: &'static str = "all-smi-dcgm-fields";

/// How often the fields are updated, in microseconds.
pub const UPDATE_MICROS: i64 = 100_000;

/// How long the samples of a field are kept, in seconds.
pub const KEPT_SECONDS: u32 = 60;

/// How many samples of a field are kept.
pub const KEPT_SAMPLES: i32 = 20;

/// How long the first profiling window takes, in milliseconds.
pub const FIRST_WINDOW_MILLIS: u64 = 1200;

/// The names under which the DCGM library is looked up, in order.
pub const LIBRARY_NAME: &'static str = "libdcgm.so.4";

pub const LIBRARY_FALLBACK_NAME: &'static str = "libdcgm.so";

/// The function that a DCGM library may lack.
pub const OPTIONAL_SYMBOL: &'static str = "dcgmProfResume";

/// The functions that a DCGM library must have, in the order they are looked up.
pub open spec fn required_names() -> Seq<Seq<char>> {
    seq![
        "dcgmInit"@,
        "dcgmShutdown"@,
        "dcgmConnect_v2"@,
        "dcgmStartEmbedded"@,
        "dcgmDisconnect"@,
        "dcgmStopEmbedded"@,
        "dcgmGetAllDevices"@,
        "dcgmGroupCreate"@,
        "dcgmGroupDestroy"@,
        "dcgmFieldGroupCreate"@,
        "dcgmFieldGroupDestroy"@,
        "dcgmWatchFields"@,
        "dcgmUpdateAllFields"@,
        "dcgmGetLatestValuesForFields"@,
    ]
}

/// The functions that a DCGM library must have, in the order they are looked up.
pub fn required_symbols() -> (names: Vec<&'static str>)
    ensures
        crate::types::texts(names@) == required_names(),
{
    let names = vec![
        "dcgmInit",
        "dcgmShutdown",
        "dcgmConnect_v2",
        "dcgmStartEmbedded",
        "dcgmDisconnect",
        "dcgmStopEmbedded",
        "dcgmGetAllDevices",
        "dcgmGroupCreate",
        "dcgmGroupDestroy",
        "dcgmFieldGroupCreate",
        "dcgmFieldGroupDestroy",
        "dcgmWatchFields",
        "dcgmUpdateAllFields",
        "dcgmGetLatestValuesForFields",
    ];
    assert(crate::types::texts(names@) =~= required_names());
    names
}

/// The functions of the DCGM library, each by its address.
#[derive(Clone, Copy, Debug, PartialEq, Eq)]
pub struct DcgmFns {
    pub init: usize,
    pub shutdown: usize,
    pub connect_v2: usize,
    pub start_embedded: usize,
    pub disconnect: usize,
    pub stop_embedded: usize,
    pub get_all_devices: usize,
    pub group_create: usize,
    pub group_destroy: usize,
    pub field_group_create: usize,
    pub field_group_destroy: usize,
    pub watch_fields: usize,
    pub update_all_fields: usize,
    pub get_latest: usize,
    pub prof_resume: Option<usize>,
}

/// The first name that was not found.
pub open spec fn first_missing(found: Seq<Result<usize, String>>) -> Option<String>
    decreases found.len(),
{
    if found.len() == 0 {
        None
    } else {
        match found[0] {
            Err(error) => Some(error),
            Ok(_) => first_missing(found.drop_first()),
        }
    }
}

/// The address at a place.
pub open spec fn address(found: Seq<Result<usize, String>>, i: int) -> usize {
    found[i]->Ok_0
}

impl DcgmFns {
    /// Whether the functions are those at the addresses of the required names, in
    /// the order of the names.
    pub open spec fn loaded_from(
        self,
        found: Seq<Result<usize, String>>,
        prof_resume: Option<usize>,
    ) -> bool {
        &&& found == seq![
            self.init,
            self.shutdown,
            self.connect_v2,
            self.start_embedded,
            self.disconnect,
            self.stop_embedded,
            self.get_all_devices,
            self.group_create,
            self.group_destroy,
            self.field_group_create,
            self.field_group_destroy,
            self.watch_fields,
            self.update_all_fields,
            self.get_latest,
        ].map_values(|place: usize| Ok::<usize, String>(place))
        &&& self.prof_resume == prof_resume
    }

    /// What follows a failed attempt to open the library under one of its names:
    /// another name to try, or the reason to give up.
    pub fn open_failed(name: &str, error: &str) -> (next: Result<&'static str, String>)
        ensures
            if name@ == LIBRARY_NAME@ {
                next matches Ok(other) && other@ == LIBRARY_FALLBACK_NAME@
            } else {
                next matches Err(reason) && reason@ == "dlopen libdcgm: "@ + error@
            },
            name@ == "libdcgm.so.4"@ ==> (next matches Ok(other) && other@ == "libdcgm.so"@),
            name@ != "libdcgm.so.4"@ ==> next is Err,
    {
        if name.to_owned() == LIBRARY_NAME.to_owned() {
            Ok(LIBRARY_FALLBACK_NAME)
        } else {
            let mut reason = "dlopen libdcgm: ".to_owned();
            reason.append(error);
            Err(reason)
        }
    }

    /// The functions of a library in which the required names were found at the
    /// given addresses, or the error of the first name that was not found.
    pub fn load(found: &[Result<usize, String>], prof_resume: Option<usize>) -> (fns: Result<
        Self,
        String,
    >)
        requires
            found@.len() == required_names().len(),
        ensures
            match first_missing(found@) {
                Some(error) => fns == Err::<Self, String>(error),
                None => fns == Ok::<Self, String>(
                    DcgmFns {
                        init: address(found@, 0),
                        shutdown: address(found@, 1),
                        connect_v2: address(found@, 2),
                        start_embedded: address(found@, 3),
                        disconnect: address(found@, 4),
                        stop_embedded: address(found@, 5),
                        get_all_devices: address(found@, 6),
                        group_create: address(found@, 7),
                        group_destroy: address(found@, 8),
                        field_group_create: address(found@, 9),
                        field_group_destroy: address(found@, 10),
                        watch_fields: address(found@, 11),
                        update_all_fields: address(found@, 12),
                        get_latest: address(found@, 13),
                        prof_resume,
                    },
                ),
            },
            fns matches Ok(fns) ==> fns.loaded_from(found@, prof_resume),
    {
        let mut i: usize = 0;
        assert(found@.skip(0) =~= found@);
        while i < found.len()
            invariant
                i <= found@.len(),
                first_missing(found@) == first_missing(found@.skip(i as int)),
            decreases found@.len() - i,
        {
            assert(found@.skip(i as int).drop_first() =~= found@.skip(i + 1));
            if let Err(error) = &found[i] {
                return Err(error.clone());
            }
            i += 1;
        }
        proof {
            assert(found@.skip(i as int) =~= seq![]);
            lemma_all_found(found@);
        }
        let fns = DcgmFns {
            init: found_address(&found[0]),
            shutdown: found_address(&found[1]),
            connect_v2: found_address(&found[2]),
            start_embedded: found_address(&found[3]),
            disconnect: found_address(&found[4]),
            stop_embedded: found_address(&found[5]),
            get_all_devices: found_address(&found[6]),
            group_create: found_address(&found[7]),
            group_destroy: found_address(&found[8]),
            field_group_create: found_address(&found[9]),
            field_group_destroy: found_address(&found[10]),
            watch_fields: found_address(&found[11]),
            update_all_fields: found_address(&found[12]),
            get_latest: found_address(&found[13]),
            prof_resume,
        };
        assert(found@ =~= seq![
            fns.init,
            fns.shutdown,
            fns.connect_v2,
            fns.start_embedded,
            fns.disconnect,
            fns.stop_embedded,
            fns.get_all_devices,
            fns.group_create,
            fns.group_destroy,
            fns.field_group_create,
            fns.field_group_destroy,
            fns.watch_fields,
            fns.update_all_fields,
            fns.get_latest,
        ].map_values(|place: usize| Ok::<usize, String>(place)));
        Ok(fns)
    }
}

/// The address of a name that was found.
fn found_address(found: &Result<usize, String>) -> (place: usize)
    requires
        found is Ok,
    ensures
        place == found->Ok_0,
{
    match found {
        Ok(place) => *place,
        Err(_) => 0,
    }
}

/// Where no name is missing, all were found.
proof fn lemma_all_found(found: Seq<Result<usize, String>>)
    requires
        first_missing(found) is None,
    ensures
        forall|i: int| 0 <= i < found.len() ==> #[trigger] found[i] is Ok,
    decreases found.len(),
{
    if found.len() > 0 {
        lemma_all_found(found.drop_first());
        assert forall|i: int| 0 <= i < found.len() implies #[trigger] found[i] is Ok by {
            if i > 0 {
                assert(found.drop_first()[i - 1] is Ok);
            }
        }
    }
}

/// A call into the DCGM library, or a pause.
#[derive(Clone, Copy, Debug, PartialEq, Eq, Structural)]
pub enum Call {
    Init,
    Connect,
    StartEmbedded,
    CreateGroup { handle: usize },
    CreateFieldGroup { handle: usize },
    WatchFields { handle: usize, group: usize, field_group: usize },
    ResumeProfiling { handle: usize },
    UpdateFields { handle: usize },
    ListDevices { handle: usize },
    ReadDevice { handle: usize, device: u32 },
    Pause { millis: u64 },
    DestroyFieldGroup { handle: usize, field_group: usize },
    DestroyGroup { handle: usize, group: usize },
    StopEmbedded { handle: usize },
    Disconnect { handle: usize },
    Shutdown,
}

/// The parameters of a connection. The version goes into a version word with
/// the size of the structure.
#[derive(Clone, Copy, Debug, PartialEq, Eq, Structural)]
pub struct ConnectParams {
    pub version: u32,
    pub persist_after_disconnect: u32,
    pub timeout_millis: u32,
    pub address_is_unix_socket: u32,
}

/// What a call hands to its function, apart from the places where the function
/// writes its results.
#[derive(Debug, PartialEq, Eq)]
pub enum Arguments {
    Init,
    Connect { address: &'static str, params: ConnectParams },
    StartEmbedded { mode: u32 },
    CreateGroup { handle: usize, kind: u32, name: &'static str },
    CreateFieldGroup { handle: usize, fields: Vec<u16>, name: &'static str },
    WatchFields {
        handle: usize,
        group: usize,
        field_group: usize,
        update_micros: i64,
        keep_seconds: u32,
        keep_samples: i32,
    },
    ResumeProfiling { handle: usize },
    /// `wait` is not zero where the call returns after the update only.
    UpdateFields { handle: usize, wait: i32 },
    /// `room` is the number of devices that there is room for.
    ListDevices { handle: usize, room: usize },
    ReadDevice { handle: usize, device: i32, fields: Vec<u16>, value_version: u32 },
    Pause { millis: u64 },
    DestroyFieldGroup { handle: usize, field_group: usize },
    DestroyGroup { handle: usize, group: usize },
    StopEmbedded { handle: usize },
    Disconnect { handle: usize },
    Shutdown,
}

/// Whether the arguments are those of the call.
pub open spec fn belong_to(arguments: Arguments, call: Call) -> bool {
    match call {
        Call::Init => arguments is Init,
        Call::Connect => arguments matches Arguments::Connect { address, params } && address@
            == HOST_ENGINE_ADDRESS@ && params == (ConnectParams {
            version: CONNECT_PARAMS_VERSION,
            persist_after_disconnect: 0,
            timeout_millis: CONNECT_TIMEOUT_MILLIS,
            address_is_unix_socket: 0,
        }),
        Call::StartEmbedded => arguments == (Arguments::StartEmbedded {
            mode: DCGM_OPERATION_MODE_AUTO,
        }),
        Call::CreateGroup { handle } => arguments matches Arguments::CreateGroup {
            handle: given,
            kind,
            name,
        } && given == handle && kind == DCGM_GROUP_DEFAULT && name@ == GROUP_NAME@,
        Call::CreateFieldGroup { handle } => arguments matches Arguments::CreateFieldGroup {
            handle: given,
            fields,
            name,
        } && given == handle && fields@ == watched_fields() && name@ == FIELD_GROUP_NAME@,
        Call::WatchFields { handle, group, field_group } => arguments == (Arguments::WatchFields {
            handle,
            group,
            field_group,
            update_micros: UPDATE_MICROS,
            keep_seconds: KEPT_SECONDS,
            keep_samples: KEPT_SAMPLES,
        }),
        Call::ResumeProfiling { handle } => arguments == (Arguments::ResumeProfiling { handle }),
        Call::UpdateFields { handle } => arguments == (Arguments::UpdateFields {
            handle,
            wait: 1,
        }),
        Call::ListDevices { handle } => arguments == (Arguments::ListDevices {
            handle,
            room: DCGM_MAX_NUM_DEVICES,
        }),
        Call::ReadDevice { handle, device } => arguments matches Arguments::ReadDevice {
            handle: given,
            device: asked,
            fields,
            value_version,
        } && given == handle && asked == device as i32 && fields@ == watched_fields()
            && value_version == FIELD_VALUE_VERSION,
        Call::Pause { millis } => arguments == (Arguments::Pause { millis }),
        Call::DestroyFieldGroup { handle, field_group } => arguments
            == (Arguments::DestroyFieldGroup { handle, field_group }),
        Call::DestroyGroup { handle, group } => arguments == (Arguments::DestroyGroup {
            handle,
            group,
        }),
        Call::StopEmbedded { handle } => arguments == (Arguments::StopEmbedded { handle }),
        Call::Disconnect { handle } => arguments == (Arguments::Disconnect { handle }),
        Call::Shutdown => arguments is Shutdown,
    }
}

impl Call {
    /// What the call hands to its function.
    pub fn arguments(&self) -> (arguments: Arguments)
        ensures
            belong_to(arguments, *self),
    {
        match *self {
            Call::Init => Arguments::Init,
            Call::Connect => Arguments::Connect {
                address: HOST_ENGINE_ADDRESS,
                params: ConnectParams {
                    version: CONNECT_PARAMS_VERSION,
                    persist_after_disconnect: 0,
                    timeout_millis: CONNECT_TIMEOUT_MILLIS,
                    address_is_unix_socket: 0,
                },
            },
            Call::StartEmbedded => Arguments::StartEmbedded { mode: DCGM_OPERATION_MODE_AUTO },
            Call::CreateGroup { handle } => Arguments::CreateGroup {
                handle,
                kind: DCGM_GROUP_DEFAULT,
                name: GROUP_NAME,
            },
            Call::CreateFieldGroup { handle } => Arguments::CreateFieldGroup {
                handle,
                fields: field_ids(),
                name: FIELD_GROUP_NAME,
            },
            Call::WatchFields { handle, group, field_group } => Arguments::WatchFields {
                handle,
                group,
                field_group,
                update_micros: UPDATE_MICROS,
                keep_seconds: KEPT_SECONDS,
                keep_samples: KEPT_SAMPLES,
            },
            Call::ResumeProfiling { handle } => Arguments::ResumeProfiling { handle },
            Call::UpdateFields { handle } => Arguments::UpdateFields { handle, wait: 1 },
            Call::ListDevices { handle } => Arguments::ListDevices {
                handle,
                room: DCGM_MAX_NUM_DEVICES,
            },
            Call::ReadDevice { handle, device } => {
                #[verifier::truncate]
                let asked: i32 = device as i32;
                Arguments::ReadDevice {
                    handle,
                    device: asked,
                    fields: field_ids(),
                    value_version: FIELD_VALUE_VERSION,
                }
            },
            Call::Pause { millis } => Arguments::Pause { millis },
            Call::DestroyFieldGroup { handle, field_group } => Arguments::DestroyFieldGroup {
                handle,
                field_group,
            },
            Call::DestroyGroup { handle, group } => Arguments::DestroyGroup { handle, group },
            Call::StopEmbedded { handle } => Arguments::StopEmbedded { handle },
            Call::Disconnect { handle } => Arguments::Disconnect { handle },
            Call::Shutdown => Arguments::Shutdown,
        }
    }
}

impl DcgmFns {
    /// The function of the library that a call goes to; a pause goes to none,
    /// nor does a resumption in a library that lacks it.
    pub open spec fn target(self, call: Call) -> Option<usize> {
        match call {
            Call::Init => Some(self.init),
            Call::Connect => Some(self.connect_v2),
            Call::StartEmbedded => Some(self.start_embedded),
            Call::CreateGroup { .. } => Some(self.group_create),
            Call::CreateFieldGroup { .. } => Some(self.field_group_create),
            Call::WatchFields { .. } => Some(self.watch_fields),
            Call::ResumeProfiling { .. } => self.prof_resume,
            Call::UpdateFields { .. } => Some(self.update_all_fields),
            Call::ListDevices { .. } => Some(self.get_all_devices),
            Call::ReadDevice { .. } => Some(self.get_latest),
            Call::Pause { .. } => None,
            Call::DestroyFieldGroup { .. } => Some(self.field_group_destroy),
            Call::DestroyGroup { .. } => Some(self.group_destroy),
            Call::StopEmbedded { .. } => Some(self.stop_embedded),
            Call::Disconnect { .. } => Some(self.disconnect),
            Call::Shutdown => Some(self.shutdown),
        }
    }

    /// Computes [`DcgmFns::target`].
    pub fn function(&self, call: &Call) -> (function: Option<usize>)
        ensures
            function == self.target(*call),
    {
        match *call {
            Call::Init => Some(self.init),
            Call::Connect => Some(self.connect_v2),
            Call::StartEmbedded => Some(self.start_embedded),
            Call::CreateGroup { .. } => Some(self.group_create),
            Call::CreateFieldGroup { .. } => Some(self.field_group_create),
            Call::WatchFields { .. } => Some(self.watch_fields),
            Call::ResumeProfiling { .. } => self.prof_resume,
            Call::UpdateFields { .. } => Some(self.update_all_fields),
            Call::ListDevices { .. } => Some(self.get_all_devices),
            Call::ReadDevice { .. } => Some(self.get_latest),
            Call::Pause { .. } => None,
            Call::DestroyFieldGroup { .. } => Some(self.field_group_destroy),
            Call::DestroyGroup { .. } => Some(self.group_destroy),
            Call::StopEmbedded { .. } => Some(self.stop_embedded),
            Call::Disconnect { .. } => Some(self.disconnect),
            Call::Shutdown => Some(self.shutdown),
        }
    }
}

/// An open session. A handle or group of zero is none.
#[derive(Clone, Copy, Debug, PartialEq, Eq, Structural)]
pub struct Session {
    pub handle: usize,
    pub embedded: bool,
    pub group: usize,
    pub field_group: usize,
    pub watched: bool,
}

/// How far the opening of a session is.
#[derive(Clone, Copy, Debug, PartialEq, Eq, Structural)]
pub enum Stage {
    Init,
    Connect,
    StartEmbedded { connect_status: i32 },
    CreateGroup { handle: usize, embedded: bool },
    CreateFieldGroup { handle: usize, embedded: bool, group: usize },
    WatchFields { handle: usize, embedded: bool, group: usize, field_group: usize },
    Resume { session: Session },
    FirstUpdate { session: Session },
    Settle { session: Session },
    SecondUpdate { session: Session },
}

/// What a call returned: its status, and the handle or identifier it wrote.
#[derive(Clone, Copy, Debug, PartialEq, Eq, Structural)]
pub struct Reply {
    pub status: i32,
    pub value: usize,
}

/// Where the opening of a session stands after a call.
#[derive(Debug, PartialEq, Eq)]
pub enum Opening {
    /// Go on with the next stage.
    Next(Stage),
    /// The session is open.
    Open(Session),
    /// The session cannot be opened; make the calls, and report the reason.
    Failed { cleanup: Vec<Call>, reason: String },
}

impl Stage {
    /// The call that the stage makes.
    pub open spec fn call_of(self) -> Call {
        match self {
            Stage::Init => Call::Init,
            Stage::Connect => Call::Connect,
            Stage::StartEmbedded { .. } => Call::StartEmbedded,
            Stage::CreateGroup { handle, .. } => Call::CreateGroup { handle },
            Stage::CreateFieldGroup { handle, .. } => Call::CreateFieldGroup { handle },
            Stage::WatchFields { handle, group, field_group, .. } => Call::WatchFields {
                handle,
                group,
                field_group,
            },
            Stage::Resume { session } => Call::ResumeProfiling { handle: session.handle },
            Stage::FirstUpdate { session } => Call::UpdateFields { handle: session.handle },
            Stage::Settle { .. } => Call::Pause { millis: FIRST_WINDOW_MILLIS },
            Stage::SecondUpdate { session } => Call::UpdateFields { handle: session.handle },
        }
    }

    /// The call that the stage makes.
    pub fn call(&self) -> (call: Call)
        ensures
            call == self.call_of(),
    {
        match *self {
            Stage::Init => Call::Init,
            Stage::Connect => Call::Connect,
            Stage::StartEmbedded { .. } => Call::StartEmbedded,
            Stage::CreateGroup { handle, .. } => Call::CreateGroup { handle },
            Stage::CreateFieldGroup { handle, .. } => Call::CreateFieldGroup { handle },
            Stage::WatchFields { handle, group, field_group, .. } => Call::WatchFields {
                handle,
                group,
                field_group,
            },
            Stage::Resume { session } => Call::ResumeProfiling { handle: session.handle },
            Stage::FirstUpdate { session } => Call::UpdateFields { handle: session.handle },
            Stage::Settle { .. } => Call::Pause { millis: FIRST_WINDOW_MILLIS },
            Stage::SecondUpdate { session } => Call::UpdateFields { handle: session.handle },
        }
    }
}

/// A call, if it is to be made.
pub open spec fn one_call(wanted: bool, call: Call) -> Seq<Call> {
    if wanted {
        seq![call]
    } else {
        seq![]
    }
}

/// The calls that take down a connection with its groups, newest first.
pub open spec fn teardown_calls(
    handle: usize,
    embedded: bool,
    group: usize,
    field_group: usize,
) -> Seq<Call> {
    one_call(field_group != 0, Call::DestroyFieldGroup { handle, field_group }) + one_call(
        group != 0,
        Call::DestroyGroup { handle, group },
    ) + one_call(
        handle != 0,
        if embedded {
            Call::StopEmbedded { handle }
        } else {
            Call::Disconnect { handle }
        },
    ) + seq![Call::Shutdown]
}

/// Why a session cannot be opened when a call of the stage returns the status.
pub open spec fn failure(stage: Stage, status: i32) -> Seq<char> {
    match stage {
        Stage::Init => "dcgmInit failed: "@ + signed_decimal(status as int),
        Stage::StartEmbedded { connect_status } => "dcgmConnect_v2("@ + signed_decimal(
            connect_status as int,
        ) + ") and dcgmStartEmbedded("@ + signed_decimal(status as int)
            + ") both failed (embedded often needs root / CAP_SYS_ADMIN)"@,
        Stage::CreateGroup { .. } => "dcgmGroupCreate failed: "@ + signed_decimal(status as int),
        _ => "dcgmFieldGroupCreate failed: "@ + signed_decimal(status as int),
    }
}

/// The calls that undo what was done before the stage.
pub open spec fn cleanup_of(stage: Stage) -> Seq<Call> {
    match stage {
        Stage::StartEmbedded { .. } => seq![Call::Shutdown],
        Stage::CreateGroup { handle, embedded } => teardown_calls(handle, embedded, 0, 0),
        Stage::CreateFieldGroup { handle, embedded, group } => teardown_calls(
            handle,
            embedded,
            group,
            0,
        ),
        _ => seq![],
    }
}

/// The stage or the session that follows when the call of the stage succeeds or
/// its failure does not matter; none where the opening fails.
pub open spec fn following(stage: Stage, reply: Reply, can_resume: bool) -> Option<
    Result<Stage, Session>,
> {
    let ok = reply.status == DCGM_ST_OK;
    match stage {
        Stage::Init => if ok {
            Some(Ok(Stage::Connect))
        } else {
            None
        },
        Stage::Connect => if ok {
            Some(Ok(Stage::CreateGroup { handle: reply.value, embedded: false }))
        } else {
            Some(Ok(Stage::StartEmbedded { connect_status: reply.status }))
        },
        Stage::StartEmbedded { .. } => if ok {
            Some(Ok(Stage::CreateGroup { handle: reply.value, embedded: true }))
        } else {
            None
        },
        Stage::CreateGroup { handle, embedded } => if ok {
            Some(Ok(Stage::CreateFieldGroup { handle, embedded, group: reply.value }))
        } else {
            None
        },
        Stage::CreateFieldGroup { handle, embedded, group } => if ok {
            Some(
                Ok(Stage::WatchFields { handle, embedded, group, field_group: reply.value }),
            )
        } else {
            None
        },
        Stage::WatchFields { handle, embedded, group, field_group } => {
            let session = Session { handle, embedded, group, field_group, watched: ok };
            if can_resume {
                Some(Ok(Stage::Resume { session }))
            } else {
                Some(Ok(Stage::FirstUpdate { session }))
            }
        },
        Stage::Resume { session } => Some(Ok(Stage::FirstUpdate { session })),
        Stage::FirstUpdate { session } => Some(Ok(Stage::Settle { session })),
        Stage::Settle { session } => Some(Ok(Stage::SecondUpdate { session })),
        Stage::SecondUpdate { session } => Some(Err(session)),
    }
}

/// Appends a call, if it is to be made.
fn push_call(calls: &mut Vec<Call>, wanted: bool, call: Call)
    ensures
        final(calls)@ == old(calls)@ + one_call(wanted, call),
{
    if wanted {
        calls.push(call);
    }
    assert(calls@ =~= old(calls)@ + one_call(wanted, call));
}

/// What to say of a call that failed.
fn failed(what: &str, status: i32) -> (reason: String)
    ensures
        reason@ == what@ + signed_decimal(status as int),
{
    let mut reason = what.to_owned();
    reason.append(i32_text(status).as_str());
    reason
}

impl Session {
    /// The calls that take down a connection with its groups, newest first.
    pub fn teardown(handle: usize, embedded: bool, group: usize, field_group: usize) -> (calls: Vec<
        Call,
    >)
        ensures
            calls@ == teardown_calls(handle, embedded, group, field_group),
    {
        let mut calls: Vec<Call> = Vec::new();
        push_call(&mut calls, field_group != 0, Call::DestroyFieldGroup { handle, field_group });
        push_call(&mut calls, group != 0, Call::DestroyGroup { handle, group });
        let leave: Call = if embedded {
            Call::StopEmbedded { handle }
        } else {
            Call::Disconnect { handle }
        };
        push_call(&mut calls, handle != 0, leave);
        calls.push(Call::Shutdown);
        assert(calls@ =~= teardown_calls(handle, embedded, group, field_group));
        calls
    }

    /// The calls that close the session.
    pub fn close(&self) -> (calls: Vec<Call>)
        ensures
            calls@ == teardown_calls(self.handle, self.embedded, self.group, self.field_group),
    {
        Session::teardown(self.handle, self.embedded, self.group, self.field_group)
    }

    /// Goes on with the opening of a session after the call of a stage: connect
    /// to the host engine or else start an embedded one, create the groups,
    /// watch the fields, and let the first profiling window pass.
    pub fn open(stage: Stage, reply: Reply, can_resume: bool) -> (opening: Opening)
        ensures
            match following(stage, reply, can_resume) {
                Some(Ok(next)) => opening == Opening::Next(next),
                Some(Err(session)) => opening == Opening::Open(session),
                None => opening matches Opening::Failed { cleanup, reason } && cleanup@
                    == cleanup_of(stage) && reason@ == failure(stage, reply.status),
            },
    {
        let ok: bool = reply.status == DCGM_ST_OK;
        match stage {
            Stage::Init => {
                if ok {
                    Opening::Next(Stage::Connect)
                } else {
                    Opening::Failed {
                        cleanup: Vec::new(),
                        reason: failed("dcgmInit failed: ", reply.status),
                    }
                }
            },
            Stage::Connect => {
                if ok {
                    Opening::Next(Stage::CreateGroup { handle: reply.value, embedded: false })
                } else {
                    Opening::Next(Stage::StartEmbedded { connect_status: reply.status })
                }
            },
            Stage::StartEmbedded { connect_status } => {
                if ok {
                    Opening::Next(Stage::CreateGroup { handle: reply.value, embedded: true })
                } else {
                    let mut cleanup: Vec<Call> = Vec::new();
                    cleanup.push(Call::Shutdown);
                    assert(cleanup@ =~= seq![Call::Shutdown]);
                    let mut reason = failed("dcgmConnect_v2(", connect_status);
                    reason.append(") and dcgmStartEmbedded(");
                    reason.append(i32_text(reply.status).as_str());
                    reason.append(") both failed (embedded often needs root / CAP_SYS_ADMIN)");
                    Opening::Failed { cleanup, reason }
                }
            },
            Stage::CreateGroup { handle, embedded } => {
                if ok {
                    Opening::Next(
                        Stage::CreateFieldGroup { handle, embedded, group: reply.value },
                    )
                } else {
                    Opening::Failed {
                        cleanup: Session::teardown(handle, embedded, 0, 0),
                        reason: failed("dcgmGroupCreate failed: ", reply.status),
                    }
                }
            },
            Stage::CreateFieldGroup { handle, embedded, group } => {
                if ok {
                    Opening::Next(
                        Stage::WatchFields { handle, embedded, group, field_group: reply.value },
                    )
                } else {
                    Opening::Failed {
                        cleanup: Session::teardown(handle, embedded, group, 0),
                        reason: failed("dcgmFieldGroupCreate failed: ", reply.status),
                    }
                }
            },
            Stage::WatchFields { handle, embedded, group, field_group } => {
                let session = Session { handle, embedded, group, field_group, watched: ok };
                if can_resume {
                    Opening::Next(Stage::Resume { session })
                } else {
                    Opening::Next(Stage::FirstUpdate { session })
                }
            },
            Stage::Resume { session } => Opening::Next(Stage::FirstUpdate { session }),
            Stage::FirstUpdate { session } => Opening::Next(Stage::Settle { session }),
            Stage::Settle { session } => Opening::Next(Stage::SecondUpdate { session }),
            Stage::SecondUpdate { session } => Opening::Open(session),
        }
    }
}

/// How many of the listed devices there are: as many as were counted, none for
/// a negative count, and no more than were listed.
pub open spec fn device_count(listed: nat, count: i32) -> nat {
    if count <= 0 {
        0
    } else if count < listed {
        count as nat
    } else {
        listed
    }
}

/// The devices to read, of a list that holds `count` of them.
pub fn devices_to_read(listed: &[u32], count: i32) -> (devices: Vec<u32>)
    ensures
        devices@ == listed@.take(device_count(listed@.len(), count) as int),
{
    let mut devices: Vec<u32> = Vec::new();
    let mut i: usize = 0;
    while i < listed.len() && (i as i64) < count as i64
        invariant
            i <= device_count(listed@.len(), count),
            devices@ == listed@.take(i as int),
        decreases listed@.len() - i,
    {
        assert(listed@.take(i + 1) =~= listed@.take(i as int).push(listed@[i as int]));
        devices.push(listed[i]);
        i += 1;
    }
    assert(i == device_count(listed@.len(), count));
    devices
}

/// The values of one device, with the status of the call that read them.
#[derive(Debug, PartialEq, Eq)]
pub struct DeviceRead {
    pub status: i32,
    pub values: Vec<FieldValue>,
}

/// Whether a device makes a sample: it was read, and its UUID is known.
pub open spec fn readable(read: DeviceRead) -> bool {
    read.status == DCGM_ST_OK && text_of(read.values@, DCGM_FI_DEV_UUID) is Some
}

/// The devices that make samples.
pub open spec fn readable_devices(reads: Seq<DeviceRead>) -> Seq<DeviceRead> {
    reads.filter(|read: DeviceRead| readable(read))
}

/// Whether a sample is the one of a device.
pub open spec fn sample_of(read: DeviceRead, sample: GpuSample) -> bool {
    text_of(read.values@, DCGM_FI_DEV_UUID) == Some(sample.uuid@) && decoded(read.values@, sample)
}

/// The calls that read the listed devices, none where they could not be listed.
pub open spec fn reading_calls(
    handle: usize,
    list_status: i32,
    listed: Seq<u32>,
    count: i32,
) -> Seq<Call> {
    if list_status == DCGM_ST_OK {
        listed.take(device_count(listed.len(), count) as int).map_values(
            |device: u32| Call::ReadDevice { handle, device },
        )
    } else {
        seq![]
    }
}

impl Session {
    /// The calls that a sample begins with: the fields are updated, and the
    /// devices listed.
    pub fn listing(&self) -> (calls: Vec<Call>)
        ensures
            calls@ == seq![
                Call::UpdateFields { handle: self.handle },
                Call::ListDevices { handle: self.handle },
            ],
    {
        let calls: Vec<Call> = vec![
            Call::UpdateFields { handle: self.handle },
            Call::ListDevices { handle: self.handle },
        ];
        assert(calls@ =~= seq![
            Call::UpdateFields { handle: self.handle },
            Call::ListDevices { handle: self.handle },
        ]);
        calls
    }

    /// The calls that a sample goes on with, given the status of the call that
    /// listed the devices, and what it wrote: each device is read, in order.
    pub fn reading(&self, list_status: i32, listed: &[u32], count: i32) -> (calls: Vec<Call>)
        ensures
            calls@ == reading_calls(self.handle, list_status, listed@, count),
    {
        let mut calls: Vec<Call> = Vec::new();
        if list_status == DCGM_ST_OK {
            let handle: usize = self.handle;
            let devices = devices_to_read(listed, count);
            let mut i: usize = 0;
            while i < devices.len()
                invariant
                    i <= devices@.len(),
                    calls@ == devices@.take(i as int).map_values(
                        |device: u32| Call::ReadDevice { handle, device },
                    ),
                decreases devices@.len() - i,
            {
                calls.push(Call::ReadDevice { handle, device: devices[i] });
                assert(calls@ =~= devices@.take(i + 1).map_values(
                    |device: u32| Call::ReadDevice { handle, device },
                ));
                i += 1;
            }
            assert(devices@.take(i as int) =~= devices@);
        }
        calls
    }

    /// The samples of the devices, given the status of the call that listed them
    /// and what was read of each. Devices that could not be read, or have no
    /// UUID, are left out.
    pub fn sample(list_status: i32, reads: &[DeviceRead]) -> (envelope: Result<
        SampleEnvelope,
        String,
    >)
        ensures
            match envelope {
                Ok(envelope) => {
                    &&& list_status == DCGM_ST_OK
                    &&& envelope.gpus@.len() == readable_devices(reads@).len()
                    &&& forall|i: int|
                        0 <= i < envelope.gpus@.len() ==> sample_of(
                            readable_devices(reads@)[i],
                            #[trigger] envelope.gpus@[i],
                        )
                },
                Err(reason) => list_status != DCGM_ST_OK && reason@
                    == "dcgmGetAllDevices failed: "@ + signed_decimal(list_status as int),
            },
    {
        if list_status != DCGM_ST_OK {
            return Err(failed("dcgmGetAllDevices failed: ", list_status));
        }
        let mut gpus: Vec<GpuSample> = Vec::new();
        let mut i: usize = 0;
        proof {
            reveal(Seq::filter);
            assert(readable_devices(reads@.take(0)).len() == 0);
        }
        while i < reads.len()
            invariant
                i <= reads@.len(),
                gpus@.len() == readable_devices(reads@.take(i as int)).len(),
                forall|j: int|
                    0 <= j < gpus@.len() ==> sample_of(
                        readable_devices(reads@.take(i as int))[j],
                        #[trigger] gpus@[j],
                    ),
            decreases reads@.len() - i,
        {
            let read = &reads[i];
            proof {
                reveal(Seq::filter);
                assert(reads@.take(i + 1).drop_last() =~= reads@.take(i as int));
            }
            if read.status == DCGM_ST_OK {
                if let Some(sample) = decode_values(read.values.as_slice()) {
                    gpus.push(sample);
                }
            }
            i += 1;
        }
        assert(reads@.take(i as int) =~= reads@);
        Ok(SampleEnvelope { gpus })
    }
}

/// What a call can leave behind.
pub enum Resource {
    Library,
    Connection { handle: usize, embedded: bool },
    Group { handle: usize, group: usize },
    FieldGroup { handle: usize, field_group: usize },
}

/// What the call of a stage creates.
pub open spec fn creates(stage: Stage, reply: Reply) -> Seq<Resource> {
    if reply.status != DCGM_ST_OK {
        seq![]
    } else {
        match stage {
            Stage::Init => seq![Resource::Library],
            Stage::Connect => seq![
                Resource::Connection { handle: reply.value, embedded: false },
            ],
            Stage::StartEmbedded { .. } => seq![
                Resource::Connection { handle: reply.value, embedded: true },
            ],
            Stage::CreateGroup { handle, .. } => seq![
                Resource::Group { handle, group: reply.value },
            ],
            Stage::CreateFieldGroup { handle, .. } => seq![
                Resource::FieldGroup { handle, field_group: reply.value },
            ],
            _ => seq![],
        }
    }
}

/// What a session holds, oldest first.
pub open spec fn held_by(session: Session) -> Seq<Resource> {
    seq![
        Resource::Library,
        Resource::Connection { handle: session.handle, embedded: session.embedded },
        Resource::Group { handle: session.handle, group: session.group },
        Resource::FieldGroup { handle: session.handle, field_group: session.field_group },
    ]
}

/// What was created before a stage, oldest first.
pub open spec fn held_at(stage: Stage) -> Seq<Resource> {
    match stage {
        Stage::Init => seq![],
        Stage::Connect => seq![Resource::Library],
        Stage::StartEmbedded { .. } => seq![Resource::Library],
        Stage::CreateGroup { handle, embedded } => seq![
            Resource::Library,
            Resource::Connection { handle, embedded },
        ],
        Stage::CreateFieldGroup { handle, embedded, group } => seq![
            Resource::Library,
            Resource::Connection { handle, embedded },
            Resource::Group { handle, group },
        ],
        Stage::WatchFields { handle, embedded, group, field_group } => seq![
            Resource::Library,
            Resource::Connection { handle, embedded },
            Resource::Group { handle, group },
            Resource::FieldGroup { handle, field_group },
        ],
        Stage::Resume { session } => held_by(session),
        Stage::FirstUpdate { session } => held_by(session),
        Stage::Settle { session } => held_by(session),
        Stage::SecondUpdate { session } => held_by(session),
    }
}

/// What a call takes down.
pub open spec fn takes_down(call: Call) -> Option<Resource> {
    match call {
        Call::Shutdown => Some(Resource::Library),
        Call::Disconnect { handle } => Some(Resource::Connection { handle, embedded: false }),
        Call::StopEmbedded { handle } => Some(Resource::Connection { handle, embedded: true }),
        Call::DestroyGroup { handle, group } => Some(Resource::Group { handle, group }),
        Call::DestroyFieldGroup { handle, field_group } => Some(
            Resource::FieldGroup { handle, field_group },
        ),
        _ => None,
    }
}

/// Whether the calls take down exactly the resources, newest first.
pub open spec fn undoes(calls: Seq<Call>, held: Seq<Resource>) -> bool {
    &&& calls.len() == held.len()
    &&& forall|i: int|
        0 <= i < calls.len() ==> takes_down(#[trigger] calls[i]) == Some(
            held[held.len() - 1 - i],
        )
}

/// What is held grows by what each call creates, and by nothing else.
pub proof fn law_stages_account_for_what_is_held(stage: Stage, reply: Reply, can_resume: bool)
    ensures
        match following(stage, reply, can_resume) {
            Some(Ok(next)) => held_at(next) == held_at(stage) + creates(stage, reply),
            Some(Err(session)) => held_by(session) == held_at(stage),
            None => creates(stage, reply).len() == 0,
        },
{
    match following(stage, reply, can_resume) {
        Some(Ok(next)) => {
            assert(held_at(next) =~= held_at(stage) + creates(stage, reply));
        },
        Some(Err(session)) => {
            assert(held_by(session) =~= held_at(stage));
        },
        None => (),
    }
}

/// An opening that fails takes down everything that it had created, newest
/// first. A handle or a group of zero counts as none, so that one would stay.
pub proof fn law_failed_opening_leaves_nothing(stage: Stage, reply: Reply, can_resume: bool)
    requires
        following(stage, reply, can_resume) is None,
        stage matches Stage::CreateGroup { handle, .. } ==> handle != 0,
        stage matches Stage::CreateFieldGroup { handle, group, .. } ==> handle != 0 && group != 0,
    ensures
        undoes(cleanup_of(stage), held_at(stage)),
{
}

/// Closing a session takes down everything that it holds, newest first.
pub proof fn law_closing_leaves_nothing(session: Session)
    requires
        session.handle != 0,
        session.group != 0,
        session.field_group != 0,
    ensures
        undoes(
            teardown_calls(session.handle, session.embedded, session.group, session.field_group),
            held_by(session),
        ),
{
}

/// How many calls the opening makes at most from a stage on.
pub open spec fn calls_left(stage: Stage) -> nat {
    match stage {
        Stage::Init => 10,
        Stage::Connect => 9,
        Stage::StartEmbedded { .. } => 8,
        Stage::CreateGroup { .. } => 7,
        Stage::CreateFieldGroup { .. } => 6,
        Stage::WatchFields { .. } => 5,
        Stage::Resume { .. } => 4,
        Stage::FirstUpdate { .. } => 3,
        Stage::Settle { .. } => 2,
        Stage::SecondUpdate { .. } => 1,
    }
}

/// The opening of a session ends.
pub proof fn law_opening_ends(stage: Stage, reply: Reply, can_resume: bool)
    ensures
        following(stage, reply, can_resume) matches Some(Ok(next)) ==> calls_left(next)
            < calls_left(stage),
{
}

/// Each call goes to the function that was found under the name of the call; the
/// one that resumes the profiling is optional, and a pause calls nothing.
pub proof fn law_calls_reach_their_functions(
    fns: DcgmFns,
    found: Seq<Result<usize, String>>,
    prof_resume: Option<usize>,
    handle: usize,
    group: usize,
    field_group: usize,
    device: u32,
    millis: u64,
)
    requires
        fns.loaded_from(found, prof_resume),
    ensures
        required_names().len() == 14,
        found.len() == 14,
        required_names()[0] == "dcgmInit"@,
        fns.target(Call::Init) == Some(found[0]->Ok_0),
        required_names()[1] == "dcgmShutdown"@,
        fns.target(Call::Shutdown) == Some(found[1]->Ok_0),
        required_names()[2] == "dcgmConnect_v2"@,
        fns.target(Call::Connect) == Some(found[2]->Ok_0),
        required_names()[3] == "dcgmStartEmbedded"@,
        fns.target(Call::StartEmbedded) == Some(found[3]->Ok_0),
        required_names()[4] == "dcgmDisconnect"@,
        fns.target(Call::Disconnect { handle }) == Some(found[4]->Ok_0),
        required_names()[5] == "dcgmStopEmbedded"@,
        fns.target(Call::StopEmbedded { handle }) == Some(found[5]->Ok_0),
        required_names()[6] == "dcgmGetAllDevices"@,
        fns.target(Call::ListDevices { handle }) == Some(found[6]->Ok_0),
        required_names()[7] == "dcgmGroupCreate"@,
        fns.target(Call::CreateGroup { handle }) == Some(found[7]->Ok_0),
        required_names()[8] == "dcgmGroupDestroy"@,
        fns.target(Call::DestroyGroup { handle, group }) == Some(found[8]->Ok_0),
        required_names()[9] == "dcgmFieldGroupCreate"@,
        fns.target(Call::CreateFieldGroup { handle }) == Some(found[9]->Ok_0),
        required_names()[10] == "dcgmFieldGroupDestroy"@,
        fns.target(Call::DestroyFieldGroup { handle, field_group }) == Some(found[10]->Ok_0),
        required_names()[11] == "dcgmWatchFields"@,
        fns.target(Call::WatchFields { handle, group, field_group }) == Some(found[11]->Ok_0),
        required_names()[12] == "dcgmUpdateAllFields"@,
        fns.target(Call::UpdateFields { handle }) == Some(found[12]->Ok_0),
        required_names()[13] == "dcgmGetLatestValuesForFields"@,
        fns.target(Call::ReadDevice { handle, device }) == Some(found[13]->Ok_0),
        OPTIONAL_SYMBOL@ == "dcgmProfResume"@,
        fns.target(Call::ResumeProfiling { handle }) == prof_resume,
        fns.target(Call::Pause { millis }) is None,
{
}

/// The error is that of the first name that was not found, and there is none where
/// all were found.
pub proof fn law_first_missing_name_is_reported(found: Seq<Result<usize, String>>, i: int)
    requires
        0 <= i <= found.len(),
        forall|j: int| 0 <= j < i ==> (#[trigger] found[j]) is Ok,
        i < found.len() ==> found[i] is Err,
    ensures
        first_missing(found) == (if i < found.len() {
            Some(found[i]->Err_0)
        } else {
            None
        }),
    decreases found.len(),
{
    if i > 0 {
        let rest = found.drop_first();
        assert forall|j: int| 0 <= j < i - 1 implies (#[trigger] rest[j]) is Ok by {
            assert(found[j + 1] is Ok);
        }
        law_first_missing_name_is_reported(rest, i - 1);
    }
}

/// What the calls hand over: a connection to the local host engine waits three
/// seconds, an embedded engine updates by itself, the groups have their names, the
/// fields are updated ten times a second and kept for a minute, and there is room
/// for 32 devices.
pub proof fn law_arguments_by_call(arguments: Arguments, call: Call)
    requires
        belong_to(arguments, call),
    ensures
        call is Connect ==> (arguments matches Arguments::Connect { address, params } && address@
            == "127.0.0.1"@ && params.version == 2 && params.persist_after_disconnect == 0
            && params.timeout_millis == 3000 && params.address_is_unix_socket == 0),
        call is StartEmbedded ==> (arguments matches Arguments::StartEmbedded { mode } && mode
            == 1),
        call matches Call::CreateGroup { handle } ==> (arguments matches Arguments::CreateGroup {
            handle: given,
            kind,
            name,
        } && given == handle && kind == 0 && name@ == "all-smi-dcgm"@),
        call matches Call::CreateFieldGroup { handle } ==> (
        arguments matches Arguments::CreateFieldGroup { handle: given, fields, name } && given
            == handle && name@ == "all-smi-dcgm-fields"@ && fields@ == seq![
            54u16,
            1001,
            1002,
            1003,
            1004,
            1005,
            1006,
            1007,
            1008,
            1009,
            1010,
            1011,
            1012,
            112,
            394,
            393,
            396,
            395,
            230,
        ]),
        call matches Call::WatchFields { handle, group, field_group } ==> arguments == (
        Arguments::WatchFields {
            handle,
            group,
            field_group,
            update_micros: 100_000,
            keep_seconds: 60,
            keep_samples: 20,
        }),
        call matches Call::ResumeProfiling { handle } ==> arguments == (
        Arguments::ResumeProfiling { handle }),
        call matches Call::UpdateFields { handle } ==> arguments == (Arguments::UpdateFields {
            handle,
            wait: 1,
        }),
        call matches Call::ListDevices { handle } ==> arguments == (Arguments::ListDevices {
            handle,
            room: 32,
        }),
        call matches Call::ReadDevice { handle, device } ==> (
        arguments matches Arguments::ReadDevice {
            handle: given,
            device: asked,
            fields,
            value_version,
        } && given == handle && (device <= i32::MAX ==> asked == device) && fields@
            == watched_fields() && value_version == 1),
        call matches Call::Pause { millis } ==> arguments == (Arguments::Pause { millis }),
        call matches Call::DestroyFieldGroup { handle, field_group } ==> arguments == (
        Arguments::DestroyFieldGroup { handle, field_group }),
        call matches Call::DestroyGroup { handle, group } ==> arguments == (
        Arguments::DestroyGroup { handle, group }),
        call matches Call::StopEmbedded { handle } ==> arguments == (
        Arguments::StopEmbedded { handle }),
        call matches Call::Disconnect { handle } ==> arguments == (
        Arguments::Disconnect { handle }),
        call is Init <==> arguments is Init,
        call is Shutdown <==> arguments is Shutdown,
{
    assert(watched_fields() =~= seq![
        54u16,
        1001,
        1002,
        1003,
        1004,
        1005,
        1006,
        1007,
        1008,
        1009,
        1010,
        1011,
        1012,
        112,
        394,
        393,
        396,
        395,
        230,
    ]);
}

/// The opening goes from call to call with what the calls returned: a host engine
/// that cannot be reached is replaced by an embedded one, and whether the fields are
/// watched is noted. A status of zero is a success.
pub proof fn law_opening_goes_in_order(
    handle: usize,
    embedded: bool,
    group: usize,
    field_group: usize,
    connect_status: i32,
    reply: Reply,
    can_resume: bool,
)
    ensures
        Stage::Init.call_of() == Call::Init,
        following(Stage::Init, reply, can_resume) == (if reply.status == 0 {
            Some(Ok::<Stage, Session>(Stage::Connect))
        } else {
            None
        }),
        Stage::Connect.call_of() == Call::Connect,
        following(Stage::Connect, reply, can_resume) == Some(
            Ok::<Stage, Session>(
                if reply.status == 0 {
                    Stage::CreateGroup { handle: reply.value, embedded: false }
                } else {
                    Stage::StartEmbedded { connect_status: reply.status }
                },
            ),
        ),
        ({
            let stage = Stage::StartEmbedded { connect_status };
            &&& stage.call_of() == Call::StartEmbedded
            &&& following(stage, reply, can_resume) == (if reply.status == 0 {
                Some(
                    Ok::<Stage, Session>(
                        Stage::CreateGroup { handle: reply.value, embedded: true },
                    ),
                )
            } else {
                None
            })
        }),
        ({
            let stage = Stage::CreateGroup { handle, embedded };
            &&& stage.call_of() == (Call::CreateGroup { handle })
            &&& following(stage, reply, can_resume) == (if reply.status == 0 {
                Some(
                    Ok::<Stage, Session>(
                        Stage::CreateFieldGroup { handle, embedded, group: reply.value },
                    ),
                )
            } else {
                None
            })
        }),
        ({
            let stage = Stage::CreateFieldGroup { handle, embedded, group };
            &&& stage.call_of() == (Call::CreateFieldGroup { handle })
            &&& following(stage, reply, can_resume) == (if reply.status == 0 {
                Some(
                    Ok::<Stage, Session>(
                        Stage::WatchFields { handle, embedded, group, field_group: reply.value },
                    ),
                )
            } else {
                None
            })
        }),
        ({
            let stage = Stage::WatchFields { handle, embedded, group, field_group };
            let session = Session {
                handle,
                embedded,
                group,
                field_group,
                watched: reply.status == 0,
            };
            &&& stage.call_of() == (Call::WatchFields { handle, group, field_group })
            &&& following(stage, reply, can_resume) == Some(
                Ok::<Stage, Session>(
                    if can_resume {
                        Stage::Resume { session }
                    } else {
                        Stage::FirstUpdate { session }
                    },
                ),
            )
        }),
{
}

/// Whatever the last calls return, the profiling is resumed, the fields are updated,
/// the first window of 1.2 seconds passes, and after a second update the session is
/// open.
pub proof fn law_opening_settles(session: Session, reply: Reply, can_resume: bool)
    ensures
        (Stage::Resume { session }).call_of() == (Call::ResumeProfiling {
            handle: session.handle,
        }),
        following(Stage::Resume { session }, reply, can_resume) == Some(
            Ok::<Stage, Session>(Stage::FirstUpdate { session }),
        ),
        (Stage::FirstUpdate { session }).call_of() == (Call::UpdateFields {
            handle: session.handle,
        }),
        following(Stage::FirstUpdate { session }, reply, can_resume) == Some(
            Ok::<Stage, Session>(Stage::Settle { session }),
        ),
        (Stage::Settle { session }).call_of() == (Call::Pause { millis: 1200 }),
        following(Stage::Settle { session }, reply, can_resume) == Some(
            Ok::<Stage, Session>(Stage::SecondUpdate { session }),
        ),
        (Stage::SecondUpdate { session }).call_of() == (Call::UpdateFields {
            handle: session.handle,
        }),
        following(Stage::SecondUpdate { session }, reply, can_resume) == Some(
            Err::<Stage, Session>(session),
        ),
{
}

/// A failed opening names the call that failed, and its status.
pub proof fn law_failures_name_their_call(stage: Stage, status: i32)
    ensures
        stage is Init ==> failure(stage, status) == "dcgmInit failed: "@ + signed_decimal(
            status as int,
        ),
        stage matches Stage::StartEmbedded { connect_status } ==> failure(stage, status)
            == "dcgmConnect_v2("@ + signed_decimal(connect_status as int)
            + ") and dcgmStartEmbedded("@ + signed_decimal(status as int)
            + ") both failed (embedded often needs root / CAP_SYS_ADMIN)"@,
        stage is CreateGroup ==> failure(stage, status) == "dcgmGroupCreate failed: "@
            + signed_decimal(status as int),
        stage is CreateFieldGroup ==> failure(stage, status) == "dcgmFieldGroupCreate failed: "@
            + signed_decimal(status as int),
{
}

/// Closing takes down the field group before the group, and the group before the
/// connection; what is zero was never there, and is not taken down. The library is
/// shut down at the end in any case.
pub proof fn law_closing_goes_backwards(
    handle: usize,
    embedded: bool,
    group: usize,
    field_group: usize,
    call: Call,
)
    ensures
        ({
            let calls = teardown_calls(handle, embedded, group, field_group);
            let leave = if embedded {
                Call::StopEmbedded { handle }
            } else {
                Call::Disconnect { handle }
            };
            &&& calls.len() > 0 && calls.last() == Call::Shutdown
            &&& calls.contains(call) <==> (field_group != 0 && call == (Call::DestroyFieldGroup {
                handle,
                field_group,
            })) || (group != 0 && call == (Call::DestroyGroup { handle, group })) || (handle != 0
                && call == leave) || call == Call::Shutdown
            &&& field_group != 0 ==> calls[0] == (Call::DestroyFieldGroup { handle, field_group })
            &&& handle != 0 ==> calls.len() > 1 && calls[calls.len() - 2] == leave
            &&& calls.len() <= 4
        }),
{
    let calls = teardown_calls(handle, embedded, group, field_group);
    let leave = if embedded {
        Call::StopEmbedded { handle }
    } else {
        Call::Disconnect { handle }
    };
    let (a, b, c) = (
        one_call(field_group != 0, Call::DestroyFieldGroup { handle, field_group }),
        one_call(group != 0, Call::DestroyGroup { handle, group }),
        one_call(handle != 0, leave),
    );
    assert(calls =~= a + b + c + seq![Call::Shutdown]);
    let n = calls.len() as int;
    assert(calls[n - 1] == Call::Shutdown);
    if field_group != 0 {
        assert(calls[0] == a[0]);
    }
    if group != 0 {
        assert(calls[a.len() as int] == b[0]);
    }
    if handle != 0 {
        assert(calls[n - 2] == c[0]);
    }
    if calls.contains(call) {
        let i = choose|i: int| 0 <= i < n && calls[i] == call;
        if i < a.len() {
            assert(call == a[i]);
        } else if i < a.len() + b.len() {
            assert(call == b[i - a.len()]);
        } else if i < n - 1 {
            assert(call == c[i - a.len() - b.len()]);
        }
    }
}

/// The devices that are read are the listed ones, in order: as many as were counted,
/// at most as many as were listed, and none where the listing failed.
pub proof fn law_counted_devices_are_read(
    handle: usize,
    list_status: i32,
    listed: Seq<u32>,
    count: i32,
)
    ensures
        ({
            let calls = reading_calls(handle, list_status, listed, count);
            &&& list_status != 0 ==> calls.len() == 0
            &&& list_status == 0 && count <= 0 ==> calls.len() == 0
            &&& list_status == 0 && 0 <= count <= listed.len() ==> calls.len() == count
            &&& list_status == 0 && count > listed.len() ==> calls.len() == listed.len()
            &&& forall|i: int|
                0 <= i < calls.len() ==> #[trigger] calls[i] == (Call::ReadDevice {
                    handle,
                    device: listed[i],
                })
        }),
{
}

/// A device makes a sample exactly when reading it returned zero and its values name
/// its UUID; the samples come in the order of the devices.
pub proof fn law_unreadable_devices_are_left_out(reads: Seq<DeviceRead>, read: DeviceRead)
    ensures
        readable_devices(reads.push(read)) == (if read.status == 0 && text_of(
            read.values@,
            54,
        ) is Some {
            readable_devices(reads).push(read)
        } else {
            readable_devices(reads)
        }),
        readable_devices(Seq::<DeviceRead>::empty()).len() == 0,
{
    reveal(Seq::filter);
    assert(reads.push(read).drop_last() =~= reads);
}

/// The sample of a device has its UUID and is decoded from its values.
pub proof fn law_samples_are_of_their_devices(read: DeviceRead, sample: GpuSample)
    requires
        sample_of(read, sample),
    ensures
        text_of(read.values@, 54) == Some(sample.uuid@),
        decoded(read.values@, sample),
{
}

} // verus!
