//! The rules of the plugin loader and of the plugin.
use all_smi::dcgm::{
    backend_status, configured_candidates, created_session, default_candidates, load_candidate,
    parse_failure, read_buffer, reject_world_writable_path, session_step, validate_api,
    validate_api_header, validate_candidate, validate_metadata, wire_format_mismatch, AcceptedPath,
    Ancestor, Attempt, Backend, BufferUse, CanonicalPath, DcgmBackendStatus, LoadEvent, LoadStage,
    LoadStep, LoadedPlugin, PluginLoading, PluginMetadata, PluginSearch, SearchStep, SessionStep,
    ShownPath, DCGM_PLUGIN_ENV, DCGM_PLUGIN_FILENAME,
};
use all_smi::dcgm_plugin_api::{
    DcgmPluginApiV1, DcgmPluginBuffer, DCGM_PLUGIN_ABI_VERSION, DCGM_PLUGIN_ENTRY_SYMBOL,
    DCGM_PLUGIN_WIRE_FORMAT,
};
use all_smi::path_text::{directory, equal_paths, join};
use all_smi::plugin::{
    create_session, destroy_session, free_buffer, function_table, plugin_metadata, sample_json,
    write_json, Sampled, Written,
};
use std::path::{Path, PathBuf};

fn shown(path: &str) -> ShownPath {
    ShownPath { bytes: path.as_bytes().to_vec(), text: path.to_string() }
}

fn texts(paths: Vec<Vec<u8>>) -> Vec<String> {
    paths.into_iter().map(|p| String::from_utf8(p).unwrap()).collect()
}

fn table() -> DcgmPluginApiV1 {
    function_table(56, 1, 2, 3, 4, 5)
}

#[test]
fn constants_are_those_of_the_interface() {
    assert_eq!(DCGM_PLUGIN_ENV, "ALL_SMI_DCGM_PLUGIN");
    assert_eq!(DCGM_PLUGIN_FILENAME, "liball_smi_dcgm.so");
    assert_eq!(DCGM_PLUGIN_ABI_VERSION, 1);
    assert_eq!(DCGM_PLUGIN_ENTRY_SYMBOL, "all_smi_dcgm_plugin_entry_v1\0");
    assert_eq!(DCGM_PLUGIN_WIRE_FORMAT, "all-smi-dcgm-json-v1");
}

#[test]
fn default_candidates_surround_the_executable() {
    assert_eq!(
        texts(default_candidates(b"/opt/all-smi/bin/all-smi")),
        vec![
            "/opt/all-smi/bin/liball_smi_dcgm.so",
            "/opt/all-smi/bin/../lib/all-smi/liball_smi_dcgm.so",
            "/usr/local/lib/all-smi/liball_smi_dcgm.so",
            "/usr/lib/all-smi/liball_smi_dcgm.so",
        ]
    );
    assert_eq!(
        texts(default_candidates(b"/")),
        vec![
            "/usr/local/lib/all-smi/liball_smi_dcgm.so",
            "/usr/lib/all-smi/liball_smi_dcgm.so",
        ]
    );
}

#[test]
fn equal_candidates_are_tried_once() {
    for dir in ["/usr/lib/all-smi", "/usr/lib//all-smi/./"] {
        let candidates = texts(default_candidates(join_text(dir, "all-smi").as_bytes()));
        assert_eq!(candidates.len(), 3, "{dir}");
        let parent = PathBuf::from(join_text(dir, "all-smi")).parent().unwrap().to_path_buf();
        assert_eq!(candidates[0], parent.join("liball_smi_dcgm.so").to_str().unwrap());
        assert_eq!(candidates[2], "/usr/local/lib/all-smi/liball_smi_dcgm.so");
    }
}

fn join_text(dir: &str, name: &str) -> String {
    String::from_utf8(join(dir.as_bytes(), name)).unwrap()
}

#[test]
fn paths_join_and_compare_as_in_the_standard_library() {
    let paths = [
        "", ".", "/", "//", "a", "./a", "a/", "a/.", "a/./b", "a//b", "a/b", "/a/b", "/./a/b", "..",
        "../a", "/..", "a/../b", "./", "..a", ".a", "/.", "a/b/..", "/a", "//a", "///", "a/./b/", "./././a",
        "/a//b/.//", "a/.b", "././", "/usr/bin/all-smi", "a.", "/./.",
    ];
    for a in paths {
        assert_eq!(PathBuf::from(join_text(a, "x.so")), Path::new(a).join("x.so"), "{a}");
        assert_eq!(
            directory(a.as_bytes()).map(|dir| String::from_utf8(dir).unwrap()).as_deref(),
            Path::new(a).parent().map(|dir| dir.to_str().unwrap()),
            "{a}"
        );
        for b in paths {
            assert_eq!(
                equal_paths(a.as_bytes(), b.as_bytes()),
                Path::new(a) == Path::new(b),
                "{a:?} {b:?}"
            );
        }
    }
}

#[test]
fn override_is_the_only_candidate() {
    let path = shown("/opt/plugin.so");
    assert_eq!(
        configured_candidates(Some(&path), Err("unused")).map(texts),
        Ok(vec!["/opt/plugin.so".to_string()])
    );
    assert_eq!(
        configured_candidates(Some(&shown("")), Ok(b"/bin/x")),
        Err("ALL_SMI_DCGM_PLUGIN is set but empty".to_string())
    );
    assert_eq!(
        configured_candidates(Some(&shown("lib/plugin.so")), Ok(b"/bin/x")),
        Err("ALL_SMI_DCGM_PLUGIN must be an absolute path, got lib/plugin.so".to_string())
    );
}

#[test]
fn candidates_need_the_executable() {
    assert_eq!(
        configured_candidates(None, Err("gone")),
        Err("cannot resolve the current executable for DCGM plugin lookup: gone".to_string())
    );
    assert_eq!(
        configured_candidates(None, Ok(b"/bin/x")).map(texts).unwrap()[0],
        "/bin/liball_smi_dcgm.so"
    );
    assert_eq!(configured_candidates(None, Ok(b"")).unwrap().len(), 2);
}

fn ancestor(text: &str, mode: u32) -> Ancestor {
    Ancestor { text: text.to_string(), mode: Ok(mode) }
}

#[test]
fn world_writable_paths_are_rejected() {
    let fine = vec![ancestor("/lib/p.so", 0o100755), ancestor("/lib", 0o40775), ancestor("/", 0o40755)];
    assert_eq!(reject_world_writable_path("/lib/p.so", &fine), Ok(()));
    assert_eq!(reject_world_writable_path("/lib/p.so", &[]), Ok(()));
    let mut open = fine;
    open[1] = ancestor("/lib", 0o41777);
    assert_eq!(
        reject_world_writable_path("/lib/p.so", &open),
        Err("/lib/p.so: refusing DCGM plugin because /lib is world-writable".to_string())
    );
    open[0] = Ancestor { text: "/lib/p.so".to_string(), mode: Err("denied".to_string()) };
    assert_eq!(
        reject_world_writable_path("/lib/p.so", &open),
        Err("/lib/p.so: cannot inspect permissions: denied".to_string())
    );
}

fn canonical(is_file: bool, mode: u32) -> Result<CanonicalPath, String> {
    Ok(CanonicalPath {
        path: shown("/real/p.so"),
        is_file,
        ancestors: vec![ancestor("/real/p.so", mode)],
    })
}

fn accepted() -> AcceptedPath {
    validate_candidate(&shown("/l/p.so"), canonical(true, 0o644)).unwrap()
}

#[test]
fn candidates_are_validated_in_order() {
    assert_eq!(accepted().shown(), &shown("/real/p.so"));
    let refused = |candidate: &str, found: Result<CanonicalPath, String>| {
        validate_candidate(&shown(candidate), found).err()
    };
    assert_eq!(
        refused("l/p.so", canonical(true, 0o644)),
        Some("l/p.so: plugin path is not absolute".to_string())
    );
    assert_eq!(
        refused("/l/p.so", Err("loop".to_string())),
        Some("/l/p.so: cannot canonicalize plugin path: loop".to_string())
    );
    assert_eq!(
        refused("/l/p.so", canonical(false, 0o646)),
        Some("/real/p.so: plugin path is not a regular file".to_string())
    );
    assert_eq!(
        refused("/l/p.so", canonical(true, 0o646)),
        Some("/real/p.so: refusing DCGM plugin because /real/p.so is world-writable".to_string())
    );
}

#[test]
fn search_takes_the_first_plugin_that_loads() {
    let mut search = PluginSearch::new(3);
    assert_eq!(search.step(), SearchStep::Try(0));
    search.record(Attempt::NotFound { candidate: "/a".to_string() });
    assert_eq!(search.step(), SearchStep::Try(1));
    search.record(Attempt::Loaded);
    assert_eq!(search.step(), SearchStep::Done(1));
}

#[test]
fn search_reports_every_failure() {
    let mut search = PluginSearch::new(3);
    search.record(Attempt::NotFound { candidate: "/a".to_string() });
    search.record(Attempt::Refused { reason: "/b: plugin path is not absolute".to_string() });
    search.record(Attempt::Failed {
        path: "/c".to_string(),
        error: "dlopen failed: bad".to_string(),
    });
    assert_eq!(
        search.step(),
        SearchStep::GiveUp(
            "DCGM plugin unavailable; /a: not found; /b: plugin path is not absolute; \
             /c: dlopen failed: bad. Install liball_smi_dcgm.so beside the executable or in \
             /usr/lib/all-smi, or set ALL_SMI_DCGM_PLUGIN to a safe absolute path"
                .to_string()
        )
    );
    assert_eq!(
        PluginSearch::new(0).step(),
        SearchStep::GiveUp(
            "DCGM plugin unavailable; . Install liball_smi_dcgm.so beside the executable or in \
             /usr/lib/all-smi, or set ALL_SMI_DCGM_PLUGIN to a safe absolute path"
                .to_string()
        )
    );
}

#[test]
fn table_headers_are_validated() {
    assert_eq!(validate_api_header(1, 56, 56), Ok(()));
    assert_eq!(validate_api_header(1, 64, 56), Ok(()));
    assert_eq!(
        validate_api_header(2, 8, 56),
        Err("unsupported DCGM plugin ABI version 2 (want 1)".to_string())
    );
    assert_eq!(
        validate_api_header(1, 48, 56),
        Err("DCGM plugin table too small (48 < 56)".to_string())
    );
}

#[test]
fn tables_need_all_functions() {
    assert_eq!(validate_api(&table()), Ok(()));
    let missing =
        "DCGM plugin table is missing one or more required function pointers".to_string();
    for field in 0..5 {
        let mut api = table();
        match field {
            0 => api.create_session = None,
            1 => api.destroy_session = None,
            2 => api.sample_json = None,
            3 => api.read_metadata_json = None,
            _ => api.free_buffer = None,
        }
        assert_eq!(validate_api(&api), Err(missing.clone()));
    }
}

#[test]
fn metadata_need_the_wire_format() {
    assert_eq!(validate_metadata(&plugin_metadata("0.26.3")), Ok(()));
    let other = PluginMetadata {
        plugin_version: "1".to_string(),
        wire_format: "say \"hi\"\n".to_string(),
    };
    assert_eq!(
        validate_metadata(&other),
        Err(
            "unexpected DCGM wire format \"say \\\"hi\\\"\\n\" (want all-smi-dcgm-json-v1)"
                .to_string()
        )
    );
    assert_eq!(
        wire_format_mismatch("\"x\""),
        "unexpected DCGM wire format \"x\" (want all-smi-dcgm-json-v1)"
    );
}

fn next(loading: PluginLoading, event: LoadEvent) -> PluginLoading {
    match load_candidate(loading, event).unwrap() {
        LoadStep::Next(next) => next,
        LoadStep::Kept(_) => panic!("kept too early"),
    }
}

fn entered() -> PluginLoading {
    next(PluginLoading::new(accepted()), LoadEvent::Opened)
}

fn header(abi_version: u32) -> LoadEvent {
    LoadEvent::Header { abi_version, struct_size: 64, table_size: 56 }
}

fn complete() -> PluginLoading {
    next(next(entered(), header(1)), LoadEvent::Table { api: table() })
}

fn plugin(version: &str) -> LoadedPlugin {
    let event = LoadEvent::Metadata { metadata: plugin_metadata(version) };
    match load_candidate(complete(), event).unwrap() {
        LoadStep::Kept(plugin) => plugin,
        LoadStep::Next(_) => panic!("not kept"),
    }
}

#[test]
fn loading_goes_step_by_step() {
    assert_eq!(PluginLoading::new(accepted()).progress(), LoadStage::Open);
    assert_eq!(entered().progress(), LoadStage::CallEntry);
    assert_eq!(
        next(entered(), header(1)).progress(),
        LoadStage::ReadTable { abi_version: 1, struct_size: 64 }
    );
    let mut api = table();
    api.struct_size = 64;
    assert_eq!(complete().progress(), LoadStage::ReadMetadata { api });
    assert_eq!(plugin("1").path(), &shown("/real/p.so"));
    assert_eq!(plugin("1").table(), api);
}

#[test]
fn loading_says_what_stops_it() {
    let stopped = |loading: PluginLoading, event: LoadEvent| load_candidate(loading, event).err();
    assert_eq!(
        stopped(
            PluginLoading::new(accepted()),
            LoadEvent::NotOpened { error: "bad".to_string() }
        ),
        Some("dlopen failed: bad".to_string())
    );
    assert_eq!(
        stopped(entered(), LoadEvent::NoEntry { error: "bad".to_string() }),
        Some("missing v1 entry point: bad".to_string())
    );
    assert_eq!(
        stopped(entered(), LoadEvent::NullTable),
        Some("v1 entry point returned a null function table".to_string())
    );
    assert_eq!(
        stopped(entered(), header(3)),
        Some("unsupported DCGM plugin ABI version 3 (want 1)".to_string())
    );
    let mut broken = table();
    broken.sample_json = None;
    assert_eq!(
        stopped(next(entered(), header(1)), LoadEvent::Table { api: broken }),
        Some("DCGM plugin table is missing one or more required function pointers".to_string())
    );
    assert_eq!(
        stopped(complete(), LoadEvent::NoMetadata { error: "bad".to_string() }),
        Some("bad".to_string())
    );
    let other = PluginMetadata { plugin_version: "1".to_string(), wire_format: "x".to_string() };
    assert_eq!(
        stopped(complete(), LoadEvent::Metadata { metadata: other }),
        Some("unexpected DCGM wire format \"x\" (want all-smi-dcgm-json-v1)".to_string())
    );
}

#[test]
fn table_keeps_the_header_that_was_accepted() {
    let mut api = table();
    api.abi_version = 9;
    api.struct_size = 1;
    let loading = next(next(entered(), header(1)), LoadEvent::Table { api });
    let event = LoadEvent::Metadata { metadata: plugin_metadata("1") };
    match load_candidate(loading, event).unwrap() {
        LoadStep::Kept(plugin) => {
            assert_eq!(plugin.table().abi_version, 1);
            assert_eq!(plugin.table().struct_size, 64);
        }
        LoadStep::Next(_) => panic!("not kept"),
    }
}

#[test]
fn status_tells_what_was_loaded() {
    assert_eq!(
        backend_status(&Ok(plugin("0.26.3"))),
        DcgmBackendStatus::Loaded {
            path: shown("/real/p.so"),
            abi_version: 1,
            plugin_version: "0.26.3".to_string(),
        }
    );
}

#[test]
fn first_attempt_to_load_is_final() {
    let mut backend = Backend::new();
    assert!(backend.plugin().is_none());
    backend.settle(Err("gone".to_string()));
    let before = backend_status(backend.plugin().unwrap());
    backend.settle(Ok(plugin("1")));
    assert_eq!(backend_status(backend.plugin().unwrap()), before);
    let mut backend = Backend::new();
    backend.settle(Ok(plugin("1")));
    backend.settle(Ok(plugin("2")));
    assert!(matches!(
        backend_status(backend.plugin().unwrap()),
        DcgmBackendStatus::Loaded { plugin_version, .. } if plugin_version == "1"
    ));
}

#[test]
fn buffers_are_read_or_freed() {
    let full = DcgmPluginBuffer { ptr: 8, len: 2, capacity: 4 };
    assert_eq!(read_buffer(0, &full), BufferUse::ParseAndFree);
    assert_eq!(
        read_buffer(-2, &full),
        BufferUse::FreeAndFail("DCGM plugin buffer call failed with status -2".to_string())
    );
    let empty = BufferUse::FreeAndFail("DCGM plugin returned an empty buffer".to_string());
    assert_eq!(read_buffer(0, &DcgmPluginBuffer::default()), empty);
    assert_eq!(read_buffer(0, &DcgmPluginBuffer { ptr: 8, len: 0, capacity: 4 }), empty);
    assert_eq!(parse_failure("EOF"), "DCGM JSON parse: EOF");
}

#[test]
fn sessions_are_created_once() {
    let api = table();
    assert_eq!(session_step(0, &api), SessionStep::Create(1));
    assert_eq!(session_step(77, &api), SessionStep::Use(77));
    let mut broken = api;
    broken.create_session = None;
    assert_eq!(
        session_step(0, &broken),
        SessionStep::Fail("dcgm create_session missing".to_string())
    );
    assert_eq!(session_step(77, &broken), SessionStep::Use(77));
    assert_eq!(created_session(5), Ok(5));
    assert_eq!(created_session(0), Err("dcgm create_session returned null".to_string()));
}

#[test]
fn plugin_statuses_tell_what_went_wrong() {
    let full = DcgmPluginBuffer { ptr: 8, len: 2, capacity: 4 };
    assert_eq!(write_json(1, Some(full)), Written { status: 0, buffer: Some(full) });
    assert_eq!(write_json(0, Some(full)), Written { status: -1, buffer: None });
    assert_eq!(write_json(1, None), Written { status: -2, buffer: None });
    let taken = Sampled::Taken { serialized: Some(full) };
    assert_eq!(sample_json(1, 1, taken), Written { status: 0, buffer: Some(full) });
    assert_eq!(sample_json(0, 1, taken), Written { status: -1, buffer: None });
    assert_eq!(sample_json(1, 0, taken), Written { status: -1, buffer: None });
    assert_eq!(
        sample_json(1, 1, Sampled::Taken { serialized: None }),
        Written { status: -2, buffer: None }
    );
    assert_eq!(sample_json(1, 1, Sampled::Failed), Written { status: -2, buffer: None });
    assert_eq!(sample_json(1, 1, Sampled::Panicked), Written { status: -2, buffer: None });
}

#[test]
fn loader_understands_the_plugin() {
    let full = DcgmPluginBuffer { ptr: 8, len: 2, capacity: 4 };
    let written = write_json(1, Some(full));
    assert_eq!(read_buffer(written.status, &written.buffer.unwrap()), BufferUse::ParseAndFree);
    for failed in [write_json(0, Some(full)), write_json(1, None)] {
        let buffer = failed.buffer.unwrap_or_default();
        assert!(matches!(read_buffer(failed.status, &buffer), BufferUse::FreeAndFail(_)));
    }
    let api = table();
    assert_eq!(validate_api_header(api.abi_version, api.struct_size, 56), Ok(()));
}

#[test]
fn plugin_handles_null_sessions() {
    assert_eq!(create_session(Some(9)), 9);
    assert_eq!(create_session(None), 0);
    assert_eq!(destroy_session(9), Some(9));
    assert_eq!(destroy_session(0), None);
}

#[test]
fn buffers_are_freed_once() {
    let full = DcgmPluginBuffer { ptr: 8, len: 2, capacity: 4 };
    let mut buffer = full;
    assert_eq!(free_buffer(&mut buffer), Some(full));
    assert_eq!(buffer, DcgmPluginBuffer::default());
    assert_eq!(free_buffer(&mut buffer), None);
    let mut unowned = DcgmPluginBuffer { ptr: 8, len: 0, capacity: 0 };
    assert_eq!(free_buffer(&mut unowned), None);
    assert_eq!(unowned, DcgmPluginBuffer::default());
}
