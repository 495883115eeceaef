//! DCGM field values and the life of a session.
use all_smi::bindings::{
    make_dcgm_version, DCGM_FI_DEV_CLOCK_THROTTLE_REASONS, DCGM_FI_DEV_ROW_REMAP_CORRECTABLE_TOTAL,
    DCGM_FI_DEV_ROW_REMAP_FAILED, DCGM_FI_DEV_ROW_REMAP_PENDING,
    DCGM_FI_DEV_ROW_REMAP_UNCORRECTABLE_TOTAL, DCGM_FI_DEV_UUID, DCGM_FI_DEV_XID_ERRORS,
    DCGM_FI_PROF_DRAM_ACTIVE, DCGM_FI_PROF_GR_ENGINE_ACTIVE, DCGM_FI_PROF_NVLINK_RX_BYTES,
    DCGM_FI_PROF_PCIE_TX_BYTES, DCGM_FI_PROF_PIPE_FP16_ACTIVE, DCGM_FP64_BLANK_BITS,
    DCGM_INT64_BLANK,
};
use all_smi::dcgm_values::{
    decode_values, field_ids, read_f64, read_i64, read_ratio, read_string, throttle_from_bits,
    usable_text, FieldValue, Number,
};
use all_smi::nvidia_extras::collect_throttle_reasons;
use all_smi::session::{
    devices_to_read, required_symbols, Arguments, Call, ConnectParams, DcgmFns, DeviceRead, Opening,
    Reply, Session, Stage, LIBRARY_NAME,
};
use all_smi::types::RemappedRowsInfo;

fn float(field_id: u16, value: f64) -> FieldValue {
    FieldValue {
        field_id,
        field_type: b'd' as u16,
        status: 0,
        word: value.to_bits(),
        bytes: Vec::new(),
    }
}

fn integer(field_id: u16, value: i64) -> FieldValue {
    FieldValue {
        field_id,
        field_type: b'i' as u16,
        status: 0,
        word: value as u64,
        bytes: Vec::new(),
    }
}

fn text(field_id: u16, bytes: &[u8]) -> FieldValue {
    FieldValue {
        field_id,
        field_type: b's' as u16,
        status: 0,
        word: 0,
        bytes: bytes.to_vec(),
    }
}

fn bits(value: f64) -> Number {
    Number::Double(value.to_bits())
}

#[test]
fn version_words_hold_size_and_number() {
    assert_eq!(make_dcgm_version::<u32>(2), 0x0200_0004);
    assert_eq!(make_dcgm_version::<[u8; 4120]>(1), 0x0100_1018);
}

#[test]
fn blanks_and_odd_numbers_are_no_values() {
    assert_eq!(DCGM_FP64_BLANK_BITS, 140_737_488_355_328.0f64.to_bits());
    assert_eq!(read_f64(&float(1, 0.5)), Some(bits(0.5)));
    assert_eq!(read_f64(&float(1, 140_737_488_355_328.0)), None);
    assert_eq!(read_f64(&float(1, f64::NAN)), None);
    assert_eq!(read_f64(&float(1, f64::INFINITY)), None);
    assert_eq!(read_f64(&integer(1, -5)), Some(Number::Int(-5)));
    assert_eq!(read_f64(&integer(1, DCGM_INT64_BLANK as i64)), None);
    assert_eq!(read_i64(&integer(1, DCGM_INT64_BLANK as i64)), None);
    assert_eq!(read_i64(&float(1, 140_737_488_355_328.0)), None);
    assert_eq!(read_f64(&text(1, b"5")), None);
    let mut wide = float(1, 0.25);
    wide.field_type = 0x100 + b'd' as u16;
    assert_eq!(read_f64(&wide), Some(bits(0.25)));
}

#[test]
fn numbers_lose_their_fraction_as_integers() {
    for value in [0.0, -0.0, 0.9, -0.9, 1.5, -1.5, 1e15 + 0.5, -3e9, 9.3e18, -9.3e18, 1e300, -1e300] {
        assert_eq!(read_i64(&float(1, value)), Some(value as i64), "{value}");
    }
    assert_eq!(read_i64(&float(1, f64::NAN)), None);
    assert_eq!(read_i64(&integer(1, i64::MIN)), Some(i64::MIN));
}

#[test]
fn ratios_are_clamped() {
    for value in [0.0, -0.0, 0.5, 1.0, 1.0000001, -1e-300, -7.0, 5e-324, 1e300] {
        let clamped: f64 = f64::clamp(value, 0.0, 1.0);
        assert_eq!(read_ratio(&float(1, value)), Some(bits(clamped)), "{value}");
    }
    assert_eq!(read_ratio(&integer(1, -3)), Some(Number::Int(0)));
    assert_eq!(read_ratio(&integer(1, 1)), Some(Number::Int(1)));
    assert_eq!(read_ratio(&integer(1, 40)), Some(Number::Int(1)));
    assert_eq!(read_ratio(&float(1, f64::NAN)), None);
}

#[test]
fn texts_end_at_nul_and_mean_something() {
    assert_eq!(read_string(&text(54, b"GPU-1\0junk")), Some("GPU-1".to_string()));
    assert_eq!(read_string(&text(54, b"GPU-1")), Some("GPU-1".to_string()));
    assert_eq!(read_string(&text(54, "größe\0".as_bytes())), Some("größe".to_string()));
    assert_eq!(read_string(&text(54, b"a\xFFb\0")), Some("a\u{FFFD}b".to_string()));
    assert_eq!(read_string(&text(54, b"\0GPU")), None);
    assert_eq!(read_string(&text(54, b"")), None);
    assert_eq!(read_string(&text(54, b"<<<NULL>>>\0")), None);
    assert_eq!(read_string(&integer(54, 3)), None);
    assert_eq!(usable_text("NUL".to_string()), Some("NUL".to_string()));
    assert_eq!(usable_text("NULL".to_string()), None);
    assert_eq!(usable_text("xNULNULLx".to_string()), None);
    assert_eq!(usable_text("null".to_string()), Some("null".to_string()));
    assert_eq!(usable_text(String::new()), None);
}

#[test]
fn throttle_masks_agree_with_nvml() {
    for mask in [0u64, 1, 2, 4, 8, 0x10, 0x20, 0x40, 0x80, 0x100, 0x1FF, 0xFE00, u64::MAX] {
        assert_eq!(Some(throttle_from_bits(mask)), collect_throttle_reasons(Some(mask)));
    }
    assert_eq!(throttle_from_bits(0x44).active_labels(), vec!["sw_power_cap", "hw_thermal"]);
}

#[test]
fn values_make_a_sample() {
    let values = vec![
        text(DCGM_FI_DEV_UUID, b"GPU-1\0"),
        float(DCGM_FI_PROF_GR_ENGINE_ACTIVE, 1.25),
        float(DCGM_FI_PROF_DRAM_ACTIVE, 0.5),
        float(DCGM_FI_PROF_PIPE_FP16_ACTIVE, f64::NAN),
        integer(DCGM_FI_PROF_PCIE_TX_BYTES, 12),
        float(DCGM_FI_PROF_NVLINK_RX_BYTES, 2.5e9),
        integer(DCGM_FI_DEV_CLOCK_THROTTLE_REASONS, 4),
        integer(DCGM_FI_DEV_ROW_REMAP_CORRECTABLE_TOTAL, 0x1_0000_0002),
        integer(DCGM_FI_DEV_ROW_REMAP_UNCORRECTABLE_TOTAL, -1),
        integer(DCGM_FI_DEV_ROW_REMAP_PENDING, 2),
        integer(DCGM_FI_DEV_XID_ERRORS, 79),
        integer(DCGM_FI_DEV_XID_ERRORS, 0),
        integer(DCGM_FI_DEV_XID_ERRORS, 79),
        integer(DCGM_FI_DEV_XID_ERRORS, -3),
        integer(7777, 1),
    ];
    let sample = decode_values(&values).unwrap();
    assert_eq!(sample.uuid, "GPU-1");
    assert_eq!(sample.graphics_active, Some(bits(1.0)));
    assert_eq!(sample.memory_bandwidth_utilization, Some(bits(0.5)));
    assert_eq!(sample.fp16_active, None);
    assert_eq!(sample.sm_active, None);
    assert_eq!(sample.pcie_tx_bytes_per_sec, Some(Number::Int(12)));
    assert_eq!(sample.nvlink_rx_bytes_per_sec, Some(bits(2.5e9)));
    assert_eq!(sample.throttle_reasons.unwrap().active_labels(), vec!["sw_power_cap"]);
    assert_eq!(
        sample.remapped_rows,
        Some(RemappedRowsInfo { correctable: 2, uncorrectable: 0, pending: true, failed: false })
    );
    assert_eq!(sample.xid_event_counts.len(), 1);
    assert_eq!(sample.xid_event_counts.get(&79), Some(&2));
}

#[test]
fn failed_values_do_not_count() {
    let mut failed = float(DCGM_FI_PROF_GR_ENGINE_ACTIVE, 0.75);
    failed.status = -9;
    let mut failed_uuid = text(DCGM_FI_DEV_UUID, b"GPU-2\0");
    failed_uuid.status = 1;
    let mut values = vec![
        float(DCGM_FI_PROF_GR_ENGINE_ACTIVE, 0.25),
        failed,
        text(DCGM_FI_DEV_UUID, b"GPU-1\0"),
        text(DCGM_FI_DEV_UUID, b"NULL\0"),
        failed_uuid,
        integer(DCGM_FI_DEV_ROW_REMAP_FAILED, DCGM_INT64_BLANK as i64),
        integer(DCGM_FI_DEV_CLOCK_THROTTLE_REASONS, DCGM_INT64_BLANK as i64),
    ];
    let sample = decode_values(&values).unwrap();
    assert_eq!(sample.uuid, "GPU-1");
    assert_eq!(sample.graphics_active, Some(bits(0.25)));
    assert_eq!(sample.remapped_rows, None);
    assert_eq!(sample.throttle_reasons, None);
    values.push(float(DCGM_FI_PROF_GR_ENGINE_ACTIVE, f64::NAN));
    assert_eq!(decode_values(&values).unwrap().graphics_active, None);
}

#[test]
fn samples_need_a_uuid() {
    assert!(decode_values(&[]).is_none());
    assert!(decode_values(&[float(DCGM_FI_PROF_GR_ENGINE_ACTIVE, 0.5)]).is_none());
    assert!(decode_values(&[text(DCGM_FI_DEV_UUID, b"\0")]).is_none());
}

#[test]
fn fields_are_watched_in_order() {
    assert_eq!(
        field_ids(),
        vec![
            54, 1001, 1002, 1003, 1004, 1005, 1006, 1007, 1008, 1009, 1010, 1011, 1012, 112, 394,
            393, 396, 395, 230,
        ]
    );
}

#[test]
fn library_is_looked_up_under_two_names() {
    assert_eq!(LIBRARY_NAME, "libdcgm.so.4");
    assert_eq!(DcgmFns::open_failed("libdcgm.so.4", "no"), Ok("libdcgm.so"));
    assert_eq!(
        DcgmFns::open_failed("libdcgm.so", "no"),
        Err("dlopen libdcgm: no".to_string())
    );
}

#[test]
fn functions_are_resolved_in_order() {
    let names = required_symbols();
    assert_eq!(names.len(), 14);
    let mut found: Vec<Result<usize, String>> = (0..14).map(|i| Ok(100 + i)).collect();
    let fns = DcgmFns::load(&found, Some(7)).unwrap();
    assert_eq!(fns.init, 100);
    assert_eq!(fns.get_all_devices, 106);
    assert_eq!(names[6], "dcgmGetAllDevices");
    assert_eq!(fns.get_latest, 113);
    assert_eq!(fns.prof_resume, Some(7));
    found[9] = Err("no dcgmFieldGroupCreate".to_string());
    found[12] = Err("no dcgmUpdateAllFields".to_string());
    assert_eq!(DcgmFns::load(&found, None), Err("no dcgmFieldGroupCreate".to_string()));
}

fn reply(status: i32, value: usize) -> Reply {
    Reply { status, value }
}

/// Opens a session with the given replies, and returns the calls with the end.
fn open_with(replies: &[Reply], can_resume: bool) -> (Vec<Call>, Opening) {
    let mut calls = Vec::new();
    let mut stage = Stage::Init;
    for reply in replies {
        calls.push(stage.call());
        match Session::open(stage, *reply, can_resume) {
            Opening::Next(next) => stage = next,
            end => return (calls, end),
        }
    }
    panic!("the opening did not end");
}

#[test]
fn session_opens_on_the_host_engine() {
    let ok = reply(0, 0);
    let (calls, end) = open_with(
        &[ok, reply(0, 11), reply(0, 22), reply(0, 33), ok, ok, ok, ok, ok],
        true,
    );
    assert_eq!(
        calls,
        vec![
            Call::Init,
            Call::Connect,
            Call::CreateGroup { handle: 11 },
            Call::CreateFieldGroup { handle: 11 },
            Call::WatchFields { handle: 11, group: 22, field_group: 33 },
            Call::ResumeProfiling { handle: 11 },
            Call::UpdateFields { handle: 11 },
            Call::Pause { millis: 1200 },
            Call::UpdateFields { handle: 11 },
        ]
    );
    let session =
        Session { handle: 11, embedded: false, group: 22, field_group: 33, watched: true };
    assert_eq!(end, Opening::Open(session));
    assert_eq!(
        session.close(),
        vec![
            Call::DestroyFieldGroup { handle: 11, field_group: 33 },
            Call::DestroyGroup { handle: 11, group: 22 },
            Call::Disconnect { handle: 11 },
            Call::Shutdown,
        ]
    );
}

#[test]
fn session_falls_back_to_an_embedded_engine() {
    let ok = reply(0, 0);
    let (calls, end) = open_with(
        &[ok, reply(-37, 0), reply(0, 5), reply(0, 6), reply(0, 7), reply(-1, 0), ok, ok, ok],
        false,
    );
    assert_eq!(calls[2], Call::StartEmbedded);
    assert_eq!(calls.len(), 9);
    assert!(!calls.contains(&Call::ResumeProfiling { handle: 5 }));
    let session = Session { handle: 5, embedded: true, group: 6, field_group: 7, watched: false };
    assert_eq!(end, Opening::Open(session));
    assert!(session.close().contains(&Call::StopEmbedded { handle: 5 }));
}

#[test]
fn failed_openings_clean_up() {
    let ok = reply(0, 0);
    let failed = |cleanup: Vec<Call>, reason: &str| Opening::Failed {
        cleanup,
        reason: reason.to_string(),
    };
    assert_eq!(open_with(&[reply(-3, 0)], true).1, failed(vec![], "dcgmInit failed: -3"));
    assert_eq!(
        open_with(&[ok, reply(-37, 0), reply(-14, 0)], true).1,
        failed(
            vec![Call::Shutdown],
            "dcgmConnect_v2(-37) and dcgmStartEmbedded(-14) both failed \
             (embedded often needs root / CAP_SYS_ADMIN)"
        )
    );
    assert_eq!(
        open_with(&[ok, reply(0, 11), reply(2, 0)], true).1,
        failed(
            vec![Call::Disconnect { handle: 11 }, Call::Shutdown],
            "dcgmGroupCreate failed: 2"
        )
    );
    assert_eq!(
        open_with(&[ok, reply(1, 0), reply(0, 11), reply(0, 22), reply(-5, 0)], true).1,
        failed(
            vec![
                Call::DestroyGroup { handle: 11, group: 22 },
                Call::StopEmbedded { handle: 11 },
                Call::Shutdown,
            ],
            "dcgmFieldGroupCreate failed: -5"
        )
    );
    assert_eq!(Session::teardown(0, false, 0, 0), vec![Call::Shutdown]);
}

#[test]
fn counted_devices_are_read() {
    let listed = [9u32, 8, 7, 0];
    assert_eq!(devices_to_read(&listed, 3), vec![9, 8, 7]);
    assert_eq!(devices_to_read(&listed, 0), Vec::<u32>::new());
    assert_eq!(devices_to_read(&listed, -1), Vec::<u32>::new());
    assert_eq!(devices_to_read(&listed, 100), vec![9, 8, 7, 0]);
}

#[test]
fn readable_devices_are_sampled() {
    let read = |status: i32, uuid: &[u8]| DeviceRead {
        status,
        values: vec![text(DCGM_FI_DEV_UUID, uuid)],
    };
    let envelope = Session::sample(
        0,
        &[read(0, b"GPU-1\0"), read(-1, b"GPU-2\0"), read(0, b"\0"), read(0, b"GPU-4\0")],
    )
    .unwrap();
    let uuids: Vec<&str> = envelope.gpus.iter().map(|g| g.uuid.as_str()).collect();
    assert_eq!(uuids, vec!["GPU-1", "GPU-4"]);
    match Session::sample(-21, &[]) {
        Err(reason) => assert_eq!(reason, "dcgmGetAllDevices failed: -21"),
        Ok(_) => panic!("a failed list has no samples"),
    }
}

#[test]
fn calls_hand_over_their_arguments() {
    assert_eq!(
        Call::Connect.arguments(),
        Arguments::Connect {
            address: "127.0.0.1",
            params: ConnectParams {
                version: 2,
                persist_after_disconnect: 0,
                timeout_millis: 3000,
                address_is_unix_socket: 0,
            },
        }
    );
    assert_eq!(Call::StartEmbedded.arguments(), Arguments::StartEmbedded { mode: 1 });
    assert_eq!(
        Call::CreateGroup { handle: 7 }.arguments(),
        Arguments::CreateGroup { handle: 7, kind: 0, name: "all-smi-dcgm" }
    );
    assert_eq!(
        Call::CreateFieldGroup { handle: 7 }.arguments(),
        Arguments::CreateFieldGroup {
            handle: 7,
            fields: field_ids(),
            name: "all-smi-dcgm-fields",
        }
    );
    assert_eq!(
        Call::WatchFields { handle: 7, group: 8, field_group: 9 }.arguments(),
        Arguments::WatchFields {
            handle: 7,
            group: 8,
            field_group: 9,
            update_micros: 100_000,
            keep_seconds: 60,
            keep_samples: 20,
        }
    );
    assert_eq!(
        Call::UpdateFields { handle: 7 }.arguments(),
        Arguments::UpdateFields { handle: 7, wait: 1 }
    );
    assert_eq!(
        Call::ListDevices { handle: 7 }.arguments(),
        Arguments::ListDevices { handle: 7, room: 32 }
    );
    assert_eq!(
        Call::ReadDevice { handle: 7, device: u32::MAX }.arguments(),
        Arguments::ReadDevice { handle: 7, device: -1, fields: field_ids(), value_version: 1 }
    );
    assert_eq!(
        Call::DestroyGroup { handle: 7, group: 8 }.arguments(),
        Arguments::DestroyGroup { handle: 7, group: 8 }
    );
}

#[test]
fn calls_go_to_their_functions() {
    let found: Vec<Result<usize, String>> = (100..114).map(Ok).collect();
    let fns = DcgmFns::load(&found, None).unwrap();
    let names = required_symbols();
    let name_of = |call: Call| fns.function(&call).map(|address| names[address - 100]);
    assert_eq!(name_of(Call::Init), Some("dcgmInit"));
    assert_eq!(name_of(Call::Shutdown), Some("dcgmShutdown"));
    assert_eq!(name_of(Call::Connect), Some("dcgmConnect_v2"));
    assert_eq!(name_of(Call::StartEmbedded), Some("dcgmStartEmbedded"));
    assert_eq!(name_of(Call::Disconnect { handle: 1 }), Some("dcgmDisconnect"));
    assert_eq!(name_of(Call::StopEmbedded { handle: 1 }), Some("dcgmStopEmbedded"));
    assert_eq!(name_of(Call::ListDevices { handle: 1 }), Some("dcgmGetAllDevices"));
    assert_eq!(name_of(Call::CreateGroup { handle: 1 }), Some("dcgmGroupCreate"));
    assert_eq!(name_of(Call::DestroyGroup { handle: 1, group: 2 }), Some("dcgmGroupDestroy"));
    assert_eq!(name_of(Call::CreateFieldGroup { handle: 1 }), Some("dcgmFieldGroupCreate"));
    assert_eq!(
        name_of(Call::DestroyFieldGroup { handle: 1, field_group: 2 }),
        Some("dcgmFieldGroupDestroy")
    );
    assert_eq!(
        name_of(Call::WatchFields { handle: 1, group: 2, field_group: 3 }),
        Some("dcgmWatchFields")
    );
    assert_eq!(name_of(Call::UpdateFields { handle: 1 }), Some("dcgmUpdateAllFields"));
    assert_eq!(
        name_of(Call::ReadDevice { handle: 1, device: 0 }),
        Some("dcgmGetLatestValuesForFields")
    );
    assert_eq!(name_of(Call::Pause { millis: 1 }), None);
    assert_eq!(name_of(Call::ResumeProfiling { handle: 1 }), None);
    let fns = DcgmFns::load(&found, Some(500)).unwrap();
    assert_eq!(fns.function(&Call::ResumeProfiling { handle: 1 }), Some(500));
}

#[test]
fn sampling_lists_and_reads_the_devices() {
    let session =
        Session { handle: 5, embedded: false, group: 1, field_group: 2, watched: false };
    assert_eq!(
        session.listing(),
        vec![Call::UpdateFields { handle: 5 }, Call::ListDevices { handle: 5 }]
    );
    assert_eq!(
        session.reading(0, &[3, 0, 9], 2),
        vec![
            Call::ReadDevice { handle: 5, device: 3 },
            Call::ReadDevice { handle: 5, device: 0 },
        ]
    );
    assert_eq!(session.reading(0, &[3, 0, 9], -1), Vec::new());
    assert_eq!(session.reading(-1, &[3, 0, 9], 2), Vec::new());
}
