//! XID and ECC events.
use all_smi::nvidia_xid::{
    after_wait, event_code, events_to_register, recent_xid_events, record_event, setup_step,
    xid_counts_for, Delivered, SetupAction, SetupEvent, WatchAction, XidNumber, XidState, EVENTS_WANTED, EVENT_CRITICAL_XID,
    EVENT_DOUBLE_BIT_ECC, EVENT_SINGLE_BIT_ECC, RING_CAP,
};
use nvml_wrapper::bitmasks::event::EventTypes;

#[test]
fn event_bits_are_those_of_nvml() {
    assert_eq!(EVENT_SINGLE_BIT_ECC, EventTypes::SINGLE_BIT_ECC_ERROR.bits());
    assert_eq!(EVENT_DOUBLE_BIT_ECC, EventTypes::DOUBLE_BIT_ECC_ERROR.bits());
    assert_eq!(EVENT_CRITICAL_XID, EventTypes::CRITICAL_XID_ERROR.bits());
    assert_eq!(
        EVENTS_WANTED,
        (EventTypes::CRITICAL_XID_ERROR
            | EventTypes::DOUBLE_BIT_ECC_ERROR
            | EventTypes::SINGLE_BIT_ECC_ERROR)
            .bits()
    );
}

#[test]
fn only_wanted_events_are_registered() {
    assert_eq!(events_to_register(None), None);
    assert_eq!(events_to_register(Some(0)), None);
    assert_eq!(events_to_register(Some(EventTypes::CLOCK_CHANGE.bits())), None);
    assert_eq!(events_to_register(Some(0xFF)), Some(0xB));
    assert_eq!(events_to_register(Some(0x2 | 0x4)), Some(0x2));
}

#[test]
fn events_have_their_codes() {
    assert_eq!(event_code(EVENT_CRITICAL_XID, Some(XidNumber::Value(79))), Some(79));
    assert_eq!(event_code(EVENT_CRITICAL_XID, Some(XidNumber::Value(0x1_0000_0005))), Some(5));
    assert_eq!(event_code(EVENT_CRITICAL_XID, Some(XidNumber::Unknown)), Some(999));
    assert_eq!(event_code(EVENT_CRITICAL_XID, None), Some(999));
    assert_eq!(event_code(EVENT_DOUBLE_BIT_ECC, None), Some(48));
    assert_eq!(event_code(EVENT_SINGLE_BIT_ECC, Some(XidNumber::Value(3))), Some(94));
    assert_eq!(event_code(EVENT_SINGLE_BIT_ECC | EVENT_DOUBLE_BIT_ECC, None), Some(48));
    assert_eq!(
        event_code(EVENT_CRITICAL_XID | EVENT_DOUBLE_BIT_ECC, Some(XidNumber::Value(13))),
        Some(13)
    );
    assert_eq!(event_code(0x4, None), None);
    assert_eq!(event_code(0, None), None);
}

#[test]
fn waits_lead_to_actions() {
    assert_eq!(after_wait(&None), WatchAction::Pause(50));
    assert_eq!(
        after_wait(&Some(Delivered {
            uuid: Some("GPU-1".to_string()),
            event_type: EVENT_DOUBLE_BIT_ECC,
            number: None,
        })),
        WatchAction::Record { uuid: "GPU-1".to_string(), xid: 48 }
    );
    assert_eq!(
        after_wait(&Some(Delivered {
            uuid: None,
            event_type: EVENT_CRITICAL_XID,
            number: Some(XidNumber::Value(31)),
        })),
        WatchAction::Record { uuid: "unknown".to_string(), xid: 31 }
    );
    assert_eq!(
        after_wait(&Some(Delivered { uuid: None, event_type: 0x10, number: None })),
        WatchAction::Wait
    );
}

#[test]
fn events_are_counted_per_gpu() {
    let mut state = XidState::default();
    assert!(xid_counts_for(&state, "a").is_empty());
    record_event(&mut state, "a".to_string(), 79);
    record_event(&mut state, "b".to_string(), 79);
    record_event(&mut state, "a".to_string(), 31);
    record_event(&mut state, "a".to_string(), 79);
    let counts = xid_counts_for(&state, "a");
    assert_eq!(counts.len(), 2);
    assert_eq!(counts.get(&79), Some(&2));
    assert_eq!(counts.get(&31), Some(&1));
    assert_eq!(xid_counts_for(&state, "b").get(&79), Some(&1));
    assert!(xid_counts_for(&state, "c").is_empty());
    assert_eq!(
        recent_xid_events(&state),
        vec![
            ("a".to_string(), 79),
            ("b".to_string(), 79),
            ("a".to_string(), 31),
            ("a".to_string(), 79),
        ]
    );
}

#[test]
fn ring_holds_the_newest_events() {
    let mut state = XidState::default();
    assert!(recent_xid_events(&state).is_empty());
    for xid in 0..120u32 {
        record_event(&mut state, "a".to_string(), xid);
    }
    let events = recent_xid_events(&state);
    assert_eq!(events.len(), RING_CAP);
    assert_eq!(events[0], ("a".to_string(), 70));
    assert_eq!(events[49], ("a".to_string(), 119));
    assert_eq!(xid_counts_for(&state, "a").len(), 120);
}

#[test]
fn setup_passes_over_devices_and_stops_on_failures() {
    let watch = SetupAction::Watch { timeout_millis: 1000 };
    assert_eq!(setup_step(SetupAction::InitNvml, SetupEvent::Done), SetupAction::CreateSet);
    assert_eq!(setup_step(SetupAction::CreateSet, SetupEvent::Done), SetupAction::CountDevices);
    for action in [SetupAction::InitNvml, SetupAction::CreateSet, SetupAction::CountDevices] {
        assert_eq!(setup_step(action, SetupEvent::Failed), SetupAction::Stop);
    }
    assert_eq!(setup_step(SetupAction::CountDevices, SetupEvent::Counted(0)), watch);
    let first = SetupAction::OpenDevice { index: 0, count: 2 };
    let second = SetupAction::OpenDevice { index: 1, count: 2 };
    assert_eq!(setup_step(SetupAction::CountDevices, SetupEvent::Counted(2)), first);
    assert_eq!(setup_step(first, SetupEvent::Failed), second);
    assert_eq!(setup_step(second, SetupEvent::Failed), watch);
    let ask = SetupAction::AskDevice { index: 0, count: 2 };
    assert_eq!(setup_step(first, SetupEvent::Done), ask);
    assert_eq!(setup_step(ask, SetupEvent::Failed), second);
    assert_eq!(setup_step(ask, SetupEvent::Supports(0x10)), second);
    let register = SetupAction::Register { index: 0, count: 2, events: 0x9 };
    assert_eq!(setup_step(ask, SetupEvent::Supports(0x19)), register);
    assert_eq!(setup_step(register, SetupEvent::Done), second);
    assert_eq!(setup_step(register, SetupEvent::Failed), SetupAction::Stop);
}

#[test]
fn setup_ends() {
    let mut action = SetupAction::CountDevices;
    let mut actions = 0;
    while !matches!(action, SetupAction::Watch { .. } | SetupAction::Stop) {
        let event = match action {
            SetupAction::CountDevices => SetupEvent::Counted(4),
            SetupAction::AskDevice { .. } => SetupEvent::Supports(0x8),
            _ => SetupEvent::Done,
        };
        action = setup_step(action, event);
        actions += 1;
    }
    assert_eq!(actions, 13);
}
