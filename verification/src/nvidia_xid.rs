//! XID and ECC events: which NVML events are counted, under which code, and
//! the running counts per GPU.
//!
//! A GPU that reported no event has no counts: zeros are never invented.
use crate::text_map::TextMap;
use nvml_wrapper::bitmasks::event::EventTypes;
use std::collections::{HashMap, VecDeque};
use vstd::prelude::*;

verus! {

/// How many recent events are remembered.
pub const RING_CAP: usize = 50;

/// How long to wait for an event, in milliseconds.
pub const WAIT_MILLIS: u32 = 1000;

/// How long to pause after a wait without an event, in milliseconds.
pub const PAUSE_MILLIS: u64 = 50;

/// NVML's bit for single-bit ECC errors.
pub const EVENT_SINGLE_BIT_ECC: u64 = 0x1;

/// NVML's bit for double-bit ECC errors.
pub const EVENT_DOUBLE_BIT_ECC: u64 = 0x2;

/// NVML's bit for critical XID errors.
pub const EVENT_CRITICAL_XID: u64 = 0x8;

/// The bits of all events that are counted.
pub const EVENTS_WANTED: u64 = 0xB;

/// The code under which an XID error of unknown number is counted.
pub const XID_UNKNOWN: u32 = 999;

/// The code of a double-bit ECC error.
pub const XID_DOUBLE_BIT_ECC: u32 = 48;

/// The code of a contained single-bit ECC error.
pub const XID_SINGLE_BIT_ECC: u32 = 94;

/// An event of a GPU: its UUID and the event code.
pub type Event = (Seq<char>, u32);

/// The events to remember out of a list: the last ones.
pub open spec fn newest(events: Seq<Event>) -> Seq<Event> {
    if events.len() > RING_CAP {
        events.skip(events.len() - RING_CAP)
    } else {
        events
    }
}

/// The counts of one GPU; none where it reported no event.
pub open spec fn counts_of(
    counts: Map<Seq<char>, Map<u32, u64>>,
    uuid: Seq<char>,
) -> Map<u32, u64> {
    if counts.contains_key(uuid) {
        counts[uuid]
    } else {
        Map::empty()
    }
}

/// The count of an event code of one GPU.
pub open spec fn event_count(
    counts: Map<Seq<char>, Map<u32, u64>>,
    uuid: Seq<char>,
    xid: u32,
) -> int {
    if counts_of(counts, uuid).contains_key(xid) {
        counts_of(counts, uuid)[xid] as int
    } else {
        0
    }
}

/// The counts after one more event.
pub open spec fn counted(
    counts: Map<Seq<char>, Map<u32, u64>>,
    event: Event,
) -> Map<Seq<char>, Map<u32, u64>> {
    counts.insert(
        event.0,
        counts_of(counts, event.0).insert(
            event.1,
            (event_count(counts, event.0, event.1) + 1) as u64,
        ),
    )
}

/// The events as their contents.
pub open spec fn event_views(events: Seq<(String, u32)>) -> Seq<Event> {
    events.map_values(|event: (String, u32)| (event.0@, event.1))
}

/// The events counted so far.
pub struct XidState {
    counts: TextMap<HashMap<u32, u64>>,
    ring: VecDeque<(String, u32)>,
}

impl XidState {
    /// The counts per GPU and event code.
    pub closed spec fn counts(self) -> Map<Seq<char>, Map<u32, u64>> {
        self.counts@
    }

    /// The recent events, newest last.
    pub closed spec fn ring(self) -> Seq<Event> {
        event_views(self.ring@)
    }

    #[verifier::type_invariant]
    closed spec fn well_formed(self) -> bool {
        self.ring@.len() <= RING_CAP
    }
}

impl Default for XidState {
    fn default() -> (state: Self)
        ensures
            state.counts() == Map::<Seq<char>, Map<u32, u64>>::empty(),
            state.ring() == Seq::<Event>::empty(),
    {
        let state = XidState { counts: TextMap::new(), ring: VecDeque::new() };
        assert(state.ring() =~= Seq::<Event>::empty());
        state
    }
}

/// The counts of one GPU.
pub fn xid_counts_for(state: &XidState, uuid: &str) -> (counts: HashMap<u32, u64>)
    ensures
        counts@ == counts_of(state.counts(), uuid@),
{
    match state.counts.get(uuid) {
        Some(counts) => counts.clone(),
        None => HashMap::new(),
    }
}

/// The recent events, newest last.
pub fn recent_xid_events(state: &XidState) -> (events: Vec<(String, u32)>)
    ensures
        event_views(events@) == state.ring(),
{
    let mut events: Vec<(String, u32)> = Vec::new();
    let mut i: usize = 0;
    assert(event_views(events@) =~= state.ring().take(0));
    while i < state.ring.len()
        invariant
            i <= state.ring@.len(),
            event_views(events@) == state.ring().take(i as int),
        decreases state.ring@.len() - i,
    {
        let ghost before = event_views(events@);
        let event = &state.ring[i];
        events.push((event.0.clone(), event.1));
        assert(event_views(events@) =~= before.push((event.0@, event.1)));
        assert(event_views(events@) =~= state.ring().take(i + 1));
        i += 1;
    }
    assert(state.ring().take(i as int) =~= state.ring());
    events
}

/// Counts an event and remembers it as the newest.
pub fn record_event(state: &mut XidState, uuid: String, xid: u32)
    requires
        event_count(old(state).counts(), uuid@, xid) < u64::MAX,
    ensures
        final(state).counts() == counted(old(state).counts(), (uuid@, xid)),
        final(state).ring() == newest(old(state).ring().push((uuid@, xid))),
{
    broadcast use vstd::std_specs::hash::group_hash_axioms;

    proof {
        use_type_invariant(&*state);
    }
    let mut counts: TextMap<HashMap<u32, u64>> = TextMap::new();
    core::mem::swap(&mut counts, &mut state.counts);
    let mut ring: VecDeque<(String, u32)> = VecDeque::new();
    core::mem::swap(&mut ring, &mut state.ring);
    let ghost before = ring@;
    let mut of_gpu: HashMap<u32, u64> = match counts.remove(uuid.as_str()) {
        Some(counts) => counts,
        None => HashMap::new(),
    };
    let count: u64 = match of_gpu.get(&xid) {
        Some(count) => *count,
        None => 0,
    };
    of_gpu.insert(xid, count + 1);
    counts.insert(uuid.clone(), of_gpu);
    if ring.len() >= RING_CAP {
        ring.pop_front();
    }
    let ghost name = uuid@;
    ring.push_back((uuid, xid));
    proof {
        assert(counts@ =~= counted(old(state).counts(), (name, xid)));
        assert(event_views(ring@) =~= newest(event_views(before).push((name, xid))));
    }
    state.counts = counts;
    state.ring = ring;
}

/// What the counts and the recent events are after a list of events.
pub open spec fn history(events: Seq<Event>) -> (Map<Seq<char>, Map<u32, u64>>, Seq<Event>)
    decreases events.len(),
{
    if events.len() == 0 {
        (Map::empty(), Seq::empty())
    } else {
        let (counts, ring) = history(events.drop_last());
        (counted(counts, events.last()), newest(ring.push(events.last())))
    }
}

/// How often an event occurs in a list.
pub open spec fn occurrences(events: Seq<Event>, event: Event) -> nat
    decreases events.len(),
{
    if events.len() == 0 {
        0
    } else {
        occurrences(events.drop_last(), event) + if events.last() == event {
            1nat
        } else {
            0nat
        }
    }
}

/// The count of an event code of a GPU is the number of those events, and
/// codes that did not occur have no count.
pub proof fn law_counts_are_occurrences(events: Seq<Event>, uuid: Seq<char>, xid: u32)
    requires
        events.len() <= u64::MAX,
    ensures
        event_count(history(events).0, uuid, xid) == occurrences(events, (uuid, xid)),
        counts_of(history(events).0, uuid).contains_key(xid) <==> occurrences(events, (uuid, xid))
            > 0,
        occurrences(events, (uuid, xid)) <= events.len(),
    decreases events.len(),
{
    if events.len() > 0 {
        let (earlier_uuid, earlier_xid) = events.last();
        law_counts_are_occurrences(events.drop_last(), uuid, xid);
        law_counts_are_occurrences(events.drop_last(), earlier_uuid, earlier_xid);
    }
}

/// The remembered events are the last ones, oldest first, and never more than
/// the ring holds.
pub proof fn law_ring_holds_the_newest(events: Seq<Event>)
    ensures
        history(events).1 == newest(events),
        history(events).1.len() <= RING_CAP,
    decreases events.len(),
{
    if events.len() > 0 {
        law_ring_holds_the_newest(events.drop_last());
        assert(newest(newest(events.drop_last()).push(events.last())) =~= newest(events));
    } else {
        assert(history(events).1 =~= newest(events));
    }
}

/// `EventTypes::contains` of `nvml_wrapper`, on values made with
/// `from_bits_retain`: whether `events` has every bit of `flag`.
#[verifier::external_body]
fn event_contains(events: u64, flag: u64) -> (contained: bool)
    ensures
        contained == (events & flag == flag),
{
    EventTypes::from_bits_retain(events).contains(EventTypes::from_bits_retain(flag))
}

/// `EventTypes::intersection` of `nvml_wrapper` (its `&`), on values made with
/// `from_bits_retain`: the bits that both have.
#[verifier::external_body]
fn event_intersection(events: u64, others: u64) -> (common: u64)
    ensures
        common == events & others,
{
    EventTypes::from_bits_retain(events).intersection(EventTypes::from_bits_retain(others)).bits()
}

/// `EventTypes::is_empty` of `nvml_wrapper`, on a value made with
/// `from_bits_retain`: whether no bit is set.
#[verifier::external_body]
fn event_is_empty(events: u64) -> (empty: bool)
    ensures
        empty == (events == 0),
{
    EventTypes::from_bits_retain(events).is_empty()
}

/// The events to register for on a device that supports `supported`: those that
/// are counted. A device that cannot be asked, or supports none of them, is
/// passed over.
pub fn events_to_register(supported: Option<u64>) -> (events: Option<u64>)
    ensures
        match supported {
            Some(supported) => if supported & EVENTS_WANTED == 0 {
                events is None
            } else {
                events == Some(supported & EVENTS_WANTED)
            },
            None => events is None,
        },
        events is Some <==> (supported matches Some(bits) && bits & 0xB != 0),
        events matches Some(events) ==> events == supported->0 & 0xB,
{
    match supported {
        Some(supported) => {
            let events: u64 = event_intersection(supported, EVENTS_WANTED);
            if event_is_empty(events) {
                None
            } else {
                Some(events)
            }
        },
        None => None,
    }
}

/// What the watcher does before it waits for events.
#[derive(Clone, Copy, Debug, PartialEq, Eq, Structural)]
pub enum SetupAction {
    /// Initialize NVML.
    InitNvml,
    /// Create an event set.
    CreateSet,
    /// Count the devices.
    CountDevices,
    /// Open the device with this index.
    OpenDevice { index: u32, count: u32 },
    /// Ask the device which events it supports.
    AskDevice { index: u32, count: u32 },
    /// Register the events of the device.
    Register { index: u32, count: u32, events: u64 },
    /// Begin to wait for events, each time so many milliseconds at most.
    Watch { timeout_millis: u32 },
    /// Give up.
    Stop,
}

/// What came of a setup action.
#[derive(Clone, Copy, Debug, PartialEq, Eq, Structural)]
pub enum SetupEvent {
    /// It failed.
    Failed,
    /// It succeeded.
    Done,
    /// So many devices were counted.
    Counted(u32),
    /// The device supports these events.
    Supports(u64),
}

/// Whether an event can come of an action.
pub open spec fn comes_of(event: SetupEvent, action: SetupAction) -> bool {
    match action {
        SetupAction::InitNvml => event is Failed || event is Done,
        SetupAction::CreateSet => event is Failed || event is Done,
        SetupAction::CountDevices => event is Failed || event is Counted,
        SetupAction::OpenDevice { .. } => event is Failed || event is Done,
        SetupAction::AskDevice { .. } => event is Failed || event is Supports,
        SetupAction::Register { .. } => event is Failed || event is Done,
        SetupAction::Watch { .. } => false,
        SetupAction::Stop => false,
    }
}

/// The device with this index, or the waiting when there is none.
pub open spec fn device_or_watch(index: int, count: u32) -> SetupAction {
    if index < count {
        SetupAction::OpenDevice { index: index as u32, count }
    } else {
        SetupAction::Watch { timeout_millis: WAIT_MILLIS }
    }
}

/// The action that follows. A device that cannot be opened or asked, or supports
/// no event that is counted, is passed over; any other failure ends the setup.
pub open spec fn following_setup(action: SetupAction, event: SetupEvent) -> SetupAction {
    match action {
        SetupAction::InitNvml => if event is Done {
            SetupAction::CreateSet
        } else {
            SetupAction::Stop
        },
        SetupAction::CreateSet => if event is Done {
            SetupAction::CountDevices
        } else {
            SetupAction::Stop
        },
        SetupAction::CountDevices => match event {
            SetupEvent::Counted(count) => device_or_watch(0, count),
            _ => SetupAction::Stop,
        },
        SetupAction::OpenDevice { index, count } => if event is Done {
            SetupAction::AskDevice { index, count }
        } else {
            device_or_watch(index + 1, count)
        },
        SetupAction::AskDevice { index, count } => match event {
            SetupEvent::Supports(supported) => if supported & EVENTS_WANTED == 0 {
                device_or_watch(index + 1, count)
            } else {
                SetupAction::Register { index, count, events: supported & EVENTS_WANTED }
            },
            _ => device_or_watch(index + 1, count),
        },
        SetupAction::Register { index, count, .. } => if event is Done {
            device_or_watch(index + 1, count)
        } else {
            SetupAction::Stop
        },
        SetupAction::Watch { .. } => action,
        SetupAction::Stop => SetupAction::Stop,
    }
}

/// Goes on behind the device with this index.
fn next_device(index: u32, count: u32) -> (action: SetupAction)
    ensures
        action == device_or_watch(index + 1, count),
{
    if index < count && index + 1 < count {
        SetupAction::OpenDevice { index: index + 1, count }
    } else {
        SetupAction::Watch { timeout_millis: WAIT_MILLIS }
    }
}

/// What the watcher does next before it waits for events.
pub fn setup_step(action: SetupAction, event: SetupEvent) -> (next: SetupAction)
    requires
        comes_of(event, action),
    ensures
        next == following_setup(action, event),
{
    match action {
        SetupAction::InitNvml => match event {
            SetupEvent::Done => SetupAction::CreateSet,
            _ => SetupAction::Stop,
        },
        SetupAction::CreateSet => match event {
            SetupEvent::Done => SetupAction::CountDevices,
            _ => SetupAction::Stop,
        },
        SetupAction::CountDevices => match event {
            SetupEvent::Counted(count) => if count > 0 {
                SetupAction::OpenDevice { index: 0, count }
            } else {
                SetupAction::Watch { timeout_millis: WAIT_MILLIS }
            },
            _ => SetupAction::Stop,
        },
        SetupAction::OpenDevice { index, count } => match event {
            SetupEvent::Done => SetupAction::AskDevice { index, count },
            _ => next_device(index, count),
        },
        SetupAction::AskDevice { index, count } => {
            let supported: Option<u64> = match event {
                SetupEvent::Supports(supported) => Some(supported),
                _ => None,
            };
            match events_to_register(supported) {
                Some(events) => SetupAction::Register { index, count, events },
                None => next_device(index, count),
            }
        },
        SetupAction::Register { index, count, .. } => match event {
            SetupEvent::Done => next_device(index, count),
            _ => SetupAction::Stop,
        },
        SetupAction::Watch { .. } => action,
        SetupAction::Stop => SetupAction::Stop,
    }
}

/// How many actions the setup takes at most from an action on.
pub open spec fn actions_left(action: SetupAction) -> int {
    match action {
        SetupAction::InitNvml => 3 * u32::MAX + 3,
        SetupAction::CreateSet => 3 * u32::MAX + 2,
        SetupAction::CountDevices => 3 * u32::MAX + 1,
        SetupAction::OpenDevice { index, count } => 3 * (count - index),
        SetupAction::AskDevice { index, count } => 3 * (count - index) - 1,
        SetupAction::Register { index, count, .. } => 3 * (count - index) - 2,
        SetupAction::Watch { .. } => 0,
        SetupAction::Stop => 0,
    }
}

/// The device that an action is about is one of those that were counted.
pub open spec fn within_count(action: SetupAction) -> bool {
    match action {
        SetupAction::OpenDevice { index, count } => index < count,
        SetupAction::AskDevice { index, count } => index < count,
        SetupAction::Register { index, count, .. } => index < count,
        _ => true,
    }
}

/// The setup ends, and is about counted devices only.
pub proof fn law_setup_ends(action: SetupAction, event: SetupEvent)
    requires
        comes_of(event, action),
        within_count(action),
    ensures
        within_count(following_setup(action, event)),
        0 <= actions_left(following_setup(action, event)) < actions_left(action),
{
}

/// A device is registered for events that it supports and that are counted, and
/// for at least one.
pub proof fn law_registered_events_are_wanted(action: SetupAction, supported: u64)
    requires
        action is AskDevice,
    ensures
        following_setup(action, SetupEvent::Supports(supported)) matches SetupAction::Register {
            events,
            ..
        } ==> events != 0 && events & EVENTS_WANTED == events && events & supported == events,
        supported & EVENTS_WANTED != 0 ==> following_setup(
            action,
            SetupEvent::Supports(supported),
        ) is Register,
{
    assert((supported & 0xB) & 0xB == supported & 0xB && (supported & 0xB) & supported == supported
        & 0xB) by (bit_vector);
}

/// The number that comes with a critical XID error.
#[derive(Clone, Copy, Debug, PartialEq, Eq)]
pub enum XidNumber {
    Value(u64),
    Unknown,
}

/// The code under which an event is counted: the number of a critical XID error
/// in its low 32 bits, or the codes of the ECC errors. Other events do not
/// count.
pub open spec fn code_of(event_type: u64, number: Option<XidNumber>) -> Option<u32> {
    if event_type & EVENT_CRITICAL_XID == EVENT_CRITICAL_XID {
        match number {
            Some(XidNumber::Value(value)) => Some(value as u32),
            _ => Some(XID_UNKNOWN),
        }
    } else if event_type & EVENT_DOUBLE_BIT_ECC == EVENT_DOUBLE_BIT_ECC {
        Some(XID_DOUBLE_BIT_ECC)
    } else if event_type & EVENT_SINGLE_BIT_ECC == EVENT_SINGLE_BIT_ECC {
        Some(XID_SINGLE_BIT_ECC)
    } else {
        None
    }
}

/// Computes [`code_of`].
pub fn event_code(event_type: u64, number: Option<XidNumber>) -> (code: Option<u32>)
    ensures
        code == code_of(event_type, number),
{
    if event_contains(event_type, EVENT_CRITICAL_XID) {
        match number {
            Some(XidNumber::Value(value)) => {
                #[verifier::truncate]
                let code: u32 = value as u32;
                Some(code)
            },
            _ => Some(XID_UNKNOWN),
        }
    } else if event_contains(event_type, EVENT_DOUBLE_BIT_ECC) {
        Some(XID_DOUBLE_BIT_ECC)
    } else if event_contains(event_type, EVENT_SINGLE_BIT_ECC) {
        Some(XID_SINGLE_BIT_ECC)
    } else {
        None
    }
}

/// An event that was delivered.
#[derive(Debug, PartialEq, Eq)]
pub struct Delivered {
    /// The UUID of the GPU, if it could be read.
    pub uuid: Option<String>,
    pub event_type: u64,
    pub number: Option<XidNumber>,
}

/// What to do after a wait.
#[derive(Debug, PartialEq, Eq)]
pub enum WatchAction {
    /// Count the event.
    Record { uuid: String, xid: u32 },
    /// Wait again.
    Wait,
    /// Pause for so many milliseconds, and wait again.
    Pause(u64),
}

/// What to do after a wait that delivered an event, or none. An event of a GPU
/// whose UUID could not be read is counted for the GPU `unknown`.
pub fn after_wait(delivered: &Option<Delivered>) -> (action: WatchAction)
    ensures
        match delivered {
            None => action == WatchAction::Pause(PAUSE_MILLIS),
            Some(event) => match code_of(event.event_type, event.number) {
                None => action is Wait,
                Some(code) => action matches WatchAction::Record { uuid, xid } && xid == code
                    && uuid@ == (match event.uuid {
                    Some(known) => known@,
                    None => "unknown"@,
                }),
            },
        },
        delivered is None ==> action == WatchAction::Pause(50),
{
    match delivered {
        None => WatchAction::Pause(PAUSE_MILLIS),
        Some(event) => match event_code(event.event_type, event.number) {
            None => WatchAction::Wait,
            Some(xid) => {
                let uuid: String = match &event.uuid {
                    Some(known) => known.clone(),
                    None => "unknown".to_owned(),
                };
                WatchAction::Record { uuid, xid }
            },
        },
    }
}

/// Every event type to register for is one that is counted: a delivered event
/// of such a type has a code.
pub proof fn law_registered_events_are_counted(event_type: u64, number: Option<XidNumber>)
    requires
        event_type & EVENTS_WANTED != 0,
    ensures
        code_of(event_type, number) is Some,
{
    assert(event_type & 0xB != 0 ==> event_type & 0x8 == 0x8 || event_type & 0x2 == 0x2
        || event_type & 0x1 == 0x1) by (bit_vector);
}

/// The code of a critical XID error is the low half of its number, or 999 where the
/// number is not known, whatever other bits are set; double-bit ECC errors count as
/// 48 and single-bit ones as 94; other events have no code.
pub proof fn law_codes_by_bit(event_type: u64, number: Option<XidNumber>)
    ensures
        event_type & 0x8 == 0x8 ==> (match number {
            Some(XidNumber::Value(value)) => code_of(event_type, number) is Some && code_of(
                event_type,
                number,
            )->0 as int == value % 0x1_0000_0000,
            _ => code_of(event_type, number) == Some(999u32),
        }),
        event_type & 0xA == 0x2 ==> code_of(event_type, number) == Some(48u32),
        event_type & 0xB == 0x1 ==> code_of(event_type, number) == Some(94u32),
        event_type & 0xB == 0 ==> code_of(event_type, number) is None,
{
    assert((event_type & 0xA == 0x2 ==> event_type & 0x8 != 0x8 && event_type & 0x2 == 0x2) && (
    event_type & 0xB == 0x1 ==> event_type & 0x8 != 0x8 && event_type & 0x2 != 0x2 && event_type
        & 0x1 == 0x1) && (event_type & 0xB == 0 ==> event_type & 0x8 != 0x8 && event_type & 0x2
        != 0x2 && event_type & 0x1 != 0x1)) by (bit_vector);
    if let Some(XidNumber::Value(value)) = number {
        assert(value as u32 == value % 0x1_0000_0000) by (bit_vector);
    }
}

/// The remembered events are the last fifty, or all of them while there are fewer,
/// oldest first.
pub proof fn law_fifty_events_are_remembered(events: Seq<Event>)
    ensures
        history(events).1.len() == (if events.len() < 50 {
            events.len()
        } else {
            50
        }),
        forall|i: int|
            0 <= i < history(events).1.len() ==> #[trigger] history(events).1[i]
                == events[events.len() - history(events).1.len() + i],
{
    law_ring_holds_the_newest(events);
}

/// One event raises one count by one: that of its code on its GPU.
pub proof fn law_an_event_is_counted_once(
    counts: Map<Seq<char>, Map<u32, u64>>,
    event: Event,
    uuid: Seq<char>,
    xid: u32,
)
    requires
        counts.contains_key(event.0) && counts[event.0].contains_key(event.1)
            ==> counts[event.0][event.1] < u64::MAX,
    ensures
        counted(counts, event).contains_key(event.0),
        counted(counts, event)[event.0].contains_key(event.1),
        counted(counts, event)[event.0][event.1] == (if counts.contains_key(event.0)
            && counts[event.0].contains_key(event.1) {
            counts[event.0][event.1] + 1
        } else {
            1
        }),
        uuid != event.0 ==> counted(counts, event).contains_key(uuid) == counts.contains_key(uuid)
            && (counts.contains_key(uuid) ==> counted(counts, event)[uuid] == counts[uuid]),
        xid != event.1 ==> (counted(counts, event)[event.0].contains_key(xid)
            <==> counts.contains_key(
            event.0,
        ) && counts[event.0].contains_key(xid)),
        xid != event.1 && counts.contains_key(event.0) && counts[event.0].contains_key(xid)
            ==> counted(counts, event)[event.0][xid] == counts[event.0][xid],
{
}

/// The setup initializes NVML, creates the event set and counts the devices, and
/// gives up as soon as one of these fails.
pub proof fn law_setup_begins_in_order(event: SetupEvent)
    ensures
        comes_of(event, SetupAction::InitNvml)
            ==> following_setup(SetupAction::InitNvml, event) == (
        if event == SetupEvent::Done {
            SetupAction::CreateSet
        } else {
            SetupAction::Stop
        }),
        comes_of(event, SetupAction::CreateSet) ==> following_setup(SetupAction::CreateSet, event)
            == (if event == SetupEvent::Done {
            SetupAction::CountDevices
        } else {
            SetupAction::Stop
        }),
        following_setup(SetupAction::CountDevices, SetupEvent::Failed) == SetupAction::Stop,
        forall|count: u32| #[trigger]
            following_setup(SetupAction::CountDevices, SetupEvent::Counted(count)) == (if count
                == 0 {
                SetupAction::Watch { timeout_millis: 1000 }
            } else {
                SetupAction::OpenDevice { index: 0, count }
            }),
{
}

/// Each device is opened, asked and registered for the counted events that it
/// supports. One that cannot be opened or asked, or supports none, is passed over;
/// one that cannot be registered ends the setup. Behind the last device the waiting
/// begins, each time for a second.
pub proof fn law_setup_goes_device_by_device(index: u32, count: u32, events: u64, event: SetupEvent)
    requires
        index < count,
    ensures
        ({
            let passed_over = if index + 1 < count {
                SetupAction::OpenDevice { index: (index + 1) as u32, count }
            } else {
                SetupAction::Watch { timeout_millis: 1000 }
            };
            &&& comes_of(event, SetupAction::OpenDevice { index, count }) ==> following_setup(
                SetupAction::OpenDevice { index, count },
                event,
            ) == (if event == SetupEvent::Done {
                SetupAction::AskDevice { index, count }
            } else {
                passed_over
            })
            &&& following_setup(SetupAction::AskDevice { index, count }, SetupEvent::Failed)
                == passed_over
            &&& forall|supported: u64| #[trigger]
                following_setup(
                    SetupAction::AskDevice { index, count },
                    SetupEvent::Supports(supported),
                ) == (if supported & 0xB == 0 {
                    passed_over
                } else {
                    SetupAction::Register { index, count, events: supported & 0xB }
                })
            &&& comes_of(event, SetupAction::Register { index, count, events }) ==> following_setup(
                SetupAction::Register { index, count, events },
                event,
            ) == (if event == SetupEvent::Done {
                passed_over
            } else {
                SetupAction::Stop
            })
        }),
{
}

} // verus!
