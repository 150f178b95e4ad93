//! What a whole session comes to, whatever the outside answers.

use crate::error::ErrorView;
use crate::gatt::{CharPropFlags, CharacteristicView, WriteType, NOTIFY, WRITE_WITHOUT_RESPONSE};
use crate::scan::ReplyView;
use crate::session::{
    device_name, session_start, write_flag_for, write_type_for, SessionActionView,
    SessionEventView, SessionView, StageView, WishesView,
};
use crate::uart::{
    choice_is_fit, detection_decides, fits_at, given_uuid_decides, known_uuids,
    one_characteristic_serves_both_directions,
};
use crate::uuid_text::{uuid_parse_error, uuid_value};
use vstd::prelude::*;

verus! {

/// The answers that the outside has for a session.
pub struct SessionWorld {
    pub initialises: bool,
    pub adapters: Option<nat>,
    pub finds_device: bool,
    pub id: Seq<char>,
    pub properties: ReplyView,
    pub connects: bool,
    pub discovers: bool,
    pub characteristics: Seq<CharacteristicView>,
    pub subscribes: bool,
    pub opens_port: bool,
    pub opens_notifications: bool,
}

impl SessionWorld {
    /// The answer to a request.
    pub open spec fn answer(self, action: SessionActionView) -> SessionEventView {
        match action {
            SessionActionView::InitBluetooth => SessionEventView::Initialised(self.initialises),
            SessionActionView::ListAdapters => SessionEventView::Adapters(self.adapters),
            SessionActionView::FindDevice { adapter, timeout } => SessionEventView::DeviceFound(
                self.finds_device,
            ),
            SessionActionView::FetchProperties => SessionEventView::Properties {
                id: self.id,
                reply: self.properties,
            },
            SessionActionView::Connect { name, timeout } => SessionEventView::Connected(
                self.connects,
            ),
            SessionActionView::DiscoverServices => SessionEventView::Discovered(self.discovers),
            SessionActionView::ReadCharacteristics => SessionEventView::Characteristics(
                self.characteristics,
            ),
            SessionActionView::Subscribe { read_char, write_uuid } => SessionEventView::Subscribed(
                self.subscribes,
            ),
            SessionActionView::OpenPort => SessionEventView::PortOpened(self.opens_port),
            SessionActionView::OpenNotifications => SessionEventView::NotificationsOpened(
                self.opens_notifications,
            ),
            SessionActionView::Run { write_char, write_type, notify_uuid } =>
                SessionEventView::Ended,
            SessionActionView::RemovePort => SessionEventView::PortRemoved,
            _ => SessionEventView::Disconnected,
        }
    }
}

/// How many requests are still ahead of a session.
pub open spec fn requests_ahead(stage: StageView) -> nat {
    match stage {
        StageView::Initialising => 13,
        StageView::ListingAdapters => 12,
        StageView::FindingDevice => 11,
        StageView::FetchingProperties => 10,
        StageView::Connecting => 9,
        StageView::Discovering => 8,
        StageView::ReadingCharacteristics => 7,
        StageView::Subscribing { write_char, notify_uuid } => 6,
        StageView::OpeningPort { write_char, notify_uuid } => 5,
        StageView::OpeningNotifications { write_char, notify_uuid } => 4,
        StageView::Running => 3,
        StageView::RemovingPort => 2,
        StageView::Disconnecting => 1,
        StageView::Over => 0,
    }
}

/// All that a session asks for when each request is answered by `world`, with how it ends
/// last.
pub open spec fn trace(
    world: SessionWorld,
    step: (SessionView, SessionActionView),
) -> Seq<SessionActionView>
    decreases requests_ahead(step.0.stage),
{
    if requests_ahead(step.0.stage) == 0 || !step.0.asked(step.1) {
        seq![step.1]
    } else {
        seq![step.1] + trace(world, step.0.after(world.answer(step.1)))
    }
}

/// How a session is meant to end: the first thing that goes wrong decides.
pub open spec fn session_outcome(world: SessionWorld, wishes: WishesView) -> SessionActionView {
    if !world.initialises {
        SessionActionView::Fail(ErrorView::Bluetooth)
    } else if world.adapters is None {
        SessionActionView::Fail(ErrorView::ListAdapters)
    } else if world.adapters == Some(0nat) {
        SessionActionView::Fail(ErrorView::NoAdapter)
    } else if !world.finds_device || world.properties is Failed {
        SessionActionView::Propagate
    } else if !world.connects {
        SessionActionView::Fail(ErrorView::Connect)
    } else if !world.discovers {
        SessionActionView::Fail(ErrorView::DiscoverServices)
    } else if wishes.write_choice(world.characteristics) is Err {
        SessionActionView::Fail(wishes.write_choice(world.characteristics)->Err_0)
    } else if wishes.read_choice(world.characteristics) is Err {
        SessionActionView::Fail(wishes.read_choice(world.characteristics)->Err_0)
    } else if !world.subscribes {
        SessionActionView::Fail(ErrorView::Subscribe)
    } else if !world.opens_port || !world.opens_notifications {
        SessionActionView::Propagate
    } else {
        SessionActionView::Finish
    }
}

/// Everything that a session asks for when nothing goes wrong, in order.
pub open spec fn session_requests(world: SessionWorld, wishes: WishesView) -> Seq<
    SessionActionView,
> {
    seq![
        SessionActionView::InitBluetooth,
        SessionActionView::ListAdapters,
        SessionActionView::FindDevice { adapter: 0, timeout: wishes.timeout },
        SessionActionView::FetchProperties,
        SessionActionView::Connect {
            name: device_name(world.id, world.properties),
            timeout: wishes.timeout,
        },
        SessionActionView::DiscoverServices,
        SessionActionView::ReadCharacteristics,
        SessionActionView::Subscribe {
            read_char: wishes.read_choice(world.characteristics)->Ok_0,
            write_uuid: wishes.write_choice(world.characteristics)->Ok_0.uuid,
        },
        SessionActionView::OpenPort,
        SessionActionView::OpenNotifications,
        SessionActionView::Run {
            write_char: wishes.write_choice(world.characteristics)->Ok_0,
            write_type: write_type_for(wishes.write_with_response),
            notify_uuid: wishes.read_choice(world.characteristics)->Ok_0.uuid,
        },
        SessionActionView::RemovePort,
        SessionActionView::Disconnect,
    ]
}

/// A session that is answered what it asks for always gets an answer that it waits for, and
/// comes nearer to its end.
pub proof fn every_answer_is_awaited(
    world: SessionWorld,
    session: SessionView,
    action: SessionActionView,
)
    requires
        session.well_formed(),
        session.asked(action),
        requests_ahead(session.stage) > 0,
    ensures
        session.awaits(world.answer(action)),
        requests_ahead(session.after(world.answer(action)).0.stage) < requests_ahead(session.stage),
{
}

/// Whether the request at position `k` goes well.
pub open spec fn goes_well(world: SessionWorld, wishes: WishesView, k: int) -> bool {
    if k == 0 {
        world.initialises
    } else if k == 1 {
        world.adapters matches Some(n) && n > 0
    } else if k == 2 {
        world.finds_device
    } else if k == 3 {
        !(world.properties is Failed)
    } else if k == 4 {
        world.connects
    } else if k == 5 {
        world.discovers
    } else if k == 6 {
        wishes.write_choice(world.characteristics) is Ok && wishes.read_choice(world.characteristics) is Ok
    } else if k == 7 {
        world.subscribes
    } else if k == 8 {
        world.opens_port
    } else if k == 9 {
        world.opens_notifications
    } else {
        true
    }
}

/// The position of the first request, from `k` on, that does not go well; the number of
/// requests where all do.
pub open spec fn first_failure(world: SessionWorld, wishes: WishesView, k: int) -> int
    decreases 13 - k,
{
    if k >= 13 || !goes_well(world, wishes, k) {
        k
    } else {
        first_failure(world, wishes, k + 1)
    }
}

spec fn stage_at(world: SessionWorld, wishes: WishesView, k: int) -> StageView {
    let write_char = wishes.write_choice(world.characteristics)->Ok_0;
    let notify_uuid = wishes.read_choice(world.characteristics)->Ok_0.uuid;
    if k == 0 {
        StageView::Initialising
    } else if k == 1 {
        StageView::ListingAdapters
    } else if k == 2 {
        StageView::FindingDevice
    } else if k == 3 {
        StageView::FetchingProperties
    } else if k == 4 {
        StageView::Connecting
    } else if k == 5 {
        StageView::Discovering
    } else if k == 6 {
        StageView::ReadingCharacteristics
    } else if k == 7 {
        StageView::Subscribing { write_char, notify_uuid }
    } else if k == 8 {
        StageView::OpeningPort { write_char, notify_uuid }
    } else if k == 9 {
        StageView::OpeningNotifications { write_char, notify_uuid }
    } else if k == 10 {
        StageView::Running
    } else if k == 11 {
        StageView::RemovingPort
    } else if k == 12 {
        StageView::Disconnecting
    } else {
        StageView::Over
    }
}

spec fn step_at(world: SessionWorld, wishes: WishesView, k: int) -> (
    SessionView,
    SessionActionView,
) {
    (
        SessionView { wishes, stage: stage_at(world, wishes, k) },
        if k < 13 {
            session_requests(world, wishes)[k]
        } else {
            SessionActionView::Finish
        },
    )
}

proof fn next_step(world: SessionWorld, wishes: WishesView, k: int)
    requires
        0 <= k < 13,
        forall|j: int| 0 <= j < k ==> #[trigger] goes_well(world, wishes, j),
    ensures
        ({
            let step = step_at(world, wishes, k);
            let next = step.0.after(world.answer(step.1));
            &&& requests_ahead(step.0.stage) > 0
            &&& step.0.asked(step.1)
            &&& if goes_well(world, wishes, k) {
                next == step_at(world, wishes, k + 1)
            } else {
                next.0.stage is Over && next.1 == session_outcome(world, wishes)
            }
        }),
{
    assert(k > 0 ==> goes_well(world, wishes, 0));
    assert(k > 1 ==> goes_well(world, wishes, 1));
    assert(k > 2 ==> goes_well(world, wishes, 2));
    assert(k > 3 ==> goes_well(world, wishes, 3));
    assert(k > 4 ==> goes_well(world, wishes, 4));
    assert(k > 5 ==> goes_well(world, wishes, 5));
    assert(k > 6 ==> goes_well(world, wishes, 6));
    assert(k > 7 ==> goes_well(world, wishes, 7));
    assert(k > 8 ==> goes_well(world, wishes, 8));
}

proof fn trace_from(world: SessionWorld, wishes: WishesView, k: int)
    requires
        0 <= k <= 13,
        forall|j: int| 0 <= j < k ==> #[trigger] goes_well(world, wishes, j),
    ensures
        ({
            let failed = first_failure(world, wishes, k);
            let asked = if failed < 13 {
                failed + 1
            } else {
                13
            };
            &&& k <= failed <= 13
            &&& (failed == 13) == (session_outcome(world, wishes) is Finish)
            &&& trace(world, step_at(world, wishes, k)) == session_requests(world, wishes).subrange(
                k,
                asked,
            ).push(session_outcome(world, wishes))
        }),
    decreases 13 - k,
{
    let step = step_at(world, wishes, k);
    let requests = session_requests(world, wishes);
    if k == 13 {
        assert(goes_well(world, wishes, 0) && goes_well(world, wishes, 1) && goes_well(
            world,
            wishes,
            2,
        ) && goes_well(world, wishes, 3) && goes_well(world, wishes, 4) && goes_well(
            world,
            wishes,
            5,
        ) && goes_well(world, wishes, 6) && goes_well(world, wishes, 7) && goes_well(
            world,
            wishes,
            8,
        ) && goes_well(world, wishes, 9));
        assert(requests.subrange(13, 13).push(session_outcome(world, wishes)) =~= seq![step.1]);
    } else {
        next_step(world, wishes, k);
        let next = step.0.after(world.answer(step.1));
        assert(trace(world, step) == seq![step.1] + trace(world, next));
        if goes_well(world, wishes, k) {
            trace_from(world, wishes, k + 1);
            let failed = first_failure(world, wishes, k + 1);
            let asked = if failed < 13 {
                failed + 1
            } else {
                13
            };
            assert(seq![step.1] + requests.subrange(k + 1, asked).push(
                session_outcome(world, wishes),
            ) =~= requests.subrange(k, asked).push(session_outcome(world, wishes)));
        } else {
            assert(trace(world, next) =~= seq![session_outcome(world, wishes)]);
            assert(seq![step.1] + seq![session_outcome(world, wishes)] =~= requests.subrange(
                k,
                k + 1,
            ).push(session_outcome(world, wishes)));
        }
    }
}

/// A session asks for its pieces of work in order, up to the first that goes wrong, and then
/// ends as it is meant to.
pub proof fn session_ends_at_first_failure(world: SessionWorld, wishes: WishesView)
    ensures
        ({
            let taken = trace(world, session_start(wishes));
            let failed = first_failure(world, wishes, 0);
            &&& 0 <= failed <= 13
            &&& taken.last() == session_outcome(world, wishes)
            &&& taken.drop_last() == session_requests(world, wishes).take(
                if failed < 13 {
                    failed + 1
                } else {
                    13
                },
            )
        }),
{
    trace_from(world, wishes, 0);
    assert(step_at(world, wishes, 0) == session_start(wishes));
    let taken = trace(world, session_start(wishes));
    let failed = first_failure(world, wishes, 0);
    assert(taken.drop_last() =~= session_requests(world, wishes).take(
        if failed < 13 {
            failed + 1
        } else {
            13
        },
    ));
}

/// A scan and a connection are given the time that the user wishes.
pub proof fn timeout_is_honoured(world: SessionWorld, wishes: WishesView)
    ensures
        ({
            let taken = trace(world, session_start(wishes));
            forall|i: int|
                0 <= i < taken.len() ==> match #[trigger] taken[i] {
                    SessionActionView::FindDevice { adapter, timeout } => timeout
                        == wishes.timeout,
                    SessionActionView::Connect { name, timeout } => timeout == wishes.timeout,
                    _ => true,
                }
        }),
{
    trace_from(world, wishes, 0);
    assert(step_at(world, wishes, 0) == session_start(wishes));
    let taken = trace(world, session_start(wishes));
    let requests = session_requests(world, wishes);
    assert forall|i: int| 0 <= i < taken.len() implies match #[trigger] taken[i] {
        SessionActionView::FindDevice { adapter, timeout } => timeout == wishes.timeout,
        SessionActionView::Connect { name, timeout } => timeout == wishes.timeout,
        _ => true,
    } by {
        if i < taken.len() - 1 {
            assert(taken[i] == requests[i]);
        }
    }
}

/// A session that starts to relay goes through its whole shutdown, however the relaying ends:
/// it removes the port, then disconnects the device, then is over. One that does not get so
/// far does neither.
pub proof fn shutdown_is_complete(world: SessionWorld, wishes: WishesView)
    ensures
        ({
            let taken = trace(world, session_start(wishes));
            if session_outcome(world, wishes) is Finish {
                taken == session_requests(world, wishes).push(SessionActionView::Finish)
            } else {
                forall|i: int|
                    0 <= i < taken.len() ==> !(#[trigger] taken[i] is Run) && !(
                    taken[i] is RemovePort) && !(taken[i] is Disconnect) && !(taken[i] is Finish)
            }
        }),
{
    trace_from(world, wishes, 0);
    assert(step_at(world, wishes, 0) == session_start(wishes));
    let taken = trace(world, session_start(wishes));
    let requests = session_requests(world, wishes);
    if session_outcome(world, wishes) is Finish {
        assert(taken =~= requests.push(SessionActionView::Finish));
    } else {
        first_failure_goes_wrong(world, wishes, 0);
        let failed = first_failure(world, wishes, 0);
        assert(failed < 10);
        assert forall|i: int| 0 <= i < taken.len() implies !(#[trigger] taken[i] is Run) && !(
        taken[i] is RemovePort) && !(taken[i] is Disconnect) && !(taken[i] is Finish) by {
            if i < taken.len() - 1 {
                assert(taken[i] == requests[i]);
                assert(i < 10);
            }
        }
    }
}

proof fn first_failure_goes_wrong(world: SessionWorld, wishes: WishesView, k: int)
    requires
        0 <= k <= 13,
    ensures
        first_failure(world, wishes, k) < 13 ==> !goes_well(
            world,
            wishes,
            first_failure(world, wishes, k),
        ),
    decreases 13 - k,
{
    if k < 13 && goes_well(world, wishes, k) {
        first_failure_goes_wrong(world, wishes, k + 1);
    }
}

/// What a session subscribes to can notify, what it writes to can be written to as the user
/// wishes, and only notifications from what it subscribed to count.
pub proof fn session_uses_fit_characteristics(world: SessionWorld, wishes: WishesView)
    requires
        session_outcome(world, wishes) is Finish,
    ensures
        ({
            let taken = trace(world, session_start(wishes));
            &&& taken.len() == 14
            &&& taken[7] matches SessionActionView::Subscribe { read_char: listened, write_uuid }
            &&& taken[10] matches SessionActionView::Run { write_char, write_type, notify_uuid }
            &&& world.characteristics.contains(listened)
            &&& listened.properties.has(CharPropFlags { bits: NOTIFY })
            &&& notify_uuid == listened.uuid
            &&& world.characteristics.contains(write_char)
            &&& write_char.properties.has(write_flag_for(wishes.write_with_response))
            &&& write_uuid == write_char.uuid
            &&& write_type == write_type_for(wishes.write_with_response)
        }),
{
    shutdown_is_complete(world, wishes);
    choice_is_fit(
        world.characteristics,
        wishes.write_uuid,
        write_flag_for(wishes.write_with_response),
        "write"@,
    );
    choice_is_fit(
        world.characteristics,
        wishes.read_uuid,
        CharPropFlags { bits: NOTIFY },
        "read"@,
    );
}

/// With a device that has one characteristic for both directions, and no wishes of the user,
/// a session listens to that characteristic and writes to it without response.
pub proof fn one_characteristic_is_used_for_both(
    world: SessionWorld,
    wishes: WishesView,
    x: CharacteristicView,
)
    requires
        wishes.read_uuid is None,
        wishes.write_uuid is None,
        !wishes.write_with_response,
        world.characteristics.contains(x),
        x.uuid == known_uuids()[0],
        x.properties.has(CharPropFlags { bits: WRITE_WITHOUT_RESPONSE }),
        x.properties.has(CharPropFlags { bits: NOTIFY }),
        forall|y: CharacteristicView|
            #[trigger] world.characteristics.contains(y) && y.uuid == x.uuid ==> y == x,
        session_outcome(world, wishes) is Finish,
    ensures
        ({
            let taken = trace(world, session_start(wishes));
            &&& taken[7] == (SessionActionView::Subscribe { read_char: x, write_uuid: x.uuid })
            &&& taken[10] == (SessionActionView::Run {
                write_char: x,
                write_type: WriteType::WithoutResponse,
                notify_uuid: x.uuid,
            })
        }),
{
    shutdown_is_complete(world, wishes);
    one_characteristic_serves_both_directions(world.characteristics, x, "write"@, "read"@);
}

/// In every session that comes to relay, it writes to the characteristic that the user named
/// for writing, and listens to the one that the user named for reading; where the user named
/// none, the UUID is a known one. What it writes to is one of the device's characteristics and
/// has the property for the kind of write that the user wishes; what it listens to is one too,
/// and can notify.
pub proof fn named_characteristics_are_used(world: SessionWorld, wishes: WishesView)
    ensures
        ({
            let taken = trace(world, session_start(wishes));
            forall|i: int|
                0 <= i < taken.len() && #[trigger] taken[i] is Run ==> {
                    let write_char = taken[i]->write_char;
                    let notify_uuid = taken[i]->notify_uuid;
                    &&& wishes.write_uuid matches Some(text) ==> uuid_value(text) == Some(
                        write_char.uuid,
                    )
                    &&& wishes.write_uuid is None ==> known_uuids().contains(write_char.uuid)
                    &&& wishes.read_uuid matches Some(text) ==> uuid_value(text) == Some(
                        notify_uuid,
                    )
                    &&& wishes.read_uuid is None ==> known_uuids().contains(notify_uuid)
                    &&& world.characteristics.contains(write_char)
                    &&& wishes.write_with_response ==> write_char.properties.bits & 0x08 == 0x08
                        && taken[i]->write_type == WriteType::WithResponse
                    &&& !wishes.write_with_response ==> write_char.properties.bits & 0x04 == 0x04
                        && taken[i]->write_type == WriteType::WithoutResponse
                    &&& exists|k: int|
                        #[trigger] fits_at(
                            world.characteristics,
                            k,
                            notify_uuid,
                            CharPropFlags { bits: 0x10 },
                        )
                }
        }),
{
    shutdown_is_complete(world, wishes);
    let taken = trace(world, session_start(wishes));
    let requests = session_requests(world, wishes);
    if session_outcome(world, wishes) is Finish {
        choice_is_fit(
            world.characteristics,
            wishes.write_uuid,
            write_flag_for(wishes.write_with_response),
            "write"@,
        );
        choice_is_fit(
            world.characteristics,
            wishes.read_uuid,
            CharPropFlags { bits: NOTIFY },
            "read"@,
        );
        let read_char = wishes.read_choice(world.characteristics)->Ok_0;
        let k = choose|k: int|
            0 <= k < world.characteristics.len() && world.characteristics[k] == read_char;
        assert(fits_at(world.characteristics, k, read_char.uuid, CharPropFlags { bits: 0x10 }));
        assert forall|i: int| 0 <= i < taken.len() && #[trigger] taken[i] is Run implies i == 10 by {
            if i < 13 {
                assert(taken[i] == requests[i]);
            }
        }
    }
}

/// What a session has subscribed to is what it listens to while it relays, and it is told of
/// what will be written to.
pub proof fn session_listens_to_what_it_subscribed(world: SessionWorld, wishes: WishesView)
    ensures
        ({
            let taken = trace(world, session_start(wishes));
            forall|i: int|
                0 <= i < taken.len() && #[trigger] taken[i] is Run ==> {
                    &&& i == 10
                    &&& taken[7] is Subscribe
                    &&& taken[7]->read_char.uuid == taken[i]->notify_uuid
                    &&& taken[7]->write_uuid == taken[i]->write_char.uuid
                    &&& world.characteristics.contains(taken[7]->read_char)
                    &&& taken[7]->read_char.properties.bits & 0x10 == 0x10
                }
        }),
{
    shutdown_is_complete(world, wishes);
    let taken = trace(world, session_start(wishes));
    let requests = session_requests(world, wishes);
    if session_outcome(world, wishes) is Finish {
        choice_is_fit(
            world.characteristics,
            wishes.read_uuid,
            CharPropFlags { bits: NOTIFY },
            "read"@,
        );
        assert forall|i: int| 0 <= i < taken.len() && #[trigger] taken[i] is Run implies i == 10 by {
            if i < 13 {
                assert(taken[i] == requests[i]);
            }
        }
    }
}

/// The session has come as far as the characteristics of a connected device.
pub open spec fn reaches_characteristics(world: SessionWorld) -> bool {
    &&& world.initialises
    &&& world.adapters matches Some(n) && n > 0
    &&& world.finds_device
    &&& !(world.properties is Failed)
    &&& world.connects
    &&& world.discovers
}

/// A characteristic that the user named for writing is never replaced by another: where no
/// characteristic has that UUID along with the property for the kind of write that the user
/// wishes, the session fails and says so.
pub proof fn named_write_characteristic_must_fit(
    world: SessionWorld,
    wishes: WishesView,
    text: Seq<char>,
    required: CharPropFlags,
)
    requires
        wishes.write_uuid == Some(text),
        reaches_characteristics(world),
        wishes.write_with_response ==> required.bits == 0x08,
        !wishes.write_with_response ==> required.bits == 0x04,
    ensures
        ({
            let end = trace(world, session_start(wishes)).last();
            match uuid_value(text) {
                None => end == SessionActionView::Fail(
                    ErrorView::InvalidUuid {
                        label: "write"@,
                        text,
                        cause: uuid_parse_error(text),
                    },
                ),
                Some(uuid) => (forall|k: int|
                    !#[trigger] fits_at(world.characteristics, k, uuid, required)) ==> end
                    == SessionActionView::Fail(ErrorView::MissingProperty { text, required }),
            }
        }),
{
    session_ends_at_first_failure(world, wishes);
    given_uuid_decides(
        world.characteristics,
        text,
        write_flag_for(wishes.write_with_response),
        "write"@,
    );
}

/// A characteristic that the user named for reading is never replaced by another: where no
/// characteristic has that UUID and can notify, a session that has something to write to fails
/// and says so.
pub proof fn named_read_characteristic_must_fit(
    world: SessionWorld,
    wishes: WishesView,
    text: Seq<char>,
    write_bit: u8,
)
    requires
        wishes.read_uuid == Some(text),
        reaches_characteristics(world),
        wishes.write_with_response ==> write_bit == 0x08,
        !wishes.write_with_response ==> write_bit == 0x04,
    ensures
        ({
            let taken = trace(world, session_start(wishes));
            let end = taken.last();
            let required = CharPropFlags { bits: 0x10 };
            let unfit = uuid_value(text) matches Some(uuid) ==> forall|k: int|
                !#[trigger] fits_at(world.characteristics, k, uuid, required);
            unfit ==> {
                &&& end is Fail
                &&& forall|i: int|
                    0 <= i < taken.len() ==> !(#[trigger] taken[i] is Run) && !(
                    taken[i] is Subscribe)
                &&& one_fits(world.characteristics, wishes.write_uuid, write_bit) ==> end
                    == SessionActionView::Fail(
                    if uuid_value(text) is None {
                        ErrorView::InvalidUuid {
                            label: "read"@,
                            text,
                            cause: uuid_parse_error(text),
                        }
                    } else {
                        ErrorView::MissingProperty { text, required }
                    },
                )
            }
        }),
{
    session_ends_at_first_failure(world, wishes);
    given_uuid_decides(world.characteristics, text, CharPropFlags { bits: NOTIFY }, "read"@);
    choice_succeeds(
        world.characteristics,
        wishes.write_uuid,
        write_flag_for(wishes.write_with_response),
        "write"@,
    );
    let taken = trace(world, session_start(wishes));
    let requests = session_requests(world, wishes);
    let unfit = uuid_value(text) matches Some(uuid) ==> forall|k: int|
        !#[trigger] fits_at(world.characteristics, k, uuid, CharPropFlags { bits: 0x10 });
    if unfit {
        trace_from(world, wishes, 0);
        assert(step_at(world, wishes, 0) == session_start(wishes));
        assert(!goes_well(world, wishes, 6));
        assert(first_failure(world, wishes, 0) <= 6) by {
            first_failure_at_most(world, wishes, 0, 6);
        }
        assert forall|i: int| 0 <= i < taken.len() implies !(#[trigger] taken[i] is Run) && !(
        taken[i] is Subscribe) by {
            if i < taken.len() - 1 {
                assert(taken[i] == requests[i]);
            }
        }
    }
}

proof fn first_failure_at_most(world: SessionWorld, wishes: WishesView, k: int, at: int)
    requires
        0 <= k <= at < 13,
        !goes_well(world, wishes, at),
    ensures
        first_failure(world, wishes, k) <= at,
    decreases at - k,
{
    if goes_well(world, wishes, k) {
        first_failure_at_most(world, wishes, k + 1, at);
    }
}

/// Where the user named no characteristic and none of the device's has a known UUID along with
/// the property that is needed, the session fails and says for which direction.
pub proof fn unknown_device_is_refused(
    world: SessionWorld,
    wishes: WishesView,
    required: CharPropFlags,
)
    requires
        reaches_characteristics(world),
        wishes.write_with_response ==> required.bits == 0x08,
        !wishes.write_with_response ==> required.bits == 0x04,
    ensures
        ({
            let end = trace(world, session_start(wishes)).last();
            &&& (wishes.write_uuid is None && forall|r: int, k: int|
                0 <= r < 7 ==> !#[trigger] fits_at(
                    world.characteristics,
                    k,
                    known_uuids()[r],
                    required,
                )) ==> end == SessionActionView::Fail(
                ErrorView::NoKnownCharacteristic { label: "write"@ },
            )
            &&& (one_fits(world.characteristics, wishes.write_uuid, required.bits)
                && wishes.read_uuid is None && forall|r: int, k: int|
                0 <= r < 7 ==> !#[trigger] fits_at(
                    world.characteristics,
                    k,
                    known_uuids()[r],
                    CharPropFlags { bits: 0x10 },
                )) ==> end == SessionActionView::Fail(
                ErrorView::NoKnownCharacteristic { label: "read"@ },
            )
        }),
{
    session_ends_at_first_failure(world, wishes);
    detection_decides(
        world.characteristics,
        write_flag_for(wishes.write_with_response),
        "write"@,
    );
    detection_decides(world.characteristics, CharPropFlags { bits: NOTIFY }, "read"@);
    choice_succeeds(
        world.characteristics,
        wishes.write_uuid,
        write_flag_for(wishes.write_with_response),
        "write"@,
    );
}

/// Some characteristic has the UUID that the user gave, or a known one where the user gave
/// none, along with the property in `bit`.
pub open spec fn one_fits(
    s: Seq<CharacteristicView>,
    given: Option<Seq<char>>,
    bit: u8,
) -> bool {
    exists|k: int, uuid: u128|
        #[trigger] fits_at(s, k, uuid, CharPropFlags { bits: bit }) && match given {
            Some(text) => uuid_value(text) == Some(uuid),
            None => known_uuids().contains(uuid),
        }
}

proof fn choice_succeeds(
    s: Seq<CharacteristicView>,
    given: Option<Seq<char>>,
    required: CharPropFlags,
    label: Seq<char>,
)
    ensures
        crate::uart::chosen_char(s, given, required, label) is Ok == one_fits(
            s,
            given,
            required.bits,
        ),
{
    match given {
        Some(text) => {
            given_uuid_decides(s, text, required, label);
        },
        None => {
            detection_decides(s, required, label);
            if one_fits(s, given, required.bits) {
                let (k, uuid) = choose|k: int, uuid: u128|
                    #[trigger] fits_at(s, k, uuid, CharPropFlags { bits: required.bits })
                        && known_uuids().contains(uuid);
                let r = choose|r: int| 0 <= r < known_uuids().len() && known_uuids()[r] == uuid;
                assert(fits_at(s, k, known_uuids()[r], required));
            }
            if let Ok(c) = crate::uart::chosen_char(s, given, required, label) {
                let (rank, i) = choose|rank: int, i: int|
                    0 <= rank < 7 && #[trigger] fits_at(s, i, known_uuids()[rank], required)
                        && s[i] == c;
                assert(known_uuids().contains(known_uuids()[rank]));
                assert(fits_at(s, i, known_uuids()[rank], CharPropFlags { bits: required.bits }));
            }
        },
    }
}

/// A session comes to relay and to its orderly end just where nothing outside fails and the
/// device has a fit characteristic for each direction.
pub proof fn session_succeeds_just_where_it_can(
    world: SessionWorld,
    wishes: WishesView,
    write_bit: u8,
)
    requires
        wishes.write_with_response ==> write_bit == 0x08,
        !wishes.write_with_response ==> write_bit == 0x04,
    ensures
        ({
            let taken = trace(world, session_start(wishes));
            (taken.last() is Finish) == (reaches_characteristics(world) && one_fits(
                world.characteristics,
                wishes.write_uuid,
                write_bit,
            ) && one_fits(world.characteristics, wishes.read_uuid, 0x10) && world.subscribes
                && world.opens_port && world.opens_notifications)
        }),
{
    session_ends_at_first_failure(world, wishes);
    choice_succeeds(
        world.characteristics,
        wishes.write_uuid,
        write_flag_for(wishes.write_with_response),
        "write"@,
    );
    choice_succeeds(
        world.characteristics,
        wishes.read_uuid,
        CharPropFlags { bits: NOTIFY },
        "read"@,
    );
}

/// What goes wrong outside is told by its own error, and nothing more is asked for after it.
pub proof fn each_failure_is_told(world: SessionWorld, wishes: WishesView, write_bit: u8)
    requires
        wishes.write_with_response ==> write_bit == 0x08,
        !wishes.write_with_response ==> write_bit == 0x04,
    ensures
        ({
            let taken = trace(world, session_start(wishes));
            let end = taken.last();
            let adapter = world.initialises && (world.adapters matches Some(n) && n > 0);
            let device = adapter && world.finds_device && !(world.properties is Failed);
            let chosen = reaches_characteristics(world) && one_fits(
                world.characteristics,
                wishes.write_uuid,
                write_bit,
            ) && one_fits(world.characteristics, wishes.read_uuid, 0x10);
            &&& reaches_characteristics(world) && !chosen ==> end is Fail && taken.len() == 8
            &&& !world.initialises ==> end == SessionActionView::Fail(ErrorView::Bluetooth)
                && taken.len() == 2
            &&& world.initialises && world.adapters is None ==> end == SessionActionView::Fail(
                ErrorView::ListAdapters,
            ) && taken.len() == 3
            &&& world.initialises && world.adapters == Some(0nat) ==> end
                == SessionActionView::Fail(ErrorView::NoAdapter) && taken.len() == 3
            &&& adapter && !world.finds_device ==> end is Propagate && taken.len() == 4
            &&& adapter && world.finds_device && world.properties is Failed ==> end is Propagate
                && taken.len() == 5
            &&& device && !world.connects ==> end == SessionActionView::Fail(ErrorView::Connect)
                && taken.len() == 6
            &&& device && world.connects && !world.discovers ==> end == SessionActionView::Fail(
                ErrorView::DiscoverServices,
            ) && taken.len() == 7
            &&& chosen && !world.subscribes ==> end == SessionActionView::Fail(
                ErrorView::Subscribe,
            ) && taken.len() == 9
            &&& chosen && world.subscribes && !world.opens_port ==> end is Propagate && taken.len()
                == 10
            &&& chosen && world.subscribes && world.opens_port && !world.opens_notifications
                ==> end is Propagate && taken.len() == 11
        }),
{
    trace_from(world, wishes, 0);
    assert(step_at(world, wishes, 0) == session_start(wishes));
    reveal_with_fuel(first_failure, 14);
    choice_succeeds(
        world.characteristics,
        wishes.write_uuid,
        write_flag_for(wishes.write_with_response),
        "write"@,
    );
    choice_succeeds(
        world.characteristics,
        wishes.read_uuid,
        CharPropFlags { bits: NOTIFY },
        "read"@,
    );
}

/// A session asks for its pieces of work in one order. It uses the first adapter, connects the
/// device by the name that it advertises or else by its identifier, subscribes before it opens
/// the port, and relays only once both the port and the notifications are open.
pub proof fn session_keeps_its_order(world: SessionWorld, wishes: WishesView)
    ensures
        ({
            let taken = trace(world, session_start(wishes));
            let n = taken.len() - 1;
            &&& 1 <= n <= 13
            &&& taken[n] is Fail || taken[n] is Propagate || taken[n] is Finish
            &&& taken[0] is InitBluetooth
            &&& n > 1 ==> taken[1] is ListAdapters
            &&& n > 2 ==> taken[2] == (SessionActionView::FindDevice {
                adapter: 0,
                timeout: wishes.timeout,
            })
            &&& n > 3 ==> taken[3] is FetchProperties
            &&& n > 4 ==> taken[4] is Connect && taken[4]->Connect_timeout == wishes.timeout
            &&& n > 4 ==> match world.properties {
                ReplyView::Known(p) => match p.local_name {
                    Some(name) => taken[4]->name == name,
                    None => taken[4]->name == world.id,
                },
                _ => taken[4]->name == world.id,
            }
            &&& n > 5 ==> taken[5] is DiscoverServices
            &&& n > 6 ==> taken[6] is ReadCharacteristics
            &&& n > 7 ==> taken[7] is Subscribe
            &&& n > 8 ==> taken[8] is OpenPort
            &&& n > 9 ==> taken[9] is OpenNotifications
            &&& n > 10 ==> taken[10] is Run && taken[11] is RemovePort && taken[12] is Disconnect
                && taken[13] is Finish && n == 13
        }),
{
    trace_from(world, wishes, 0);
    assert(step_at(world, wishes, 0) == session_start(wishes));
    first_failure_goes_wrong(world, wishes, 0);
    let taken = trace(world, session_start(wishes));
    let requests = session_requests(world, wishes);
    assert forall|i: int| 0 <= i < taken.len() - 1 implies #[trigger] taken[i] == requests[i] by {}
}

/// `c` is the first characteristic with the property in `bit` and with the UUID that the user
/// gave; or, where the user gave none, with a known UUID such that nothing with that property
/// has a better ranked one.
pub open spec fn is_best(
    s: Seq<CharacteristicView>,
    given: Option<Seq<char>>,
    bit: u8,
    c: CharacteristicView,
) -> bool {
    let required = CharPropFlags { bits: bit };
    &&& exists|i: int|
        {
            &&& #[trigger] fits_at(s, i, c.uuid, required)
            &&& s[i] == c
            &&& forall|j: int| j < i ==> !#[trigger] fits_at(s, j, c.uuid, required)
        }
    &&& given matches Some(text) ==> uuid_value(text) == Some(c.uuid)
    &&& given is None ==> exists|rank: int|
        {
            &&& 0 <= rank < 7
            &&& #[trigger] known_uuids()[rank] == c.uuid
            &&& forall|r: int, j: int|
                0 <= r < rank ==> !#[trigger] fits_at(s, j, known_uuids()[r], required)
        }
}

proof fn choice_is_best(
    s: Seq<CharacteristicView>,
    given: Option<Seq<char>>,
    required: CharPropFlags,
    label: Seq<char>,
)
    ensures
        crate::uart::chosen_char(s, given, required, label) matches Ok(c) ==> is_best(
            s,
            given,
            required.bits,
            c,
        ),
{
    if let Ok(c) = crate::uart::chosen_char(s, given, required, label) {
        assert(required == CharPropFlags { bits: required.bits });
        match given {
            Some(text) => {
                given_uuid_decides(s, text, required, label);
            },
            None => {
                detection_decides(s, required, label);
                let (rank, i) = choose|rank: int, i: int|
                    {
                        &&& 0 <= rank < 7
                        &&& #[trigger] fits_at(s, i, known_uuids()[rank], required)
                        &&& s[i] == c
                        &&& forall|j: int|
                            j < i ==> !#[trigger] fits_at(s, j, known_uuids()[rank], required)
                        &&& forall|r: int, j: int|
                            0 <= r < rank ==> !#[trigger] fits_at(s, j, known_uuids()[r], required)
                    };
                assert(known_uuids()[rank] == c.uuid);
                assert(fits_at(s, i, c.uuid, required));
            },
        }
    }
}

/// A session chooses for each direction on its own: what it writes to goes by what the user
/// gave for writing alone, what it subscribes to by what the user gave for reading alone, and
/// each is the best that the device has.
pub proof fn each_direction_gets_its_best(
    world: SessionWorld,
    wishes: WishesView,
    write_bit: u8,
)
    requires
        wishes.write_with_response ==> write_bit == 0x08,
        !wishes.write_with_response ==> write_bit == 0x04,
    ensures
        ({
            let taken = trace(world, session_start(wishes));
            forall|i: int|
                0 <= i < taken.len() ==> match #[trigger] taken[i] {
                    SessionActionView::Run { write_char, .. } => is_best(
                        world.characteristics,
                        wishes.write_uuid,
                        write_bit,
                        write_char,
                    ),
                    SessionActionView::Subscribe { read_char, .. } => is_best(
                        world.characteristics,
                        wishes.read_uuid,
                        0x10,
                        read_char,
                    ),
                    _ => true,
                }
        }),
{
    trace_from(world, wishes, 0);
    assert(step_at(world, wishes, 0) == session_start(wishes));
    let taken = trace(world, session_start(wishes));
    let requests = session_requests(world, wishes);
    choice_is_best(
        world.characteristics,
        wishes.write_uuid,
        write_flag_for(wishes.write_with_response),
        "write"@,
    );
    choice_is_best(
        world.characteristics,
        wishes.read_uuid,
        CharPropFlags { bits: NOTIFY },
        "read"@,
    );
    assert forall|i: int| 0 <= i < taken.len() implies match #[trigger] taken[i] {
        SessionActionView::Run { write_char, .. } => is_best(
            world.characteristics,
            wishes.write_uuid,
            write_bit,
            write_char,
        ),
        SessionActionView::Subscribe { read_char, .. } => is_best(
            world.characteristics,
            wishes.read_uuid,
            0x10,
            read_char,
        ),
        _ => true,
    } by {
        let failed = first_failure(world, wishes, 0);
        if i < taken.len() - 1 {
            assert(taken[i] == requests[i]);
            if i >= 7 {
                if !goes_well(world, wishes, 6) {
                    first_failure_at_most(world, wishes, 0, 6);
                }
            }
        }
    }
}

} // verus!
