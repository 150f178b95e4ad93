//! A whole session, from the Bluetooth adapter to the shutdown.
//!
//! The session asks for one piece of outside work at a time and decides what to do next from
//! the answer.

use crate::error::{Error, ErrorView};
use crate::gatt::{
    CharPropFlags, Characteristic, CharacteristicSet, CharacteristicView, WriteType, NOTIFY, WRITE,
    WRITE_WITHOUT_RESPONSE,
};
use crate::scan::{PropertiesReply, ReplyView};
use crate::text::{string_option, text_option};
use crate::uart::{choice_is_fit, chosen_char, find_char};
use std::time::Duration;
use vstd::pervasive::unreached;
use vstd::prelude::*;

verus! {

/// The log filter for a number of `-v` flags: one shows the bridge's own details, two those
/// of the Bluetooth stack as well.
pub fn log_filter(verbose: u8) -> (filter: &'static str)
    ensures
        filter@ == (if verbose == 0 {
            "info,btleplug=warn"@
        } else if verbose == 1 {
            "debug,btleplug=warn"@
        } else {
            "debug,btleplug=debug"@
        }),
{
    match verbose {
        0 => "info,btleplug=warn",
        1 => "debug,btleplug=warn",
        _ => "debug,btleplug=debug",
    }
}

/// The property that the characteristic to write to must have.
pub open spec fn write_flag_for(with_response: bool) -> CharPropFlags {
    CharPropFlags {
        bits: if with_response {
            WRITE
        } else {
            WRITE_WITHOUT_RESPONSE
        },
    }
}

/// How values are written.
pub open spec fn write_type_for(with_response: bool) -> WriteType {
    if with_response {
        WriteType::WithResponse
    } else {
        WriteType::WithoutResponse
    }
}

/// The property that the characteristic to write to must have, and how it is written to.
pub fn write_mode(with_response: bool) -> (mode: (CharPropFlags, WriteType))
    ensures
        mode.0 == write_flag_for(with_response),
        mode.1 == write_type_for(with_response),
        with_response ==> mode.0.bits == 0x08 && mode.1 == WriteType::WithResponse,
        !with_response ==> mode.0.bits == 0x04 && mode.1 == WriteType::WithoutResponse,
{
    if with_response {
        (CharPropFlags::write(), WriteType::WithResponse)
    } else {
        (CharPropFlags::write_without_response(), WriteType::WithoutResponse)
    }
}

/// The name that a device goes by: the one it advertises, or else its identifier.
pub open spec fn device_name(id: Seq<char>, reply: ReplyView) -> Seq<char> {
    match reply {
        ReplyView::Known(p) => match p.local_name {
            Some(name) => name,
            None => id,
        },
        _ => id,
    }
}

/// The answer to a request of the session.
#[derive(Debug)]
pub enum SessionEvent {
    /// Whether the Bluetooth stack could be set up.
    Initialised(bool),
    /// How many adapters there are, where they could be listed.
    Adapters(Option<usize>),
    /// Whether a device was found.
    DeviceFound(bool),
    /// The identifier of the device, and what is known of it.
    Properties { id: String, reply: PropertiesReply },
    Connected(bool),
    Discovered(bool),
    Characteristics(CharacteristicSet),
    Subscribed(bool),
    PortOpened(bool),
    NotificationsOpened(bool),
    /// One of the relays ended, or the user asked for the end.
    Ended,
    /// The port was removed, or could not be.
    PortRemoved,
    /// The device was disconnected, or could not be.
    Disconnected,
}

pub enum SessionEventView {
    Initialised(bool),
    Adapters(Option<nat>),
    DeviceFound(bool),
    Properties { id: Seq<char>, reply: ReplyView },
    Connected(bool),
    Discovered(bool),
    Characteristics(Seq<CharacteristicView>),
    Subscribed(bool),
    PortOpened(bool),
    NotificationsOpened(bool),
    Ended,
    PortRemoved,
    Disconnected,
}

impl View for SessionEvent {
    type V = SessionEventView;

    open spec fn view(&self) -> SessionEventView {
        match self {
            SessionEvent::Initialised(ok) => SessionEventView::Initialised(*ok),
            SessionEvent::Adapters(Some(n)) => SessionEventView::Adapters(Some(*n as nat)),
            SessionEvent::Adapters(None) => SessionEventView::Adapters(None),
            SessionEvent::DeviceFound(ok) => SessionEventView::DeviceFound(*ok),
            SessionEvent::Properties { id, reply } => SessionEventView::Properties {
                id: id@,
                reply: reply@,
            },
            SessionEvent::Connected(ok) => SessionEventView::Connected(*ok),
            SessionEvent::Discovered(ok) => SessionEventView::Discovered(*ok),
            SessionEvent::Characteristics(chars) => SessionEventView::Characteristics(chars@),
            SessionEvent::Subscribed(ok) => SessionEventView::Subscribed(*ok),
            SessionEvent::PortOpened(ok) => SessionEventView::PortOpened(*ok),
            SessionEvent::NotificationsOpened(ok) => SessionEventView::NotificationsOpened(*ok),
            SessionEvent::Ended => SessionEventView::Ended,
            SessionEvent::PortRemoved => SessionEventView::PortRemoved,
            SessionEvent::Disconnected => SessionEventView::Disconnected,
        }
    }
}

/// What the session asks for next, or how it ends.
#[derive(Debug, PartialEq, Eq)]
pub enum SessionAction {
    InitBluetooth,
    ListAdapters,
    /// Find a device with the adapter at this position in the list; a scan lasts for
    /// `timeout`.
    FindDevice { adapter: usize, timeout: Duration },
    FetchProperties,
    /// Connect the device, which goes by this name; the connection fails if it takes longer
    /// than `timeout`.
    Connect { name: String, timeout: Duration },
    DiscoverServices,
    ReadCharacteristics,
    /// Have the device notify of changes to `read_char`; `write_uuid` is what will be written
    /// to.
    Subscribe { read_char: Characteristic, write_uuid: u128 },
    OpenPort,
    OpenNotifications,
    /// Relay until one of the relays ends or the user asks for the end: notifications from
    /// `notify_uuid` to the port, and what the port brings in to `write_char`.
    Run { write_char: Characteristic, write_type: WriteType, notify_uuid: u128 },
    RemovePort,
    Disconnect,
    /// The session is over.
    Finish,
    Fail(Error),
    /// Fail with the error of the last request as it is.
    Propagate,
}

pub enum SessionActionView {
    InitBluetooth,
    ListAdapters,
    FindDevice { adapter: nat, timeout: Duration },
    FetchProperties,
    Connect { name: Seq<char>, timeout: Duration },
    DiscoverServices,
    ReadCharacteristics,
    Subscribe { read_char: CharacteristicView, write_uuid: u128 },
    OpenPort,
    OpenNotifications,
    Run { write_char: CharacteristicView, write_type: WriteType, notify_uuid: u128 },
    RemovePort,
    Disconnect,
    Finish,
    Fail(ErrorView),
    Propagate,
}

impl View for SessionAction {
    type V = SessionActionView;

    open spec fn view(&self) -> SessionActionView {
        match self {
            SessionAction::InitBluetooth => SessionActionView::InitBluetooth,
            SessionAction::ListAdapters => SessionActionView::ListAdapters,
            SessionAction::FindDevice { adapter, timeout } => SessionActionView::FindDevice {
                adapter: *adapter as nat,
                timeout: *timeout,
            },
            SessionAction::FetchProperties => SessionActionView::FetchProperties,
            SessionAction::Connect { name, timeout } => SessionActionView::Connect {
                name: name@,
                timeout: *timeout,
            },
            SessionAction::DiscoverServices => SessionActionView::DiscoverServices,
            SessionAction::ReadCharacteristics => SessionActionView::ReadCharacteristics,
            SessionAction::Subscribe { read_char, write_uuid } => SessionActionView::Subscribe {
                read_char: read_char@,
                write_uuid: *write_uuid,
            },
            SessionAction::OpenPort => SessionActionView::OpenPort,
            SessionAction::OpenNotifications => SessionActionView::OpenNotifications,
            SessionAction::Run { write_char, write_type, notify_uuid } => SessionActionView::Run {
                write_char: write_char@,
                write_type: *write_type,
                notify_uuid: *notify_uuid,
            },
            SessionAction::RemovePort => SessionActionView::RemovePort,
            SessionAction::Disconnect => SessionActionView::Disconnect,
            SessionAction::Finish => SessionActionView::Finish,
            SessionAction::Fail(e) => SessionActionView::Fail(e@),
            SessionAction::Propagate => SessionActionView::Propagate,
        }
    }
}

/// How far a session has come: the request that it waits on.
#[derive(Debug)]
enum Stage {
    Initialising,
    ListingAdapters,
    FindingDevice,
    FetchingProperties,
    Connecting,
    Discovering,
    ReadingCharacteristics,
    Subscribing { write_char: Characteristic, notify_uuid: u128 },
    OpeningPort { write_char: Characteristic, notify_uuid: u128 },
    OpeningNotifications { write_char: Characteristic, notify_uuid: u128 },
    Running,
    RemovingPort,
    Disconnecting,
    Over,
}

pub enum StageView {
    Initialising,
    ListingAdapters,
    FindingDevice,
    FetchingProperties,
    Connecting,
    Discovering,
    ReadingCharacteristics,
    Subscribing { write_char: CharacteristicView, notify_uuid: u128 },
    OpeningPort { write_char: CharacteristicView, notify_uuid: u128 },
    OpeningNotifications { write_char: CharacteristicView, notify_uuid: u128 },
    Running,
    RemovingPort,
    Disconnecting,
    Over,
}

impl View for Stage {
    type V = StageView;

    closed spec fn view(&self) -> StageView {
        match self {
            Stage::Initialising => StageView::Initialising,
            Stage::ListingAdapters => StageView::ListingAdapters,
            Stage::FindingDevice => StageView::FindingDevice,
            Stage::FetchingProperties => StageView::FetchingProperties,
            Stage::Connecting => StageView::Connecting,
            Stage::Discovering => StageView::Discovering,
            Stage::ReadingCharacteristics => StageView::ReadingCharacteristics,
            Stage::Subscribing { write_char, notify_uuid } => StageView::Subscribing {
                write_char: write_char@,
                notify_uuid: *notify_uuid,
            },
            Stage::OpeningPort { write_char, notify_uuid } => StageView::OpeningPort {
                write_char: write_char@,
                notify_uuid: *notify_uuid,
            },
            Stage::OpeningNotifications { write_char, notify_uuid } =>
                StageView::OpeningNotifications {
                write_char: write_char@,
                notify_uuid: *notify_uuid,
            },
            Stage::Running => StageView::Running,
            Stage::RemovingPort => StageView::RemovingPort,
            Stage::Disconnecting => StageView::Disconnecting,
            Stage::Over => StageView::Over,
        }
    }
}

/// What the user asked for in a session.
#[derive(Debug)]
struct Wishes {
    read_uuid: Option<String>,
    write_uuid: Option<String>,
    write_with_response: bool,
    /// How long to scan, and how long a connection may take.
    timeout: Duration,
}

pub struct WishesView {
    pub read_uuid: Option<Seq<char>>,
    pub write_uuid: Option<Seq<char>>,
    pub write_with_response: bool,
    pub timeout: Duration,
}

impl WishesView {
    /// The characteristic to write to.
    pub open spec fn write_choice(self, chars: Seq<CharacteristicView>) -> Result<
        CharacteristicView,
        ErrorView,
    > {
        chosen_char(
            chars,
            self.write_uuid,
            write_flag_for(self.write_with_response),
            "write"@,
        )
    }

    /// The characteristic that notifies.
    pub open spec fn read_choice(self, chars: Seq<CharacteristicView>) -> Result<
        CharacteristicView,
        ErrorView,
    > {
        chosen_char(chars, self.read_uuid, CharPropFlags { bits: NOTIFY }, "read"@)
    }
}

/// A session.
#[derive(Debug)]
pub struct Session {
    wishes: Wishes,
    stage: Stage,
}

pub struct SessionView {
    pub wishes: WishesView,
    pub stage: StageView,
}

impl View for Wishes {
    type V = WishesView;

    closed spec fn view(&self) -> WishesView {
        WishesView {
            read_uuid: string_option(self.read_uuid),
            write_uuid: string_option(self.write_uuid),
            write_with_response: self.write_with_response,
            timeout: self.timeout,
        }
    }
}

impl View for Session {
    type V = SessionView;

    closed spec fn view(&self) -> SessionView {
        SessionView { wishes: self.wishes@, stage: self.stage@ }
    }
}

impl SessionView {
    /// Waits in stage `stage`, having asked for `action`.
    pub open spec fn ask(self, stage: StageView, action: SessionActionView) -> (
        SessionView,
        SessionActionView,
    ) {
        (SessionView { stage, ..self }, action)
    }

    /// Ends with `action`.
    pub open spec fn end(self, action: SessionActionView) -> (SessionView, SessionActionView) {
        self.ask(StageView::Over, action)
    }

    /// Goes on if the last request succeeded, and ends with `failure` if not.
    pub open spec fn go_on(
        self,
        ok: bool,
        failure: SessionActionView,
        stage: StageView,
        action: SessionActionView,
    ) -> (SessionView, SessionActionView) {
        if ok {
            self.ask(stage, action)
        } else {
            self.end(failure)
        }
    }

    /// The event answers the request that the session waits on.
    pub open spec fn awaits(self, event: SessionEventView) -> bool {
        match self.stage {
            StageView::Initialising => event is Initialised,
            StageView::ListingAdapters => event is Adapters,
            StageView::FindingDevice => event is DeviceFound,
            StageView::FetchingProperties => event is Properties,
            StageView::Connecting => event is Connected,
            StageView::Discovering => event is Discovered,
            StageView::ReadingCharacteristics => event is Characteristics,
            StageView::Subscribing { write_char, notify_uuid } => event is Subscribed,
            StageView::OpeningPort { write_char, notify_uuid } => event is PortOpened,
            StageView::OpeningNotifications { write_char, notify_uuid } =>
                event is NotificationsOpened,
            StageView::Running => event is Ended,
            StageView::RemovingPort => event is PortRemoved,
            StageView::Disconnecting => event is Disconnected,
            StageView::Over => false,
        }
    }

    /// The session has asked for `action`, and waits for the answer to just that; or it is
    /// over and `action` says how it ended.
    pub open spec fn asked(self, action: SessionActionView) -> bool {
        match self.stage {
            StageView::Initialising => action is InitBluetooth,
            StageView::ListingAdapters => action is ListAdapters,
            StageView::FindingDevice => {
                action matches SessionActionView::FindDevice { adapter, timeout } && timeout
                    == self.wishes.timeout
            },
            StageView::FetchingProperties => action is FetchProperties,
            StageView::Connecting => {
                action matches SessionActionView::Connect { name, timeout } && timeout
                    == self.wishes.timeout
            },
            StageView::Discovering => action is DiscoverServices,
            StageView::ReadingCharacteristics => action is ReadCharacteristics,
            StageView::Subscribing { write_char, notify_uuid } => {
                action matches SessionActionView::Subscribe { read_char, write_uuid }
                    && read_char.uuid == notify_uuid && write_uuid == write_char.uuid
            },
            StageView::OpeningPort { write_char, notify_uuid } => action is OpenPort,
            StageView::OpeningNotifications { write_char, notify_uuid } =>
                action is OpenNotifications,
            StageView::Running => action is Run,
            StageView::RemovingPort => action is RemovePort,
            StageView::Disconnecting => action is Disconnect,
            StageView::Over => action is Finish || action is Fail || action is Propagate,
        }
    }

    /// What the session does on an answer.
    pub open spec fn after(self, event: SessionEventView) -> (SessionView, SessionActionView) {
        match (self.stage, event) {
            (_, SessionEventView::Initialised(ok)) => self.go_on(
                ok,
                SessionActionView::Fail(ErrorView::Bluetooth),
                StageView::ListingAdapters,
                SessionActionView::ListAdapters,
            ),
            (_, SessionEventView::Adapters(None)) => self.end(
                SessionActionView::Fail(ErrorView::ListAdapters),
            ),
            (_, SessionEventView::Adapters(Some(n))) => self.go_on(
                n > 0,
                SessionActionView::Fail(ErrorView::NoAdapter),
                StageView::FindingDevice,
                SessionActionView::FindDevice { adapter: 0, timeout: self.wishes.timeout },
            ),
            (_, SessionEventView::DeviceFound(ok)) => self.go_on(
                ok,
                SessionActionView::Propagate,
                StageView::FetchingProperties,
                SessionActionView::FetchProperties,
            ),
            (_, SessionEventView::Properties { id, reply }) => self.go_on(
                !(reply is Failed),
                SessionActionView::Propagate,
                StageView::Connecting,
                SessionActionView::Connect {
                    name: device_name(id, reply),
                    timeout: self.wishes.timeout,
                },
            ),
            (_, SessionEventView::Connected(ok)) => self.go_on(
                ok,
                SessionActionView::Fail(ErrorView::Connect),
                StageView::Discovering,
                SessionActionView::DiscoverServices,
            ),
            (_, SessionEventView::Discovered(ok)) => self.go_on(
                ok,
                SessionActionView::Fail(ErrorView::DiscoverServices),
                StageView::ReadingCharacteristics,
                SessionActionView::ReadCharacteristics,
            ),
            (_, SessionEventView::Characteristics(chars)) => match self.wishes.write_choice(chars) {
                Err(e) => self.end(SessionActionView::Fail(e)),
                Ok(write_char) => match self.wishes.read_choice(chars) {
                    Err(e) => self.end(SessionActionView::Fail(e)),
                    Ok(read_char) => self.ask(
                        StageView::Subscribing { write_char, notify_uuid: read_char.uuid },
                        SessionActionView::Subscribe { read_char, write_uuid: write_char.uuid },
                    ),
                },
            },
            (
                StageView::Subscribing { write_char, notify_uuid },
                SessionEventView::Subscribed(ok),
            ) => self.go_on(
                ok,
                SessionActionView::Fail(ErrorView::Subscribe),
                StageView::OpeningPort { write_char, notify_uuid },
                SessionActionView::OpenPort,
            ),
            (
                StageView::OpeningPort { write_char, notify_uuid },
                SessionEventView::PortOpened(ok),
            ) => self.go_on(
                ok,
                SessionActionView::Propagate,
                StageView::OpeningNotifications { write_char, notify_uuid },
                SessionActionView::OpenNotifications,
            ),
            (
                StageView::OpeningNotifications { write_char, notify_uuid },
                SessionEventView::NotificationsOpened(ok),
            ) => self.go_on(
                ok,
                SessionActionView::Propagate,
                StageView::Running,
                SessionActionView::Run {
                    write_char,
                    write_type: write_type_for(self.wishes.write_with_response),
                    notify_uuid,
                },
            ),
            (_, SessionEventView::Ended) => self.ask(
                StageView::RemovingPort,
                SessionActionView::RemovePort,
            ),
            (_, SessionEventView::PortRemoved) => self.ask(
                StageView::Disconnecting,
                SessionActionView::Disconnect,
            ),
            (_, SessionEventView::Disconnected) => self.end(SessionActionView::Finish),
            (_, _) => self.end(SessionActionView::Propagate),
        }
    }

    /// The characteristic to write to can be written to as the user wishes.
    pub open spec fn well_formed(self) -> bool {
        match self.stage {
            StageView::Subscribing { write_char, notify_uuid }
            | StageView::OpeningPort { write_char, notify_uuid }
            | StageView::OpeningNotifications { write_char, notify_uuid } => {
                write_char.properties.has(write_flag_for(self.wishes.write_with_response))
            },
            _ => true,
        }
    }
}

/// How a session begins.
pub open spec fn session_start(wishes: WishesView) -> (SessionView, SessionActionView) {
    (SessionView { wishes, stage: StageView::Initialising }, SessionActionView::InitBluetooth)
}

impl Session {
    /// Begins a session with the characteristics that the user named, if any, and writes
    /// confirmed by the device if the user wishes; `timeout` is for the scan and for the
    /// connection.
    pub fn new(
        read_uuid: Option<&str>,
        write_uuid: Option<&str>,
        write_with_response: bool,
        timeout: Duration,
    ) -> (begun: (Session, SessionAction))
        ensures
            (begun.0@, begun.1@) == session_start(
                WishesView {
                    read_uuid: text_option(read_uuid),
                    write_uuid: text_option(write_uuid),
                    write_with_response,
                    timeout,
                },
            ),
            begun.0@.well_formed(),
            begun.0@.asked(begun.1@),
    {
        let read_uuid = match read_uuid {
            Some(text) => Some(text.to_owned()),
            None => None,
        };
        let write_uuid = match write_uuid {
            Some(text) => Some(text.to_owned()),
            None => None,
        };
        (
            Session {
                wishes: Wishes { read_uuid, write_uuid, write_with_response, timeout },
                stage: Stage::Initialising,
            },
            SessionAction::InitBluetooth,
        )
    }

    /// Goes on if the last request succeeded, and ends with `failure` if not.
    fn go_on(
        wishes: Wishes,
        ok: bool,
        failure: SessionAction,
        stage: Stage,
        action: SessionAction,
    ) -> (step: (Session, SessionAction))
        ensures
            step.0@.wishes == wishes@,
            step.0@.stage == (if ok {
                stage@
            } else {
                StageView::Over
            }),
            step.1@ == (if ok {
                action@
            } else {
                failure@
            }),
    {
        if ok {
            (Session { wishes, stage }, action)
        } else {
            (Session { wishes, stage: Stage::Over }, failure)
        }
    }

    /// Chooses the characteristics to use, the one to write to first.
    fn pick_characteristics(wishes: Wishes, chars: CharacteristicSet) -> (step: (Session, SessionAction))
        ensures
            forall|s: SessionView|
                s.wishes == wishes@ ==> (step.0@, step.1@) == #[trigger] s.after(
                    SessionEventView::Characteristics(chars@),
                ),
    {
        let (write_flag, _) = write_mode(wishes.write_with_response);
        let write_override = match &wishes.write_uuid {
            Some(text) => Some(text.as_str()),
            None => None,
        };
        let read_override = match &wishes.read_uuid {
            Some(text) => Some(text.as_str()),
            None => None,
        };
        let write_char = match find_char(&chars, write_override, write_flag, "write") {
            Ok(c) => c,
            Err(e) => return (Session { wishes, stage: Stage::Over }, SessionAction::Fail(e)),
        };
        let read_char = match find_char(&chars, read_override, CharPropFlags::notify(), "read") {
            Ok(c) => c,
            Err(e) => return (Session { wishes, stage: Stage::Over }, SessionAction::Fail(e)),
        };
        let notify_uuid: u128 = read_char.uuid;
        let write_uuid: u128 = write_char.uuid;
        (
            Session { wishes, stage: Stage::Subscribing { write_char, notify_uuid } },
            SessionAction::Subscribe { read_char, write_uuid },
        )
    }

    /// Goes on with the answer to the last request.
    pub fn step(self, event: SessionEvent) -> (step: (Session, SessionAction))
        requires
            self@.well_formed(),
            self@.awaits(event@),
        ensures
            (step.0@, step.1@) == self@.after(event@),
            step.0@.well_formed(),
            step.0@.asked(step.1@),
    {
        proof {
            session_stays_in_step(self@, event@);
        }
        let wishes = self.wishes;
        let timeout = wishes.timeout;
        match (self.stage, event) {
            (_, SessionEvent::Initialised(ok)) => Session::go_on(
                wishes,
                ok,
                SessionAction::Fail(Error::Bluetooth),
                Stage::ListingAdapters,
                SessionAction::ListAdapters,
            ),
            (_, SessionEvent::Adapters(None)) => (
                Session { wishes, stage: Stage::Over },
                SessionAction::Fail(Error::ListAdapters),
            ),
            (_, SessionEvent::Adapters(Some(n))) => Session::go_on(
                wishes,
                n > 0,
                SessionAction::Fail(Error::NoAdapter),
                Stage::FindingDevice,
                SessionAction::FindDevice { adapter: 0, timeout },
            ),
            (_, SessionEvent::DeviceFound(ok)) => Session::go_on(
                wishes,
                ok,
                SessionAction::Propagate,
                Stage::FetchingProperties,
                SessionAction::FetchProperties,
            ),
            (_, SessionEvent::Properties { id, reply }) => {
                let (ok, name) = match reply {
                    PropertiesReply::Failed => (false, id),
                    PropertiesReply::Unknown => (true, id),
                    PropertiesReply::Known(p) => match p.local_name {
                        Some(local_name) => (true, local_name),
                        None => (true, id),
                    },
                };
                Session::go_on(
                    wishes,
                    ok,
                    SessionAction::Propagate,
                    Stage::Connecting,
                    SessionAction::Connect { name, timeout },
                )
            },
            (_, SessionEvent::Connected(ok)) => Session::go_on(
                wishes,
                ok,
                SessionAction::Fail(Error::Connect),
                Stage::Discovering,
                SessionAction::DiscoverServices,
            ),
            (_, SessionEvent::Discovered(ok)) => Session::go_on(
                wishes,
                ok,
                SessionAction::Fail(Error::DiscoverServices),
                Stage::ReadingCharacteristics,
                SessionAction::ReadCharacteristics,
            ),
            (_, SessionEvent::Characteristics(chars)) => Session::pick_characteristics(wishes, chars),
            (Stage::Subscribing { write_char, notify_uuid }, SessionEvent::Subscribed(ok)) =>
                Session::go_on(
                wishes,
                ok,
                SessionAction::Fail(Error::Subscribe),
                Stage::OpeningPort { write_char, notify_uuid },
                SessionAction::OpenPort,
            ),
            (Stage::OpeningPort { write_char, notify_uuid }, SessionEvent::PortOpened(ok)) =>
                Session::go_on(
                wishes,
                ok,
                SessionAction::Propagate,
                Stage::OpeningNotifications { write_char, notify_uuid },
                SessionAction::OpenNotifications,
            ),
            (
                Stage::OpeningNotifications { write_char, notify_uuid },
                SessionEvent::NotificationsOpened(ok),
            ) => {
                let (_, write_type) = write_mode(wishes.write_with_response);
                Session::go_on(
                    wishes,
                    ok,
                    SessionAction::Propagate,
                    Stage::Running,
                    SessionAction::Run { write_char, write_type, notify_uuid },
                )
            },
            (_, SessionEvent::Ended) => (
                Session { wishes, stage: Stage::RemovingPort },
                SessionAction::RemovePort,
            ),
            (_, SessionEvent::PortRemoved) => (
                Session { wishes, stage: Stage::Disconnecting },
                SessionAction::Disconnect,
            ),
            (_, SessionEvent::Disconnected) => (
                Session { wishes, stage: Stage::Over },
                SessionAction::Finish,
            ),
            (_, _) => unreached(),
        }
    }
}

/// A session stays in step with its requests, and writes only to a characteristic that can
/// be written to as the user wishes.
pub proof fn session_stays_in_step(session: SessionView, event: SessionEventView)
    requires
        session.well_formed(),
        session.awaits(event),
    ensures
        session.after(event).0.well_formed(),
        session.after(event).0.asked(session.after(event).1),
        session.after(event).0.wishes == session.wishes,
{
    if let SessionEventView::Characteristics(chars) = event {
        choice_is_fit(
            chars,
            session.wishes.write_uuid,
            write_flag_for(session.wishes.write_with_response),
            "write"@,
        );
    }
}

/// The views of events and requests show all that they hold.
pub proof fn events_and_requests_are_shown_whole(event: SessionEvent, action: SessionAction)
    ensures
        match event {
            SessionEvent::Initialised(ok) => event@ == SessionEventView::Initialised(ok),
            SessionEvent::Adapters(n) => event@ matches SessionEventView::Adapters(v) && (n is None
                == v is None) && (n is Some ==> v == Some(n->0 as nat)),
            SessionEvent::DeviceFound(ok) => event@ == SessionEventView::DeviceFound(ok),
            SessionEvent::Properties { id, reply } => event@ == (SessionEventView::Properties {
                id: id@,
                reply: reply@,
            }),
            SessionEvent::Connected(ok) => event@ == SessionEventView::Connected(ok),
            SessionEvent::Discovered(ok) => event@ == SessionEventView::Discovered(ok),
            SessionEvent::Characteristics(c) => event@ == SessionEventView::Characteristics(c@),
            SessionEvent::Subscribed(ok) => event@ == SessionEventView::Subscribed(ok),
            SessionEvent::PortOpened(ok) => event@ == SessionEventView::PortOpened(ok),
            SessionEvent::NotificationsOpened(ok) => event@
                == SessionEventView::NotificationsOpened(ok),
            SessionEvent::Ended => event@ is Ended,
            SessionEvent::PortRemoved => event@ is PortRemoved,
            SessionEvent::Disconnected => event@ is Disconnected,
        },
        match action {
            SessionAction::InitBluetooth => action@ is InitBluetooth,
            SessionAction::ListAdapters => action@ is ListAdapters,
            SessionAction::FindDevice { adapter, timeout } => action@
                == (SessionActionView::FindDevice { adapter: adapter as nat, timeout }),
            SessionAction::FetchProperties => action@ is FetchProperties,
            SessionAction::Connect { name, timeout } => action@ == (SessionActionView::Connect {
                name: name@,
                timeout,
            }),
            SessionAction::DiscoverServices => action@ is DiscoverServices,
            SessionAction::ReadCharacteristics => action@ is ReadCharacteristics,
            SessionAction::Subscribe { read_char, write_uuid } => action@
                == (SessionActionView::Subscribe { read_char: read_char@, write_uuid }),
            SessionAction::OpenPort => action@ is OpenPort,
            SessionAction::OpenNotifications => action@ is OpenNotifications,
            SessionAction::Run { write_char, write_type, notify_uuid } => action@
                == (SessionActionView::Run { write_char: write_char@, write_type, notify_uuid }),
            SessionAction::RemovePort => action@ is RemovePort,
            SessionAction::Disconnect => action@ is Disconnect,
            SessionAction::Finish => action@ is Finish,
            SessionAction::Fail(e) => action@ == SessionActionView::Fail(e@),
            SessionAction::Propagate => action@ is Propagate,
        },
{
}

} // verus!
