//! Finding the device to connect to.
//!
//! The search asks for one piece of outside work at a time and decides what to do next
//! from the answer.

use crate::error::{Error, ErrorView};
use crate::text::{i16_text, right_align};
use crate::text::{decimal, lowercase, pad_left, string_option, text_option, texts};
use crate::uuid_text::parse_uuid;
use crate::scan_run::address_text_is_ascii;
use crate::text::{lowercase_goes_letter_by_letter, same_but_for_case, same_letter};
use crate::uuid_text::{hex_value, is_hex, uuid_parse_error, uuid_value};
use std::time::Duration;
use vstd::pervasive::unreached;
use vstd::prelude::*;
use vstd::utf8::is_ascii_chars;

verus! {

/// What a device advertises about itself.
#[derive(Debug)]
pub struct DeviceProperties {
    /// The hardware address, most significant byte first.
    pub address: [u8; 6],
    pub local_name: Option<String>,
    /// The signal strength, in dBm.
    pub rssi: Option<i16>,
}

pub struct PropertiesView {
    pub address: Seq<u8>,
    pub local_name: Option<Seq<char>>,
    pub rssi: Option<i16>,
}

impl View for DeviceProperties {
    type V = PropertiesView;

    open spec fn view(&self) -> PropertiesView {
        PropertiesView {
            address: self.address@,
            local_name: string_option(self.local_name),
            rssi: self.rssi,
        }
    }
}

/// The answer to a question for a device's properties.
#[derive(Debug)]
pub enum PropertiesReply {
    /// The question could not be answered.
    Failed,
    /// Nothing is known of the device.
    Unknown,
    Known(DeviceProperties),
}

pub enum ReplyView {
    Failed,
    Unknown,
    Known(PropertiesView),
}

impl View for PropertiesReply {
    type V = ReplyView;

    open spec fn view(&self) -> ReplyView {
        match self {
            PropertiesReply::Failed => ReplyView::Failed,
            PropertiesReply::Unknown => ReplyView::Unknown,
            PropertiesReply::Known(p) => ReplyView::Known(p@),
        }
    }
}

/// The answer to a prompt.
#[derive(Debug)]
pub enum ChoiceReply {
    /// The user chose this text, one of those offered.
    Chosen(String),
    /// The prompt ended without a choice.
    Cancelled,
    /// The prompt broke down.
    Panicked,
}

pub enum ChoiceView {
    Chosen(Seq<char>),
    Cancelled,
    Panicked,
}

impl View for ChoiceReply {
    type V = ChoiceView;

    open spec fn view(&self) -> ChoiceView {
        match self {
            ChoiceReply::Chosen(t) => ChoiceView::Chosen(t@),
            ChoiceReply::Cancelled => ChoiceView::Cancelled,
            ChoiceReply::Panicked => ChoiceView::Panicked,
        }
    }
}

/// The answer to a request of the search.
#[derive(Debug)]
pub enum ScanEvent {
    /// Whether the scan could be started.
    ScanStarted(bool),
    /// The time to scan is over.
    Waited,
    /// The scan was stopped, or could not be.
    ScanStopped,
    /// The identifiers of the devices found, where they could be listed.
    Peripherals(Option<Vec<String>>),
    Properties(PropertiesReply),
    Choice(ChoiceReply),
}

pub enum ScanEventView {
    ScanStarted(bool),
    Waited,
    ScanStopped,
    Peripherals(Option<Seq<Seq<char>>>),
    Properties(ReplyView),
    Choice(ChoiceView),
}

impl View for ScanEvent {
    type V = ScanEventView;

    open spec fn view(&self) -> ScanEventView {
        match self {
            ScanEvent::ScanStarted(ok) => ScanEventView::ScanStarted(*ok),
            ScanEvent::Waited => ScanEventView::Waited,
            ScanEvent::ScanStopped => ScanEventView::ScanStopped,
            ScanEvent::Peripherals(Some(ids)) => ScanEventView::Peripherals(Some(texts(ids@))),
            ScanEvent::Peripherals(None) => ScanEventView::Peripherals(None),
            ScanEvent::Properties(reply) => ScanEventView::Properties(reply@),
            ScanEvent::Choice(reply) => ScanEventView::Choice(reply@),
        }
    }
}

/// What the search asks for next, or how it ends.
#[derive(Debug, PartialEq, Eq)]
pub enum ScanAction {
    /// Start a scan for devices with any of these services; for all devices where there is
    /// none.
    StartScan { services: Vec<u128> },
    /// Let the scan run for this time.
    Wait { time: Duration },
    StopScan,
    ListPeripherals,
    /// Ask for the properties of the device at this position in the list.
    FetchProperties(usize),
    /// Let the user choose one of these texts, under this title.
    Prompt { title: &'static str, options: Vec<String> },
    /// Use the device at this position in the list.
    Use(usize),
    Fail(Error),
}

pub enum ScanActionView {
    StartScan { services: Seq<u128> },
    Wait { time: Duration },
    StopScan,
    ListPeripherals,
    FetchProperties(int),
    Prompt { title: Seq<char>, options: Seq<Seq<char>> },
    Use(int),
    Fail(ErrorView),
}

impl View for ScanAction {
    type V = ScanActionView;

    open spec fn view(&self) -> ScanActionView {
        match self {
            ScanAction::StartScan { services } => ScanActionView::StartScan {
                services: services@,
            },
            ScanAction::Wait { time } => ScanActionView::Wait { time: *time },
            ScanAction::StopScan => ScanActionView::StopScan,
            ScanAction::ListPeripherals => ScanActionView::ListPeripherals,
            ScanAction::FetchProperties(i) => ScanActionView::FetchProperties(*i as int),
            ScanAction::Prompt { title, options } => ScanActionView::Prompt {
                title: title@,
                options: texts(options@),
            },
            ScanAction::Use(i) => ScanActionView::Use(*i as int),
            ScanAction::Fail(e) => ScanActionView::Fail(e@),
        }
    }
}

/// How far a search has come: the request that it waits on.
#[derive(Debug)]
enum Stage {
    Starting,
    Waiting,
    Stopping,
    Listing,
    /// Looking for the device with a given address; none before `next` is it.
    Matching { ids: Vec<String>, next: usize },
    /// Describing the devices; `labels` describes the first ones.
    Labelling { ids: Vec<String>, labels: Vec<String> },
    Choosing { labels: Vec<String> },
    Over,
}

pub enum StageView {
    Starting,
    Waiting,
    Stopping,
    Listing,
    Matching { ids: Seq<Seq<char>>, next: int },
    Labelling { ids: Seq<Seq<char>>, labels: Seq<Seq<char>> },
    Choosing { labels: Seq<Seq<char>> },
    Over,
}

/// A search for a device: by its address, or by asking the user.
#[derive(Debug)]
pub struct DeviceSearch {
    address: Option<String>,
    /// How long to scan.
    timeout: Duration,
    stage: Stage,
}

pub struct SearchView {
    pub address: Option<Seq<char>>,
    pub timeout: Duration,
    pub stage: StageView,
}

impl View for Stage {
    type V = StageView;

    closed spec fn view(&self) -> StageView {
        match self {
            Stage::Starting => StageView::Starting,
            Stage::Waiting => StageView::Waiting,
            Stage::Stopping => StageView::Stopping,
            Stage::Listing => StageView::Listing,
            Stage::Matching { ids, next } => StageView::Matching {
                ids: texts(ids@),
                next: *next as int,
            },
            Stage::Labelling { ids, labels } => StageView::Labelling {
                ids: texts(ids@),
                labels: texts(labels@),
            },
            Stage::Choosing { labels } => StageView::Choosing { labels: texts(labels@) },
            Stage::Over => StageView::Over,
        }
    }
}

impl View for DeviceSearch {
    type V = SearchView;

    closed spec fn view(&self) -> SearchView {
        SearchView {
            address: string_option(self.address),
            timeout: self.timeout,
            stage: self.stage@,
        }
    }
}

/// The upper-case hexadecimal digit for a value below sixteen.
pub open spec fn upper_hex_char(d: int) -> char {
    if d < 10 {
        ('0' as u32 + d) as char
    } else {
        ('A' as u32 + d - 10) as char
    }
}

/// A byte as two upper-case hexadecimal digits.
pub open spec fn byte_text(b: u8) -> Seq<char> {
    seq![upper_hex_char(b as int / 16), upper_hex_char(b as int % 16)]
}

/// A hardware address as its bytes with colons between.
pub open spec fn address_text(a: Seq<u8>) -> Seq<char>
    decreases a.len(),
{
    if a.len() == 0 {
        seq![]
    } else if a.len() == 1 {
        byte_text(a[0])
    } else {
        address_text(a.drop_last()) + seq![':'] + byte_text(a.last())
    }
}

/// `btleplug::api::BDAddr`'s `Display`, through `ToString::to_string`: the six bytes as
/// upper-case hexadecimal digits with colons between.
#[verifier::external_body]
fn show_address(address: [u8; 6]) -> (text: String)
    ensures
        text@ == address_text(address@),
{
    btleplug::api::BDAddr::from(address).to_string()
}

/// The device is the one asked for by its identifier.
pub open spec fn id_matches(id: Seq<char>, address: Seq<char>) -> bool {
    lowercase(id) == lowercase(address)
}

/// The device is the one asked for by its hardware address.
pub open spec fn properties_match(reply: ReplyView, address: Seq<char>) -> bool {
    reply matches ReplyView::Known(p) && lowercase(address_text(p.address)) == lowercase(address)
}

/// The signal strength in a label.
pub open spec fn rssi_text(rssi: Option<i16>) -> Seq<char> {
    match rssi {
        Some(r) => pad_left(decimal(r as int), 4) + " dBm"@,
        None => "  ?      "@,
    }
}

/// The name in a label.
pub open spec fn name_text(name: Option<Seq<char>>) -> Seq<char> {
    match name {
        Some(n) => n,
        None => "(unnamed)"@,
    }
}

/// The text by which a device is offered to the user.
pub open spec fn label_text(id: Seq<char>, reply: ReplyView) -> Seq<char> {
    let (rssi, name) = match reply {
        ReplyView::Known(p) => (p.rssi, p.local_name),
        _ => (None, None),
    };
    rssi_text(rssi) + "  "@ + id + "  "@ + name_text(name)
}

/// What the user is asked when devices are offered.
pub open spec fn prompt_title() -> Seq<char> {
    "Select BLE device to connect:"@
}

/// The position of the first `x` in `s`.
pub open spec fn first_position(s: Seq<Seq<char>>, x: Seq<char>) -> int
    decreases s.len(),
{
    if s.len() == 0 || s[0] == x {
        0
    } else {
        1 + first_position(s.drop_first(), x)
    }
}

impl SearchView {
    /// Waits in stage `stage`, having asked for `action`.
    pub open spec fn ask(self, stage: StageView, action: ScanActionView) -> (
        SearchView,
        ScanActionView,
    ) {
        (SearchView { stage, ..self }, action)
    }

    /// Ends with `action`.
    pub open spec fn end(self, action: ScanActionView) -> (SearchView, ScanActionView) {
        self.ask(StageView::Over, action)
    }

    /// Looks at the device at position `next`, if there is one.
    pub open spec fn try_device(
        self,
        address: Seq<char>,
        ids: Seq<Seq<char>>,
        next: int,
    ) -> (SearchView, ScanActionView) {
        if next >= ids.len() {
            self.end(ScanActionView::Fail(ErrorView::DeviceNotFound { address }))
        } else if id_matches(ids[next], address) {
            self.end(ScanActionView::Use(next))
        } else {
            self.ask(
                StageView::Matching { ids, next },
                ScanActionView::FetchProperties(next),
            )
        }
    }

    /// Describes the next device, or offers the labels when all are described.
    pub open spec fn describe(self, ids: Seq<Seq<char>>, labels: Seq<Seq<char>>) -> (
        SearchView,
        ScanActionView,
    ) {
        if labels.len() < ids.len() {
            self.ask(
                StageView::Labelling { ids, labels },
                ScanActionView::FetchProperties(labels.len() as int),
            )
        } else {
            self.ask(
                StageView::Choosing { labels },
                ScanActionView::Prompt { title: prompt_title(), options: labels },
            )
        }
    }

    /// The event answers the request that the search waits on.
    pub open spec fn awaits(self, event: ScanEventView) -> bool {
        match self.stage {
            StageView::Starting => event is ScanStarted,
            StageView::Waiting => event is Waited,
            StageView::Stopping => event is ScanStopped,
            StageView::Listing => event is Peripherals,
            StageView::Matching { ids, next } => event is Properties,
            StageView::Labelling { ids, labels } => event is Properties,
            StageView::Choosing { labels } => {
                &&& event matches ScanEventView::Choice(choice)
                &&& choice matches ChoiceView::Chosen(t) ==> labels.contains(t)
            },
            StageView::Over => false,
        }
    }

    /// Positions lie inside the list, and only a search by address looks for one.
    pub open spec fn well_formed(self) -> bool {
        match self.stage {
            StageView::Matching { ids, next } => self.address is Some && 0 <= next < ids.len(),
            StageView::Labelling { ids, labels } => labels.len() < ids.len(),
            _ => true,
        }
    }

    /// The search has asked for `action`, and waits for the answer to just that; or it is
    /// over and `action` says how it ended.
    pub open spec fn asked(self, action: ScanActionView) -> bool {
        match self.stage {
            StageView::Starting => action is StartScan,
            StageView::Waiting => action == ScanActionView::Wait { time: self.timeout },
            StageView::Stopping => action is StopScan,
            StageView::Listing => action is ListPeripherals,
            StageView::Matching { ids, next } => action == ScanActionView::FetchProperties(next),
            StageView::Labelling { ids, labels } => action == ScanActionView::FetchProperties(
                labels.len() as int,
            ),
            StageView::Choosing { labels } => action == (ScanActionView::Prompt {
                title: prompt_title(),
                options: labels,
            }),
            StageView::Over => action is Use || action is Fail,
        }
    }

    /// What the search does on an answer.
    pub open spec fn after(self, event: ScanEventView) -> (SearchView, ScanActionView) {
        match (self.stage, event) {
            (StageView::Starting, ScanEventView::ScanStarted(ok)) => if ok {
                self.ask(StageView::Waiting, ScanActionView::Wait { time: self.timeout })
            } else {
                self.end(ScanActionView::Fail(ErrorView::ScanStart))
            },
            (StageView::Waiting, _) => self.ask(StageView::Stopping, ScanActionView::StopScan),
            (StageView::Stopping, _) => self.ask(
                StageView::Listing,
                ScanActionView::ListPeripherals,
            ),
            (StageView::Listing, ScanEventView::Peripherals(Some(ids))) => if ids.len() == 0 {
                self.end(ScanActionView::Fail(ErrorView::NoDevices))
            } else {
                match self.address {
                    Some(address) => self.try_device(address, ids, 0),
                    None => self.describe(ids, seq![]),
                }
            },
            (StageView::Listing, _) => self.end(ScanActionView::Fail(ErrorView::ListPeripherals)),
            (StageView::Matching { ids, next }, ScanEventView::Properties(reply)) => {
                let address = self.address->0;
                if properties_match(reply, address) {
                    self.end(ScanActionView::Use(next))
                } else {
                    self.try_device(address, ids, next + 1)
                }
            },
            (StageView::Labelling { ids, labels }, ScanEventView::Properties(reply)) => {
                self.describe(ids, labels.push(label_text(ids[labels.len() as int], reply)))
            },
            (StageView::Choosing { labels }, ScanEventView::Choice(choice)) => match choice {
                ChoiceView::Chosen(t) => self.end(ScanActionView::Use(first_position(labels, t))),
                ChoiceView::Cancelled => self.end(
                    ScanActionView::Fail(ErrorView::NothingSelected),
                ),
                ChoiceView::Panicked => self.end(
                    ScanActionView::Fail(ErrorView::SelectionPanicked),
                ),
            },
            (_, _) => self.end(ScanActionView::StopScan),
        }
    }
}

/// How a search begins. It fails where the service is no UUID. With an address it skips the
/// scan and lists the devices at hand; without one it scans for the service, if one is given.
pub open spec fn search_start(
    address: Option<Seq<char>>,
    service: Option<Seq<char>>,
    timeout: Duration,
) -> (SearchView, ScanActionView) {
    let fresh = SearchView { address, timeout, stage: StageView::Starting };
    if service is Some && uuid_value(service->0) is None {
        fresh.end(
            ScanActionView::Fail(
                ErrorView::InvalidServiceUuid { cause: uuid_parse_error(service->0) },
            ),
        )
    } else if address is Some {
        fresh.ask(StageView::Listing, ScanActionView::ListPeripherals)
    } else {
        let services = match service {
            None => seq![],
            Some(text) => seq![uuid_value(text)->0],
        };
        (fresh, ScanActionView::StartScan { services })
    }
}

/// Begins the search for the device with the given address, without a scan, or for one that
/// the user chooses, after a scan of length `timeout` for those that offer the given service.
pub fn find_device(
    device_addr: Option<&str>,
    service_uuid: Option<&str>,
    timeout: Duration,
) -> (begun: (DeviceSearch, ScanAction))
    ensures
        (begun.0@, begun.1@) == search_start(
            text_option(device_addr),
            text_option(service_uuid),
            timeout,
        ),
        begun.0@.well_formed(),
        begun.0@.asked(begun.1@),
{
    let address = match device_addr {
        Some(text) => Some(text.to_owned()),
        None => None,
    };
    let mut services: Vec<u128> = Vec::new();
    if let Some(text) = service_uuid {
        match parse_uuid(text) {
            Ok(uuid) => {
                services.push(uuid);
                assert(services@ =~= seq![uuid]);
            },
            Err(cause) => {
                return (
                    DeviceSearch { address, timeout, stage: Stage::Over },
                    ScanAction::Fail(Error::InvalidServiceUuid { cause }),
                );
            },
        }
    } else {
        assert(services@ =~= seq![]);
    }
    if address.is_some() {
        (DeviceSearch { address, timeout, stage: Stage::Listing }, ScanAction::ListPeripherals)
    } else {
        (DeviceSearch { address, timeout, stage: Stage::Starting }, ScanAction::StartScan { services })
    }
}

/// The text by which a device is offered to the user.
fn label(id: &str, reply: PropertiesReply) -> (text: String)
    ensures
        text@ == label_text(id@, reply@),
{
    let (rssi, local_name): (Option<i16>, Option<String>) = match reply {
        PropertiesReply::Known(p) => (p.rssi, p.local_name),
        _ => (None, None),
    };
    let strength = match rssi {
        Some(r) => right_align(i16_text(r).as_str(), 4).concat(" dBm"),
        None => "  ?      ".to_owned(),
    };
    let name = match local_name {
        Some(n) => n,
        None => "(unnamed)".to_owned(),
    };
    strength.concat("  ").concat(id).concat("  ").concat(name.as_str())
}

/// Looks at the device at position `next`, if there is one.
fn try_device(address: String, timeout: Duration, ids: Vec<String>, next: usize) -> (step: (
    DeviceSearch,
    ScanAction,
))
    requires
        next <= ids@.len(),
    ensures
        forall|s: SearchView|
            s.address == Some(address@) && s.timeout == timeout ==> (step.0@, step.1@)
                == #[trigger] s.try_device(address@, texts(ids@), next as int),
        step.0@.well_formed(),
        step.0@.asked(step.1@),
{
    if next == ids.len() {
        let missing = address.clone();
        return (
            DeviceSearch { address: Some(address), timeout, stage: Stage::Over },
            ScanAction::Fail(Error::DeviceNotFound { address: missing }),
        );
    }
    if ids[next].as_str().to_lowercase() == address.as_str().to_lowercase() {
        return (
            DeviceSearch { address: Some(address), timeout, stage: Stage::Over },
            ScanAction::Use(next),
        );
    }
    (
        DeviceSearch { address: Some(address), timeout, stage: Stage::Matching { ids, next } },
        ScanAction::FetchProperties(next),
    )
}

/// Begins or goes on describing the devices, so that the user can choose one.
fn select_device(
    address: Option<String>,
    timeout: Duration,
    ids: Vec<String>,
    labels: Vec<String>,
) -> (step: (DeviceSearch, ScanAction))
    ensures
        forall|s: SearchView|
            s.address == string_option(address) && s.timeout == timeout ==> (step.0@, step.1@)
                == #[trigger] s.describe(texts(ids@), texts(labels@)),
        step.0@.well_formed(),
        step.0@.asked(step.1@),
{
    if labels.len() < ids.len() {
        let next: usize = labels.len();
        (
            DeviceSearch { address, timeout, stage: Stage::Labelling { ids, labels } },
            ScanAction::FetchProperties(next),
        )
    } else {
        let offered = labels.clone();
        assert(texts(offered@) =~= texts(labels@));
        (
            DeviceSearch { address, timeout, stage: Stage::Choosing { labels } },
            ScanAction::Prompt { title: "Select BLE device to connect:", options: offered },
        )
    }
}

/// The position of the first label that is the chosen text.
fn position_of(labels: &Vec<String>, chosen: &String) -> (at: usize)
    requires
        texts(labels@).contains(chosen@),
    ensures
        at == first_position(texts(labels@), chosen@),
        at < labels@.len(),
{
    let ghost all = texts(labels@);
    let mut at: usize = 0;
    assert(all.skip(0) =~= all);
    while at < labels.len()
        invariant
            all == texts(labels@),
            at <= all.len(),
            all.contains(chosen@),
            forall|k: int| 0 <= k < at ==> all[k] != chosen@,
            first_position(all, chosen@) == at + first_position(all.skip(at as int), chosen@),
        decreases all.len() - at,
    {
        let ghost rest = all.skip(at as int);
        assert(rest[0] == labels@[at as int]@);
        if labels[at] == *chosen {
            return at;
        }
        assert(all.skip(at + 1) =~= rest.drop_first());
        at = at + 1;
    }
    proof {
        let k = choose|k: int| 0 <= k < all.len() && all[k] == chosen@;
        assert(all[k] != chosen@);
    }
    unreached()
}

impl DeviceSearch {
    /// Goes on with the answer to the last request.
    pub fn step(self, event: ScanEvent) -> (step: (DeviceSearch, ScanAction))
        requires
            self@.well_formed(),
            self@.awaits(event@),
        ensures
            (step.0@, step.1@) == self@.after(event@),
            step.0@.well_formed(),
            step.0@.asked(step.1@),
    {
        let address = self.address;
        let timeout = self.timeout;
        match (self.stage, event) {
            (Stage::Starting, ScanEvent::ScanStarted(ok)) => if ok {
                (DeviceSearch { address, timeout, stage: Stage::Waiting }, ScanAction::Wait { time: timeout })
            } else {
                (DeviceSearch { address, timeout, stage: Stage::Over }, ScanAction::Fail(Error::ScanStart))
            },
            (Stage::Waiting, ScanEvent::Waited) => (
                DeviceSearch { address, timeout, stage: Stage::Stopping },
                ScanAction::StopScan,
            ),
            (Stage::Stopping, ScanEvent::ScanStopped) => (
                DeviceSearch { address, timeout, stage: Stage::Listing },
                ScanAction::ListPeripherals,
            ),
            (Stage::Listing, ScanEvent::Peripherals(None)) => (
                DeviceSearch { address, timeout, stage: Stage::Over },
                ScanAction::Fail(Error::ListPeripherals),
            ),
            (Stage::Listing, ScanEvent::Peripherals(Some(ids))) => if ids.len() == 0 {
                (DeviceSearch { address, timeout, stage: Stage::Over }, ScanAction::Fail(Error::NoDevices))
            } else {
                match address {
                    Some(wanted) => try_device(wanted, timeout, ids, 0),
                    None => {
                        let labels: Vec<String> = Vec::new();
                        assert(texts(labels@) =~= seq![]);
                        select_device(None, timeout, ids, labels)
                    },
                }
            },
            (Stage::Matching { ids, next }, ScanEvent::Properties(reply)) => {
                let wanted = address.unwrap();
                assert(next < ids.len());
                let found = match reply {
                    PropertiesReply::Known(p) => show_address(p.address).as_str().to_lowercase()
                        == wanted.as_str().to_lowercase(),
                    _ => false,
                };
                if found {
                    (
                        DeviceSearch { address: Some(wanted), timeout, stage: Stage::Over },
                        ScanAction::Use(next),
                    )
                } else {
                    try_device(wanted, timeout, ids, next + 1)
                }
            },
            (Stage::Labelling { ids, labels }, ScanEvent::Properties(reply)) => {
                let mut labels = labels;
                let text = label(ids[labels.len()].as_str(), reply);
                let ghost old_labels = texts(labels@);
                let ghost new_label = text@;
                labels.push(text);
                assert(texts(labels@) =~= old_labels.push(new_label));
                select_device(address, timeout, ids, labels)
            },
            (Stage::Choosing { labels }, ScanEvent::Choice(choice)) => match choice {
                ChoiceReply::Chosen(text) => {
                    let at = position_of(&labels, &text);
                    (DeviceSearch { address, timeout, stage: Stage::Over }, ScanAction::Use(at))
                },
                ChoiceReply::Cancelled => (
                    DeviceSearch { address, timeout, stage: Stage::Over },
                    ScanAction::Fail(Error::NothingSelected),
                ),
                ChoiceReply::Panicked => (
                    DeviceSearch { address, timeout, stage: Stage::Over },
                    ScanAction::Fail(Error::SelectionPanicked),
                ),
            },
            (_, _) => unreached(),
        }
    }
}

/// The views of replies, answers and requests show all that they hold.
pub proof fn replies_and_requests_are_shown_whole(
    properties: DeviceProperties,
    reply: PropertiesReply,
    choice: ChoiceReply,
    event: ScanEvent,
    action: ScanAction,
)
    ensures
        properties@.address == properties.address@,
        properties@.address.len() == 6,
        properties@.rssi == properties.rssi,
        properties.local_name matches Some(name) ==> properties@.local_name == Some(name@),
        properties.local_name is None ==> properties@.local_name is None,
        match reply {
            PropertiesReply::Failed => reply@ is Failed,
            PropertiesReply::Unknown => reply@ is Unknown,
            PropertiesReply::Known(p) => reply@ == ReplyView::Known(p@),
        },
        match choice {
            ChoiceReply::Chosen(text) => choice@ == ChoiceView::Chosen(text@),
            ChoiceReply::Cancelled => choice@ is Cancelled,
            ChoiceReply::Panicked => choice@ is Panicked,
        },
        match event {
            ScanEvent::ScanStarted(ok) => event@ == ScanEventView::ScanStarted(ok),
            ScanEvent::Waited => event@ is Waited,
            ScanEvent::ScanStopped => event@ is ScanStopped,
            ScanEvent::Peripherals(None) => event@ == ScanEventView::Peripherals(None),
            ScanEvent::Peripherals(Some(ids)) => event@ matches ScanEventView::Peripherals(
                Some(shown),
            ) && shown.len() == ids@.len() && forall|i: int|
                0 <= i < ids@.len() ==> #[trigger] shown[i] == ids@[i]@,
            ScanEvent::Properties(reply) => event@ == ScanEventView::Properties(reply@),
            ScanEvent::Choice(choice) => event@ == ScanEventView::Choice(choice@),
        },
        match action {
            ScanAction::StartScan { services } => action@ == (ScanActionView::StartScan {
                services: services@,
            }),
            ScanAction::Wait { time } => action@ == (ScanActionView::Wait { time }),
            ScanAction::StopScan => action@ is StopScan,
            ScanAction::ListPeripherals => action@ is ListPeripherals,
            ScanAction::FetchProperties(i) => action@ == ScanActionView::FetchProperties(i as int),
            ScanAction::Prompt { title, options } => action@ matches ScanActionView::Prompt {
                title: shown_title,
                options: shown,
            } && shown_title == title@ && shown.len() == options@.len() && forall|i: int|
                0 <= i < options@.len() ==> #[trigger] shown[i] == options@[i]@,
            ScanAction::Use(i) => action@ == ScanActionView::Use(i as int),
            ScanAction::Fail(e) => action@ == ScanActionView::Fail(e@),
        },
{
}

/// A label begins with the signal strength alone, whatever the name, and ends with the name
/// alone, whatever the strength; between them stands the identifier as it is.
pub proof fn label_tells_strength_and_name_apart(
    id: Seq<char>,
    p: PropertiesView,
    strength: Seq<char>,
    name: Seq<char>,
)
    requires
        p.rssi matches Some(r) ==> strength == pad_left(decimal(r as int), 4) + " dBm"@,
        p.rssi is None ==> strength == "  ?      "@,
        p.local_name matches Some(n) ==> name == n,
        p.local_name is None ==> name == "(unnamed)"@,
    ensures
        ({
            let label = label_text(id, ReplyView::Known(p));
            let len = label.len() as int;
            &&& label == strength + "  "@ + id + "  "@ + name
            &&& label.take(strength.len() as int) == strength
            &&& label.skip(len - name.len()) == name
            &&& label.subrange(strength.len() as int + 2, len - name.len() - 2) == id
        }),
{
    reveal_strlit("  ");
    let label = label_text(id, ReplyView::Known(p));
    let len = label.len() as int;
    assert(label =~= strength + "  "@ + id + "  "@ + name);
    assert(label.take(strength.len() as int) =~= strength);
    assert(label.skip(len - name.len()) =~= name);
    assert(label.subrange(strength.len() as int + 2, len - name.len() - 2) =~= id);
}

/// The characters are the two hexadecimal digits of the byte, in either case.
pub open spec fn spells_byte(high: char, low: char, b: u8) -> bool {
    is_hex(high) && is_hex(low) && hex_value(high) * 16 + hex_value(low) == b
}

/// The text is the hardware address: its six bytes, with colons between.
pub open spec fn spells_address(text: Seq<char>, a: Seq<u8>) -> bool {
    &&& a.len() == 6
    &&& text.len() == 17
    &&& spells_byte(text[0], text[1], a[0]) && text[2] == ':'
    &&& spells_byte(text[3], text[4], a[1]) && text[5] == ':'
    &&& spells_byte(text[6], text[7], a[2]) && text[8] == ':'
    &&& spells_byte(text[9], text[10], a[3]) && text[11] == ':'
    &&& spells_byte(text[12], text[13], a[4]) && text[14] == ':'
    &&& spells_byte(text[15], text[16], a[5])
}

proof fn hex_digit_in_any_case(d: int, c: char)
    requires
        0 <= d < 16,
    ensures
        same_letter(upper_hex_char(d), c) == (is_hex(c) && hex_value(c) == d),
{
}

proof fn byte_in_any_case(b: u8, high: char, low: char)
    ensures
        (same_letter(byte_text(b)[0], high) && same_letter(byte_text(b)[1], low)) == spells_byte(
            high,
            low,
            b,
        ),
{
    hex_digit_in_any_case(b as int / 16, high);
    hex_digit_in_any_case(b as int % 16, low);
}

proof fn address_text_at(a: Seq<u8>)
    requires
        a.len() == 6,
    ensures
        address_text(a).len() == 17,
        forall|k: int|
            #![trigger a[k]]
            0 <= k < 6 ==> address_text(a)[3 * k] == byte_text(a[k])[0] && address_text(a)[3 * k
                + 1] == byte_text(a[k])[1],
        forall|k: int| #![trigger a[k]] 0 <= k < 5 ==> address_text(a)[3 * k + 2] == ':',
{
    let a5 = a.drop_last();
    let a4 = a5.drop_last();
    let a3 = a4.drop_last();
    let a2 = a3.drop_last();
    let a1 = a2.drop_last();
    assert(address_text(a1) == byte_text(a[0]));
    assert(address_text(a2) == address_text(a1) + seq![':'] + byte_text(a[1]));
    assert(address_text(a3) == address_text(a2) + seq![':'] + byte_text(a[2]));
    assert(address_text(a4) == address_text(a3) + seq![':'] + byte_text(a[3]));
    assert(address_text(a5) == address_text(a4) + seq![':'] + byte_text(a[4]));
    assert(address_text(a) == address_text(a5) + seq![':'] + byte_text(a[5]));
}

/// A device is found by its hardware address just where the text spells that address out, byte
/// by byte and with colons between, in either case; and never where nothing is known of it.
pub proof fn hardware_address_is_spelled_out(reply: ReplyView, address: Seq<char>)
    requires
        is_ascii_chars(address),
        reply matches ReplyView::Known(p) ==> p.address.len() == 6,
    ensures
        properties_match(reply, address) == (reply matches ReplyView::Known(p) && spells_address(
            address,
            p.address,
        )),
{
    if let ReplyView::Known(p) = reply {
        let a = p.address;
        let own = address_text(a);
        address_text_at(a);
        assert(own[0] == byte_text(a[0])[0] && own[1] == byte_text(a[0])[1]);
        assert(own[3] == byte_text(a[1])[0] && own[4] == byte_text(a[1])[1]);
        assert(own[6] == byte_text(a[2])[0] && own[7] == byte_text(a[2])[1]);
        assert(own[9] == byte_text(a[3])[0] && own[10] == byte_text(a[3])[1]);
        assert(own[12] == byte_text(a[4])[0] && own[13] == byte_text(a[4])[1]);
        assert(own[15] == byte_text(a[5])[0] && own[16] == byte_text(a[5])[1]);
        assert(own[2] == ':' && own[5] == ':' && own[8] == ':' && own[11] == ':' && own[14] == ':');
        address_text_is_ascii(a);
        lowercase_goes_letter_by_letter(own, address);
        if address.len() == 17 {
            byte_in_any_case(a[0], address[0], address[1]);
            byte_in_any_case(a[1], address[3], address[4]);
            byte_in_any_case(a[2], address[6], address[7]);
            byte_in_any_case(a[3], address[9], address[10]);
            byte_in_any_case(a[4], address[12], address[13]);
            byte_in_any_case(a[5], address[15], address[16]);
            if same_but_for_case(own, address) {
                assert(same_letter(own[0], address[0]) && same_letter(own[1], address[1]));
                assert(same_letter(own[2], address[2]) && same_letter(own[5], address[5]));
                assert(same_letter(own[3], address[3]) && same_letter(own[4], address[4]));
                assert(same_letter(own[6], address[6]) && same_letter(own[7], address[7]));
                assert(same_letter(own[8], address[8]) && same_letter(own[11], address[11]));
                assert(same_letter(own[9], address[9]) && same_letter(own[10], address[10]));
                assert(same_letter(own[12], address[12]) && same_letter(own[13], address[13]));
                assert(same_letter(own[14], address[14]));
                assert(same_letter(own[15], address[15]) && same_letter(own[16], address[16]));
            }
            if spells_address(address, a) {
                assert forall|i: int| 0 <= i < 17 implies same_letter(
                    #[trigger] own[i],
                    address[i],
                ) by {}
            }
        }
    }
}

/// An identifier in ASCII is the one asked for just where it has the same characters at the
/// same places, but for case.
pub proof fn identifier_is_the_one_asked_for(id: Seq<char>, address: Seq<char>)
    requires
        is_ascii_chars(id),
        is_ascii_chars(address),
    ensures
        id_matches(id, address) == same_but_for_case(id, address),
{
    lowercase_goes_letter_by_letter(id, address);
}

} // verus!
