//! What can go wrong, and how it is told to the user.

use crate::gatt::{flags_text, show_flags, CharPropFlags};
use vstd::prelude::*;

verus! {

/// A failure of the bridge. Where a step outside the bridge's decisions failed, this is
/// what the failure meant to the bridge.
#[derive(Debug, PartialEq, Eq)]
pub enum Error {
    /// The Bluetooth stack could not be set up.
    Bluetooth,
    /// The Bluetooth adapters could not be listed.
    ListAdapters,
    /// There is no Bluetooth adapter.
    NoAdapter,
    /// The service to scan for is not a UUID; `cause` says why.
    InvalidServiceUuid { cause: String },
    /// The scan could not be started.
    ScanStart,
    /// The devices at hand could not be listed.
    ListPeripherals,
    /// There is no device at hand.
    NoDevices,
    /// The device that was asked for is not at hand.
    DeviceNotFound { address: String },
    /// The prompt for a device broke down.
    SelectionPanicked,
    /// The user chose no device.
    NothingSelected,
    /// The device could not be connected.
    Connect,
    /// The services of the device could not be discovered.
    DiscoverServices,
    /// The characteristic for `label` is not given by a UUID; `cause` says why.
    InvalidUuid { label: String, text: String, cause: String },
    /// No characteristic with the given UUID has the required property.
    MissingProperty { text: String, required: CharPropFlags },
    /// No known characteristic will do for `label`.
    NoKnownCharacteristic { label: String },
    /// Notifications could not be subscribed to.
    Subscribe,
    /// No pseudo-terminal could be opened.
    OpenPty,
    /// The pseudo-terminal's path could not be found out.
    TtyName,
    /// The terminal's attributes could not be read.
    GetAttributes,
    /// The terminal could not be set to raw mode.
    SetAttributes,
    /// There is something at the port's path already.
    PortExists { port: String },
    /// The port could not be linked to the pseudo-terminal.
    Symlink { port: String, target: String },
    /// The descriptor for the reader could not be duplicated.
    DupReader,
    /// The descriptor for the writer could not be duplicated.
    DupWriter,
}

pub enum ErrorView {
    Bluetooth,
    ListAdapters,
    NoAdapter,
    InvalidServiceUuid { cause: Seq<char> },
    ScanStart,
    ListPeripherals,
    NoDevices,
    DeviceNotFound { address: Seq<char> },
    SelectionPanicked,
    NothingSelected,
    Connect,
    DiscoverServices,
    InvalidUuid { label: Seq<char>, text: Seq<char>, cause: Seq<char> },
    MissingProperty { text: Seq<char>, required: CharPropFlags },
    NoKnownCharacteristic { label: Seq<char> },
    Subscribe,
    OpenPty,
    TtyName,
    GetAttributes,
    SetAttributes,
    PortExists { port: Seq<char> },
    Symlink { port: Seq<char>, target: Seq<char> },
    DupReader,
    DupWriter,
}

impl View for Error {
    type V = ErrorView;

    open spec fn view(&self) -> ErrorView {
        match self {
            Error::Bluetooth => ErrorView::Bluetooth,
            Error::ListAdapters => ErrorView::ListAdapters,
            Error::NoAdapter => ErrorView::NoAdapter,
            Error::InvalidServiceUuid { cause } => ErrorView::InvalidServiceUuid { cause: cause@ },
            Error::ScanStart => ErrorView::ScanStart,
            Error::ListPeripherals => ErrorView::ListPeripherals,
            Error::NoDevices => ErrorView::NoDevices,
            Error::DeviceNotFound { address } => ErrorView::DeviceNotFound { address: address@ },
            Error::SelectionPanicked => ErrorView::SelectionPanicked,
            Error::NothingSelected => ErrorView::NothingSelected,
            Error::Connect => ErrorView::Connect,
            Error::DiscoverServices => ErrorView::DiscoverServices,
            Error::InvalidUuid { label, text, cause } => ErrorView::InvalidUuid {
                label: label@,
                text: text@,
                cause: cause@,
            },
            Error::MissingProperty { text, required } => ErrorView::MissingProperty {
                text: text@,
                required: *required,
            },
            Error::NoKnownCharacteristic { label } => ErrorView::NoKnownCharacteristic {
                label: label@,
            },
            Error::Subscribe => ErrorView::Subscribe,
            Error::OpenPty => ErrorView::OpenPty,
            Error::TtyName => ErrorView::TtyName,
            Error::GetAttributes => ErrorView::GetAttributes,
            Error::SetAttributes => ErrorView::SetAttributes,
            Error::PortExists { port } => ErrorView::PortExists { port: port@ },
            Error::Symlink { port, target } => ErrorView::Symlink { port: port@, target: target@ },
            Error::DupReader => ErrorView::DupReader,
            Error::DupWriter => ErrorView::DupWriter,
        }
    }
}

impl ErrorView {
    /// The sentence that tells a user what went wrong.
    pub open spec fn message(self) -> Seq<char> {
        match self {
            ErrorView::Bluetooth => "Failed to initialise Bluetooth"@,
            ErrorView::ListAdapters => "Failed to list BLE adapters"@,
            ErrorView::NoAdapter => "No BLE adapter found"@,
            ErrorView::InvalidServiceUuid { cause } => "Invalid service UUID"@,
            ErrorView::ScanStart => "BLE scan start failed"@,
            ErrorView::ListPeripherals => "Failed to list peripherals"@,
            ErrorView::NoDevices => "No BLE devices found during scan"@,
            ErrorView::DeviceNotFound { address } => "Device '"@ + address
                + "' not found during scan"@,
            ErrorView::SelectionPanicked => "Selection task panicked"@,
            ErrorView::NothingSelected => "No device selected"@,
            ErrorView::Connect => "BLE connect failed"@,
            ErrorView::DiscoverServices => "GATT service discovery failed"@,
            ErrorView::InvalidUuid { label, text, cause } => "Invalid "@ + label + " UUID: "@
                + text,
            ErrorView::MissingProperty { text, required } => "Characteristic "@ + text
                + " does not have "@ + flags_text(required.bits) + " property"@,
            ErrorView::NoKnownCharacteristic { label } => "No "@ + label
                + " characteristic found in known-UUID list. Specify one with --"@ + label
                + "-uuid (run with -v to list discovered characteristics)"@,
            ErrorView::Subscribe => "Failed to subscribe to notifications"@,
            ErrorView::OpenPty => "openpty() failed"@,
            ErrorView::TtyName => "ttyname() failed"@,
            ErrorView::GetAttributes => "tcgetattr failed"@,
            ErrorView::SetAttributes => "tcsetattr failed"@,
            ErrorView::PortExists { port } => "Port \""@ + port
                + "\" already exists — delete it or choose a different --port"@,
            ErrorView::Symlink { port, target } => "symlink "@ + port + " -> "@ + target
                + " failed"@,
            ErrorView::DupReader => "dup for reader failed"@,
            ErrorView::DupWriter => "dup for writer failed"@,
        }
    }

    /// What the bridge itself found out about the reason.
    pub open spec fn cause(self) -> Option<Seq<char>> {
        match self {
            ErrorView::InvalidServiceUuid { cause } => Some(cause),
            ErrorView::InvalidUuid { label, text, cause } => Some(cause),
            _ => None,
        }
    }
}

impl Error {
    /// The sentence that tells a user what went wrong.
    pub fn message(&self) -> (message: String)
        ensures
            message@ == self@.message(),
    {
        match self {
            Error::Bluetooth => "Failed to initialise Bluetooth".to_owned(),
            Error::ListAdapters => "Failed to list BLE adapters".to_owned(),
            Error::NoAdapter => "No BLE adapter found".to_owned(),
            Error::InvalidServiceUuid { cause: _ } => "Invalid service UUID".to_owned(),
            Error::ScanStart => "BLE scan start failed".to_owned(),
            Error::ListPeripherals => "Failed to list peripherals".to_owned(),
            Error::NoDevices => "No BLE devices found during scan".to_owned(),
            Error::DeviceNotFound { address } => "Device '".to_owned().concat(
                address.as_str(),
            ).concat("' not found during scan"),
            Error::SelectionPanicked => "Selection task panicked".to_owned(),
            Error::NothingSelected => "No device selected".to_owned(),
            Error::Connect => "BLE connect failed".to_owned(),
            Error::DiscoverServices => "GATT service discovery failed".to_owned(),
            Error::InvalidUuid { label, text, cause: _ } => "Invalid ".to_owned().concat(
                label.as_str(),
            ).concat(" UUID: ").concat(text.as_str()),
            Error::MissingProperty { text, required } => "Characteristic ".to_owned().concat(
                text.as_str(),
            ).concat(" does not have ").concat(show_flags(*required).as_str()).concat(" property"),
            Error::NoKnownCharacteristic { label } => "No ".to_owned().concat(
                label.as_str(),
            ).concat(" characteristic found in known-UUID list. Specify one with --").concat(
                label.as_str(),
            ).concat("-uuid (run with -v to list discovered characteristics)"),
            Error::Subscribe => "Failed to subscribe to notifications".to_owned(),
            Error::OpenPty => "openpty() failed".to_owned(),
            Error::TtyName => "ttyname() failed".to_owned(),
            Error::GetAttributes => "tcgetattr failed".to_owned(),
            Error::SetAttributes => "tcsetattr failed".to_owned(),
            Error::PortExists { port } => "Port \"".to_owned().concat(port.as_str()).concat(
                "\" already exists — delete it or choose a different --port",
            ),
            Error::Symlink { port, target } => "symlink ".to_owned().concat(port.as_str()).concat(
                " -> ",
            ).concat(target.as_str()).concat(" failed"),
            Error::DupReader => "dup for reader failed".to_owned(),
            Error::DupWriter => "dup for writer failed".to_owned(),
        }
    }

    /// What the bridge itself found out about the reason.
    pub fn cause(&self) -> (cause: Option<&str>)
        ensures
            match cause {
                Some(text) => self@.cause() == Some(text@),
                None => self@.cause() is None,
            },
    {
        match self {
            Error::InvalidServiceUuid { cause } => Some(cause.as_str()),
            Error::InvalidUuid { label: _, text: _, cause } => Some(cause.as_str()),
            _ => None,
        }
    }
}

/// The messages name in full what they are about.
pub proof fn messages_name_their_subject(
    a: Seq<char>,
    b: Seq<char>,
    cause: Seq<char>,
    required: CharPropFlags,
)
    ensures
        (ErrorView::DeviceNotFound { address: a }).message() == "Device '"@ + a
            + "' not found during scan"@,
        (ErrorView::InvalidUuid { label: a, text: b, cause }).message() == "Invalid "@ + a
            + " UUID: "@ + b,
        (ErrorView::MissingProperty { text: a, required }).message() == "Characteristic "@ + a
            + " does not have "@ + flags_text(required.bits) + " property"@,
        (ErrorView::NoKnownCharacteristic { label: a }).message() == "No "@ + a
            + " characteristic found in known-UUID list. Specify one with --"@ + a
            + "-uuid (run with -v to list discovered characteristics)"@,
        (ErrorView::PortExists { port: a }).message() == "Port \""@ + a
            + "\" already exists — delete it or choose a different --port"@,
        (ErrorView::Symlink { port: a, target: b }).message() == "symlink "@ + a + " -> "@ + b
            + " failed"@,
        (ErrorView::InvalidServiceUuid { cause }).message() == "Invalid service UUID"@,
        (ErrorView::InvalidServiceUuid { cause }).cause() == Some(cause),
        (ErrorView::InvalidUuid { label: a, text: b, cause }).cause() == Some(cause),
{
}

/// The view of an error shows all of it, and the error that came of a failure is told from
/// every other.
pub proof fn errors_are_shown_whole(e: Error)
    ensures
        match e {
            Error::InvalidServiceUuid { cause } => e@ == (ErrorView::InvalidServiceUuid {
                cause: cause@,
            }),
            Error::DeviceNotFound { address } => e@ == (ErrorView::DeviceNotFound {
                address: address@,
            }),
            Error::InvalidUuid { label, text, cause } => e@ == (ErrorView::InvalidUuid {
                label: label@,
                text: text@,
                cause: cause@,
            }),
            Error::MissingProperty { text, required } => e@ == (ErrorView::MissingProperty {
                text: text@,
                required,
            }),
            Error::NoKnownCharacteristic { label } => e@ == (ErrorView::NoKnownCharacteristic {
                label: label@,
            }),
            Error::PortExists { port } => e@ == (ErrorView::PortExists { port: port@ }),
            Error::Symlink { port, target } => e@ == (ErrorView::Symlink {
                port: port@,
                target: target@,
            }),
            _ => true,
        },
        e is Bluetooth == e@ is Bluetooth,
        e is ListAdapters == e@ is ListAdapters,
        e is NoAdapter == e@ is NoAdapter,
        e is ScanStart == e@ is ScanStart,
        e is ListPeripherals == e@ is ListPeripherals,
        e is NoDevices == e@ is NoDevices,
        e is SelectionPanicked == e@ is SelectionPanicked,
        e is NothingSelected == e@ is NothingSelected,
        e is Connect == e@ is Connect,
        e is DiscoverServices == e@ is DiscoverServices,
        e is Subscribe == e@ is Subscribe,
        e is OpenPty == e@ is OpenPty,
        e is TtyName == e@ is TtyName,
        e is GetAttributes == e@ is GetAttributes,
        e is SetAttributes == e@ is SetAttributes,
        e is DupReader == e@ is DupReader,
        e is DupWriter == e@ is DupWriter,
{
}

/// A failure that has nothing to name is always told by the same sentence.
pub proof fn plain_failures_have_their_sentences()
    ensures
        ErrorView::Bluetooth.message() == "Failed to initialise Bluetooth"@,
        ErrorView::ListAdapters.message() == "Failed to list BLE adapters"@,
        ErrorView::NoAdapter.message() == "No BLE adapter found"@,
        ErrorView::ScanStart.message() == "BLE scan start failed"@,
        ErrorView::ListPeripherals.message() == "Failed to list peripherals"@,
        ErrorView::NoDevices.message() == "No BLE devices found during scan"@,
        ErrorView::SelectionPanicked.message() == "Selection task panicked"@,
        ErrorView::NothingSelected.message() == "No device selected"@,
        ErrorView::Connect.message() == "BLE connect failed"@,
        ErrorView::DiscoverServices.message() == "GATT service discovery failed"@,
        ErrorView::Subscribe.message() == "Failed to subscribe to notifications"@,
        ErrorView::OpenPty.message() == "openpty() failed"@,
        ErrorView::TtyName.message() == "ttyname() failed"@,
        ErrorView::GetAttributes.message() == "tcgetattr failed"@,
        ErrorView::SetAttributes.message() == "tcsetattr failed"@,
        ErrorView::DupReader.message() == "dup for reader failed"@,
        ErrorView::DupWriter.message() == "dup for writer failed"@,
{
}

/// Only a text that is no UUID has a reason that the bridge itself found out.
pub proof fn other_failures_have_no_reason_of_their_own(e: ErrorView)
    requires
        !(e is InvalidServiceUuid),
        !(e is InvalidUuid),
    ensures
        e.cause() is None,
{
}

} // verus!
