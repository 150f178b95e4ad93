//! The virtual serial port: a pseudo-terminal whose far end is linked to the port's path.
//!
//! Setting it up asks for one piece of outside work at a time and decides what to do next
//! from the answer.

use crate::error::{Error, ErrorView};
use vstd::prelude::*;

verus! {

/// A path of the file system.
#[derive(Debug, PartialEq, Eq)]
pub struct PortPath {
    /// The path itself, which need not be text.
    pub bytes: Vec<u8>,
    /// The text by which it is shown to a user.
    pub shown: String,
}

pub struct PathView {
    pub bytes: Seq<u8>,
    pub shown: Seq<char>,
}

impl View for PortPath {
    type V = PathView;

    open spec fn view(&self) -> PathView {
        PathView { bytes: self.bytes@, shown: self.shown@ }
    }
}

/// A read takes in at least this many bytes at once.
pub const MIN_READ_BUFFER: usize = 512;

/// So many pieces that were read may wait to be taken.
pub const READ_QUEUE: usize = 64;

/// The answer to a request of the setup.
#[derive(Debug)]
pub enum PtyEvent {
    /// Whether a pseudo-terminal could be opened.
    Opened(bool),
    /// The path of its far end, where it could be found out.
    Named(Option<PortPath>),
    /// Whether its attributes could be read.
    AttributesRead(bool),
    /// Whether it could be set to raw mode.
    RawSet(bool),
    /// Whether there is something at the port's path.
    PortFound(bool),
    /// Whether the port's path could be linked.
    Linked(bool),
    /// Whether the reader could be given a descriptor of its own.
    ReaderStarted(bool),
    /// Whether the writer could be given a descriptor of its own.
    WriterStarted(bool),
}

pub enum PtyEventView {
    Opened(bool),
    Named(Option<PathView>),
    AttributesRead(bool),
    RawSet(bool),
    PortFound(bool),
    Linked(bool),
    ReaderStarted(bool),
    WriterStarted(bool),
}

impl View for PtyEvent {
    type V = PtyEventView;

    open spec fn view(&self) -> PtyEventView {
        match self {
            PtyEvent::Opened(ok) => PtyEventView::Opened(*ok),
            PtyEvent::Named(Some(path)) => PtyEventView::Named(Some(path@)),
            PtyEvent::Named(None) => PtyEventView::Named(None),
            PtyEvent::AttributesRead(ok) => PtyEventView::AttributesRead(*ok),
            PtyEvent::RawSet(ok) => PtyEventView::RawSet(*ok),
            PtyEvent::PortFound(found) => PtyEventView::PortFound(*found),
            PtyEvent::Linked(ok) => PtyEventView::Linked(*ok),
            PtyEvent::ReaderStarted(ok) => PtyEventView::ReaderStarted(*ok),
            PtyEvent::WriterStarted(ok) => PtyEventView::WriterStarted(*ok),
        }
    }
}

/// What the setup asks for next, or how it ends.
#[derive(Debug, PartialEq, Eq)]
pub enum PtyAction {
    OpenPty,
    /// Find out the path of the far end.
    Name,
    ReadAttributes,
    /// Set raw mode, so that bytes pass through unchanged.
    SetRaw,
    /// Look whether there is something at the port's path.
    FindPort,
    /// Link the port's path to the path with these bytes.
    Link { target: Vec<u8> },
    /// Start a reader with a buffer for `buffer` bytes, and room for `queue` pieces to wait.
    StartReader { buffer: usize, queue: usize },
    StartWriter,
    /// The port is there to be used.
    Ready,
    Fail(Error),
}

pub enum PtyActionView {
    OpenPty,
    Name,
    ReadAttributes,
    SetRaw,
    FindPort,
    Link { target: Seq<u8> },
    StartReader { buffer: nat, queue: nat },
    StartWriter,
    Ready,
    Fail(ErrorView),
}

impl View for PtyAction {
    type V = PtyActionView;

    open spec fn view(&self) -> PtyActionView {
        match self {
            PtyAction::OpenPty => PtyActionView::OpenPty,
            PtyAction::Name => PtyActionView::Name,
            PtyAction::ReadAttributes => PtyActionView::ReadAttributes,
            PtyAction::SetRaw => PtyActionView::SetRaw,
            PtyAction::FindPort => PtyActionView::FindPort,
            PtyAction::Link { target } => PtyActionView::Link { target: target@ },
            PtyAction::StartReader { buffer, queue } => PtyActionView::StartReader {
                buffer: *buffer as nat,
                queue: *queue as nat,
            },
            PtyAction::StartWriter => PtyActionView::StartWriter,
            PtyAction::Ready => PtyActionView::Ready,
            PtyAction::Fail(e) => PtyActionView::Fail(e@),
        }
    }
}

/// How far the setup has come: the request that it waits on.
#[derive(Clone, Copy, Debug, PartialEq, Eq, Structural)]
pub enum PtyStage {
    Opening,
    Naming,
    ReadingAttributes,
    SettingRaw,
    FindingPort,
    Linking,
    StartingReader,
    StartingWriter,
    Ready,
    Failed,
}

/// The virtual serial port, from its first step on.
#[derive(Debug)]
pub struct PtyBridge {
    symlink: PortPath,
    mtu: usize,
    /// The path of the far end; empty until it is known.
    target: PortPath,
    stage: PtyStage,
}

pub struct PtyView {
    pub symlink: PathView,
    pub mtu: nat,
    pub target: PathView,
    pub stage: PtyStage,
}

impl View for PtyBridge {
    type V = PtyView;

    closed spec fn view(&self) -> PtyView {
        PtyView {
            symlink: self.symlink@,
            mtu: self.mtu as nat,
            target: self.target@,
            stage: self.stage,
        }
    }
}

/// The size of the buffer to read into.
pub open spec fn read_buffer_size(mtu: nat) -> nat {
    if mtu < MIN_READ_BUFFER {
        MIN_READ_BUFFER as nat
    } else {
        mtu
    }
}

impl PtyView {
    /// Goes on to `stage`, asking for `action`, if the last request succeeded; fails with
    /// `error` if not.
    pub open spec fn go_on(
        self,
        ok: bool,
        error: ErrorView,
        stage: PtyStage,
        action: PtyActionView,
    ) -> (PtyView, PtyActionView) {
        if ok {
            (PtyView { stage, ..self }, action)
        } else {
            (PtyView { stage: PtyStage::Failed, ..self }, PtyActionView::Fail(error))
        }
    }

    /// The event answers the request that the setup waits on.
    pub open spec fn awaits(self, event: PtyEventView) -> bool {
        match self.stage {
            PtyStage::Opening => event is Opened,
            PtyStage::Naming => event is Named,
            PtyStage::ReadingAttributes => event is AttributesRead,
            PtyStage::SettingRaw => event is RawSet,
            PtyStage::FindingPort => event is PortFound,
            PtyStage::Linking => event is Linked,
            PtyStage::StartingReader => event is ReaderStarted,
            PtyStage::StartingWriter => event is WriterStarted,
            PtyStage::Ready | PtyStage::Failed => false,
        }
    }

    /// The setup has asked for `action`, and waits for the answer to just that; or it is over
    /// and `action` says how it ended.
    pub open spec fn asked(self, action: PtyActionView) -> bool {
        match self.stage {
            PtyStage::Opening => action is OpenPty,
            PtyStage::Naming => action is Name,
            PtyStage::ReadingAttributes => action is ReadAttributes,
            PtyStage::SettingRaw => action is SetRaw,
            PtyStage::FindingPort => action is FindPort,
            PtyStage::Linking => action is Link,
            PtyStage::StartingReader => action is StartReader,
            PtyStage::StartingWriter => action is StartWriter,
            PtyStage::Ready => action is Ready,
            PtyStage::Failed => action is Fail,
        }
    }

    /// What the setup does on an answer.
    pub open spec fn after(self, event: PtyEventView) -> (PtyView, PtyActionView) {
        match event {
            PtyEventView::Opened(ok) => self.go_on(
                ok,
                ErrorView::OpenPty,
                PtyStage::Naming,
                PtyActionView::Name,
            ),
            PtyEventView::Named(Some(target)) => (
                PtyView { target, stage: PtyStage::ReadingAttributes, ..self },
                PtyActionView::ReadAttributes,
            ),
            PtyEventView::Named(None) => (
                PtyView { stage: PtyStage::Failed, ..self },
                PtyActionView::Fail(ErrorView::TtyName),
            ),
            PtyEventView::AttributesRead(ok) => self.go_on(
                ok,
                ErrorView::GetAttributes,
                PtyStage::SettingRaw,
                PtyActionView::SetRaw,
            ),
            PtyEventView::RawSet(ok) => self.go_on(
                ok,
                ErrorView::SetAttributes,
                PtyStage::FindingPort,
                PtyActionView::FindPort,
            ),
            PtyEventView::PortFound(found) => self.go_on(
                !found,
                ErrorView::PortExists { port: self.symlink.shown },
                PtyStage::Linking,
                PtyActionView::Link { target: self.target.bytes },
            ),
            PtyEventView::Linked(ok) => self.go_on(
                ok,
                ErrorView::Symlink { port: self.symlink.shown, target: self.target.shown },
                PtyStage::StartingReader,
                PtyActionView::StartReader {
                    buffer: read_buffer_size(self.mtu),
                    queue: READ_QUEUE as nat,
                },
            ),
            PtyEventView::ReaderStarted(ok) => self.go_on(
                ok,
                ErrorView::DupReader,
                PtyStage::StartingWriter,
                PtyActionView::StartWriter,
            ),
            PtyEventView::WriterStarted(ok) => self.go_on(
                ok,
                ErrorView::DupWriter,
                PtyStage::Ready,
                PtyActionView::Ready,
            ),
        }
    }
}

/// How the setup of a port begins.
pub open spec fn pty_start(symlink: PathView, mtu: nat) -> (PtyView, PtyActionView) {
    let unknown = PathView { bytes: seq![], shown: seq![] };
    (PtyView { symlink, mtu, target: unknown, stage: PtyStage::Opening }, PtyActionView::OpenPty)
}

impl PtyBridge {
    /// Begins to set up a port at the path `symlink` for packets of `mtu` bytes.
    pub fn new(symlink: PortPath, mtu: usize) -> (begun: (PtyBridge, PtyAction))
        ensures
            (begun.0@, begun.1@) == pty_start(symlink@, mtu as nat),
            begun.0@.asked(begun.1@),
            begun.0@.symlink.bytes == symlink.bytes@,
            begun.0@.symlink.shown == symlink.shown@,
            begun.0@.mtu == mtu,
    {
        let target = PortPath { bytes: Vec::new(), shown: String::new() };
        assert(target@.bytes =~= seq![]);
        assert(target@.shown =~= seq![]);
        (
            PtyBridge {
                symlink,
                mtu,
                target,
                stage: PtyStage::Opening,
            },
            PtyAction::OpenPty,
        )
    }

    /// Goes on to `stage`, asking for `action`, if the last request succeeded; fails with
    /// `error` if not.
    fn go_on(self, ok: bool, error: Error, stage: PtyStage, action: PtyAction) -> (step: (
        PtyBridge,
        PtyAction,
    ))
        ensures
            (step.0@, step.1@) == self@.go_on(ok, error@, stage, action@),
    {
        let mut bridge = self;
        if ok {
            bridge.stage = stage;
            (bridge, action)
        } else {
            bridge.stage = PtyStage::Failed;
            (bridge, PtyAction::Fail(error))
        }
    }

    /// The size of the buffer to read into.
    fn read_buffer(&self) -> (size: usize)
        ensures
            size == read_buffer_size(self@.mtu),
    {
        if self.mtu < MIN_READ_BUFFER {
            MIN_READ_BUFFER
        } else {
            self.mtu
        }
    }

    /// Goes on with the answer to the last request.
    pub fn step(self, event: PtyEvent) -> (step: (PtyBridge, PtyAction))
        requires
            self@.awaits(event@),
        ensures
            (step.0@, step.1@) == self@.after(event@),
            step.0@.asked(step.1@),
            step.0@.symlink == self@.symlink,
            step.0@.mtu == self@.mtu,
    {
        match event {
            PtyEvent::Opened(ok) => self.go_on(
                ok,
                Error::OpenPty,
                PtyStage::Naming,
                PtyAction::Name,
            ),
            PtyEvent::Named(Some(target)) => {
                let mut bridge = self;
                bridge.target = target;
                bridge.stage = PtyStage::ReadingAttributes;
                (bridge, PtyAction::ReadAttributes)
            },
            PtyEvent::Named(None) => {
                let mut bridge = self;
                bridge.stage = PtyStage::Failed;
                (bridge, PtyAction::Fail(Error::TtyName))
            },
            PtyEvent::AttributesRead(ok) => self.go_on(
                ok,
                Error::GetAttributes,
                PtyStage::SettingRaw,
                PtyAction::SetRaw,
            ),
            PtyEvent::RawSet(ok) => self.go_on(
                ok,
                Error::SetAttributes,
                PtyStage::FindingPort,
                PtyAction::FindPort,
            ),
            PtyEvent::PortFound(found) => {
                let port = self.symlink.shown.clone();
                let target = self.target.bytes.clone();
                assert(target@ =~= self.target.bytes@);
                self.go_on(
                    !found,
                    Error::PortExists { port },
                    PtyStage::Linking,
                    PtyAction::Link { target },
                )
            },
            PtyEvent::Linked(ok) => {
                let port = self.symlink.shown.clone();
                let target = self.target.shown.clone();
                let buffer = self.read_buffer();
                self.go_on(
                    ok,
                    Error::Symlink { port, target },
                    PtyStage::StartingReader,
                    PtyAction::StartReader { buffer, queue: READ_QUEUE },
                )
            },
            PtyEvent::ReaderStarted(ok) => self.go_on(
                ok,
                Error::DupReader,
                PtyStage::StartingWriter,
                PtyAction::StartWriter,
            ),
            PtyEvent::WriterStarted(ok) => self.go_on(
                ok,
                Error::DupWriter,
                PtyStage::Ready,
                PtyAction::Ready,
            ),
        }
    }

    /// Gives the port up: the path is what is to be removed.
    pub fn remove(self) -> (symlink: PortPath)
        requires
            self@.stage is Ready,
        ensures
            symlink@ == self@.symlink,
            symlink.bytes@ == self@.symlink.bytes,
            symlink.shown@ == self@.symlink.shown,
    {
        self.symlink
    }
}

/// The views of paths, events and requests show all that they hold.
pub proof fn paths_events_and_requests_are_shown_whole(
    path: PortPath,
    event: PtyEvent,
    action: PtyAction,
)
    ensures
        path@.bytes == path.bytes@,
        path@.shown == path.shown@,
        match event {
            PtyEvent::Opened(ok) => event@ == PtyEventView::Opened(ok),
            PtyEvent::Named(Some(far_end)) => event@ == PtyEventView::Named(Some(far_end@)),
            PtyEvent::Named(None) => event@ == PtyEventView::Named(None),
            PtyEvent::AttributesRead(ok) => event@ == PtyEventView::AttributesRead(ok),
            PtyEvent::RawSet(ok) => event@ == PtyEventView::RawSet(ok),
            PtyEvent::PortFound(found) => event@ == PtyEventView::PortFound(found),
            PtyEvent::Linked(ok) => event@ == PtyEventView::Linked(ok),
            PtyEvent::ReaderStarted(ok) => event@ == PtyEventView::ReaderStarted(ok),
            PtyEvent::WriterStarted(ok) => event@ == PtyEventView::WriterStarted(ok),
        },
        match action {
            PtyAction::OpenPty => action@ is OpenPty,
            PtyAction::Name => action@ is Name,
            PtyAction::ReadAttributes => action@ is ReadAttributes,
            PtyAction::SetRaw => action@ is SetRaw,
            PtyAction::FindPort => action@ is FindPort,
            PtyAction::Link { target } => action@ == (PtyActionView::Link { target: target@ }),
            PtyAction::StartReader { buffer, queue } => action@ == (PtyActionView::StartReader {
                buffer: buffer as nat,
                queue: queue as nat,
            }),
            PtyAction::StartWriter => action@ is StartWriter,
            PtyAction::Ready => action@ is Ready,
            PtyAction::Fail(e) => action@ == PtyActionView::Fail(e@),
        },
{
}

/// The buffer to read into has room for a packet and for 512 bytes, and for no more than the
/// larger of the two.
pub proof fn read_buffer_has_room(mtu: nat)
    ensures
        read_buffer_size(mtu) >= 512,
        read_buffer_size(mtu) >= mtu,
        read_buffer_size(mtu) == 512 || read_buffer_size(mtu) == mtu,
{
}

} // verus!
