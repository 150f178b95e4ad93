//! Passing bytes on, from the device to the port and from the port to the device.
//!
//! A relay takes in one item at a time and hands it on. It asks for one piece of outside
//! work at a time, and decides what to do next from the answer.

use crate::relay_run::{chunks_fit, chunks_join_to_whole, joined_is_flatten};
use vstd::prelude::*;

verus! {

/// What came in.
#[derive(Debug, PartialEq, Eq)]
pub enum Input {
    /// Bytes to hand on.
    Item(Vec<u8>),
    /// Something that is not handed on.
    Other,
    /// Nothing more comes.
    End,
}

pub enum InputView {
    Item(Seq<u8>),
    Other,
    End,
}

impl View for Input {
    type V = InputView;

    open spec fn view(&self) -> InputView {
        match self {
            Input::Item(data) => InputView::Item(data@),
            Input::Other => InputView::Other,
            Input::End => InputView::End,
        }
    }
}

/// The answer to a request of a relay.
#[derive(Debug)]
pub enum RelayEvent {
    Received(Input),
    /// Whether the other side took what was handed on.
    Sent(bool),
}

pub enum RelayEventView {
    Received(InputView),
    Sent(bool),
}

impl View for RelayEvent {
    type V = RelayEventView;

    open spec fn view(&self) -> RelayEventView {
        match self {
            RelayEvent::Received(input) => RelayEventView::Received(input@),
            RelayEvent::Sent(ok) => RelayEventView::Sent(*ok),
        }
    }
}

/// What a relay asks for next.
#[derive(Debug, PartialEq, Eq)]
pub enum RelayAction {
    /// Wait for the next input.
    Receive,
    /// Hand these bytes on.
    Send(Vec<u8>),
    /// Do nothing more.
    Stop,
}

pub enum RelayActionView {
    Receive,
    Send(Seq<u8>),
    Stop,
}

impl View for RelayAction {
    type V = RelayActionView;

    open spec fn view(&self) -> RelayActionView {
        match self {
            RelayAction::Receive => RelayActionView::Receive,
            RelayAction::Send(data) => RelayActionView::Send(data@),
            RelayAction::Stop => RelayActionView::Stop,
        }
    }
}

/// What a read gave.
#[derive(Clone, Copy, Debug, PartialEq, Eq, Structural)]
pub enum ReadOutcome {
    /// This many bytes, at the front of the buffer.
    Bytes(usize),
    Failed,
}

/// What a read brings in: the bytes that were read, or the end where there were none.
pub open spec fn read_input(buffer: Seq<u8>, outcome: ReadOutcome) -> InputView {
    match outcome {
        ReadOutcome::Bytes(n) => if n == 0 {
            InputView::End
        } else {
            InputView::Item(buffer.subrange(0, n as int))
        },
        ReadOutcome::Failed => InputView::End,
    }
}

/// What a read into `buffer` brings in.
pub fn input_from_read(buffer: &[u8], outcome: ReadOutcome) -> (input: Input)
    requires
        outcome matches ReadOutcome::Bytes(n) ==> n <= buffer@.len(),
    ensures
        input@ == read_input(buffer@, outcome),
        outcome matches ReadOutcome::Bytes(n) ==> n > 0 ==> (input matches Input::Item(data)
            && data@ == buffer@.take(n as int)),
        outcome == ReadOutcome::Bytes(0) ==> input is End,
        outcome is Failed ==> input is End,
{
    match outcome {
        ReadOutcome::Bytes(n) => if n == 0 {
            Input::End
        } else {
            Input::Item(piece(buffer, 0, n))
        },
        ReadOutcome::Failed => Input::End,
    }
}

/// What a channel brings in: the bytes that were sent, or the end once it is closed.
pub fn input_from_channel(received: Option<Vec<u8>>) -> (input: Input)
    ensures
        input@ == (match received {
            Some(data) => InputView::Item(data@),
            None => InputView::End,
        }),
{
    match received {
        Some(data) => Input::Item(data),
        None => Input::End,
    }
}

/// A value that a device sent of its own accord, and the characteristic it belongs to.
#[derive(Debug)]
pub struct Notification {
    pub uuid: u128,
    pub value: Vec<u8>,
}

/// What a notification brings in: its value, if it is from the characteristic listened to.
pub open spec fn notification_input(
    notify_uuid: u128,
    notification: Option<(u128, Seq<u8>)>,
) -> InputView {
    match notification {
        Some((uuid, value)) => if uuid == notify_uuid {
            InputView::Item(value)
        } else {
            InputView::Other
        },
        None => InputView::End,
    }
}

/// The view of an optional notification.
pub open spec fn notification_view(notification: Option<Notification>) -> Option<(u128, Seq<u8>)> {
    match notification {
        Some(n) => Some((n.uuid, n.value@)),
        None => None,
    }
}

/// What a stream of notifications brings in, where only those from the characteristic
/// `notify_uuid` count.
pub fn input_from_notification(notify_uuid: u128, notification: Option<Notification>) -> (input:
    Input)
    ensures
        input@ == notification_input(notify_uuid, notification_view(notification)),
        notification matches Some(n) ==> n.uuid == notify_uuid ==> (input matches Input::Item(data)
            && data@ == n.value@),
        notification matches Some(n) ==> n.uuid != notify_uuid ==> input is Other,
        notification is None ==> input is End,
{
    match notification {
        Some(n) => if n.uuid == notify_uuid {
            Input::Item(n.value)
        } else {
            Input::Other
        },
        None => Input::End,
    }
}

/// The bytes of `data` from `from` up to `to`.
fn piece(data: &[u8], from: usize, to: usize) -> (copy: Vec<u8>)
    requires
        from <= to <= data@.len(),
    ensures
        copy@ == data@.subrange(from as int, to as int),
{
    let mut copy: Vec<u8> = Vec::new();
    let mut i: usize = from;
    while i < to
        invariant
            from <= i <= to <= data@.len(),
            copy@ == data@.subrange(from as int, i as int),
        decreases to - i,
    {
        copy.push(data[i]);
        i = i + 1;
        assert(copy@ =~= data@.subrange(from as int, i as int));
    }
    assert(copy@ =~= data@.subrange(from as int, to as int));
    copy
}

/// How far a relay has come: the request that it waits on.
#[derive(Clone, Copy, Debug, PartialEq, Eq, Structural)]
pub enum RelayStage {
    Receiving,
    Sending,
    Stopped,
}

impl RelayStage {
    /// The event answers the request that the relay waits on.
    pub open spec fn awaits(self, event: RelayEventView) -> bool {
        match self {
            RelayStage::Receiving => event is Received,
            RelayStage::Sending => event is Sent,
            RelayStage::Stopped => false,
        }
    }

    /// What the relay does on an answer: it hands on each item whole, and stops when nothing
    /// more comes or the other side takes nothing more.
    pub open spec fn after(self, event: RelayEventView) -> (RelayStage, RelayActionView) {
        match event {
            RelayEventView::Received(InputView::Item(data)) => (
                RelayStage::Sending,
                RelayActionView::Send(data),
            ),
            RelayEventView::Received(InputView::Other) | RelayEventView::Sent(true) => (
                RelayStage::Receiving,
                RelayActionView::Receive,
            ),
            RelayEventView::Received(InputView::End) | RelayEventView::Sent(false) => (
                RelayStage::Stopped,
                RelayActionView::Stop,
            ),
        }
    }
}

/// A relay that hands on each item as it came.
#[derive(Debug)]
pub struct Relay {
    stage: RelayStage,
}

impl View for Relay {
    type V = RelayStage;

    closed spec fn view(&self) -> RelayStage {
        self.stage
    }
}

impl Relay {
    /// A relay that waits for its first input.
    pub fn new() -> (begun: (Relay, RelayAction))
        ensures
            begun.0@ == RelayStage::Receiving,
            begun.1@ == RelayActionView::Receive,
    {
        (Relay { stage: RelayStage::Receiving }, RelayAction::Receive)
    }

    /// Goes on with the answer to the last request.
    pub fn step(self, event: RelayEvent) -> (step: (Relay, RelayAction))
        requires
            self@.awaits(event@),
        ensures
            (step.0@, step.1@) == self@.after(event@),
    {
        match event {
            RelayEvent::Received(Input::Item(data)) => (
                Relay { stage: RelayStage::Sending },
                RelayAction::Send(data),
            ),
            RelayEvent::Received(Input::Other) => (
                Relay { stage: RelayStage::Receiving },
                RelayAction::Receive,
            ),
            RelayEvent::Received(Input::End) => (
                Relay { stage: RelayStage::Stopped },
                RelayAction::Stop,
            ),
            RelayEvent::Sent(ok) => if ok {
                (Relay { stage: RelayStage::Receiving }, RelayAction::Receive)
            } else {
                (Relay { stage: RelayStage::Stopped }, RelayAction::Stop)
            },
        }
    }
}

/// `s` in pieces of `n` bytes each, the last one shorter where they do not come out even.
pub open spec fn chunks_of(s: Seq<u8>, n: nat) -> Seq<Seq<u8>>
    recommends
        n > 0,
    decreases s.len(),
{
    if s.len() == 0 || n == 0 {
        seq![]
    } else if s.len() <= n {
        seq![s]
    } else {
        seq![s.take(n as int)] + chunks_of(s.skip(n as int), n)
    }
}

/// The views of a run of byte vectors.
pub open spec fn bytes(s: Seq<Vec<u8>>) -> Seq<Seq<u8>> {
    s.map_values(|v: Vec<u8>| v@)
}

/// Splits bytes into packets of `mtu` bytes each, the last one shorter where they do not
/// come out even.
pub fn chunks(data: &[u8], mtu: usize) -> (pieces: Vec<Vec<u8>>)
    requires
        mtu > 0,
    ensures
        bytes(pieces@) == chunks_of(data@, mtu as nat),
        bytes(pieces@).flatten() == data@,
        forall|i: int| 0 <= i < pieces@.len() ==> 0 < (#[trigger] pieces@[i])@.len() <= mtu,
        forall|i: int| 0 <= i < pieces@.len() - 1 ==> (#[trigger] pieces@[i])@.len() == mtu,
{
    let mut pieces: Vec<Vec<u8>> = Vec::new();
    let mut at: usize = 0;
    proof {
        assert(data@.skip(0) =~= data@);
        assert(bytes(pieces@) + chunks_of(data@, mtu as nat) =~= chunks_of(data@, mtu as nat));
    }
    while at < data.len()
        invariant
            mtu > 0,
            at <= data@.len(),
            bytes(pieces@) + chunks_of(data@.skip(at as int), mtu as nat) == chunks_of(
                data@,
                mtu as nat,
            ),
        decreases data@.len() - at,
    {
        let ghost rest = data@.skip(at as int);
        let ghost done = bytes(pieces@);
        let left: usize = data.len() - at;
        let to: usize = if left <= mtu {
            data.len()
        } else {
            at + mtu
        };
        let next = piece(data, at, to);
        let ghost taken = next@;
        pieces.push(next);
        proof {
            assert(bytes(pieces@) =~= done.push(taken));
            let after = chunks_of(data@.skip(to as int), mtu as nat);
            if left <= mtu {
                assert(taken =~= rest);
                assert(data@.skip(to as int) =~= seq![]);
                assert(done.push(taken) + after =~= done + seq![rest]);
            } else {
                assert(taken =~= rest.take(mtu as int));
                assert(data@.skip(to as int) =~= rest.skip(mtu as int));
                assert(done.push(taken) + after =~= done + (seq![taken] + after));
            }
        }
        at = to;
    }
    assert(data@.skip(at as int) =~= seq![]);
    assert(bytes(pieces@) + chunks_of(data@.skip(at as int), mtu as nat) =~= bytes(pieces@));
    proof {
        let all = chunks_of(data@, mtu as nat);
        chunks_join_to_whole(data@, mtu as nat);
        joined_is_flatten(all);
        chunks_fit(data@, mtu as nat);
        assert forall|i: int| 0 <= i < pieces@.len() implies (#[trigger] pieces@[i])@ == all[i] by {
            assert(bytes(pieces@)[i] == pieces@[i]@);
        }
    }
    pieces
}

/// A relay that hands on each item in packets, whatever becomes of them.
#[derive(Debug)]
pub struct PacketRelay {
    mtu: usize,
    /// The packets of the item at hand, in order.
    packets: Vec<Vec<u8>>,
    /// How many of them were handed on.
    sent: usize,
    stage: RelayStage,
}

pub struct PacketRelayView {
    pub mtu: nat,
    /// The packets of the item at hand that are still to be handed on; the first of them is
    /// on its way while the relay is sending.
    pub left: Seq<Seq<u8>>,
    pub stage: RelayStage,
}

impl View for PacketRelay {
    type V = PacketRelayView;

    closed spec fn view(&self) -> PacketRelayView {
        PacketRelayView {
            mtu: self.mtu as nat,
            left: bytes(self.packets@).skip(self.sent as int),
            stage: self.stage,
        }
    }
}

impl PacketRelayView {
    /// Hands on the first of these packets, or waits for input where there is none.
    pub open spec fn go_on(self, left: Seq<Seq<u8>>) -> (PacketRelayView, RelayActionView) {
        if left.len() == 0 {
            (
                PacketRelayView { left, stage: RelayStage::Receiving, ..self },
                RelayActionView::Receive,
            )
        } else {
            (
                PacketRelayView { left, stage: RelayStage::Sending, ..self },
                RelayActionView::Send(left[0]),
            )
        }
    }

    /// What the relay does on an answer. That a packet was not taken changes nothing.
    pub open spec fn after(self, event: RelayEventView) -> (PacketRelayView, RelayActionView) {
        match event {
            RelayEventView::Received(InputView::Item(data)) => self.go_on(
                chunks_of(data, self.mtu),
            ),
            RelayEventView::Received(InputView::Other) => self.go_on(seq![]),
            RelayEventView::Received(InputView::End) => (
                PacketRelayView { left: seq![], stage: RelayStage::Stopped, ..self },
                RelayActionView::Stop,
            ),
            RelayEventView::Sent(ok) => self.go_on(self.left.drop_first()),
        }
    }

    /// Packets have a size, and one is on its way just while the relay is sending.
    pub open spec fn well_formed(self) -> bool {
        self.mtu > 0 && ((self.stage is Sending) == (self.left.len() > 0))
    }
}

impl PacketRelay {
    #[verifier::type_invariant]
    spec fn within(self) -> bool {
        self.sent <= self.packets@.len()
    }

    /// A relay for packets of at most `mtu` bytes that waits for its first input.
    pub fn new(mtu: usize) -> (begun: (PacketRelay, RelayAction))
        requires
            mtu > 0,
        ensures
            begun.0@ == (PacketRelayView {
                mtu: mtu as nat,
                left: seq![],
                stage: RelayStage::Receiving,
            }),
            begun.1@ == RelayActionView::Receive,
            begun.0@.well_formed(),
    {
        let packets: Vec<Vec<u8>> = Vec::new();
        assert(bytes(packets@).skip(0) =~= seq![]);
        (
            PacketRelay { mtu, packets, sent: 0, stage: RelayStage::Receiving },
            RelayAction::Receive,
        )
    }

    /// Hands on the packet at position `sent`, or waits for input where there is none.
    fn go_on(mtu: usize, packets: Vec<Vec<u8>>, sent: usize) -> (step: (PacketRelay, RelayAction))
        requires
            sent <= packets@.len(),
        ensures
            forall|s: PacketRelayView|
                s.mtu == mtu ==> (step.0@, step.1@) == #[trigger] s.go_on(
                    bytes(packets@).skip(sent as int),
                ),
            mtu > 0 ==> step.0@.well_formed(),
    {
        if sent < packets.len() {
            let packet = packets[sent].clone();
            assert(packet@ =~= packets@[sent as int]@);
            (
                PacketRelay { mtu, packets, sent, stage: RelayStage::Sending },
                RelayAction::Send(packet),
            )
        } else {
            (
                PacketRelay { mtu, packets, sent, stage: RelayStage::Receiving },
                RelayAction::Receive,
            )
        }
    }

    /// Goes on with the answer to the last request.
    pub fn step(self, event: RelayEvent) -> (step: (PacketRelay, RelayAction))
        requires
            self@.well_formed(),
            self@.stage.awaits(event@),
        ensures
            (step.0@, step.1@) == self@.after(event@),
            step.0@.well_formed(),
    {
        proof {
            use_type_invariant(&self);
        }
        match event {
            RelayEvent::Received(Input::Item(data)) => {
                let packets = chunks(data.as_slice(), self.mtu);
                assert(bytes(packets@).skip(0) =~= bytes(packets@));
                PacketRelay::go_on(self.mtu, packets, 0)
            },
            RelayEvent::Received(Input::Other) => {
                let packets: Vec<Vec<u8>> = Vec::new();
                assert(bytes(packets@).skip(0) =~= seq![]);
                PacketRelay::go_on(self.mtu, packets, 0)
            },
            RelayEvent::Received(Input::End) => {
                let packets: Vec<Vec<u8>> = Vec::new();
                assert(bytes(packets@).skip(0) =~= seq![]);
                (
                    PacketRelay { mtu: self.mtu, packets, sent: 0, stage: RelayStage::Stopped },
                    RelayAction::Stop,
                )
            },
            RelayEvent::Sent(_) => {
                assert(self.sent < self.packets.len());
                assert(bytes(self.packets@).skip(self.sent + 1) =~= bytes(self.packets@).skip(
                    self.sent as int,
                ).drop_first());
                PacketRelay::go_on(self.mtu, self.packets, self.sent + 1)
            },
        }
    }
}

/// The views of inputs, answers and requests show all that they hold, and bytes are shown as
/// they are.
pub proof fn inputs_and_requests_are_shown_whole(
    input: Input,
    event: RelayEvent,
    action: RelayAction,
    notification: Notification,
    pieces: Seq<Vec<u8>>,
)
    ensures
        match input {
            Input::Item(data) => input@ == InputView::Item(data@),
            Input::Other => input@ is Other,
            Input::End => input@ is End,
        },
        match event {
            RelayEvent::Received(input) => event@ == RelayEventView::Received(input@),
            RelayEvent::Sent(ok) => event@ == RelayEventView::Sent(ok),
        },
        match action {
            RelayAction::Receive => action@ is Receive,
            RelayAction::Send(data) => action@ == RelayActionView::Send(data@),
            RelayAction::Stop => action@ is Stop,
        },
        notification_view(Some(notification)) == Some((notification.uuid, notification.value@)),
        notification_view(None) is None,
        bytes(pieces).len() == pieces.len(),
        forall|i: int| 0 <= i < pieces.len() ==> #[trigger] bytes(pieces)[i] == pieces[i]@,
{
}

} // verus!
