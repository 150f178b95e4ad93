//! What a whole setup of the port comes to, whatever the outside answers.

use crate::error::ErrorView;
use crate::pty::{
    pty_start, read_buffer_size, PathView, PtyActionView, PtyEventView, PtyStage, PtyView,
    READ_QUEUE,
};
use vstd::prelude::*;

verus! {

/// The answers that the outside has for a setup.
pub struct PtyWorld {
    pub opens: bool,
    pub far_end: Option<PathView>,
    pub reads_attributes: bool,
    pub sets_raw: bool,
    pub port_found: bool,
    pub links: bool,
    pub starts_reader: bool,
    pub starts_writer: bool,
}

impl PtyWorld {
    /// The answer to a request.
    pub open spec fn answer(self, action: PtyActionView) -> PtyEventView {
        match action {
            PtyActionView::OpenPty => PtyEventView::Opened(self.opens),
            PtyActionView::Name => PtyEventView::Named(self.far_end),
            PtyActionView::ReadAttributes => PtyEventView::AttributesRead(self.reads_attributes),
            PtyActionView::SetRaw => PtyEventView::RawSet(self.sets_raw),
            PtyActionView::FindPort => PtyEventView::PortFound(self.port_found),
            PtyActionView::Link { target } => PtyEventView::Linked(self.links),
            PtyActionView::StartReader { buffer, queue } => PtyEventView::ReaderStarted(
                self.starts_reader,
            ),
            _ => PtyEventView::WriterStarted(self.starts_writer),
        }
    }
}

/// How many requests are still ahead of a setup.
pub open spec fn requests_ahead(stage: PtyStage) -> nat {
    match stage {
        PtyStage::Opening => 8,
        PtyStage::Naming => 7,
        PtyStage::ReadingAttributes => 6,
        PtyStage::SettingRaw => 5,
        PtyStage::FindingPort => 4,
        PtyStage::Linking => 3,
        PtyStage::StartingReader => 2,
        PtyStage::StartingWriter => 1,
        PtyStage::Ready | PtyStage::Failed => 0,
    }
}

/// All that a setup asks for when each request is answered by `world`, with how it ends last.
pub open spec fn trace(world: PtyWorld, step: (PtyView, PtyActionView)) -> Seq<PtyActionView>
    decreases requests_ahead(step.0.stage),
{
    if requests_ahead(step.0.stage) == 0 || !step.0.asked(step.1) {
        seq![step.1]
    } else {
        seq![step.1] + trace(world, step.0.after(world.answer(step.1)))
    }
}

/// How a setup is meant to end: the first thing that goes wrong decides.
pub open spec fn pty_outcome(world: PtyWorld, symlink: PathView) -> PtyActionView {
    if !world.opens {
        PtyActionView::Fail(ErrorView::OpenPty)
    } else if world.far_end is None {
        PtyActionView::Fail(ErrorView::TtyName)
    } else if !world.reads_attributes {
        PtyActionView::Fail(ErrorView::GetAttributes)
    } else if !world.sets_raw {
        PtyActionView::Fail(ErrorView::SetAttributes)
    } else if world.port_found {
        PtyActionView::Fail(ErrorView::PortExists { port: symlink.shown })
    } else if !world.links {
        PtyActionView::Fail(
            ErrorView::Symlink { port: symlink.shown, target: world.far_end->0.shown },
        )
    } else if !world.starts_reader {
        PtyActionView::Fail(ErrorView::DupReader)
    } else if !world.starts_writer {
        PtyActionView::Fail(ErrorView::DupWriter)
    } else {
        PtyActionView::Ready
    }
}

/// Everything that a setup asks for when nothing goes wrong, in order.
pub open spec fn pty_requests(far_end: Seq<u8>, mtu: nat) -> Seq<PtyActionView> {
    seq![
        PtyActionView::OpenPty,
        PtyActionView::Name,
        PtyActionView::ReadAttributes,
        PtyActionView::SetRaw,
        PtyActionView::FindPort,
        PtyActionView::Link { target: far_end },
        PtyActionView::StartReader { buffer: read_buffer_size(mtu), queue: READ_QUEUE as nat },
        PtyActionView::StartWriter,
    ]
}

/// A setup that is answered what it asks for always gets an answer that it waits for, and
/// stays in step with its requests.
pub proof fn setup_stays_in_step(world: PtyWorld, bridge: PtyView, action: PtyActionView)
    requires
        bridge.asked(action),
        requests_ahead(bridge.stage) > 0,
    ensures
        bridge.awaits(world.answer(action)),
        bridge.after(world.answer(action)).0.asked(bridge.after(world.answer(action)).1),
        bridge.after(world.answer(action)).0.symlink == bridge.symlink,
        requests_ahead(bridge.after(world.answer(action)).0.stage) < requests_ahead(bridge.stage),
{
}

/// A setup asks for its eight pieces of work in order and ends at the first that goes wrong.
/// So the port's path is linked only once the terminal is in raw mode and nothing was found
/// at that path, and reading and writing start only once it is linked.
pub proof fn setup_ends_at_first_failure(world: PtyWorld, symlink: PathView, mtu: nat)
    ensures
        ({
            let taken = trace(world, pty_start(symlink, mtu));
            let far_end = match world.far_end {
                Some(path) => path.bytes,
                None => seq![],
            };
            &&& taken.last() == pty_outcome(world, symlink)
            &&& 1 < taken.len() <= 9
            &&& taken.drop_last() == pty_requests(far_end, mtu).take(taken.len() - 1)
            &&& (taken.last() is Ready) == (taken.len() == 9 && world.starts_writer)
        }),
{
    let far_end = match world.far_end {
        Some(path) => path.bytes,
        None => seq![],
    };
    let taken = trace(world, pty_start(symlink, mtu));
    reveal_with_fuel(trace, 10);
    assert(taken.drop_last() =~= pty_requests(far_end, mtu).take(taken.len() - 1));
}

/// What the bridge is when the setup is over, and how the setup ended, when each request is
/// answered by `world`.
pub open spec fn end_of_setup(world: PtyWorld, step: (PtyView, PtyActionView)) -> (
    PtyView,
    PtyActionView,
)
    decreases requests_ahead(step.0.stage),
{
    if requests_ahead(step.0.stage) == 0 || !step.0.asked(step.1) {
        step
    } else {
        end_of_setup(world, step.0.after(world.answer(step.1)))
    }
}

proof fn setup_keeps_its_path(world: PtyWorld, step: (PtyView, PtyActionView))
    ensures
        end_of_setup(world, step).0.symlink == step.0.symlink,
        end_of_setup(world, step).0.mtu == step.0.mtu,
        end_of_setup(world, step).1 == trace(world, step).last(),
        trace(world, step).len() > 0,
        step.0.asked(step.1) ==> requests_ahead(end_of_setup(world, step).0.stage) == 0
            && end_of_setup(world, step).0.asked(end_of_setup(world, step).1),
    decreases requests_ahead(step.0.stage),
{
    if !(requests_ahead(step.0.stage) == 0 || !step.0.asked(step.1)) {
        setup_keeps_its_path(world, step.0.after(world.answer(step.1)));
    }
}

/// However the setup goes, the bridge holds at its end the very path that it was begun with,
/// byte for byte; so what is removed when the port is given up is what was linked. It is ready
/// just where the setup ended well.
pub proof fn port_that_was_linked_is_removed(world: PtyWorld, symlink: PathView, mtu: nat)
    ensures
        ({
            let (bridge, end) = end_of_setup(world, pty_start(symlink, mtu));
            &&& bridge.symlink.bytes == symlink.bytes
            &&& bridge.symlink.shown == symlink.shown
            &&& bridge.mtu == mtu
            &&& end == trace(world, pty_start(symlink, mtu)).last()
            &&& (bridge.stage is Ready) == (end is Ready)
        }),
{
    setup_keeps_its_path(world, pty_start(symlink, mtu));
}

/// A setup ends well just where nothing outside fails and nothing is found at the port's path;
/// otherwise it ends with the error of the first thing that went wrong, and asks for nothing
/// after that. The errors about the port show its path, and the path of the far end, as they
/// are.
pub proof fn each_failure_is_told(world: PtyWorld, symlink: PathView, mtu: nat)
    ensures
        ({
            let taken = trace(world, pty_start(symlink, mtu));
            let end = taken.last();
            let named = world.opens && world.far_end is Some;
            let raw = named && world.reads_attributes && world.sets_raw;
            let linked = raw && !world.port_found && world.links;
            &&& (end is Ready) == (linked && world.starts_reader && world.starts_writer)
            &&& !world.opens ==> end == PtyActionView::Fail(ErrorView::OpenPty) && taken.len() == 2
            &&& world.opens && world.far_end is None ==> end == PtyActionView::Fail(
                ErrorView::TtyName,
            ) && taken.len() == 3
            &&& named && !world.reads_attributes ==> end == PtyActionView::Fail(
                ErrorView::GetAttributes,
            ) && taken.len() == 4
            &&& named && world.reads_attributes && !world.sets_raw ==> end == PtyActionView::Fail(
                ErrorView::SetAttributes,
            ) && taken.len() == 5
            &&& raw && world.port_found ==> end == PtyActionView::Fail(
                ErrorView::PortExists { port: symlink.shown },
            ) && taken.len() == 6
            &&& raw && !world.port_found && !world.links ==> end == PtyActionView::Fail(
                ErrorView::Symlink { port: symlink.shown, target: world.far_end->0.shown },
            ) && taken.len() == 7
            &&& linked && !world.starts_reader ==> end == PtyActionView::Fail(
                ErrorView::DupReader,
            ) && taken.len() == 8
            &&& linked && world.starts_reader && !world.starts_writer ==> end
                == PtyActionView::Fail(ErrorView::DupWriter) && taken.len() == 9
        }),
{
    reveal_with_fuel(trace, 10);
}

/// A setup keeps one order. The port is linked to the far end of the pseudo-terminal, byte for
/// byte, only once that is in raw mode and the port's path was looked at; a reader is started
/// only once the port is linked, with room for 64 pieces, and a writer last.
pub proof fn setup_keeps_its_order(world: PtyWorld, symlink: PathView, mtu: nat)
    ensures
        ({
            let taken = trace(world, pty_start(symlink, mtu));
            let n = taken.len() - 1;
            &&& 1 <= n <= 8
            &&& taken[0] is OpenPty
            &&& n > 1 ==> taken[1] is Name
            &&& n > 2 ==> taken[2] is ReadAttributes
            &&& n > 3 ==> taken[3] is SetRaw
            &&& n > 4 ==> taken[4] is FindPort
            &&& n > 5 ==> taken[5] == (PtyActionView::Link { target: world.far_end->0.bytes })
            &&& n > 6 ==> taken[6] is StartReader && taken[6]->queue == 64 && taken[6]->buffer
                >= 512 && taken[6]->buffer >= mtu && (taken[6]->buffer == 512 || taken[6]->buffer
                == mtu)
            &&& n > 7 ==> taken[7] is StartWriter
            &&& taken[n] is Ready || taken[n] is Fail
        }),
{
    reveal_with_fuel(trace, 10);
}

} // verus!
