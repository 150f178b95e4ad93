//! What a relay hands on over a whole run, whatever the other side answers.

use crate::relay::{
    chunks_of, notification_input, read_input, InputView, PacketRelayView, ReadOutcome,
    RelayActionView, RelayEventView, RelayStage,
};
use vstd::prelude::*;

verus! {

/// The items of a run of inputs, up to its end.
pub open spec fn items(inputs: Seq<InputView>) -> Seq<Seq<u8>>
    decreases inputs.len(),
{
    if inputs.len() == 0 {
        seq![]
    } else {
        match inputs[0] {
            InputView::Item(data) => seq![data] + items(inputs.drop_first()),
            InputView::Other => items(inputs.drop_first()),
            InputView::End => seq![],
        }
    }
}

/// What a relay that waits for input, having handed on `sent`, has handed on when these
/// inputs are used up; `takes` says of each item whether the other side takes it.
pub open spec fn relayed(
    inputs: Seq<InputView>,
    takes: spec_fn(int) -> bool,
    sent: Seq<Seq<u8>>,
) -> Seq<Seq<u8>>
    decreases inputs.len(),
{
    if inputs.len() == 0 {
        sent
    } else {
        match RelayStage::Receiving.after(RelayEventView::Received(inputs[0])).1 {
            RelayActionView::Send(data) => {
                let answer = RelayEventView::Sent(takes(sent.len() as int));
                match RelayStage::Sending.after(answer).1 {
                    RelayActionView::Receive => relayed(
                        inputs.drop_first(),
                        takes,
                        sent.push(data),
                    ),
                    _ => sent.push(data),
                }
            },
            RelayActionView::Receive => relayed(inputs.drop_first(), takes, sent),
            RelayActionView::Stop => sent,
        }
    }
}

proof fn relayed_from(inputs: Seq<InputView>, takes: spec_fn(int) -> bool, sent: Seq<Seq<u8>>)
    ensures
        ({
            let all = sent + items(inputs);
            let handed_on = relayed(inputs, takes, sent);
            &&& sent.len() <= handed_on.len() <= all.len()
            &&& handed_on == all.take(handed_on.len() as int)
            &&& forall|j: int| sent.len() <= j < handed_on.len() - 1 ==> #[trigger] takes(j)
            &&& handed_on.len() < all.len() ==> handed_on.len() > sent.len() && !takes(
                handed_on.len() - 1,
            )
        }),
    decreases inputs.len(),
{
    let all = sent + items(inputs);
    if inputs.len() == 0 {
        assert(all =~= sent);
        assert(all.take(sent.len() as int) =~= sent);
    } else {
        let rest = inputs.drop_first();
        match inputs[0] {
            InputView::Item(data) => {
                let now = sent.push(data);
                assert(now + items(rest) =~= all);
                if takes(sent.len() as int) {
                    relayed_from(rest, takes, now);
                } else {
                    assert(all.take(now.len() as int) =~= now);
                }
            },
            InputView::Other => {
                relayed_from(rest, takes, sent);
            },
            InputView::End => {
                assert(all =~= sent);
                assert(all.take(sent.len() as int) =~= sent);
            },
        }
    }
}

/// A relay hands the items on unchanged, in the order in which they came and with none left
/// out, up to the first one that the other side does not take.
pub proof fn relay_changes_nothing(inputs: Seq<InputView>, takes: spec_fn(int) -> bool)
    ensures
        ({
            let handed_on = relayed(inputs, takes, seq![]);
            let n = handed_on.len() as int;
            &&& n <= items(inputs).len()
            &&& handed_on == items(inputs).take(n)
            &&& forall|j: int| 0 <= j < n - 1 ==> #[trigger] takes(j)
            &&& n < items(inputs).len() ==> n > 0 && !takes(n - 1)
        }),
{
    relayed_from(inputs, takes, seq![]);
    assert(seq![] + items(inputs) =~= items(inputs));
}

/// What a run of reads brings in.
pub open spec fn read_inputs(reads: Seq<(Seq<u8>, ReadOutcome)>) -> Seq<InputView> {
    reads.map_values(|r: (Seq<u8>, ReadOutcome)| read_input(r.0, r.1))
}

/// The pieces that a run of reads brought, up to the first read that brought nothing or
/// failed.
pub open spec fn pieces_read(reads: Seq<(Seq<u8>, ReadOutcome)>) -> Seq<Seq<u8>>
    decreases reads.len(),
{
    if reads.len() == 0 {
        seq![]
    } else {
        match reads[0].1 {
            ReadOutcome::Bytes(n) => if n == 0 {
                seq![]
            } else {
                seq![reads[0].0.subrange(0, n as int)] + pieces_read(reads.drop_first())
            },
            ReadOutcome::Failed => seq![],
        }
    }
}

proof fn items_of_reads(reads: Seq<(Seq<u8>, ReadOutcome)>)
    ensures
        items(read_inputs(reads)) == pieces_read(reads),
    decreases reads.len(),
{
    if reads.len() > 0 {
        assert(read_inputs(reads).drop_first() =~= read_inputs(reads.drop_first()));
        items_of_reads(reads.drop_first());
    }
}

/// What was read is handed on read by read, byte for byte, up to the first read that brought
/// nothing or failed.
pub proof fn reads_pass_unchanged(reads: Seq<(Seq<u8>, ReadOutcome)>)
    ensures
        relayed(read_inputs(reads), |j: int| true, seq![]) == pieces_read(reads),
{
    let inputs = read_inputs(reads);
    relay_changes_nothing(inputs, |j: int| true);
    items_of_reads(reads);
    assert(relayed(inputs, |j: int| true, seq![]) =~= items(inputs));
}

/// What a run of notifications brings in.
pub open spec fn notification_inputs(
    notify_uuid: u128,
    notifications: Seq<(u128, Seq<u8>)>,
) -> Seq<InputView> {
    notifications.map_values(|n: (u128, Seq<u8>)| notification_input(notify_uuid, Some(n)))
}

/// The values of the notifications from one characteristic.
pub open spec fn values_from(notify_uuid: u128, notifications: Seq<(u128, Seq<u8>)>) -> Seq<Seq<u8>>
    decreases notifications.len(),
{
    if notifications.len() == 0 {
        seq![]
    } else if notifications[0].0 == notify_uuid {
        seq![notifications[0].1] + values_from(notify_uuid, notifications.drop_first())
    } else {
        values_from(notify_uuid, notifications.drop_first())
    }
}

proof fn items_of_notifications(notify_uuid: u128, notifications: Seq<(u128, Seq<u8>)>)
    ensures
        items(notification_inputs(notify_uuid, notifications)) == values_from(
            notify_uuid,
            notifications,
        ),
    decreases notifications.len(),
{
    if notifications.len() > 0 {
        let inputs = notification_inputs(notify_uuid, notifications);
        assert(inputs.drop_first() =~= notification_inputs(
            notify_uuid,
            notifications.drop_first(),
        ));
        items_of_notifications(notify_uuid, notifications.drop_first());
    }
}

/// The values of the notifications from the characteristic listened to, and no others, are
/// handed on unchanged and in order.
pub proof fn notifications_pass_unchanged(
    notify_uuid: u128,
    notifications: Seq<(u128, Seq<u8>)>,
)
    ensures
        relayed(notification_inputs(notify_uuid, notifications), |j: int| true, seq![])
            == values_from(notify_uuid, notifications),
{
    let inputs = notification_inputs(notify_uuid, notifications);
    relay_changes_nothing(inputs, |j: int| true);
    items_of_notifications(notify_uuid, notifications);
    assert(relayed(inputs, |j: int| true, seq![]) =~= items(inputs));
}

/// The bytes of a run of pieces, one after the other.
pub open spec fn joined(pieces: Seq<Seq<u8>>) -> Seq<u8>
    decreases pieces.len(),
{
    if pieces.len() == 0 {
        seq![]
    } else {
        pieces[0] + joined(pieces.drop_first())
    }
}

proof fn joined_append(a: Seq<Seq<u8>>, b: Seq<Seq<u8>>)
    ensures
        joined(a + b) == joined(a) + joined(b),
    decreases a.len(),
{
    if a.len() == 0 {
        assert(a + b =~= b);
        assert(joined(a) + joined(b) =~= joined(b));
    } else {
        joined_append(a.drop_first(), b);
        assert((a + b).drop_first() =~= a.drop_first() + b);
        assert(joined(a + b) =~= joined(a) + joined(b));
    }
}

/// Put together, the packets are the bytes that were split.
pub proof fn chunks_join_to_whole(s: Seq<u8>, n: nat)
    requires
        n > 0,
    ensures
        joined(chunks_of(s, n)) == s,
    decreases s.len(),
{
    let pieces = chunks_of(s, n);
    if s.len() == 0 {
        assert(joined(pieces) =~= s);
    } else if s.len() <= n {
        assert(joined(pieces.drop_first()) =~= seq![]);
        assert(joined(pieces) =~= s);
    } else {
        chunks_join_to_whole(s.skip(n as int), n);
        assert(pieces.drop_first() =~= chunks_of(s.skip(n as int), n));
        assert(joined(pieces) =~= s);
    }
}

/// No packet is empty or larger than allowed, and all but the last are as large as allowed.
pub proof fn chunks_fit(s: Seq<u8>, n: nat)
    requires
        n > 0,
    ensures
        forall|i: int| 0 <= i < chunks_of(s, n).len() ==> 0 < (#[trigger] chunks_of(s, n)[i]).len() <= n,
        forall|i: int|
            0 <= i < chunks_of(s, n).len() - 1 ==> (#[trigger] chunks_of(s, n)[i]).len() == n,
    decreases s.len(),
{
    if s.len() > n {
        let rest = chunks_of(s.skip(n as int), n);
        chunks_fit(s.skip(n as int), n);
        let all = chunks_of(s, n);
        assert forall|i: int| 0 <= i < all.len() implies 0 < (#[trigger] all[i]).len() <= n by {
            if i > 0 {
                assert(all[i] == rest[i - 1]);
            }
        }
        assert forall|i: int| 0 <= i < all.len() - 1 implies (#[trigger] all[i]).len() == n by {
            if i > 0 {
                assert(all[i] == rest[i - 1]);
            }
        }
    }
}

/// The packets of a run of items, item by item.
pub open spec fn packets(pieces: Seq<Seq<u8>>, mtu: nat) -> Seq<Seq<u8>>
    decreases pieces.len(),
{
    if pieces.len() == 0 {
        seq![]
    } else {
        chunks_of(pieces[0], mtu) + packets(pieces.drop_first(), mtu)
    }
}

/// What a packet relay that has handed on `sent`, and now asks for `action`, has handed on
/// when these inputs are used up; `takes` says of each packet whether the other side takes
/// it.
pub open spec fn packet_relayed(
    step: (PacketRelayView, RelayActionView),
    inputs: Seq<InputView>,
    takes: spec_fn(int) -> bool,
    sent: Seq<Seq<u8>>,
) -> Seq<Seq<u8>>
    decreases inputs.len(), step.0.left.len(),
{
    match step.1 {
        RelayActionView::Send(data) => {
            let answer = RelayEventView::Sent(takes(sent.len() as int));
            if step.0.left.len() == 0 {
                sent
            } else {
                packet_relayed(step.0.after(answer), inputs, takes, sent.push(data))
            }
        },
        RelayActionView::Receive => if inputs.len() == 0 {
            sent
        } else {
            packet_relayed(
                step.0.after(RelayEventView::Received(inputs[0])),
                inputs.drop_first(),
                takes,
                sent,
            )
        },
        RelayActionView::Stop => sent,
    }
}

proof fn packet_relayed_from(
    relay: PacketRelayView,
    left: Seq<Seq<u8>>,
    inputs: Seq<InputView>,
    takes: spec_fn(int) -> bool,
    sent: Seq<Seq<u8>>,
)
    ensures
        packet_relayed(relay.go_on(left), inputs, takes, sent) == sent + left + packets(
            items(inputs),
            relay.mtu,
        ),
    decreases inputs.len(), left.len(),
{
    let step = relay.go_on(left);
    let mtu = relay.mtu;
    let all = sent + left + packets(items(inputs), mtu);
    if left.len() > 0 {
        let answer = RelayEventView::Sent(takes(sent.len() as int));
        packet_relayed_from(step.0, left.drop_first(), inputs, takes, sent.push(left[0]));
        assert(sent.push(left[0]) + left.drop_first() =~= sent + left);
    } else if inputs.len() == 0 {
        assert(all =~= sent);
    } else {
        let rest = inputs.drop_first();
        match inputs[0] {
            InputView::Item(data) => {
                let chunks = chunks_of(data, mtu);
                packet_relayed_from(step.0, chunks, rest, takes, sent);
                assert(items(inputs).drop_first() =~= items(rest));
                assert(all =~= sent + chunks + packets(items(rest), mtu));
            },
            InputView::Other => {
                packet_relayed_from(step.0, seq![], rest, takes, sent);
                assert(all =~= sent + seq![] + packets(items(rest), mtu));
            },
            InputView::End => {
                let end = step.0.after(RelayEventView::Received(inputs[0]));
                assert(packet_relayed(end, rest, takes, sent) == sent);
                assert(all =~= sent);
            },
        }
    }
}

proof fn packets_fit(pieces: Seq<Seq<u8>>, mtu: nat)
    requires
        mtu > 0,
    ensures
        forall|i: int|
            0 <= i < packets(pieces, mtu).len() ==> 0 < (#[trigger] packets(pieces, mtu)[i]).len()
                <= mtu,
    decreases pieces.len(),
{
    if pieces.len() > 0 {
        let first = chunks_of(pieces[0], mtu);
        let rest = packets(pieces.drop_first(), mtu);
        let all = packets(pieces, mtu);
        chunks_fit(pieces[0], mtu);
        packets_fit(pieces.drop_first(), mtu);
        assert forall|i: int| 0 <= i < all.len() implies 0 < (#[trigger] all[i]).len() <= mtu by {
            if i < first.len() {
                assert(all[i] == first[i]);
            } else {
                assert(all[i] == rest[i - first.len()]);
            }
        }
    }
}

proof fn packets_join(pieces: Seq<Seq<u8>>, mtu: nat)
    requires
        mtu > 0,
    ensures
        joined(packets(pieces, mtu)) == joined(pieces),
    decreases pieces.len(),
{
    if pieces.len() > 0 {
        packets_join(pieces.drop_first(), mtu);
        chunks_join_to_whole(pieces[0], mtu);
        joined_append(chunks_of(pieces[0], mtu), packets(pieces.drop_first(), mtu));
    }
}

/// A packet relay hands on each item in its packets, in order; none is empty or larger than
/// allowed, and put together they are the bytes that came in. Which packets the other side
/// takes makes no difference.
pub proof fn packet_relay_loses_nothing(
    mtu: nat,
    inputs: Seq<InputView>,
    takes: spec_fn(int) -> bool,
)
    requires
        mtu > 0,
    ensures
        ({
            let fresh = PacketRelayView { mtu, left: seq![], stage: RelayStage::Receiving };
            let handed_on = packet_relayed(
                (fresh, RelayActionView::Receive),
                inputs,
                takes,
                seq![],
            );
            &&& handed_on == packets(items(inputs), mtu)
            &&& joined(handed_on) == joined(items(inputs))
            &&& forall|i: int|
                0 <= i < handed_on.len() ==> 0 < (#[trigger] handed_on[i]).len() <= mtu
        }),
{
    let fresh = PacketRelayView { mtu, left: seq![], stage: RelayStage::Receiving };
    packet_relayed_from(fresh, seq![], inputs, takes, seq![]);
    assert(seq![] + seq![] + packets(items(inputs), mtu) =~= packets(items(inputs), mtu));
    packets_join(items(inputs), mtu);
    packets_fit(items(inputs), mtu);
}

/// What a queue that keeps its order brings in, when these pieces have come through it; with
/// its end where it is closed.
pub open spec fn queued(pieces: Seq<Seq<u8>>, closed: bool) -> Seq<InputView> {
    let inputs = pieces.map_values(|piece: Seq<u8>| InputView::Item(piece));
    if closed {
        inputs.push(InputView::End)
    } else {
        inputs
    }
}

proof fn items_of_queue(pieces: Seq<Seq<u8>>, closed: bool)
    ensures
        items(queued(pieces, closed)) == pieces,
    decreases pieces.len(),
{
    let inputs = queued(pieces, closed);
    if pieces.len() == 0 {
        assert(items(inputs) =~= pieces);
    } else {
        assert(inputs.drop_first() =~= queued(pieces.drop_first(), closed));
        items_of_queue(pieces.drop_first(), closed);
        assert(items(inputs) =~= pieces);
    }
}

/// From the port to the device: the bytes that are handed to the device, in packets that fit,
/// are the bytes that were read from the port, in order, as far as they have come through the
/// queue between the two relays; `takes` says of each piece whether the queue takes it, and
/// `came` how many have come through. Which packets the device takes makes no difference.
/// Where the queue takes everything, everything that was read can come through.
pub proof fn port_bytes_reach_device(
    reads: Seq<(Seq<u8>, ReadOutcome)>,
    takes: spec_fn(int) -> bool,
    came: int,
    closed: bool,
    mtu: nat,
    written: spec_fn(int) -> bool,
)
    requires
        mtu > 0,
        0 <= came <= relayed(read_inputs(reads), takes, seq![]).len(),
    ensures
        ({
            let sent = relayed(read_inputs(reads), takes, seq![]);
            let fresh = PacketRelayView { mtu, left: seq![], stage: RelayStage::Receiving };
            let handed_on = packet_relayed(
                (fresh, RelayActionView::Receive),
                queued(sent.take(came), closed),
                written,
                seq![],
            );
            &&& came <= pieces_read(reads).len()
            &&& handed_on == packets(pieces_read(reads).take(came), mtu)
            &&& joined(handed_on) == joined(pieces_read(reads).take(came))
            &&& forall|i: int|
                0 <= i < handed_on.len() ==> 0 < (#[trigger] handed_on[i]).len() <= mtu
            &&& (forall|j: int| #[trigger] takes(j)) ==> sent == pieces_read(reads)
        }),
{
    let sent = relayed(read_inputs(reads), takes, seq![]);
    relay_changes_nothing(read_inputs(reads), takes);
    items_of_reads(reads);
    assert(sent.take(came) =~= pieces_read(reads).take(came));
    items_of_queue(sent.take(came), closed);
    packet_relay_loses_nothing(mtu, queued(sent.take(came), closed), written);
    if forall|j: int| #[trigger] takes(j) {
        assert(takes(sent.len() - 1));
        assert(sent =~= pieces_read(reads));
    }
}

/// From the device to the port: what is written to the port are the values of the
/// notifications from the characteristic listened to, unchanged and in order, as far as they
/// have come through the queue between the two relays and up to the first that could not be
/// written; `takes` says of each value whether the queue takes it, `came` how many have come
/// through, and `written` which of them could be written. Where the queue takes everything,
/// every value can come through.
pub proof fn device_values_reach_port(
    notify_uuid: u128,
    notifications: Seq<(u128, Seq<u8>)>,
    takes: spec_fn(int) -> bool,
    came: int,
    closed: bool,
    written: spec_fn(int) -> bool,
)
    requires
        0 <= came <= relayed(
            notification_inputs(notify_uuid, notifications),
            takes,
            seq![],
        ).len(),
    ensures
        ({
            let values = values_from(notify_uuid, notifications);
            let sent = relayed(notification_inputs(notify_uuid, notifications), takes, seq![]);
            let handed_on = relayed(queued(sent.take(came), closed), written, seq![]);
            let n = handed_on.len() as int;
            &&& n <= came <= values.len()
            &&& handed_on == values.take(n)
            &&& forall|j: int| 0 <= j < n - 1 ==> #[trigger] written(j)
            &&& n < came ==> n > 0 && !written(n - 1)
            &&& (forall|j: int| #[trigger] takes(j)) ==> sent == values
        }),
{
    let values = values_from(notify_uuid, notifications);
    let inputs = notification_inputs(notify_uuid, notifications);
    let sent = relayed(inputs, takes, seq![]);
    relay_changes_nothing(inputs, takes);
    items_of_notifications(notify_uuid, notifications);
    assert(sent.take(came) =~= values.take(came));
    items_of_queue(sent.take(came), closed);
    let through = queued(sent.take(came), closed);
    relay_changes_nothing(through, written);
    let n = relayed(through, written, seq![]).len() as int;
    assert(values.take(came).take(n) =~= values.take(n));
    if forall|j: int| #[trigger] takes(j) {
        assert(takes(sent.len() - 1));
        assert(sent =~= values);
    }
}

/// The bytes of a run of pieces are the pieces put one after the other.
pub proof fn joined_is_flatten(pieces: Seq<Seq<u8>>)
    ensures
        joined(pieces) == pieces.flatten(),
    decreases pieces.len(),
{
    if pieces.len() > 0 {
        joined_is_flatten(pieces.drop_first());
    }
}

proof fn items_then_end(pieces: Seq<Seq<u8>>, later: Seq<InputView>)
    ensures
        items(
            pieces.map_values(|p: Seq<u8>| InputView::Item(p)) + seq![InputView::End] + later,
        ) == pieces,
    decreases pieces.len(),
{
    let inputs = pieces.map_values(|p: Seq<u8>| InputView::Item(p)) + seq![InputView::End] + later;
    if pieces.len() == 0 {
        assert(inputs[0] == InputView::End);
        assert(items(inputs) =~= pieces);
    } else {
        let rest = pieces.drop_first();
        assert(inputs[0] == InputView::Item(pieces[0]));
        assert(inputs.drop_first() =~= rest.map_values(|p: Seq<u8>| InputView::Item(p)) + seq![
            InputView::End,
        ] + later);
        items_then_end(rest, later);
        assert(items(inputs) =~= pieces);
    }
}

/// Whatever pieces come in, empty ones among them, a relay hands on those very pieces up to the
/// first that the other side does not take, and nothing that comes after the end.
pub proof fn relay_hands_on_the_pieces(
    pieces: Seq<Seq<u8>>,
    later: Seq<InputView>,
    takes: spec_fn(int) -> bool,
)
    ensures
        ({
            let inputs = pieces.map_values(|p: Seq<u8>| InputView::Item(p)) + seq![InputView::End]
                + later;
            let handed_on = relayed(inputs, takes, seq![]);
            let n = handed_on.len() as int;
            &&& n <= pieces.len()
            &&& handed_on == pieces.take(n)
            &&& forall|j: int| 0 <= j < n - 1 ==> #[trigger] takes(j)
            &&& n < pieces.len() ==> n > 0 && !takes(n - 1)
        }),
{
    items_then_end(pieces, later);
    relay_changes_nothing(
        pieces.map_values(|p: Seq<u8>| InputView::Item(p)) + seq![InputView::End] + later,
        takes,
    );
}

/// What is not to be handed on makes no difference to a relay, wherever it comes.
pub proof fn others_are_passed_over(
    inputs: Seq<InputView>,
    takes: spec_fn(int) -> bool,
    sent: Seq<Seq<u8>>,
)
    ensures
        relayed(seq![InputView::Other] + inputs, takes, sent) == relayed(inputs, takes, sent),
{
    assert((seq![InputView::Other] + inputs).drop_first() =~= inputs);
}

/// Whatever pieces come in, a packet relay hands on all of their bytes in order and nothing
/// that comes after the end, in packets that are neither empty nor too large, whichever of them
/// the other side takes.
pub proof fn packet_relay_hands_on_the_bytes(
    mtu: nat,
    pieces: Seq<Seq<u8>>,
    later: Seq<InputView>,
    takes: spec_fn(int) -> bool,
)
    requires
        mtu > 0,
    ensures
        ({
            let inputs = pieces.map_values(|p: Seq<u8>| InputView::Item(p)) + seq![InputView::End]
                + later;
            let fresh = PacketRelayView { mtu, left: seq![], stage: RelayStage::Receiving };
            let handed_on = packet_relayed(
                (fresh, RelayActionView::Receive),
                inputs,
                takes,
                seq![],
            );
            &&& handed_on.flatten() == pieces.flatten()
            &&& forall|i: int|
                0 <= i < handed_on.len() ==> 0 < (#[trigger] handed_on[i]).len() <= mtu
        }),
{
    let inputs = pieces.map_values(|p: Seq<u8>| InputView::Item(p)) + seq![InputView::End] + later;
    let fresh = PacketRelayView { mtu, left: seq![], stage: RelayStage::Receiving };
    let handed_on = packet_relayed((fresh, RelayActionView::Receive), inputs, takes, seq![]);
    items_then_end(pieces, later);
    packet_relay_loses_nothing(mtu, inputs, takes);
    joined_is_flatten(handed_on);
    joined_is_flatten(pieces);
}

/// One piece goes out in as few packets as possible: all but its last packet are as large as
/// allowed, and its bytes never share a packet with those of another.
pub proof fn each_piece_fills_its_packets(
    mtu: nat,
    piece: Seq<u8>,
    pieces: Seq<Seq<u8>>,
    takes: spec_fn(int) -> bool,
)
    requires
        mtu > 0,
    ensures
        ({
            let fresh = PacketRelayView { mtu, left: seq![], stage: RelayStage::Receiving };
            let start = (fresh, RelayActionView::Receive);
            let one = packet_relayed(start, seq![InputView::Item(piece)], takes, seq![]);
            let rest = packet_relayed(
                start,
                pieces.map_values(|p: Seq<u8>| InputView::Item(p)),
                takes,
                seq![],
            );
            let both = packet_relayed(
                start,
                seq![InputView::Item(piece)] + pieces.map_values(
                    |p: Seq<u8>| InputView::Item(p),
                ),
                takes,
                seq![],
            );
            &&& one.flatten() == piece
            &&& forall|i: int| 0 <= i < one.len() - 1 ==> (#[trigger] one[i]).len() == mtu
            &&& both == one + rest
        }),
{
    let items_of = pieces.map_values(|p: Seq<u8>| InputView::Item(p));
    let fresh = PacketRelayView { mtu, left: seq![], stage: RelayStage::Receiving };
    let start = (fresh, RelayActionView::Receive);
    let single = seq![InputView::Item(piece)];
    let one = packet_relayed(start, single, takes, seq![]);
    assert(single =~= queued(seq![piece], false));
    assert(items_of =~= queued(pieces, false));
    assert(single + items_of =~= queued(seq![piece] + pieces, false));
    items_of_queue(seq![piece], false);
    items_of_queue(pieces, false);
    items_of_queue(seq![piece] + pieces, false);
    packet_relay_loses_nothing(mtu, single, takes);
    packet_relay_loses_nothing(mtu, items_of, takes);
    packet_relay_loses_nothing(mtu, single + items_of, takes);
    let chunks = chunks_of(piece, mtu);
    assert(packets(seq![piece].drop_first(), mtu) =~= seq![]);
    assert(packets(seq![piece], mtu) =~= chunks);
    assert((seq![piece] + pieces).drop_first() =~= pieces);
    chunks_join_to_whole(piece, mtu);
    joined_is_flatten(chunks);
    chunks_fit(piece, mtu);
}

/// A packet relay passes over what is not to be handed on.
pub proof fn packet_relay_passes_over_others(
    mtu: nat,
    inputs: Seq<InputView>,
    takes: spec_fn(int) -> bool,
)
    requires
        mtu > 0,
    ensures
        ({
            let fresh = PacketRelayView { mtu, left: seq![], stage: RelayStage::Receiving };
            let start = (fresh, RelayActionView::Receive);
            packet_relayed(start, seq![InputView::Other] + inputs, takes, seq![])
                == packet_relayed(start, inputs, takes, seq![])
        }),
{
    packet_relay_loses_nothing(mtu, inputs, takes);
    packet_relay_loses_nothing(mtu, seq![InputView::Other] + inputs, takes);
    assert((seq![InputView::Other] + inputs).drop_first() =~= inputs);
}

/// What a read brings in are the bytes at the front of the buffer, as many as were read and no
/// others; a read that brought nothing, or failed, is the end.
pub proof fn reads_bring_in_what_was_read(buffer: Seq<u8>, n: usize)
    requires
        n <= buffer.len(),
    ensures
        n > 0 ==> (read_input(buffer, ReadOutcome::Bytes(n)) matches InputView::Item(data)
            && data.len() == n && forall|i: int| 0 <= i < n ==> #[trigger] data[i] == buffer[i]),
        read_input(buffer, ReadOutcome::Bytes(0)) is End,
        read_input(buffer, ReadOutcome::Failed) is End,
{
}

/// A value counts just where it is from the characteristic listened to, and then as it is.
pub proof fn only_the_characteristic_listened_to_counts(
    notify_uuid: u128,
    uuid: u128,
    value: Seq<u8>,
)
    ensures
        uuid == notify_uuid ==> notification_input(notify_uuid, Some((uuid, value)))
            == InputView::Item(value),
        uuid != notify_uuid ==> notification_input(notify_uuid, Some((uuid, value))) is Other,
        notification_input(notify_uuid, None) is End,
{
}

} // verus!
