use ble_serial::relay::{
    chunks, input_from_channel, input_from_notification, input_from_read, Input, Notification,
    PacketRelay, ReadOutcome, Relay, RelayAction, RelayEvent,
};

#[test]
fn packets() {
    let data: Vec<u8> = (0..45).collect();
    let pieces = chunks(&data, 20);
    assert_eq!(pieces, vec![data[0..20].to_vec(), data[20..40].to_vec(), data[40..45].to_vec()]);
    assert_eq!(chunks(&data, 45), vec![data.clone()]);
    assert_eq!(chunks(&data, usize::MAX), vec![data.clone()]);
    assert_eq!(chunks(&data[..40], 20).len(), 2);
    assert_eq!(chunks(&data, 1).len(), 45);
    assert!(chunks(&[], 20).is_empty());
    for mtu in 1..50 {
        let expected: Vec<Vec<u8>> = data.chunks(mtu).map(|c| c.to_vec()).collect();
        assert_eq!(chunks(&data, mtu), expected);
        assert_eq!(chunks(&data, mtu).concat(), data);
    }
}

#[test]
fn reads() {
    let buffer = [1, 2, 3, 4];
    assert_eq!(input_from_read(&buffer, ReadOutcome::Bytes(3)), Input::Item(vec![1, 2, 3]));
    assert_eq!(input_from_read(&buffer, ReadOutcome::Bytes(4)), Input::Item(vec![1, 2, 3, 4]));
    assert_eq!(input_from_read(&buffer, ReadOutcome::Bytes(0)), Input::End);
    assert_eq!(input_from_read(&buffer, ReadOutcome::Failed), Input::End);
}

#[test]
fn channels() {
    assert_eq!(input_from_channel(Some(vec![9])), Input::Item(vec![9]));
    assert_eq!(input_from_channel(Some(vec![])), Input::Item(vec![]));
    assert_eq!(input_from_channel(None), Input::End);
}

#[test]
fn notifications() {
    let n = |uuid, value: &[u8]| Some(Notification { uuid, value: value.to_vec() });
    assert_eq!(input_from_notification(7, n(7, &[0, 255])), Input::Item(vec![0, 255]));
    assert_eq!(input_from_notification(7, n(8, &[1])), Input::Other);
    assert_eq!(input_from_notification(7, None), Input::End);
}

/// Runs a relay over inputs and gives back what it handed on, and whether it stopped.
fn run(inputs: Vec<Input>, takes: impl Fn(usize) -> bool) -> (Vec<Vec<u8>>, bool) {
    let mut inputs = inputs.into_iter();
    let mut sent: Vec<Vec<u8>> = Vec::new();
    let (mut relay, mut action) = Relay::new();
    loop {
        let event = match action {
            RelayAction::Receive => match inputs.next() {
                Some(input) => RelayEvent::Received(input),
                None => return (sent, false),
            },
            RelayAction::Send(data) => {
                sent.push(data);
                RelayEvent::Sent(takes(sent.len() - 1))
            }
            RelayAction::Stop => return (sent, true),
        };
        let (next, asked) = relay.step(event);
        relay = next;
        action = asked;
    }
}

fn items(n: u8) -> Vec<Input> {
    (0..n).map(|i| Input::Item(vec![i, i])).collect()
}

#[test]
fn relay_hands_everything_on() {
    let mut inputs = items(3);
    inputs.insert(1, Input::Other);
    let (sent, stopped) = run(inputs, |_| true);
    assert_eq!(sent, vec![vec![0, 0], vec![1, 1], vec![2, 2]]);
    assert!(!stopped);
}

#[test]
fn relay_stops_at_the_end() {
    let mut inputs = items(2);
    inputs.push(Input::End);
    inputs.push(Input::Item(vec![9]));
    let (sent, stopped) = run(inputs, |_| true);
    assert_eq!(sent, vec![vec![0, 0], vec![1, 1]]);
    assert!(stopped);
}

#[test]
fn relay_stops_when_nothing_is_taken() {
    let (sent, stopped) = run(items(5), |i| i < 1);
    assert_eq!(sent, vec![vec![0, 0], vec![1, 1]]);
    assert!(stopped);
}

#[test]
fn only_notifications_listened_to_are_handed_on() {
    let inputs = [(7, vec![1]), (8, vec![2]), (7, vec![3, 4])]
        .into_iter()
        .map(|(uuid, value)| input_from_notification(7, Some(Notification { uuid, value })))
        .collect();
    let (sent, _) = run(inputs, |_| true);
    assert_eq!(sent, vec![vec![1], vec![3, 4]]);
}

/// Runs a packet relay over items and gives back what it handed on.
fn run_packets(mtu: usize, inputs: Vec<Input>, takes: impl Fn(usize) -> bool) -> Vec<Vec<u8>> {
    let mut inputs = inputs.into_iter();
    let mut sent: Vec<Vec<u8>> = Vec::new();
    let (mut relay, mut action) = PacketRelay::new(mtu);
    loop {
        let event = match action {
            RelayAction::Receive => match inputs.next() {
                Some(input) => RelayEvent::Received(input),
                None => return sent,
            },
            RelayAction::Send(data) => {
                sent.push(data);
                RelayEvent::Sent(takes(sent.len() - 1))
            }
            RelayAction::Stop => return sent,
        };
        let (next, asked) = relay.step(event);
        relay = next;
        action = asked;
    }
}

#[test]
fn packets_go_on_whatever_becomes_of_them() {
    let inputs = || {
        vec![
            Input::Item((0..7).collect()),
            Input::Other,
            Input::Item(vec![]),
            Input::Item((10..13).collect()),
            Input::End,
            Input::Item(vec![99]),
        ]
    };
    let expected = vec![vec![0, 1, 2], vec![3, 4, 5], vec![6], vec![10, 11, 12]];
    assert_eq!(run_packets(3, inputs(), |_| true), expected);
    assert_eq!(run_packets(3, inputs(), |_| false), expected);
    assert_eq!(run_packets(3, inputs(), |i| i % 2 == 0), expected);
}

#[test]
fn from_the_port_to_the_device() {
    let reads = [
        (b"hello".to_vec(), ReadOutcome::Bytes(5)),
        (b"world".to_vec(), ReadOutcome::Bytes(2)),
        (b"".to_vec(), ReadOutcome::Bytes(0)),
        (b"lost".to_vec(), ReadOutcome::Bytes(4)),
    ];
    let inputs = reads.iter().map(|(buffer, outcome)| input_from_read(buffer, *outcome)).collect();
    let (queue, stopped) = run(inputs, |_| true);
    assert_eq!(queue, vec![b"hello".to_vec(), b"wo".to_vec()]);
    assert!(stopped);
    let queued = queue.into_iter().map(Some).chain([None]).map(input_from_channel).collect();
    let packets = run_packets(3, queued, |i| i != 1);
    assert_eq!(packets, vec![b"hel".to_vec(), b"lo".to_vec(), b"wo".to_vec()]);
}

#[test]
fn from_the_device_to_the_port() {
    let inputs = [(7, b"ab".to_vec()), (8, b"x".to_vec()), (7, b"c".to_vec()), (7, b"d".to_vec())]
        .into_iter()
        .map(|(uuid, value)| input_from_notification(7, Some(Notification { uuid, value })))
        .collect();
    let (queue, _) = run(inputs, |_| true);
    let queued = || queue.iter().cloned().map(|v| input_from_channel(Some(v))).collect();
    assert_eq!(run(queued(), |_| true).0.concat(), b"abcd".to_vec());
    assert_eq!(run(queued(), |i| i < 1).0.concat(), b"abc".to_vec());
}

#[test]
fn reading_stops_at_a_failure() {
    let inputs = vec![
        input_from_read(&[1], ReadOutcome::Bytes(1)),
        input_from_read(&[2], ReadOutcome::Failed),
        input_from_read(&[3], ReadOutcome::Bytes(1)),
    ];
    assert_eq!(run(inputs, |_| true), (vec![vec![1]], true));
}
