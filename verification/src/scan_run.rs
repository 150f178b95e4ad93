//! What a whole search for a device comes to, whatever the outside answers.

use crate::error::ErrorView;
use crate::scan::{
    address_text, byte_text, first_position, hardware_address_is_spelled_out, id_matches,
    identifier_is_the_one_asked_for, label_text, prompt_title, properties_match, search_start,
    spells_address, ChoiceView, PropertiesView, ReplyView, ScanActionView,
    ScanEventView, SearchView, StageView,
};
use crate::text::{
    ascii_lower, ascii_lower_char, ascii_lowercase_ignores_case, lowercase, same_but_for_case,
};
use crate::uuid_text::{uuid_parse_error, uuid_value};
use std::time::Duration;
use vstd::prelude::*;
use vstd::utf8::is_ascii_chars;

verus! {

/// The answers that the outside has for a search.
pub struct ScanWorld {
    /// Whether a scan can be started.
    pub starts: bool,
    /// The devices that the scan finds, where they can be listed.
    pub peripherals: Option<Seq<Seq<char>>>,
    /// What is known of the device at each position.
    pub properties: spec_fn(int) -> ReplyView,
    /// What the user makes of an offer.
    pub choice: spec_fn(Seq<Seq<char>>) -> ChoiceView,
}

impl ScanWorld {
    /// A prompt gives back one of the texts that it offered, if any.
    pub open spec fn sound(self) -> bool {
        forall|labels: Seq<Seq<char>>|
            #![trigger (self.choice)(labels)]
            (self.choice)(labels) matches ChoiceView::Chosen(t) ==> labels.contains(t)
    }

    /// The answer to a request.
    pub open spec fn answer(self, action: ScanActionView) -> ScanEventView {
        match action {
            ScanActionView::StartScan { services } => ScanEventView::ScanStarted(self.starts),
            ScanActionView::Wait { time } => ScanEventView::Waited,
            ScanActionView::StopScan => ScanEventView::ScanStopped,
            ScanActionView::ListPeripherals => ScanEventView::Peripherals(self.peripherals),
            ScanActionView::FetchProperties(i) => ScanEventView::Properties((self.properties)(i)),
            ScanActionView::Prompt { title, options } => ScanEventView::Choice((self.choice)(options)),
            _ => ScanEventView::Waited,
        }
    }

    /// The device at position `i` is the one at `address`: by its identifier or by its
    /// hardware address, in any case.
    pub open spec fn is_device(self, ids: Seq<Seq<char>>, i: int, address: Seq<char>) -> bool {
        id_matches(ids[i], address) || properties_match((self.properties)(i), address)
    }

    /// The labels of the first `n` devices.
    pub open spec fn labels(self, ids: Seq<Seq<char>>, n: nat) -> Seq<Seq<char>> {
        Seq::new(n, |i: int| label_text(ids[i], (self.properties)(i)))
    }
}

/// How many kinds of request are still ahead of a search.
pub open spec fn requests_ahead(stage: StageView) -> nat {
    match stage {
        StageView::Starting => 6,
        StageView::Waiting => 5,
        StageView::Stopping => 4,
        StageView::Listing => 3,
        StageView::Matching { ids, next } => 2,
        StageView::Labelling { ids, labels } => 2,
        StageView::Choosing { labels } => 1,
        StageView::Over => 0,
    }
}

/// How many devices a search has not looked at yet.
pub open spec fn devices_ahead(stage: StageView) -> nat {
    match stage {
        StageView::Matching { ids, next } => if next < ids.len() {
            (ids.len() - next) as nat
        } else {
            0
        },
        StageView::Labelling { ids, labels } => if labels.len() < ids.len() {
            (ids.len() - labels.len()) as nat
        } else {
            0
        },
        _ => 0,
    }
}

/// How a search ends when each of its requests is answered by `world`.
pub open spec fn run(world: ScanWorld, step: (SearchView, ScanActionView)) -> ScanActionView
    decreases requests_ahead(step.0.stage), devices_ahead(step.0.stage),
{
    if step.0.stage is Over {
        step.1
    } else {
        run(world, step.0.after(world.answer(step.1)))
    }
}

/// How a search for `address` and `service` is meant to end.
pub open spec fn is_outcome(
    world: ScanWorld,
    address: Option<Seq<char>>,
    service: Option<Seq<char>>,
    end: ScanActionView,
) -> bool {
    if service is Some && uuid_value(service->0) is None {
        end == ScanActionView::Fail(
            ErrorView::InvalidServiceUuid { cause: uuid_parse_error(service->0) },
        )
    } else if address is None && !world.starts {
        end == ScanActionView::Fail(ErrorView::ScanStart)
    } else {
        match world.peripherals {
            None => end == ScanActionView::Fail(ErrorView::ListPeripherals),
            Some(ids) => if ids.len() == 0 {
                end == ScanActionView::Fail(ErrorView::NoDevices)
            } else {
                match address {
                    Some(address) => is_first_device(world, ids, address, 0, end),
                    None => is_choice(world, ids, end),
                }
            },
        }
    }
}

/// `end` uses the first device at `address`, not counting those before `from`, and fails
/// where there is none.
pub open spec fn is_first_device(
    world: ScanWorld,
    ids: Seq<Seq<char>>,
    address: Seq<char>,
    from: int,
    end: ScanActionView,
) -> bool {
    match end {
        ScanActionView::Use(i) => {
            &&& from <= i < ids.len()
            &&& world.is_device(ids, i, address)
            &&& forall|j: int| from <= j < i ==> !#[trigger] world.is_device(ids, j, address)
        },
        ScanActionView::Fail(e) => {
            &&& e == ErrorView::DeviceNotFound { address }
            &&& forall|j: int|
                from <= j < ids.len() ==> !#[trigger] world.is_device(ids, j, address)
        },
        _ => false,
    }
}

/// `end` uses the first device with the label that the user chose.
pub open spec fn is_choice(world: ScanWorld, ids: Seq<Seq<char>>, end: ScanActionView) -> bool {
    let labels = world.labels(ids, ids.len());
    match (world.choice)(labels) {
        ChoiceView::Chosen(t) => {
            &&& end matches ScanActionView::Use(i)
            &&& 0 <= i < ids.len()
            &&& labels[i] == t
            &&& forall|j: int| 0 <= j < i ==> #[trigger] labels[j] != t
        },
        ChoiceView::Cancelled => end == ScanActionView::Fail(ErrorView::NothingSelected),
        ChoiceView::Panicked => end == ScanActionView::Fail(ErrorView::SelectionPanicked),
    }
}

/// A search that is answered what it asks for always gets an answer that it waits for.
pub proof fn every_answer_is_awaited(world: ScanWorld, search: SearchView, action: ScanActionView)
    requires
        world.sound(),
        search.asked(action),
        !(search.stage is Over),
    ensures
        search.awaits(world.answer(action)),
{
}

/// A search stays in step with its requests: after each awaited answer it waits on the
/// request that it made last.
pub proof fn search_stays_in_step(search: SearchView, event: ScanEventView)
    requires
        search.well_formed(),
        search.awaits(event),
    ensures
        search.after(event).0.well_formed(),
        search.after(event).0.asked(search.after(event).1),
        search.after(event).0.address == search.address,
        search.after(event).0.timeout == search.timeout,
{
}

proof fn run_of_try_device(
    world: ScanWorld,
    search: SearchView,
    address: Seq<char>,
    ids: Seq<Seq<char>>,
    next: int,
)
    requires
        search.address == Some(address),
        0 <= next <= ids.len(),
    ensures
        is_first_device(
            world,
            ids,
            address,
            next,
            run(world, search.try_device(address, ids, next)),
        ),
    decreases ids.len() - next,
{
    if next < ids.len() && !id_matches(ids[next], address) {
        let step = search.try_device(address, ids, next);
        let answered = step.0.after(world.answer(step.1));
        assert(run(world, step) == run(world, answered));
        if !properties_match((world.properties)(next), address) {
            run_of_try_device(world, step.0, address, ids, next + 1);
            assert(answered == step.0.try_device(address, ids, next + 1));
            let end = run(world, answered);
            assert(!world.is_device(ids, next, address));
            assert forall|j: int|
                next <= j < (if end is Use {
                    end->Use_0
                } else {
                    ids.len() as int
                }) implies !#[trigger] world.is_device(ids, j, address) by {}
        }
    }
}

proof fn first_position_is_first(s: Seq<Seq<char>>, x: Seq<char>)
    requires
        s.contains(x),
    ensures
        0 <= first_position(s, x) < s.len(),
        s[first_position(s, x)] == x,
        forall|j: int| 0 <= j < first_position(s, x) ==> s[j] != x,
    decreases s.len(),
{
    let k = choose|k: int| 0 <= k < s.len() && s[k] == x;
    if s[0] != x {
        let rest = s.drop_first();
        assert(rest[k - 1] == x);
        first_position_is_first(rest, x);
        assert forall|j: int| 0 <= j < first_position(s, x) implies s[j] != x by {
            if j > 0 {
                assert(s[j] == rest[j - 1]);
            }
        }
    }
}

proof fn run_of_describe(world: ScanWorld, search: SearchView, ids: Seq<Seq<char>>, n: nat)
    requires
        world.sound(),
        n <= ids.len(),
    ensures
        is_choice(world, ids, run(world, search.describe(ids, world.labels(ids, n)))),
    decreases ids.len() - n,
{
    let labels = world.labels(ids, n);
    let step = search.describe(ids, labels);
    let answered = step.0.after(world.answer(step.1));
    assert(run(world, step) == run(world, answered));
    if n < ids.len() {
        assert(labels.push(label_text(ids[n as int], (world.properties)(n as int)))
            =~= world.labels(ids, n + 1));
        run_of_describe(world, step.0, ids, n + 1);
    } else {
        assert(run(world, answered) == answered.1);
        if let ChoiceView::Chosen(t) = (world.choice)(labels) {
            first_position_is_first(labels, t);
        }
    }
}

/// A search ends as it is meant to. It fails before anything else on a service that is no
/// UUID, then, without an address, where the scan cannot be started, then where the devices
/// cannot be listed, or there are none. By address it uses the first device whose identifier
/// or hardware address is the given one in any case, and fails just where there is none.
/// Without an address it uses the first device with the label that the user chose.
pub proof fn search_ends_as_meant(
    world: ScanWorld,
    address: Option<Seq<char>>,
    service: Option<Seq<char>>,
    timeout: Duration,
)
    requires
        world.sound(),
    ensures
        is_outcome(world, address, service, run(world, search_start(address, service, timeout))),
{
    let s0 = search_start(address, service, timeout);
    if !(s0.0.stage is Over) {
        let s1 = s0.0.after(world.answer(s0.1));
        assert(run(world, s0) == run(world, s1));
        if let Some(a) = address {
            if let Some(ids) = world.peripherals {
                if ids.len() > 0 {
                    run_of_try_device(world, s0.0, a, ids, 0);
                }
            }
        } else if world.starts {
            let s2 = s1.0.after(world.answer(s1.1));
            assert(run(world, s1) == run(world, s2));
            let s3 = s2.0.after(world.answer(s2.1));
            assert(run(world, s2) == run(world, s3));
            let s4 = s3.0.after(world.answer(s3.1));
            assert(run(world, s3) == run(world, s4));
            if let Some(ids) = world.peripherals {
                if ids.len() > 0 {
                    assert(world.labels(ids, 0) =~= seq![]);
                    run_of_describe(world, s3.0, ids, 0);
                }
            }
        }
    }
}

/// All that a search asks for in `world` from `step` on, in order, how it ends included.
pub open spec fn requests(world: ScanWorld, step: (SearchView, ScanActionView)) -> Seq<
    ScanActionView,
>
    decreases requests_ahead(step.0.stage), devices_ahead(step.0.stage),
{
    if step.0.stage is Over {
        seq![step.1]
    } else {
        seq![step.1] + requests(world, step.0.after(world.answer(step.1)))
    }
}

/// No request of `asked` is part of a scan or puts a question to the user.
pub open spec fn without_scan_or_prompt(asked: Seq<ScanActionView>) -> bool {
    forall|i: int|
        0 <= i < asked.len() ==> match #[trigger] asked[i] {
            ScanActionView::StartScan { .. } => false,
            ScanActionView::Wait { .. } => false,
            ScanActionView::StopScan => false,
            ScanActionView::Prompt { .. } => false,
            _ => true,
        }
}

proof fn requests_of_try_device(
    world: ScanWorld,
    search: SearchView,
    address: Seq<char>,
    ids: Seq<Seq<char>>,
    next: int,
)
    requires
        search.address == Some(address),
        0 <= next <= ids.len(),
    ensures
        without_scan_or_prompt(requests(world, search.try_device(address, ids, next))),
    decreases ids.len() - next,
{
    let step = search.try_device(address, ids, next);
    if !(step.0.stage is Over) {
        let answered = step.0.after(world.answer(step.1));
        assert(requests(world, step) == seq![step.1] + requests(world, answered));
        if answered.0.stage is Over {
            assert(requests(world, answered) == seq![answered.1]);
        } else {
            requests_of_try_device(world, step.0, address, ids, next + 1);
        }
    }
}

/// A search by address skips the scan and the selection: whatever it is answered, it never
/// starts a scan, waits for one, stops one, or asks the user.
pub proof fn search_by_address_does_not_scan_or_ask(
    world: ScanWorld,
    address: Seq<char>,
    service: Option<Seq<char>>,
    timeout: Duration,
)
    ensures
        without_scan_or_prompt(requests(world, search_start(Some(address), service, timeout))),
{
    let s0 = search_start(Some(address), service, timeout);
    if !(s0.0.stage is Over) {
        let s1 = s0.0.after(world.answer(s0.1));
        assert(requests(world, s0) == seq![s0.1] + requests(world, s1));
        if s1.0.stage is Over {
            assert(requests(world, s1) == seq![s1.1]);
        } else if let Some(ids) = world.peripherals {
            requests_of_try_device(world, s0.0, address, ids, 0);
        }
    }
}

/// The last thing in all that a search asks for is how it ends.
pub proof fn last_request_is_the_end(world: ScanWorld, step: (SearchView, ScanActionView))
    ensures
        requests(world, step).len() > 0,
        requests(world, step).last() == run(world, step),
    decreases requests_ahead(step.0.stage), devices_ahead(step.0.stage),
{
    if !(step.0.stage is Over) {
        last_request_is_the_end(world, step.0.after(world.answer(step.1)));
    }
}

/// The requests for the properties of the devices at the positions from `from` up to `to`.
pub open spec fn fetches(from: nat, to: nat) -> Seq<ScanActionView>
    recommends
        from <= to,
{
    Seq::new((to - from) as nat, |i: int| ScanActionView::FetchProperties(from + i))
}

/// All that a search without an address asks for, up to its end: one scan of length `timeout`
/// for `services`, then the list of devices, then what is known of each, then one prompt that
/// offers every device, in the order of the list.
pub open spec fn selection_requests(
    world: ScanWorld,
    services: Seq<u128>,
    timeout: Duration,
) -> Seq<ScanActionView> {
    let start = seq![ScanActionView::StartScan { services }];
    let scan = start + seq![
        ScanActionView::Wait { time: timeout },
        ScanActionView::StopScan,
        ScanActionView::ListPeripherals,
    ];
    if !world.starts {
        start
    } else {
        match world.peripherals {
            Some(ids) => if ids.len() == 0 {
                scan
            } else {
                scan + fetches(0, ids.len()) + seq![
                    ScanActionView::Prompt {
                        title: prompt_title(),
                        options: world.labels(ids, ids.len()),
                    },
                ]
            },
            None => scan,
        }
    }
}

proof fn requests_of_describe(world: ScanWorld, search: SearchView, ids: Seq<Seq<char>>, n: nat)
    requires
        n <= ids.len(),
    ensures
        requests(world, search.describe(ids, world.labels(ids, n))).drop_last() == fetches(
            n,
            ids.len(),
        ) + seq![
            ScanActionView::Prompt {
                title: prompt_title(),
                options: world.labels(ids, ids.len()),
            },
        ],
    decreases ids.len() - n,
{
    let labels = world.labels(ids, n);
    let step = search.describe(ids, labels);
    let answered = step.0.after(world.answer(step.1));
    let all = requests(world, step);
    let later = requests(world, answered);
    let prompt = seq![
        ScanActionView::Prompt { title: prompt_title(), options: world.labels(ids, ids.len()) },
    ];
    assert(all == seq![step.1] + later);
    last_request_is_the_end(world, answered);
    assert(all.drop_last() =~= seq![step.1] + later.drop_last());
    if n < ids.len() {
        assert(labels.push(label_text(ids[n as int], (world.properties)(n as int)))
            =~= world.labels(ids, n + 1));
        requests_of_describe(world, step.0, ids, n + 1);
        assert(seq![step.1] + fetches(n + 1, ids.len()) =~= fetches(n, ids.len()));
        assert(all.drop_last() =~= fetches(n, ids.len()) + prompt);
    } else {
        assert(later == seq![answered.1]);
        assert(all.drop_last() =~= fetches(n, ids.len()) + prompt);
    }
}

/// A search without an address scans once, for exactly the time it is given, and lists the
/// devices only once the scan is stopped, whatever became of the stopping. It leaves no device
/// out and offers them once, in the order of the list.
pub proof fn selection_asks_in_order(
    world: ScanWorld,
    service: Option<Seq<char>>,
    timeout: Duration,
)
    requires
        service matches Some(text) ==> uuid_value(text) is Some,
    ensures
        ({
            let start = search_start(None, service, timeout);
            let services = match service {
                None => seq![],
                Some(text) => seq![uuid_value(text)->0],
            };
            &&& requests(world, start).drop_last() == selection_requests(world, services, timeout)
            &&& requests(world, start).last() == run(world, start)
        }),
{
    let s0 = search_start(None, service, timeout);
    let services = match service {
        None => seq![],
        Some(text) => seq![uuid_value(text)->0],
    };
    last_request_is_the_end(world, s0);
    let s1 = s0.0.after(world.answer(s0.1));
    let all = requests(world, s0);
    assert(all == seq![s0.1] + requests(world, s1));
    if !world.starts {
        assert(requests(world, s1) == seq![s1.1]);
        assert(all.drop_last() =~= selection_requests(world, services, timeout));
    } else {
        let s2 = s1.0.after(world.answer(s1.1));
        assert(requests(world, s1) == seq![s1.1] + requests(world, s2));
        let s3 = s2.0.after(world.answer(s2.1));
        assert(requests(world, s2) == seq![s2.1] + requests(world, s3));
        let s4 = s3.0.after(world.answer(s3.1));
        assert(requests(world, s3) == seq![s3.1] + requests(world, s4));
        last_request_is_the_end(world, s4);
        let scan = seq![s0.1, s1.1, s2.1, s3.1];
        assert(all =~= scan + requests(world, s4));
        assert(all.drop_last() =~= scan + requests(world, s4).drop_last());
        if s4.0.stage is Over {
            assert(requests(world, s4) == seq![s4.1]);
        } else if let Some(ids) = world.peripherals {
            assert(world.labels(ids, 0) =~= seq![]);
            requests_of_describe(world, s3.0, ids, 0);
        }
        assert(all.drop_last() =~= selection_requests(world, services, timeout));
    }
}

/// The reply holds neither a name nor a signal strength: it failed, nothing is known, or what
/// is known has neither.
pub open spec fn tells_nothing(reply: ReplyView) -> bool {
    match reply {
        ReplyView::Known(p) => p.local_name is None && p.rssi is None,
        _ => true,
    }
}

/// A device of which nothing can be told is offered all the same, without a strength and a
/// name.
pub proof fn untold_device_is_offered(id: Seq<char>, reply: ReplyView)
    requires
        tells_nothing(reply),
    ensures
        label_text(id, reply) == "  ?      "@ + "  "@ + id + "  "@ + "(unnamed)"@,
{
}

/// The two worlds have the same devices and the same user, and tell the same of each device
/// but where both tell nothing.
pub open spec fn tell_the_same(a: ScanWorld, b: ScanWorld) -> bool {
    &&& a.starts == b.starts
    &&& a.peripherals == b.peripherals
    &&& forall|labels: Seq<Seq<char>>| #[trigger] (a.choice)(labels) == (b.choice)(labels)
    &&& a.peripherals matches Some(ids) ==> forall|i: int|
        #![trigger (a.properties)(i)]
        0 <= i < ids.len() ==> (a.properties)(i) == (b.properties)(i) || (tells_nothing(
            (a.properties)(i),
        ) && tells_nothing((b.properties)(i)))
}

proof fn describe_asks_the_same(
    a: ScanWorld,
    b: ScanWorld,
    search: SearchView,
    ids: Seq<Seq<char>>,
    labels: Seq<Seq<char>>,
)
    requires
        tell_the_same(a, b),
        a.peripherals == Some(ids),
        labels.len() <= ids.len(),
    ensures
        requests(a, search.describe(ids, labels)) == requests(b, search.describe(ids, labels)),
    decreases ids.len() - labels.len(),
{
    let step = search.describe(ids, labels);
    let next_a = step.0.after(a.answer(step.1));
    let next_b = step.0.after(b.answer(step.1));
    assert(requests(a, step) == seq![step.1] + requests(a, next_a));
    assert(requests(b, step) == seq![step.1] + requests(b, next_b));
    if labels.len() < ids.len() {
        let n = labels.len() as int;
        assert(label_text(ids[n], (a.properties)(n)) == label_text(ids[n], (b.properties)(n)));
        describe_asks_the_same(
            a,
            b,
            step.0,
            ids,
            labels.push(label_text(ids[n], (a.properties)(n))),
        );
    } else {
        assert((a.choice)(labels) == (b.choice)(labels));
        assert(requests(a, next_a) == requests(b, next_b));
    }
}

/// That the properties of a device cannot be read is never an error and never drops the
/// device: two searches without an address that differ only in why nothing can be told of some
/// devices ask for the same, offer the same labels and end alike.
pub proof fn unreadable_properties_change_nothing(
    a: ScanWorld,
    b: ScanWorld,
    service: Option<Seq<char>>,
    timeout: Duration,
)
    requires
        tell_the_same(a, b),
    ensures
        requests(a, search_start(None, service, timeout)) == requests(
            b,
            search_start(None, service, timeout),
        ),
        run(a, search_start(None, service, timeout)) == run(
            b,
            search_start(None, service, timeout),
        ),
{
    let s0 = search_start(None, service, timeout);
    last_request_is_the_end(a, s0);
    last_request_is_the_end(b, s0);
    if !(s0.0.stage is Over) {
        let s1 = s0.0.after(a.answer(s0.1));
        assert(requests(a, s0) == seq![s0.1] + requests(a, s1));
        assert(requests(b, s0) == seq![s0.1] + requests(b, s1));
        if !a.starts {
            assert(requests(a, s1) == requests(b, s1));
        } else {
            let s2 = s1.0.after(a.answer(s1.1));
            assert(requests(a, s1) == seq![s1.1] + requests(a, s2));
            assert(requests(b, s1) == seq![s1.1] + requests(b, s2));
            let s3 = s2.0.after(a.answer(s2.1));
            assert(requests(a, s2) == seq![s2.1] + requests(a, s3));
            assert(requests(b, s2) == seq![s2.1] + requests(b, s3));
            let s4 = s3.0.after(a.answer(s3.1));
            assert(requests(a, s3) == seq![s3.1] + requests(a, s4));
            assert(requests(b, s3) == seq![s3.1] + requests(b, s4));
            if s4.0.stage is Over {
                assert(requests(a, s4) == requests(b, s4));
            } else if let Some(ids) = a.peripherals {
                describe_asks_the_same(a, b, s3.0, ids, seq![]);
            }
        }
    }
}

/// Letter case makes no difference to which device an address finds.
pub proof fn address_case_is_ignored(
    world: ScanWorld,
    a: Seq<char>,
    b: Seq<char>,
    service: Option<Seq<char>>,
    timeout: Duration,
)
    requires
        world.sound(),
        lowercase(a) == lowercase(b),
    ensures
        run(world, search_start(Some(a), service, timeout)) is Use == run(
            world,
            search_start(Some(b), service, timeout),
        ) is Use,
        run(world, search_start(Some(a), service, timeout)) is Use ==> run(
            world,
            search_start(Some(a), service, timeout),
        ) == run(world, search_start(Some(b), service, timeout)),
{
    search_ends_as_meant(world, Some(a), service, timeout);
    search_ends_as_meant(world, Some(b), service, timeout);
    let end_a = run(world, search_start(Some(a), service, timeout));
    let end_b = run(world, search_start(Some(b), service, timeout));
    if let Some(ids) = world.peripherals {
        assert forall|i: int| world.is_device(ids, i, a) == world.is_device(ids, i, b) by {}
        if end_a is Use && end_b is Use {
            let i = end_a->Use_0;
            let j = end_b->Use_0;
            assert(world.is_device(ids, i, a) && world.is_device(ids, j, a));
            assert(world.is_device(ids, i, b) && world.is_device(ids, j, b));
            assert(i == j);
        } else if end_a is Use {
            assert(world.is_device(ids, end_a->Use_0, b));
        } else if end_b is Use {
            assert(world.is_device(ids, end_b->Use_0, a));
        }
    }
}

/// A hardware address is written in ASCII.
pub proof fn address_text_is_ascii(address: Seq<u8>)
    ensures
        is_ascii_chars(address_text(address)),
    decreases address.len(),
{
    if address.len() > 1 {
        address_text_is_ascii(address.drop_last());
        let head = address_text(address.drop_last());
        let tail = byte_text(address.last());
        let all = address_text(address);
        assert forall|i: int| 0 <= i < all.len() implies '\0' <= #[trigger] all[i] <= '\u{7f}' by {
            if i < head.len() {
                assert(all[i] == head[i]);
            } else if i > head.len() {
                assert(all[i] == tail[i - head.len() - 1]);
            }
        }
    }
}

/// A device answers to its own hardware address, written with colons and in any case.
pub proof fn device_answers_to_its_address(p: PropertiesView, address: Seq<char>)
    requires
        ascii_lower(address) == ascii_lower(address_text(p.address)),
    ensures
        properties_match(ReplyView::Known(p), address),
{
    let own = address_text(p.address);
    address_text_is_ascii(p.address);
    assert(address.len() == own.len()) by {
        assert(ascii_lower(address).len() == address.len());
        assert(ascii_lower(own).len() == own.len());
    }
    assert forall|i: int| 0 <= i < address.len() implies '\0' <= #[trigger] address[i]
        <= '\u{7f}' by {
        assert(ascii_lower(address)[i] == ascii_lower_char(address[i]));
        assert(ascii_lower(own)[i] == ascii_lower_char(own[i]));
        assert('\0' <= own[i] <= '\u{7f}');
    }
    ascii_lowercase_ignores_case(own, address);
}

/// The device at position `i` has the identifier `address`, but for case, or has the hardware
/// address that `address` spells out.
pub open spec fn answers_to(world: ScanWorld, ids: Seq<Seq<char>>, i: int, address: Seq<char>) -> bool {
    ||| same_but_for_case(ids[i], address)
    ||| (world.properties)(i) matches ReplyView::Known(p) && spells_address(address, p.address)
}

/// A search by address uses the first device that has that identifier, letter by letter but for
/// case, or that hardware address, byte by byte; it fails, and says for which address, just
/// where there is none.
pub proof fn found_device_has_the_address(
    world: ScanWorld,
    ids: Seq<Seq<char>>,
    address: Seq<char>,
    service: Option<Seq<char>>,
    timeout: Duration,
)
    requires
        world.sound(),
        world.peripherals == Some(ids),
        ids.len() > 0,
        service matches Some(text) ==> uuid_value(text) is Some,
        is_ascii_chars(address),
        forall|i: int| 0 <= i < ids.len() ==> is_ascii_chars(#[trigger] ids[i]),
        forall|i: int|
            (#[trigger] (world.properties)(i)) matches ReplyView::Known(p) ==> p.address.len() == 6,
    ensures
        match run(world, search_start(Some(address), service, timeout)) {
            ScanActionView::Use(i) => {
                &&& 0 <= i < ids.len()
                &&& answers_to(world, ids, i, address)
                &&& forall|j: int| 0 <= j < i ==> !#[trigger] answers_to(world, ids, j, address)
            },
            ScanActionView::Fail(e) => {
                &&& e == ErrorView::DeviceNotFound { address }
                &&& forall|j: int|
                    0 <= j < ids.len() ==> !#[trigger] answers_to(world, ids, j, address)
            },
            _ => false,
        },
{
    search_ends_as_meant(world, Some(address), service, timeout);
    assert forall|i: int| 0 <= i < ids.len() implies #[trigger] answers_to(world, ids, i, address)
        == world.is_device(ids, i, address) by {
        assert(is_ascii_chars(ids[i]));
        identifier_is_the_one_asked_for(ids[i], address);
        hardware_address_is_spelled_out((world.properties)(i), address);
    }
    let end = run(world, search_start(Some(address), service, timeout));
    if let ScanActionView::Use(i) = end {
        assert forall|j: int| 0 <= j < i implies !#[trigger] answers_to(world, ids, j, address) by {
            assert(!world.is_device(ids, j, address));
        }
    } else {
        assert forall|j: int| 0 <= j < ids.len() implies !#[trigger] answers_to(
            world,
            ids,
            j,
            address,
        ) by {
            assert(!world.is_device(ids, j, address));
        }
    }
}

/// Beyond ASCII a search by address goes by the lower-case forms: the device that is used has
/// that of the given address as its identifier or as its hardware address, none before it does,
/// and where one has, the search does not fail.
pub proof fn found_device_has_the_lower_case_address(
    world: ScanWorld,
    ids: Seq<Seq<char>>,
    address: Seq<char>,
    service: Option<Seq<char>>,
    timeout: Duration,
    k: int,
)
    requires
        world.sound(),
        world.peripherals == Some(ids),
        0 <= k < ids.len(),
        service matches Some(text) ==> uuid_value(text) is Some,
    ensures
        ({
            let end = run(world, search_start(Some(address), service, timeout));
            let by_id = lowercase(ids[k]) == lowercase(address);
            let by_hardware = (world.properties)(k) matches ReplyView::Known(p) && lowercase(
                address_text(p.address),
            ) == lowercase(address);
            &&& end == ScanActionView::Use(k) ==> by_id || by_hardware
            &&& by_id || by_hardware ==> (end matches ScanActionView::Use(i) && i <= k)
            &&& ids[k] == address ==> (end matches ScanActionView::Use(i) && i <= k)
            &&& end matches ScanActionView::Use(i) ==> 0 <= i < ids.len()
            &&& !(end is Use) ==> end == ScanActionView::Fail(
                ErrorView::DeviceNotFound { address },
            )
        }),
{
    search_ends_as_meant(world, Some(address), service, timeout);
    let by_hardware = (world.properties)(k) matches ReplyView::Known(p) && lowercase(
        address_text(p.address),
    ) == lowercase(address);
    if lowercase(ids[k]) == lowercase(address) || by_hardware {
        assert(world.is_device(ids, k, address));
    }
}

/// A prompt asks the user which device to connect, and offers every device once, in the order
/// of the list, each by its label.
pub proof fn offer_shows_every_device(
    world: ScanWorld,
    service: Option<Seq<char>>,
    timeout: Duration,
    k: int,
)
    requires
        service matches Some(text) ==> uuid_value(text) is Some,
        0 <= k < requests(world, search_start(None, service, timeout)).len(),
    ensures
        requests(world, search_start(None, service, timeout))[k] matches ScanActionView::Prompt {
            title,
            options,
        } ==> {
            &&& title == "Select BLE device to connect:"@
            &&& world.peripherals matches Some(ids)
            &&& options.len() == ids.len()
            &&& k == ids.len() + 4
            &&& forall|i: int|
                0 <= i < ids.len() ==> #[trigger] options[i] == label_text(
                    ids[i],
                    (world.properties)(i),
                )
        },
        world.starts && world.peripherals is Some && world.peripherals->0.len() > 0 && k
            == world.peripherals->0.len() + 4 ==> requests(
            world,
            search_start(None, service, timeout),
        )[k] is Prompt,
{
    selection_asks_in_order(world, service, timeout);
    search_never_ends_in_a_request(world, search_start(None, service, timeout));
    let all = requests(world, search_start(None, service, timeout));
    let services = match service {
        None => seq![],
        Some(text) => seq![uuid_value(text)->0],
    };
    let asked = selection_requests(world, services, timeout);
    if k < all.len() - 1 {
        assert(all[k] == all.drop_last()[k]);
        assert(all[k] == asked[k]);
        if world.starts && k >= 4 {
            let ids = world.peripherals->0;
            assert(asked.len() == all.drop_last().len());
            assert(world.peripherals is Some && ids.len() > 0);
            assert(fetches(0, ids.len()).len() == ids.len());
            assert(asked.len() == ids.len() + 5);
            if k < ids.len() + 4 {
                assert(asked[k] == fetches(0, ids.len())[k - 4]);
            } else {
                assert(k == ids.len() + 4);
                assert(asked[k] == ScanActionView::Prompt {
                    title: prompt_title(),
                    options: world.labels(ids, ids.len()),
                });
            }
        } else if world.starts {
            assert(k == 0 || k == 1 || k == 2 || k == 3);
        }
    } else {
        assert(all[k] == all.last());
    }
    if world.starts && world.peripherals is Some && world.peripherals->0.len() > 0 && k
        == world.peripherals->0.len() + 4 {
        assert(asked.len() == k + 1);
    }
}

proof fn search_never_ends_in_a_request(world: ScanWorld, step: (SearchView, ScanActionView))
    requires
        step.0.stage is Over ==> step.1 is Use || step.1 is Fail,
        step.0.asked(step.1),
        step.0.well_formed(),
    ensures
        requests(world, step).len() > 0,
        !(requests(world, step).last() is Prompt),
        !(requests(world, step).last() is Wait),
        !(requests(world, step).last() is StartScan),
        !(requests(world, step).last() is StopScan),
        !(requests(world, step).last() is ListPeripherals),
        requests(world, step).last() is Use || requests(world, step).last() is Fail,
    decreases requests_ahead(step.0.stage), devices_ahead(step.0.stage),
{
    if !(step.0.stage is Over) {
        let next = step.0.after(world.answer(step.1));
        assert(requests(world, step) == seq![step.1] + requests(world, next));
        search_never_ends_in_a_request(world, next);
    }
}

/// A search without an address starts with a scan: for the given service alone, or for all
/// devices; it lets it run for exactly the time it is given, stops it, and only then asks for
/// the list of devices. It does each of these once, and none of the rest where the scan cannot
/// be started.
pub proof fn scan_runs_once_for_its_time(
    world: ScanWorld,
    service: Option<Seq<char>>,
    timeout: Duration,
)
    requires
        service matches Some(text) ==> uuid_value(text) is Some,
    ensures
        ({
            let asked = requests(world, search_start(None, service, timeout));
            &&& asked.len() >= 2
            &&& asked[0] is StartScan
            &&& service is None ==> asked[0]->services.len() == 0
            &&& service matches Some(text) ==> asked[0]->services.len() == 1
                && asked[0]->services[0] == uuid_value(text)->0
            &&& !world.starts ==> asked.len() == 2 && asked[1] == ScanActionView::Fail(
                ErrorView::ScanStart,
            )
            &&& world.starts ==> {
                &&& asked.len() >= 5
                &&& asked[1] == (ScanActionView::Wait { time: timeout })
                &&& asked[2] is StopScan
                &&& asked[3] is ListPeripherals
                &&& forall|i: int|
                    4 <= i < asked.len() ==> !(#[trigger] asked[i] is StartScan) && !(
                    asked[i] is Wait) && !(asked[i] is StopScan) && !(asked[i] is ListPeripherals)
            }
        }),
{
    let start = search_start(None, service, timeout);
    selection_asks_in_order(world, service, timeout);
    search_never_ends_in_a_request(world, start);
    let all = requests(world, start);
    let services = match service {
        None => seq![],
        Some(text) => seq![uuid_value(text)->0],
    };
    let asked = selection_requests(world, services, timeout);
    assert forall|i: int| 0 <= i < all.len() - 1 implies #[trigger] all[i] == asked[i] by {
        assert(all.drop_last()[i] == all[i]);
    }
    if !world.starts {
        let next = start.0.after(world.answer(start.1));
        assert(requests(world, start) == seq![start.1] + requests(world, next));
        assert(requests(world, next) == seq![next.1]);
    } else {
        assert(all.len() == asked.len() + 1);
        assert(all[0] == asked[0] && all[1] == asked[1] && all[2] == asked[2] && all[3]
            == asked[3]);
        assert forall|i: int| 4 <= i < all.len() implies !(#[trigger] all[i] is StartScan) && !(
        all[i] is Wait) && !(all[i] is StopScan) && !(all[i] is ListPeripherals) by {
            if i < all.len() - 1 {
                assert(all[i] == asked[i]);
                let ids = world.peripherals->0;
                if i < ids.len() + 4 {
                    assert(asked[i] == fetches(0, ids.len())[i - 4]);
                }
            } else {
                assert(all[i] == all.last());
            }
        }
    }
}

/// A service that is no UUID ends a search before it asks for anything, and says why.
pub proof fn bad_service_is_refused_at_once(
    world: ScanWorld,
    address: Option<Seq<char>>,
    text: Seq<char>,
    timeout: Duration,
)
    requires
        uuid_value(text) is None,
    ensures
        requests(world, search_start(address, Some(text), timeout)) == seq![
            ScanActionView::Fail(
                ErrorView::InvalidServiceUuid { cause: uuid_parse_error(text) },
            ),
        ],
{
}

/// A list that cannot be had, or that is empty, ends a search with its own error, with and
/// without an address.
pub proof fn without_devices_a_search_fails(
    world: ScanWorld,
    address: Option<Seq<char>>,
    service: Option<Seq<char>>,
    timeout: Duration,
)
    requires
        world.sound(),
        service matches Some(text) ==> uuid_value(text) is Some,
        address is Some || world.starts,
    ensures
        ({
            let end = run(world, search_start(address, service, timeout));
            &&& world.peripherals is None ==> end == ScanActionView::Fail(
                ErrorView::ListPeripherals,
            )
            &&& world.peripherals matches Some(ids) ==> ids.len() == 0 ==> end
                == ScanActionView::Fail(ErrorView::NoDevices)
        }),
{
    search_ends_as_meant(world, address, service, timeout);
}

/// The device that is used is the one that the user chose: the first with the text that was
/// chosen from those offered as its label. Without a choice no device is used.
pub proof fn chosen_device_is_used(
    world: ScanWorld,
    ids: Seq<Seq<char>>,
    labels: Seq<Seq<char>>,
    service: Option<Seq<char>>,
    timeout: Duration,
)
    requires
        world.sound(),
        world.starts,
        world.peripherals == Some(ids),
        ids.len() > 0,
        service matches Some(text) ==> uuid_value(text) is Some,
        labels.len() == ids.len(),
        forall|i: int|
            0 <= i < ids.len() ==> #[trigger] labels[i] == label_text(
                ids[i],
                (world.properties)(i),
            ),
    ensures
        ({
            let end = run(world, search_start(None, service, timeout));
            match (world.choice)(labels) {
                ChoiceView::Chosen(text) => {
                    &&& end matches ScanActionView::Use(i)
                    &&& 0 <= i < ids.len()
                    &&& labels[i] == text
                    &&& forall|j: int| 0 <= j < i ==> #[trigger] labels[j] != text
                },
                ChoiceView::Cancelled => end == ScanActionView::Fail(ErrorView::NothingSelected),
                ChoiceView::Panicked => end == ScanActionView::Fail(
                    ErrorView::SelectionPanicked,
                ),
            }
        }),
{
    assert(labels =~= world.labels(ids, ids.len()));
    search_ends_as_meant(world, None, service, timeout);
}

/// A search by address asks for the list of devices before anything else.
pub proof fn search_by_address_lists_first(
    world: ScanWorld,
    address: Seq<char>,
    service: Option<Seq<char>>,
    timeout: Duration,
)
    requires
        service matches Some(text) ==> uuid_value(text) is Some,
    ensures
        ({
            let start = search_start(Some(address), service, timeout);
            let asked = requests(world, start);
            &&& asked.len() >= 2
            &&& asked[0] is ListPeripherals
            &&& asked.last() == run(world, start)
        }),
{
    let start = search_start(Some(address), service, timeout);
    last_request_is_the_end(world, start);
    let next = start.0.after(world.answer(start.1));
    assert(requests(world, start) == seq![start.1] + requests(world, next));
    last_request_is_the_end(world, next);
}

/// A selection asks for the properties of each device in turn and then, however many devices
/// there are, puts one question to the user; with the answer it ends.
pub proof fn selection_asks_of_each_device_then_the_user(
    world: ScanWorld,
    ids: Seq<Seq<char>>,
    service: Option<Seq<char>>,
    timeout: Duration,
)
    requires
        service matches Some(text) ==> uuid_value(text) is Some,
        world.starts,
        world.peripherals == Some(ids),
        ids.len() > 0,
    ensures
        ({
            let asked = requests(world, search_start(None, service, timeout));
            let n = ids.len() as int;
            &&& asked.len() == n + 6
            &&& forall|i: int|
                4 <= i < n + 4 ==> #[trigger] asked[i] == ScanActionView::FetchProperties(i - 4)
            &&& asked[n + 4] is Prompt
            &&& asked[n + 5] is Use || asked[n + 5] is Fail
        }),
{
    let start = search_start(None, service, timeout);
    selection_asks_in_order(world, service, timeout);
    search_never_ends_in_a_request(world, start);
    let all = requests(world, start);
    let services = match service {
        None => seq![],
        Some(text) => seq![uuid_value(text)->0],
    };
    let asked = selection_requests(world, services, timeout);
    let n = ids.len() as int;
    assert(fetches(0, ids.len()).len() == n);
    assert(asked.len() == n + 5);
    assert(asked.len() == all.drop_last().len());
    assert forall|i: int| 4 <= i < n + 4 implies #[trigger] all[i]
        == ScanActionView::FetchProperties(i - 4) by {
        assert(all.drop_last()[i] == all[i]);
        assert(asked[i] == fetches(0, ids.len())[i - 4]);
    }
    assert(all.drop_last()[n + 4] == all[n + 4]);
    assert(all[n + 5] == all.last());
}

} // verus!
