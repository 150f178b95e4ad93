//! The characteristics that BLE UART devices are known to use.

use crate::error::{Error, ErrorView};
use crate::gatt::{
    ascending, ascending_is_unique, flags_text, show_flags, CharPropFlags, Characteristic,
    CharacteristicSet, CharacteristicView, NOTIFY, WRITE_WITHOUT_RESPONSE,
};
use crate::text::eq_ignore_ascii_case;
use crate::text::{ascii_lower, text_option, texts};
use crate::uuid_text::{format_uuid, parse_uuid};
use crate::uuid_text::{
    hyphenated_text_is_canonical, hyphenated_value_by_quads, uuid_parse_error, uuid_text,
    uuid_text_reads_back, uuid_value, uuid_value_ignores_case,
};
use vstd::prelude::*;

verus! {

/// Known BLE UART characteristics, in priority order, each with its UUID and a label.
/// CH9143, HM-10 and TI CC245x use the first for both directions; Nordic UART has one
/// characteristic for each.
pub const KNOWN_UART_CHARS: [(&'static str, &'static str); 7] = [
    ("0000ffe1-0000-1000-8000-00805f9b34fb", "CH9143 / HM-10 / TI CC245x"),
    ("0000ff01-0000-1000-8000-00805f9b34fb", "LithiumBatteryPCB RX notify"),
    ("0000ff02-0000-1000-8000-00805f9b34fb", "LithiumBatteryPCB TX write"),
    ("0000fff1-0000-1000-8000-00805f9b34fb", "Feasycom RX notify"),
    ("0000fff2-0000-1000-8000-00805f9b34fb", "Feasycom TX write"),
    ("6e400002-b5a3-f393-e0a9-e50e24dcca9e", "Nordic UART TX write"),
    ("6e400003-b5a3-f393-e0a9-e50e24dcca9e", "Nordic UART RX notify"),
];

/// The UUIDs of the known characteristics, in the same order.
pub open spec fn known_uuids() -> Seq<u128> {
    seq![
        0x0000ffe1_0000_1000_8000_00805f9b34fbu128,
        0x0000ff01_0000_1000_8000_00805f9b34fbu128,
        0x0000ff02_0000_1000_8000_00805f9b34fbu128,
        0x0000fff1_0000_1000_8000_00805f9b34fbu128,
        0x0000fff2_0000_1000_8000_00805f9b34fbu128,
        0x6e400002_b5a3_f393_e0a9_e50e24dcca9eu128,
        0x6e400003_b5a3_f393_e0a9_e50e24dcca9eu128,
    ]
}

/// The text of each known characteristic writes the UUID that stands for it.
pub proof fn known_texts_write_known_uuids(i: int)
    requires
        0 <= i < KNOWN_UART_CHARS@.len(),
    ensures
        KNOWN_UART_CHARS@.len() == known_uuids().len(),
        KNOWN_UART_CHARS@[i].0@.len() == 36,
        uuid_value(KNOWN_UART_CHARS@[i].0@) == Some(known_uuids()[i]),
{
    reveal_strlit("0000ffe1-0000-1000-8000-00805f9b34fb");
    reveal_strlit("0000ff01-0000-1000-8000-00805f9b34fb");
    reveal_strlit("0000ff02-0000-1000-8000-00805f9b34fb");
    reveal_strlit("0000fff1-0000-1000-8000-00805f9b34fb");
    reveal_strlit("0000fff2-0000-1000-8000-00805f9b34fb");
    reveal_strlit("6e400002-b5a3-f393-e0a9-e50e24dcca9e");
    reveal_strlit("6e400003-b5a3-f393-e0a9-e50e24dcca9e");
    let text = KNOWN_UART_CHARS@[i].0@;
    if i == 0 {
        assert(text == "0000ffe1-0000-1000-8000-00805f9b34fb"@);
        hyphenated_value_by_quads(text, known_uuids()[0]);
    } else if i == 1 {
        assert(text == "0000ff01-0000-1000-8000-00805f9b34fb"@);
        hyphenated_value_by_quads(text, known_uuids()[1]);
    } else if i == 2 {
        assert(text == "0000ff02-0000-1000-8000-00805f9b34fb"@);
        hyphenated_value_by_quads(text, known_uuids()[2]);
    } else if i == 3 {
        assert(text == "0000fff1-0000-1000-8000-00805f9b34fb"@);
        hyphenated_value_by_quads(text, known_uuids()[3]);
    } else if i == 4 {
        assert(text == "0000fff2-0000-1000-8000-00805f9b34fb"@);
        hyphenated_value_by_quads(text, known_uuids()[4]);
    } else if i == 5 {
        assert(text == "6e400002-b5a3-f393-e0a9-e50e24dcca9e"@);
        hyphenated_value_by_quads(text, known_uuids()[5]);
    } else {
        assert(text == "6e400003-b5a3-f393-e0a9-e50e24dcca9e"@);
        hyphenated_value_by_quads(text, known_uuids()[6]);
    }
}

/// The characteristic has this UUID and the required properties.
pub open spec fn offers(c: CharacteristicView, uuid: u128, required: CharPropFlags) -> bool {
    c.uuid == uuid && c.properties.has(required)
}

/// The first characteristic that has this UUID and the required properties.
pub open spec fn first_offering(
    s: Seq<CharacteristicView>,
    uuid: u128,
    required: CharPropFlags,
) -> Option<CharacteristicView>
    decreases s.len(),
{
    if s.len() == 0 {
        None
    } else if offers(s[0], uuid, required) {
        Some(s[0])
    } else {
        first_offering(s.drop_first(), uuid, required)
    }
}

/// The first offering of the first known UUID, from rank `rank` on, that is offered at
/// all.
pub open spec fn first_known(
    s: Seq<CharacteristicView>,
    required: CharPropFlags,
    rank: int,
) -> Option<CharacteristicView>
    decreases known_uuids().len() - rank,
{
    if rank < 0 || rank >= known_uuids().len() {
        None
    } else {
        match first_offering(s, known_uuids()[rank], required) {
            Some(c) => Some(c),
            None => first_known(s, required, rank + 1),
        }
    }
}

/// The characteristic for `label`: the one that the user named or else, where none was
/// named, the best known one.
pub open spec fn chosen_char(
    s: Seq<CharacteristicView>,
    uuid_override: Option<Seq<char>>,
    required: CharPropFlags,
    label: Seq<char>,
) -> Result<CharacteristicView, ErrorView> {
    match uuid_override {
        Some(text) => match uuid_value(text) {
            None => Err(ErrorView::InvalidUuid { label, text, cause: uuid_parse_error(text) }),
            Some(uuid) => match first_offering(s, uuid, required) {
                Some(c) => Ok(c),
                None => Err(ErrorView::MissingProperty { text, required }),
            },
        },
        None => match first_known(s, required, 0) {
            Some(c) => Ok(c),
            None => Err(ErrorView::NoKnownCharacteristic { label }),
        },
    }
}

fn find_offering(chars: &CharacteristicSet, uuid: u128, required: CharPropFlags) -> (found: Option<
    Characteristic,
>)
    ensures
        match found {
            Some(c) => first_offering(chars@, uuid, required) == Some(c@),
            None => first_offering(chars@, uuid, required) is None,
        },
{
    let mut i: usize = 0;
    assert(chars@.skip(0) =~= chars@);
    while i < chars.len()
        invariant
            i <= chars@.len(),
            first_offering(chars@, uuid, required) == first_offering(
                chars@.skip(i as int),
                uuid,
                required,
            ),
        decreases chars@.len() - i,
    {
        let ghost rest = chars@.skip(i as int);
        let c = chars.get(i);
        assert(rest[0] == c@);
        if c.uuid == uuid && c.properties.contains(required) {
            return Some(c.clone());
        }
        assert(chars@.skip(i + 1) =~= rest.drop_first());
        i = i + 1;
    }
    None
}

/// Finds the characteristic for `label`, which must have the required properties: the one
/// with the given UUID, or without one the best of the known characteristics.
pub fn find_char(
    chars: &CharacteristicSet,
    uuid_override: Option<&str>,
    required_prop: CharPropFlags,
    label: &str,
) -> (found: Result<Characteristic, Error>)
    ensures
        match found {
            Ok(c) => chosen_char(chars@, text_option(uuid_override), required_prop, label@) == Ok::<
                CharacteristicView,
                ErrorView,
            >(c@),
            Err(e) => chosen_char(chars@, text_option(uuid_override), required_prop, label@)
                == Err::<CharacteristicView, ErrorView>(e@),
        },
        ascending(chars@),
        found matches Ok(c) ==> {
            &&& chars@.contains(c@)
            &&& c.properties.bits & required_prop.bits == required_prop.bits
            &&& uuid_override matches Some(text) ==> uuid_value(text@) == Some(c.uuid)
            &&& uuid_override is None ==> known_uuids().contains(c.uuid)
        },
{
    proof {
        use_type_invariant(chars);
        choice_is_fit(chars@, text_option(uuid_override), required_prop, label@);
    }
    match uuid_override {
        Some(uuid_str) => match parse_uuid(uuid_str) {
            Ok(uuid) => match find_offering(chars, uuid, required_prop) {
                Some(c) => Ok(c),
                None => Err(
                    Error::MissingProperty { text: uuid_str.to_owned(), required: required_prop },
                ),
            },
            Err(cause) => Err(
                Error::InvalidUuid { label: label.to_owned(), text: uuid_str.to_owned(), cause },
            ),
        },
        None => {
            let known = KNOWN_UART_CHARS;
            let mut rank: usize = 0;
            while rank < 7
                invariant
                    rank <= 7,
                    uuid_override is None,
                    ascending(chars@),
                    chosen_char(chars@, None, required_prop, label@) matches Ok(c) ==> {
                        &&& chars@.contains(c)
                        &&& c.properties.has(required_prop)
                        &&& known_uuids().contains(c.uuid)
                    },
                    known == KNOWN_UART_CHARS,
                    first_known(chars@, required_prop, 0) == first_known(
                        chars@,
                        required_prop,
                        rank as int,
                    ),
                decreases 7 - rank,
            {
                proof {
                    known_texts_write_known_uuids(rank as int);
                }
                let uuid = parse_uuid(known[rank].0).unwrap();
                if let Some(c) = find_offering(chars, uuid, required_prop) {
                    return Ok(c);
                }
                rank = rank + 1;
            }
            Err(Error::NoKnownCharacteristic { label: label.to_owned() })
        },
    }
}

/// The label that the text of a UUID is known by, from rank `rank` on.
pub open spec fn label_by_text(text: Seq<char>, rank: int) -> Seq<char>
    decreases known_uuids().len() - rank,
{
    if rank < 0 || rank >= known_uuids().len() {
        seq![]
    } else if ascii_lower(KNOWN_UART_CHARS@[rank].0@) == ascii_lower(text) {
        KNOWN_UART_CHARS@[rank].1@
    } else {
        label_by_text(text, rank + 1)
    }
}

/// The label of a known characteristic; empty for every other one.
pub fn known_label(uuid: u128) -> (label: &'static str)
    ensures
        label@ == label_by_text(uuid_text(uuid), 0),
        forall|i: int| 0 <= i < known_uuids().len() && known_uuids()[i] == uuid ==> label@ == (
        #[trigger] KNOWN_UART_CHARS@[i]).1@,
        !known_uuids().contains(uuid) ==> label@ == Seq::<char>::empty(),
{
    let text = format_uuid(uuid);
    let known = KNOWN_UART_CHARS;
    let mut rank: usize = 0;
    while rank < 7
        invariant
            rank <= 7,
            known == KNOWN_UART_CHARS,
            text@ == uuid_text(uuid),
            label_by_text(uuid_text(uuid), 0) == label_by_text(uuid_text(uuid), rank as int),
        ensures
            label_by_text(uuid_text(uuid), 0) == label_by_text(uuid_text(uuid), rank as int),
            rank == 7 || (rank < 7 && ascii_lower(KNOWN_UART_CHARS@[rank as int].0@)
                == ascii_lower(uuid_text(uuid))),
        decreases 7 - rank,
    {
        if eq_ignore_ascii_case(known[rank].0, text.as_str()) {
            break;
        }
        rank = rank + 1;
    }
    proof {
        label_by_text_is_by_value(uuid, 0);
        reveal_strlit("");
    }
    if rank < 7 {
        known[rank].1
    } else {
        ""
    }
}

/// The line by which a discovered characteristic is listed.
pub open spec fn listing_text(c: CharacteristicView) -> Seq<char> {
    "  char "@ + uuid_text(c.uuid) + " "@ + flags_text(c.properties.bits) + "  "@ + label_by_text(
        uuid_text(c.uuid),
        0,
    )
}

/// The lines that list the discovered characteristics, in order; none unless the user wants
/// to see more than usual.
pub fn listing(chars: &CharacteristicSet, verbose: u8) -> (lines: Vec<String>)
    ensures
        texts(lines@) == (if verbose == 0 {
            Seq::<Seq<char>>::empty()
        } else {
            chars@.map_values(|c: CharacteristicView| listing_text(c))
        }),
        verbose == 0 ==> lines@.len() == 0,
        verbose > 0 ==> lines@.len() == chars@.len(),
        verbose > 0 ==> forall|i: int|
            0 <= i < chars@.len() ==> (#[trigger] lines@[i])@ == "  char "@ + uuid_text(
                chars@[i].uuid,
            ) + " "@ + flags_text(chars@[i].properties.bits) + "  "@ + label_by_text(
                uuid_text(chars@[i].uuid),
                0,
            ),
{
    let mut lines: Vec<String> = Vec::new();
    if verbose == 0 {
        assert(texts(lines@) =~= seq![]);
        return lines;
    }
    let mut i: usize = 0;
    while i < chars.len()
        invariant
            i <= chars@.len(),
            texts(lines@) =~= chars@.take(i as int).map_values(
                |c: CharacteristicView| listing_text(c),
            ),
        decreases chars@.len() - i,
    {
        let c = chars.get(i);
        let line = "  char ".to_owned().concat(format_uuid(c.uuid).as_str()).concat(" ").concat(
            show_flags(c.properties).as_str(),
        ).concat("  ").concat(known_label(c.uuid));
        let ghost done = texts(lines@);
        let ghost text = line@;
        lines.push(line);
        assert(texts(lines@) =~= done.push(text));
        i = i + 1;
    }
    assert(chars@.take(i as int) =~= chars@);
    proof {
        assert(texts(lines@).len() == lines@.len());
        assert forall|i: int| 0 <= i < chars@.len() implies (#[trigger] lines@[i])@ == "  char "@
            + uuid_text(chars@[i].uuid) + " "@ + flags_text(chars@[i].properties.bits) + "  "@
            + label_by_text(uuid_text(chars@[i].uuid), 0) by {
            assert(texts(lines@)[i] == lines@[i]@);
        }
    }
    lines
}

/// Comparing texts without regard to case finds the entry with the same UUID.
proof fn known_text_matches_by_value(uuid: u128, i: int)
    requires
        0 <= i < known_uuids().len(),
    ensures
        (ascii_lower(KNOWN_UART_CHARS@[i].0@) == ascii_lower(uuid_text(uuid))) == (known_uuids()[i]
            == uuid),
{
    let entry = KNOWN_UART_CHARS@[i].0@;
    let text = uuid_text(uuid);
    known_texts_write_known_uuids(i);
    uuid_text_reads_back(uuid);
    uuid_value_ignores_case(entry);
    uuid_value_ignores_case(text);
    hyphenated_text_is_canonical(text, uuid);
    if known_uuids()[i] == uuid {
        hyphenated_text_is_canonical(entry, uuid);
    }
}

proof fn label_by_text_is_by_value(uuid: u128, rank: int)
    requires
        0 <= rank <= known_uuids().len(),
    ensures
        forall|i: int|
            rank <= i < known_uuids().len() && known_uuids()[i] == uuid ==> label_by_text(
                uuid_text(uuid),
                rank,
            ) == (#[trigger] KNOWN_UART_CHARS@[i]).1@,
        (forall|i: int| rank <= i < known_uuids().len() ==> known_uuids()[i] != uuid)
            ==> label_by_text(uuid_text(uuid), rank) == Seq::<char>::empty(),
    decreases known_uuids().len() - rank,
{
    if rank < known_uuids().len() {
        known_text_matches_by_value(uuid, rank);
        label_by_text_is_by_value(uuid, rank + 1);
        known_uuids_are_distinct();
    }
}

/// No UUID is known twice.
pub proof fn known_uuids_are_distinct()
    ensures
        known_uuids().no_duplicates(),
{
}

proof fn first_offering_is_first(
    s: Seq<CharacteristicView>,
    uuid: u128,
    required: CharPropFlags,
)
    ensures
        match first_offering(s, uuid, required) {
            Some(c) => exists|i: int|
                0 <= i < s.len() && #[trigger] s[i] == c && offers(c, uuid, required) && forall|j: int|
                    0 <= j < i ==> !offers(#[trigger] s[j], uuid, required),
            None => forall|j: int| 0 <= j < s.len() ==> !offers(#[trigger] s[j], uuid, required),
        },
    decreases s.len(),
{
    if s.len() > 0 && !offers(s[0], uuid, required) {
        let rest = s.drop_first();
        first_offering_is_first(rest, uuid, required);
        match first_offering(s, uuid, required) {
            Some(c) => {
                let i = choose|i: int|
                    0 <= i < rest.len() && #[trigger] rest[i] == c && offers(c, uuid, required)
                        && forall|j: int|
                        0 <= j < i ==> !offers(#[trigger] rest[j], uuid, required);
                assert(s[i + 1] == c);
                assert forall|j: int| 0 <= j < i + 1 implies !offers(
                    #[trigger] s[j],
                    uuid,
                    required,
                ) by {
                    if j > 0 {
                        assert(s[j] == rest[j - 1]);
                    }
                }
            },
            None => {
                assert forall|j: int| 0 <= j < s.len() implies !offers(
                    #[trigger] s[j],
                    uuid,
                    required,
                ) by {
                    if j > 0 {
                        assert(s[j] == rest[j - 1]);
                    }
                }
            },
        }
    }
}

/// None of these characteristics has this UUID and the required properties.
pub open spec fn none_offers(
    s: Seq<CharacteristicView>,
    uuid: u128,
    required: CharPropFlags,
) -> bool {
    forall|x: CharacteristicView| s.contains(x) ==> !#[trigger] offers(x, uuid, required)
}

proof fn first_offering_none(s: Seq<CharacteristicView>, uuid: u128, required: CharPropFlags)
    ensures
        first_offering(s, uuid, required) is None == none_offers(s, uuid, required),
        first_offering(s, uuid, required) matches Some(c) ==> s.contains(c) && offers(
            c,
            uuid,
            required,
        ),
{
    first_offering_is_first(s, uuid, required);
    match first_offering(s, uuid, required) {
        Some(c) => {
            assert(s.contains(c));
        },
        None => {
            assert forall|x: CharacteristicView| s.contains(x) implies !#[trigger] offers(
                x,
                uuid,
                required,
            ) by {
                let j = choose|j: int| 0 <= j < s.len() && s[j] == x;
                assert(!offers(s[j], uuid, required));
            }
        },
    }
}

/// The rank of the best known UUID, from `rank` on, that is offered; the number of known
/// UUIDs where none is.
pub open spec fn best_rank(
    s: Seq<CharacteristicView>,
    required: CharPropFlags,
    rank: int,
) -> int
    decreases known_uuids().len() - rank,
{
    if rank < 0 || rank >= known_uuids().len() || first_offering(
        s,
        known_uuids()[rank],
        required,
    ) is Some {
        rank
    } else {
        best_rank(s, required, rank + 1)
    }
}

proof fn first_known_is_best(s: Seq<CharacteristicView>, required: CharPropFlags, rank: int)
    requires
        0 <= rank <= known_uuids().len(),
    ensures
        rank <= best_rank(s, required, rank) <= known_uuids().len(),
        first_known(s, required, rank) is None == (best_rank(s, required, rank)
            == known_uuids().len()),
        first_known(s, required, rank) is Some ==> first_known(s, required, rank) == first_offering(
            s,
            known_uuids()[best_rank(s, required, rank)],
            required,
        ),
        forall|j: int|
            rank <= j < best_rank(s, required, rank) ==> none_offers(
                s,
                #[trigger] known_uuids()[j],
                required,
            ),
    decreases known_uuids().len() - rank,
{
    if rank < known_uuids().len() {
        first_offering_none(s, known_uuids()[rank], required);
        if first_offering(s, known_uuids()[rank], required) is None {
            first_known_is_best(s, required, rank + 1);
        }
    }
}

/// The characteristic that is chosen is one of the device's, has the required properties,
/// and has the UUID that the user gave or else a known one.
pub proof fn choice_is_fit(
    s: Seq<CharacteristicView>,
    uuid_override: Option<Seq<char>>,
    required: CharPropFlags,
    label: Seq<char>,
)
    ensures
        chosen_char(s, uuid_override, required, label) matches Ok(c) ==> {
            &&& s.contains(c)
            &&& c.properties.has(required)
            &&& match uuid_override {
                Some(text) => uuid_value(text) == Some(c.uuid),
                None => known_uuids().contains(c.uuid),
            }
        },
{
    match uuid_override {
        Some(text) => {
            if let Some(uuid) = uuid_value(text) {
                first_offering_none(s, uuid, required);
            }
        },
        None => {
            first_known_is_best(s, required, 0);
            let best = best_rank(s, required, 0);
            if best < known_uuids().len() {
                first_offering_none(s, known_uuids()[best], required);
            }
        },
    }
}

/// A given UUID is honoured wherever a characteristic has it along with the required
/// properties, and is never replaced by a known one.
pub proof fn given_uuid_is_honoured(
    s: Seq<CharacteristicView>,
    text: Seq<char>,
    required: CharPropFlags,
    label: Seq<char>,
    uuid: u128,
)
    requires
        uuid_value(text) == Some(uuid),
    ensures
        chosen_char(s, Some(text), required, label) is Err == none_offers(s, uuid, required),
        chosen_char(s, Some(text), required, label) matches Ok(c) ==> c.uuid == uuid,
{
    first_offering_none(s, uuid, required);
}

/// Detection fails just where no characteristic has a known UUID along with the required
/// properties.
pub proof fn detection_is_complete(
    s: Seq<CharacteristicView>,
    required: CharPropFlags,
    label: Seq<char>,
)
    ensures
        chosen_char(s, None, required, label) is Err == (forall|i: int|
            0 <= i < known_uuids().len() ==> none_offers(s, #[trigger] known_uuids()[i], required)),
{
    first_known_is_best(s, required, 0);
    let best = best_rank(s, required, 0);
    if best < known_uuids().len() {
        first_offering_none(s, known_uuids()[best], required);
        assert(!none_offers(s, known_uuids()[best], required));
    }
}

/// Detection keeps to the order of the known characteristics: nothing that ranks before the
/// chosen one would do.
pub proof fn detection_keeps_priority(
    s: Seq<CharacteristicView>,
    required: CharPropFlags,
    label: Seq<char>,
    rank: int,
)
    requires
        0 <= rank < known_uuids().len(),
        chosen_char(s, None, required, label) matches Ok(c) && c.uuid == known_uuids()[rank],
    ensures
        forall|j: int|
            0 <= j < rank ==> none_offers(s, #[trigger] known_uuids()[j], required),
{
    first_known_is_best(s, required, 0);
    let best = best_rank(s, required, 0);
    first_offering_none(s, known_uuids()[best], required);
    known_uuids_are_distinct();
    assert(best == rank);
}

/// Of several characteristics with the chosen UUID and the required properties, the one that
/// stands first in the device's order is chosen.
pub proof fn choice_is_least(
    s: Seq<CharacteristicView>,
    uuid_override: Option<Seq<char>>,
    required: CharPropFlags,
    label: Seq<char>,
    x: CharacteristicView,
)
    requires
        ascending(s),
        s.contains(x),
        chosen_char(s, uuid_override, required, label) matches Ok(c) && offers(
            x,
            c.uuid,
            required,
        ),
    ensures
        chosen_char(s, uuid_override, required, label) matches Ok(c) && (c == x || c.before(x)),
{
    let c = chosen_char(s, uuid_override, required, label)->Ok_0;
    choice_is_fit(s, uuid_override, required, label);
    if uuid_override is None {
        first_known_is_best(s, required, 0);
        first_offering_none(s, known_uuids()[best_rank(s, required, 0)], required);
    }
    assert(first_offering(s, c.uuid, required) == Some(c));
    first_offering_is_first(s, c.uuid, required);
    let i = choose|i: int|
        0 <= i < s.len() && #[trigger] s[i] == c && offers(c, c.uuid, required) && forall|j: int|
            0 <= j < i ==> !offers(#[trigger] s[j], c.uuid, required);
    let k = choose|k: int| 0 <= k < s.len() && s[k] == x;
    if k < i {
        assert(!offers(s[k], c.uuid, required));
    } else if i < k {
        assert(s[i].before(s[k]));
    }
}

/// The characteristic counts for a choice: it has the required properties, and the UUID that
/// the user gave or else a known one.
pub open spec fn counts(
    c: CharacteristicView,
    uuid_override: Option<Seq<char>>,
    required: CharPropFlags,
) -> bool {
    c.properties.has(required) && match uuid_override {
        Some(text) => uuid_value(text) == Some(c.uuid),
        None => known_uuids().contains(c.uuid),
    }
}

/// Those of the characteristics that count for a choice, in the same order.
pub open spec fn those_that_count(
    s: Seq<CharacteristicView>,
    uuid_override: Option<Seq<char>>,
    required: CharPropFlags,
) -> Seq<CharacteristicView> {
    s.filter(|c: CharacteristicView| counts(c, uuid_override, required))
}

proof fn first_offering_counts(
    s: Seq<CharacteristicView>,
    uuid_override: Option<Seq<char>>,
    required: CharPropFlags,
    uuid: u128,
)
    requires
        match uuid_override {
            Some(text) => uuid_value(text) == Some(uuid),
            None => known_uuids().contains(uuid),
        },
    ensures
        first_offering(those_that_count(s, uuid_override, required), uuid, required)
            == first_offering(s, uuid, required),
    decreases s.len(),
{
    let pred = |c: CharacteristicView| counts(c, uuid_override, required);
    reveal(Seq::filter);
    if s.len() > 0 {
        let head = seq![s[0]];
        let rest = s.drop_first();
        assert(s =~= head + rest);
        Seq::filter_distributes_over_add(head, rest, pred);
        assert(head.drop_last().filter(pred) =~= seq![]);
        first_offering_counts(rest, uuid_override, required, uuid);
        let kept = rest.filter(pred);
        if pred(s[0]) {
            assert(head.filter(pred) =~= head);
            assert((head + kept).drop_first() =~= kept);
        } else {
            assert(head.filter(pred) =~= seq![]);
            assert(head.filter(pred) + kept =~= kept);
        }
    }
}

proof fn first_known_counts(s: Seq<CharacteristicView>, required: CharPropFlags, rank: int)
    requires
        0 <= rank <= known_uuids().len(),
    ensures
        first_known(those_that_count(s, None, required), required, rank) == first_known(
            s,
            required,
            rank,
        ),
    decreases known_uuids().len() - rank,
{
    if rank < known_uuids().len() {
        assert(known_uuids().contains(known_uuids()[rank]));
        first_offering_counts(s, None, required, known_uuids()[rank]);
        first_known_counts(s, required, rank + 1);
    }
}

/// Characteristics without the required properties, or without the UUID that the user gave or
/// else a known one, have no influence on a choice.
pub proof fn others_have_no_influence(
    s: Seq<CharacteristicView>,
    uuid_override: Option<Seq<char>>,
    required: CharPropFlags,
    label: Seq<char>,
)
    ensures
        chosen_char(s, uuid_override, required, label) == chosen_char(
            those_that_count(s, uuid_override, required),
            uuid_override,
            required,
            label,
        ),
{
    match uuid_override {
        Some(text) => {
            if let Some(uuid) = uuid_value(text) {
                first_offering_counts(s, uuid_override, required, uuid);
            }
        },
        None => {
            first_known_counts(s, required, 0);
        },
    }
}

/// The order in which a device's characteristics were discovered makes no difference.
pub proof fn choice_ignores_discovery_order(
    a: Seq<CharacteristicView>,
    b: Seq<CharacteristicView>,
    uuid_override: Option<Seq<char>>,
    required: CharPropFlags,
    label: Seq<char>,
)
    requires
        ascending(a),
        ascending(b),
        a.to_set() == b.to_set(),
    ensures
        chosen_char(a, uuid_override, required, label) == chosen_char(
            b,
            uuid_override,
            required,
            label,
        ),
{
    ascending_is_unique(a, b);
}

/// On a device whose first known characteristic takes writes without response and
/// notifies, that one UUID serves both directions; and where it is the only characteristic
/// with that UUID, the very same characteristic does.
pub proof fn one_characteristic_serves_both_directions(
    s: Seq<CharacteristicView>,
    x: CharacteristicView,
    write_label: Seq<char>,
    read_label: Seq<char>,
)
    requires
        s.contains(x),
        x.uuid == known_uuids()[0],
        x.properties.has(CharPropFlags { bits: WRITE_WITHOUT_RESPONSE }),
        x.properties.has(CharPropFlags { bits: NOTIFY }),
    ensures
        ({
            let write = chosen_char(
                s,
                None,
                CharPropFlags { bits: WRITE_WITHOUT_RESPONSE },
                write_label,
            );
            let read = chosen_char(s, None, CharPropFlags { bits: NOTIFY }, read_label);
            &&& write matches Ok(w) && w.uuid == x.uuid
            &&& read matches Ok(r) && r.uuid == x.uuid
            &&& (forall|y: CharacteristicView|
                #[trigger] s.contains(y) && y.uuid == x.uuid ==> y == x) ==> write == Ok::<
                CharacteristicView,
                ErrorView,
            >(x) && read == Ok::<CharacteristicView, ErrorView>(x)
        }),
{
    let write = CharPropFlags { bits: WRITE_WITHOUT_RESPONSE };
    let read = CharPropFlags { bits: NOTIFY };
    first_offering_none(s, known_uuids()[0], write);
    first_offering_none(s, known_uuids()[0], read);
    assert(offers(x, known_uuids()[0], write));
    assert(offers(x, known_uuids()[0], read));
}

/// The UUIDs that detection goes by, in their order.
pub proof fn detection_goes_by_these_uuids()
    ensures
        known_uuids().len() == 7,
        known_uuids()[0] == 0x0000ffe1_0000_1000_8000_00805f9b34fbu128,
        known_uuids()[1] == 0x0000ff01_0000_1000_8000_00805f9b34fbu128,
        known_uuids()[2] == 0x0000ff02_0000_1000_8000_00805f9b34fbu128,
        known_uuids()[3] == 0x0000fff1_0000_1000_8000_00805f9b34fbu128,
        known_uuids()[4] == 0x0000fff2_0000_1000_8000_00805f9b34fbu128,
        known_uuids()[5] == 0x6e400002_b5a3_f393_e0a9_e50e24dcca9eu128,
        known_uuids()[6] == 0x6e400003_b5a3_f393_e0a9_e50e24dcca9eu128,
{
}

/// A characteristic is labelled by the kind of device that its UUID is known for, and by
/// nothing where it is not known.
pub proof fn labels_tell_the_kind_of_device(uuid: u128)
    ensures
        uuid == 0x0000ffe1_0000_1000_8000_00805f9b34fbu128 ==> label_by_text(uuid_text(uuid), 0)
            == "CH9143 / HM-10 / TI CC245x"@,
        uuid == 0x0000ff01_0000_1000_8000_00805f9b34fbu128 ==> label_by_text(uuid_text(uuid), 0)
            == "LithiumBatteryPCB RX notify"@,
        uuid == 0x0000ff02_0000_1000_8000_00805f9b34fbu128 ==> label_by_text(uuid_text(uuid), 0)
            == "LithiumBatteryPCB TX write"@,
        uuid == 0x0000fff1_0000_1000_8000_00805f9b34fbu128 ==> label_by_text(uuid_text(uuid), 0)
            == "Feasycom RX notify"@,
        uuid == 0x0000fff2_0000_1000_8000_00805f9b34fbu128 ==> label_by_text(uuid_text(uuid), 0)
            == "Feasycom TX write"@,
        uuid == 0x6e400002_b5a3_f393_e0a9_e50e24dcca9eu128 ==> label_by_text(uuid_text(uuid), 0)
            == "Nordic UART TX write"@,
        uuid == 0x6e400003_b5a3_f393_e0a9_e50e24dcca9eu128 ==> label_by_text(uuid_text(uuid), 0)
            == "Nordic UART RX notify"@,
        !known_uuids().contains(uuid) ==> label_by_text(uuid_text(uuid), 0).len() == 0,
{
    label_by_text_is_by_value(uuid, 0);
    let i: int = if uuid == known_uuids()[0] {
        0
    } else if uuid == known_uuids()[1] {
        1
    } else if uuid == known_uuids()[2] {
        2
    } else if uuid == known_uuids()[3] {
        3
    } else if uuid == known_uuids()[4] {
        4
    } else if uuid == known_uuids()[5] {
        5
    } else {
        6
    };
    if known_uuids()[i] == uuid {
        assert(label_by_text(uuid_text(uuid), 0) == KNOWN_UART_CHARS@[i].1@);
    }
}

/// The characteristic at position `i` has this UUID and, bit for bit, the required properties.
pub open spec fn fits_at(
    s: Seq<CharacteristicView>,
    i: int,
    uuid: u128,
    required: CharPropFlags,
) -> bool {
    0 <= i < s.len() && s[i].uuid == uuid && s[i].properties.bits & required.bits == required.bits
}

/// A UUID that the user gives decides alone: the first characteristic with that UUID and with
/// every required property is chosen, and without one the choice fails and says which UUID and
/// which property it was about. A text that is no UUID fails as such.
pub proof fn given_uuid_decides(
    s: Seq<CharacteristicView>,
    text: Seq<char>,
    required: CharPropFlags,
    label: Seq<char>,
)
    ensures
        match (uuid_value(text), chosen_char(s, Some(text), required, label)) {
            (None, chosen) => chosen == Err::<CharacteristicView, ErrorView>(
                ErrorView::InvalidUuid { label, text, cause: uuid_parse_error(text) },
            ),
            (Some(uuid), Ok(c)) => exists|i: int|
                {
                    &&& #[trigger] fits_at(s, i, uuid, required)
                    &&& s[i] == c
                    &&& forall|j: int| j < i ==> !#[trigger] fits_at(s, j, uuid, required)
                },
            (Some(uuid), Err(e)) => {
                &&& e == ErrorView::MissingProperty { text, required }
                &&& forall|j: int| !#[trigger] fits_at(s, j, uuid, required)
            },
        },
{
    if let Some(uuid) = uuid_value(text) {
        first_offering_fits(s, uuid, required);
    }
}

proof fn first_offering_fits(s: Seq<CharacteristicView>, uuid: u128, required: CharPropFlags)
    ensures
        match first_offering(s, uuid, required) {
            Some(c) => exists|i: int|
                {
                    &&& #[trigger] fits_at(s, i, uuid, required)
                    &&& s[i] == c
                    &&& forall|j: int| j < i ==> !#[trigger] fits_at(s, j, uuid, required)
                },
            None => forall|j: int| !#[trigger] fits_at(s, j, uuid, required),
        },
{
    first_offering_is_first(s, uuid, required);
    assert forall|j: int| 0 <= j < s.len() implies #[trigger] fits_at(s, j, uuid, required)
        == offers(s[j], uuid, required) by {}
    if let Some(c) = first_offering(s, uuid, required) {
        let i = choose|i: int|
            0 <= i < s.len() && #[trigger] s[i] == c && offers(c, uuid, required) && forall|j: int|
                0 <= j < i ==> !offers(#[trigger] s[j], uuid, required);
        assert(fits_at(s, i, uuid, required));
    }
}

/// Without a UUID from the user, the chosen characteristic is the first with the best ranked
/// known UUID that any characteristic has along with every required property; the choice fails,
/// and says for what, just where there is none.
pub proof fn detection_decides(
    s: Seq<CharacteristicView>,
    required: CharPropFlags,
    label: Seq<char>,
)
    ensures
        match chosen_char(s, None, required, label) {
            Ok(c) => exists|rank: int, i: int|
                {
                    &&& 0 <= rank < 7
                    &&& #[trigger] fits_at(s, i, known_uuids()[rank], required)
                    &&& s[i] == c
                    &&& forall|j: int|
                        j < i ==> !#[trigger] fits_at(s, j, known_uuids()[rank], required)
                    &&& forall|r: int, j: int|
                        0 <= r < rank ==> !#[trigger] fits_at(s, j, known_uuids()[r], required)
                },
            Err(e) => {
                &&& e == ErrorView::NoKnownCharacteristic { label }
                &&& forall|r: int, j: int|
                    0 <= r < 7 ==> !#[trigger] fits_at(s, j, known_uuids()[r], required)
            },
        },
{
    first_known_is_best(s, required, 0);
    let best = best_rank(s, required, 0);
    assert forall|r: int, j: int| 0 <= r < best implies !#[trigger] fits_at(
        s,
        j,
        known_uuids()[r],
        required,
    ) by {
        assert(none_offers(s, known_uuids()[r], required));
        if 0 <= j < s.len() {
            assert(s.contains(s[j]));
            assert(!offers(s[j], known_uuids()[r], required));
        }
    }
    if best < known_uuids().len() {
        first_offering_fits(s, known_uuids()[best], required);
    }
}

} // verus!
