//! GATT characteristics, their properties, and the set of them that a device
//! offers.

use vstd::prelude::*;

verus! {

/// The operations that a characteristic supports, one bit each.
#[derive(Clone, Copy, Debug, PartialEq, Eq, Structural)]
pub struct CharPropFlags {
    pub bits: u8,
}

impl CharPropFlags {
    /// Every operation in `other` is in `self` too.
    pub open spec fn has(self, other: CharPropFlags) -> bool {
        self.bits & other.bits == other.bits
    }

    /// Whether every operation in `other` is in `self` too.
    pub fn contains(self, other: CharPropFlags) -> (yes: bool)
        ensures
            yes == self.has(other),
            yes == (self.bits & other.bits == other.bits),
    {
        self.bits & other.bits == other.bits
    }

    pub fn write_without_response() -> (flags: CharPropFlags)
        ensures
            flags.bits == WRITE_WITHOUT_RESPONSE,
            flags.bits == 0x04,
    {
        CharPropFlags { bits: WRITE_WITHOUT_RESPONSE }
    }

    pub fn write() -> (flags: CharPropFlags)
        ensures
            flags.bits == WRITE,
            flags.bits == 0x08,
    {
        CharPropFlags { bits: WRITE }
    }

    pub fn notify() -> (flags: CharPropFlags)
        ensures
            flags.bits == NOTIFY,
            flags.bits == 0x10,
    {
        CharPropFlags { bits: NOTIFY }
    }
}

pub const WRITE_WITHOUT_RESPONSE: u8 = 0x04;

pub const WRITE: u8 = 0x08;

pub const NOTIFY: u8 = 0x10;

/// The name of the property in bit `i`, counted from the lowest.
pub open spec fn flag_name(i: nat) -> Seq<char> {
    if i == 0 {
        "BROADCAST"@
    } else if i == 1 {
        "READ"@
    } else if i == 2 {
        "WRITE_WITHOUT_RESPONSE"@
    } else if i == 3 {
        "WRITE"@
    } else if i == 4 {
        "NOTIFY"@
    } else if i == 5 {
        "INDICATE"@
    } else if i == 6 {
        "AUTHENTICATED_SIGNED_WRITES"@
    } else {
        "EXTENDED_PROPERTIES"@
    }
}

/// The names of those of the lowest `n` properties that are set, with bars between.
pub open spec fn flag_names(bits: u8, n: nat) -> Seq<char>
    decreases n,
{
    if n == 0 {
        seq![]
    } else {
        let lower = flag_names(bits, (n - 1) as nat);
        if (bits >> ((n - 1) as u8)) & 1 == 0 {
            lower
        } else if lower.len() == 0 {
            flag_name((n - 1) as nat)
        } else {
            lower + " | "@ + flag_name((n - 1) as nat)
        }
    }
}

/// The text by which a set of properties is shown to a user.
pub open spec fn flags_text(bits: u8) -> Seq<char> {
    "CharPropFlags("@ + (if bits == 0 {
        "0x0"@
    } else {
        flag_names(bits, 8)
    }) + ")"@
}

/// `btleplug::api::CharPropFlags`'s `Debug`: the names of the properties that are
/// set, in the order of their bits and with bars between, or `0x0` where none is, in
/// brackets behind the type's name.
#[verifier::external_body]
pub(crate) fn show_flags(flags: CharPropFlags) -> (text: String)
    ensures
        text@ == flags_text(flags.bits),
{
    format!("{:?}", btleplug::api::CharPropFlags::from_bits_retain(flags.bits))
}

/// How a value is written to a characteristic.
#[derive(Clone, Copy, Debug, PartialEq, Eq, Structural)]
pub enum WriteType {
    /// The device confirms each write.
    WithResponse,
    /// The device is not asked to confirm.
    WithoutResponse,
}

/// A descriptor of a characteristic.
#[derive(Clone, Copy, Debug, PartialEq, Eq, Structural)]
pub struct Descriptor {
    pub uuid: u128,
    pub service_uuid: u128,
    pub characteristic_uuid: u128,
}

/// A characteristic of a device: a value that can be written, read or subscribed to.
#[derive(Debug, PartialEq, Eq)]
pub struct Characteristic {
    pub uuid: u128,
    pub service_uuid: u128,
    pub properties: CharPropFlags,
    /// Characteristics that agree in all else are ordered by these, one after the other.
    pub descriptors: Vec<Descriptor>,
}

pub struct CharacteristicView {
    pub uuid: u128,
    pub service_uuid: u128,
    pub properties: CharPropFlags,
    pub descriptors: Seq<Descriptor>,
}

impl View for Characteristic {
    type V = CharacteristicView;

    open spec fn view(&self) -> CharacteristicView {
        CharacteristicView {
            uuid: self.uuid,
            service_uuid: self.service_uuid,
            properties: self.properties,
            descriptors: self.descriptors@,
        }
    }
}

impl Clone for Characteristic {
    fn clone(&self) -> (copy: Self)
        ensures
            copy@ == self@,
    {
        let descriptors = self.descriptors.clone();
        assert(descriptors@ =~= self.descriptors@);
        Characteristic {
            uuid: self.uuid,
            service_uuid: self.service_uuid,
            properties: self.properties,
            descriptors,
        }
    }
}

/// The numbers that a run of descriptors is ordered by.
pub open spec fn descriptors_key(d: Seq<Descriptor>) -> Seq<u128>
    decreases d.len(),
{
    if d.len() == 0 {
        seq![]
    } else {
        descriptors_key(d.drop_last()) + seq![
            d.last().uuid,
            d.last().service_uuid,
            d.last().characteristic_uuid,
        ]
    }
}

impl CharacteristicView {
    /// The numbers that a characteristic is ordered by: its own UUID first, then its
    /// service's, its properties and its descriptors.
    pub open spec fn key(self) -> Seq<u128> {
        seq![self.uuid, self.service_uuid, self.properties.bits as u128] + descriptors_key(
            self.descriptors,
        )
    }

    /// `self` stands before `other` in the order of characteristics.
    pub open spec fn before(self, other: CharacteristicView) -> bool {
        lex_less(self.key(), other.key())
    }
}

/// `a` comes before `b` where they first differ, or is a proper prefix of it.
pub open spec fn lex_less(a: Seq<u128>, b: Seq<u128>) -> bool
    decreases a.len(),
{
    if b.len() == 0 {
        false
    } else if a.len() == 0 {
        true
    } else if a[0] != b[0] {
        a[0] < b[0]
    } else {
        lex_less(a.drop_first(), b.drop_first())
    }
}

proof fn lex_less_is_total_order(a: Seq<u128>, b: Seq<u128>)
    ensures
        a == b ==> !lex_less(a, b),
        a != b ==> lex_less(a, b) != lex_less(b, a),
    decreases a.len(),
{
    if a.len() == 0 || b.len() == 0 {
        if a.len() == b.len() {
            assert(a =~= b);
        }
    } else if a[0] == b[0] {
        lex_less_is_total_order(a.drop_first(), b.drop_first());
        if a.drop_first() == b.drop_first() {
            assert(a =~= seq![a[0]] + a.drop_first());
            assert(b =~= seq![b[0]] + b.drop_first());
        }
    }
}

proof fn lex_less_transitive(a: Seq<u128>, b: Seq<u128>, c: Seq<u128>)
    requires
        lex_less(a, b),
        lex_less(b, c),
    ensures
        lex_less(a, c),
    decreases a.len(),
{
    if a.len() > 0 && b.len() > 0 && c.len() > 0 && a[0] == b[0] && b[0] == c[0] {
        lex_less_transitive(a.drop_first(), b.drop_first(), c.drop_first());
    }
}

proof fn descriptors_key_len(d: Seq<Descriptor>)
    ensures
        descriptors_key(d).len() == 3 * d.len(),
    decreases d.len(),
{
    if d.len() > 0 {
        descriptors_key_len(d.drop_last());
    }
}

proof fn descriptors_key_injective(a: Seq<Descriptor>, b: Seq<Descriptor>)
    requires
        descriptors_key(a) == descriptors_key(b),
    ensures
        a == b,
    decreases a.len(),
{
    descriptors_key_len(a);
    descriptors_key_len(b);
    if a.len() > 0 {
        let ka = descriptors_key(a);
        let kb = descriptors_key(b);
        let n = ka.len() as int;
        descriptors_key_len(a.drop_last());
        descriptors_key_len(b.drop_last());
        assert(ka.subrange(0, n - 3) =~= descriptors_key(a.drop_last()));
        assert(kb.subrange(0, n - 3) =~= descriptors_key(b.drop_last()));
        descriptors_key_injective(a.drop_last(), b.drop_last());
        assert(ka[n - 3] == a.last().uuid && ka[n - 2] == a.last().service_uuid && ka[n - 1]
            == a.last().characteristic_uuid);
        assert(kb[n - 3] == b.last().uuid && kb[n - 2] == b.last().service_uuid && kb[n - 1]
            == b.last().characteristic_uuid);
        assert(a =~= a.drop_last().push(a.last()));
        assert(b =~= b.drop_last().push(b.last()));
    } else {
        assert(a =~= b);
    }
}

/// Two characteristics of the same place in the order are the same.
pub proof fn key_injective(a: CharacteristicView, b: CharacteristicView)
    requires
        a.key() == b.key(),
    ensures
        a == b,
{
    let ka = a.key();
    let kb = b.key();
    assert(ka[0] == kb[0] && ka[1] == kb[1] && ka[2] == kb[2]);
    assert(ka.subrange(3, ka.len() as int) =~= descriptors_key(a.descriptors));
    assert(kb.subrange(3, kb.len() as int) =~= descriptors_key(b.descriptors));
    descriptors_key_injective(a.descriptors, b.descriptors);
}

/// The order of characteristics is total: of two different ones, exactly one stands
/// before the other, and none stands before itself.
pub proof fn before_is_total_order(a: CharacteristicView, b: CharacteristicView)
    ensures
        !a.before(a),
        a != b ==> a.before(b) != b.before(a),
{
    lex_less_is_total_order(a.key(), a.key());
    lex_less_is_total_order(a.key(), b.key());
    if a.key() == b.key() {
        key_injective(a, b);
    }
}

/// What stands before a characteristic stands before all that it stands before.
pub proof fn before_is_transitive(
    a: CharacteristicView,
    b: CharacteristicView,
    c: CharacteristicView,
)
    requires
        a.before(b),
        b.before(c),
    ensures
        a.before(c),
{
    lex_less_transitive(a.key(), b.key(), c.key());
}

/// Each characteristic stands before all that follow it, so none occurs twice.
pub open spec fn ascending(s: Seq<CharacteristicView>) -> bool {
    forall|i: int, j: int| 0 <= i < j < s.len() ==> (#[trigger] s[i]).before(#[trigger] s[j])
}

/// Two ascending runs of the same characteristics are the same run.
pub proof fn ascending_is_unique(a: Seq<CharacteristicView>, b: Seq<CharacteristicView>)
    requires
        ascending(a),
        ascending(b),
        a.to_set() == b.to_set(),
    ensures
        a == b,
    decreases a.len(),
{
    assert forall|x: CharacteristicView| a.contains(x) == b.contains(x) by {
        assert(a.to_set().contains(x) == a.contains(x));
        assert(b.to_set().contains(x) == b.contains(x));
    }
    if a.len() == 0 || b.len() == 0 {
        if a.len() > 0 {
            assert(b.contains(a[0]));
        }
        if b.len() > 0 {
            assert(a.contains(b[0]));
        }
        assert(a =~= b);
    } else {
        let x = a[0];
        let y = b[0];
        assert(b.contains(x));
        assert(a.contains(y));
        before_is_total_order(x, y);
        let i = choose|i: int| 0 <= i < b.len() && b[i] == x;
        let j = choose|j: int| 0 <= j < a.len() && a[j] == y;
        assert(x == y);
        let ra = a.drop_first();
        let rb = b.drop_first();
        assert forall|i: int, j: int| 0 <= i < j < ra.len() implies (#[trigger] ra[i]).before(
            #[trigger] ra[j],
        ) by {
            assert(a[i + 1].before(a[j + 1]));
        }
        assert forall|i: int, j: int| 0 <= i < j < rb.len() implies (#[trigger] rb[i]).before(
            #[trigger] rb[j],
        ) by {
            assert(b[i + 1].before(b[j + 1]));
        }
        assert forall|z: CharacteristicView| ra.to_set().contains(z) == rb.to_set().contains(z) by {
            drop_first_loses_only_first(a, z);
            drop_first_loses_only_first(b, z);
        }
        assert(ra.to_set() =~= rb.to_set());
        ascending_is_unique(ra, rb);
        assert(a =~= seq![x] + ra);
        assert(b =~= seq![y] + rb);
    }
}

proof fn drop_first_loses_only_first(s: Seq<CharacteristicView>, z: CharacteristicView)
    requires
        ascending(s),
        s.len() > 0,
    ensures
        s.drop_first().contains(z) == (s.contains(z) && z != s[0]),
{
    let rest = s.drop_first();
    if rest.contains(z) {
        let i = choose|i: int| 0 <= i < rest.len() && rest[i] == z;
        assert(s[i + 1] == z);
        assert(s[0].before(s[i + 1]));
        before_is_total_order(z, z);
    }
    if s.contains(z) && z != s[0] {
        let i = choose|i: int| 0 <= i < s.len() && s[i] == z;
        assert(rest[i - 1] == z);
    }
}

/// How two keys lie to each other.
#[derive(Clone, Copy, Debug, PartialEq, Eq, Structural)]
enum Placement {
    Before,
    Same,
    After,
}

/// Compares two keys number by number.
fn place(a: &Vec<u128>, b: &Vec<u128>) -> (placement: Placement)
    ensures
        placement == (if a@ == b@ {
            Placement::Same
        } else if lex_less(a@, b@) {
            Placement::Before
        } else {
            Placement::After
        }),
{
    let mut i: usize = 0;
    proof {
        assert(a@.skip(0) =~= a@);
        assert(b@.skip(0) =~= b@);
    }
    while i < a.len() && i < b.len()
        invariant
            i <= a@.len(),
            i <= b@.len(),
            a@.subrange(0, i as int) == b@.subrange(0, i as int),
            lex_less(a@, b@) == lex_less(a@.skip(i as int), b@.skip(i as int)),
        decreases a@.len() - i,
    {
        let ghost ra = a@.skip(i as int);
        let ghost rb = b@.skip(i as int);
        assert(ra[0] == a@[i as int] && rb[0] == b@[i as int]);
        if a[i] < b[i] {
            return Placement::Before;
        }
        if b[i] < a[i] {
            return Placement::After;
        }
        assert(a@.skip(i + 1) =~= ra.drop_first());
        assert(b@.skip(i + 1) =~= rb.drop_first());
        assert(a@.subrange(0, i + 1) =~= a@.subrange(0, i as int).push(a@[i as int]));
        assert(b@.subrange(0, i + 1) =~= b@.subrange(0, i as int).push(b@[i as int]));
        i = i + 1;
    }
    if i < b.len() {
        Placement::Before
    } else if i < a.len() {
        Placement::After
    } else {
        assert(a@ =~= a@.subrange(0, i as int));
        assert(b@ =~= b@.subrange(0, i as int));
        Placement::Same
    }
}

impl Characteristic {
    fn key(&self) -> (key: Vec<u128>)
        ensures
            key@ == self@.key(),
    {
        let mut key: Vec<u128> = Vec::new();
        key.push(self.uuid);
        key.push(self.service_uuid);
        key.push(self.properties.bits as u128);
        let ghost head = seq![self.uuid, self.service_uuid, self.properties.bits as u128];
        let mut i: usize = 0;
        assert(self.descriptors@.take(0) =~= seq![]);
        while i < self.descriptors.len()
            invariant
                i <= self.descriptors@.len(),
                key@ =~= head + descriptors_key(self.descriptors@.take(i as int)),
            decreases self.descriptors@.len() - i,
        {
            let d = self.descriptors[i];
            key.push(d.uuid);
            key.push(d.service_uuid);
            key.push(d.characteristic_uuid);
            let ghost upto = self.descriptors@.take(i + 1);
            assert(upto.drop_last() =~= self.descriptors@.take(i as int));
            assert(upto.last() == d);
            i = i + 1;
        }
        assert(self.descriptors@.take(i as int) =~= self.descriptors@);
        key
    }
}

/// The characteristics of a device, each once, in ascending order.
#[derive(Debug)]
pub struct CharacteristicSet {
    items: Vec<Characteristic>,
}

impl View for CharacteristicSet {
    type V = Seq<CharacteristicView>;

    closed spec fn view(&self) -> Seq<CharacteristicView> {
        self.items@.map_values(|c: Characteristic| c@)
    }
}

impl CharacteristicSet {
    #[verifier::type_invariant]
    pub open spec fn in_order(self) -> bool {
        ascending(self@)
    }

    /// A set of no characteristics.
    pub fn new() -> (set: Self)
        ensures
            set@ == Seq::<CharacteristicView>::empty(),
    {
        let set = CharacteristicSet { items: Vec::new() };
        assert(set@ =~= seq![]);
        set
    }

    pub fn len(&self) -> (n: usize)
        ensures
            n == self@.len(),
            ascending(self@),
    {
        proof {
            use_type_invariant(self);
        }
        self.items.len()
    }

    /// The characteristic at position `i` in ascending order.
    pub fn get(&self, i: usize) -> (c: &Characteristic)
        requires
            i < self@.len(),
        ensures
            c@ == self@[i as int],
            ascending(self@),
    {
        proof {
            use_type_invariant(self);
        }
        &self.items[i]
    }

    /// Puts a characteristic in its place, unless it is there already; says whether it
    /// was new.
    pub fn insert(&mut self, c: Characteristic) -> (added: bool)
        ensures
            added == !old(self)@.contains(c@),
            added ==> exists|at: int|
                0 <= at <= old(self)@.len() && final(self)@ == #[trigger] old(self)@.insert(at, c@),
            !added ==> final(self)@ == old(self)@,
            final(self)@.to_set() == old(self)@.to_set().insert(c@),
            ascending(final(self)@),
    {
        proof {
            use_type_invariant(&*self);
        }
        let ghost before = self@;
        let key = c.key();
        let mut at: usize = 0;
        while at < self.items.len()
            invariant
                at <= self.items@.len(),
                key@ == c@.key(),
                self@ == before,
                ascending(before),
                forall|k: int| 0 <= k < at ==> (#[trigger] before[k]).before(c@),
            ensures
                at <= self.items@.len(),
                self@ == before,
                forall|k: int| 0 <= k < at ==> (#[trigger] before[k]).before(c@),
                at < before.len() ==> c@.before(before[at as int]),
            decreases self.items@.len() - at,
        {
            let other = self.items[at].key();
            assert(before[at as int] == self.items@[at as int]@);
            match place(&other, &key) {
                Placement::Before => {
                    at = at + 1;
                },
                Placement::Same => {
                    proof {
                        key_injective(before[at as int], c@);
                        assert(before.contains(c@));
                        assert(before.to_set() =~= before.to_set().insert(c@));
                    }
                    return false;
                },
                Placement::After => {
                    proof {
                        lex_less_is_total_order(other@, key@);
                    }
                    break;
                },
            }
        }
        let mut items: Vec<Characteristic> = Vec::new();
        std::mem::swap(&mut items, &mut self.items);
        let ghost view = c@;
        items.insert(at, c);
        let ghost after = items@.map_values(|c: Characteristic| c@);
        proof {
            assert(after =~= before.insert(at as int, view));
            placed_between(before, at as int, view);
        }
        self.items = items;
        true
    }
}

/// Inserting a characteristic after all that stand before it and ahead of the rest
/// keeps the order and adds just that one.
proof fn placed_between(s: Seq<CharacteristicView>, at: int, c: CharacteristicView)
    requires
        ascending(s),
        0 <= at <= s.len(),
        forall|k: int| 0 <= k < at ==> (#[trigger] s[k]).before(c),
        at < s.len() ==> c.before(s[at]),
    ensures
        ascending(s.insert(at, c)),
        !s.contains(c),
        s.insert(at, c).to_set() == s.to_set().insert(c),
{
    let t = s.insert(at, c);
    assert forall|k: int| at <= k < s.len() implies c.before(#[trigger] s[k]) by {
        if k > at {
            assert(s[at].before(s[k]));
            before_is_transitive(c, s[at], s[k]);
        }
    }
    assert forall|i: int, j: int| 0 <= i < j < t.len() implies (#[trigger] t[i]).before(
        #[trigger] t[j],
    ) by {
        if j < at {
            assert(s[i].before(s[j]));
        } else if i > at {
            assert(s[i - 1].before(s[j - 1]));
        } else if i == at {
            assert(c.before(s[j - 1]));
        } else if j == at {
            assert(s[i].before(c));
        } else {
            assert(s[i].before(s[j - 1]));
        }
    }
    before_is_total_order(c, c);
    if s.contains(c) {
        let k = choose|k: int| 0 <= k < s.len() && s[k] == c;
        assert(s[k].before(c) || c.before(s[k]));
    }
    assert forall|x: CharacteristicView| t.to_set().contains(x) == s.to_set().insert(c).contains(
        x,
    ) by {
        if s.contains(x) {
            let k = choose|k: int| 0 <= k < s.len() && s[k] == x;
            assert(t[if k < at { k } else { k + 1 }] == x);
        }
        assert(t[at] == c);
        if t.contains(x) && x != c {
            let k = choose|k: int| 0 <= k < t.len() && t[k] == x;
            assert(s[if k < at { k } else { k - 1 }] == x);
        }
    }
    assert(t.to_set() =~= s.to_set().insert(c));
}

/// A set of properties has a required set just where each property of the required set, one
/// bit each, is in it too.
pub proof fn has_goes_bit_by_bit(flags: CharPropFlags, required: CharPropFlags)
    ensures
        flags.has(required) == (flags.bits & required.bits == required.bits),
        flags.has(required) == (forall|i: u8|
            i < 8 && #[trigger] (required.bits >> i) & 1 == 1 ==> (flags.bits >> i) & 1 == 1),
{
    let f = flags.bits;
    let r = required.bits;
    if f & r == r {
        assert forall|i: u8| i < 8 && #[trigger] (r >> i) & 1 == 1 implies (f >> i) & 1 == 1 by {
            assert((f >> i) & 1 == 1) by (bit_vector)
                requires
                    f & r == r,
                    i < 8,
                    (r >> i) & 1 == 1,
            ;
        }
    } else if forall|i: u8| i < 8 && #[trigger] (r >> i) & 1 == 1 ==> (f >> i) & 1 == 1 {
        assert((r >> 0u8) & 1 == 1 ==> (f >> 0u8) & 1 == 1);
        assert((r >> 1u8) & 1 == 1 ==> (f >> 1u8) & 1 == 1);
        assert((r >> 2u8) & 1 == 1 ==> (f >> 2u8) & 1 == 1);
        assert((r >> 3u8) & 1 == 1 ==> (f >> 3u8) & 1 == 1);
        assert((r >> 4u8) & 1 == 1 ==> (f >> 4u8) & 1 == 1);
        assert((r >> 5u8) & 1 == 1 ==> (f >> 5u8) & 1 == 1);
        assert((r >> 6u8) & 1 == 1 ==> (f >> 6u8) & 1 == 1);
        assert((r >> 7u8) & 1 == 1 ==> (f >> 7u8) & 1 == 1);
        assert(f & r == r) by (bit_vector)
            requires
                (r >> 0u8) & 1 == 1 ==> (f >> 0u8) & 1 == 1,
                (r >> 1u8) & 1 == 1 ==> (f >> 1u8) & 1 == 1,
                (r >> 2u8) & 1 == 1 ==> (f >> 2u8) & 1 == 1,
                (r >> 3u8) & 1 == 1 ==> (f >> 3u8) & 1 == 1,
                (r >> 4u8) & 1 == 1 ==> (f >> 4u8) & 1 == 1,
                (r >> 5u8) & 1 == 1 ==> (f >> 5u8) & 1 == 1,
                (r >> 6u8) & 1 == 1 ==> (f >> 6u8) & 1 == 1,
                (r >> 7u8) & 1 == 1 ==> (f >> 7u8) & 1 == 1,
        ;
    }
}

/// The properties that a bridge asks for are the ones at their places in the Bluetooth
/// standard, and each of them is one property of its own.
pub proof fn asked_properties_are_distinct(flags: CharPropFlags)
    ensures
        WRITE_WITHOUT_RESPONSE == 1u8 << 2,
        WRITE == 1u8 << 3,
        NOTIFY == 1u8 << 4,
        flags.has(CharPropFlags { bits: WRITE_WITHOUT_RESPONSE }) == ((flags.bits >> 2) & 1 == 1),
        flags.has(CharPropFlags { bits: WRITE }) == ((flags.bits >> 3) & 1 == 1),
        flags.has(CharPropFlags { bits: NOTIFY }) == ((flags.bits >> 4) & 1 == 1),
{
    let f = flags.bits;
    assert(1u8 << 2 == 4 && 1u8 << 3 == 8 && 1u8 << 4 == 16) by (bit_vector);
    assert((f & 4 == 4) == ((f >> 2) & 1 == 1) && (f & 8 == 8) == ((f >> 3) & 1 == 1) && (f & 16
        == 16) == ((f >> 4) & 1 == 1)) by (bit_vector);
}

/// The view of a characteristic shows all of it.
pub proof fn characteristic_is_shown_whole(c: Characteristic)
    ensures
        c@.uuid == c.uuid,
        c@.service_uuid == c.service_uuid,
        c@.properties == c.properties,
        c@.properties.bits == c.properties.bits,
        c@.descriptors == c.descriptors@,
{
}

proof fn descriptors_key_at(d: Seq<Descriptor>, i: int)
    requires
        0 <= i < d.len(),
    ensures
        descriptors_key(d).len() == 3 * d.len(),
        descriptors_key(d)[3 * i] == d[i].uuid,
        descriptors_key(d)[3 * i + 1] == d[i].service_uuid,
        descriptors_key(d)[3 * i + 2] == d[i].characteristic_uuid,
    decreases d.len(),
{
    descriptors_key_len(d);
    descriptors_key_len(d.drop_last());
    if i < d.len() - 1 {
        descriptors_key_at(d.drop_last(), i);
    }
}

proof fn lex_less_at(a: Seq<u128>, b: Seq<u128>, k: int)
    requires
        0 <= k <= a.len(),
        k < b.len(),
        forall|i: int| 0 <= i < k ==> a[i] == b[i],
        k == a.len() || a[k] < b[k],
    ensures
        lex_less(a, b),
    decreases k,
{
    if k > 0 {
        assert(a[0] == b[0]);
        lex_less_at(a.drop_first(), b.drop_first(), k - 1);
    }
}

/// Characteristics are ordered by their own UUID first, then by the UUID of their service, then
/// by their properties.
pub proof fn order_goes_by_fields(a: CharacteristicView, b: CharacteristicView)
    ensures
        a.uuid < b.uuid ==> a.before(b),
        a.uuid == b.uuid && a.service_uuid < b.service_uuid ==> a.before(b),
        a.uuid == b.uuid && a.service_uuid == b.service_uuid && a.properties.bits
            < b.properties.bits ==> a.before(b),
{
    let ka = a.key();
    let kb = b.key();
    assert(ka[0] == a.uuid && ka[1] == a.service_uuid && ka[2] == a.properties.bits as u128);
    assert(kb[0] == b.uuid && kb[1] == b.service_uuid && kb[2] == b.properties.bits as u128);
    if a.uuid < b.uuid {
        lex_less_at(ka, kb, 0);
    } else if a.uuid == b.uuid && a.service_uuid < b.service_uuid {
        lex_less_at(ka, kb, 1);
    } else if a.uuid == b.uuid && a.service_uuid == b.service_uuid && a.properties.bits
        < b.properties.bits {
        lex_less_at(ka, kb, 2);
    }
}

/// Characteristics that agree in all else are ordered by their descriptors: by the first place
/// `k` where these differ, or where the one runs out.
pub proof fn order_goes_by_descriptors_last(a: CharacteristicView, b: CharacteristicView, k: int)
    requires
        a.uuid == b.uuid,
        a.service_uuid == b.service_uuid,
        a.properties == b.properties,
        0 <= k <= a.descriptors.len(),
        k < b.descriptors.len(),
        forall|i: int| 0 <= i < k ==> a.descriptors[i] == b.descriptors[i],
        k == a.descriptors.len() || descriptor_less(a.descriptors[k], b.descriptors[k]),
    ensures
        a.before(b),
{
    let ka = a.key();
    let kb = b.key();
    let ra = descriptors_key(a.descriptors);
    let rb = descriptors_key(b.descriptors);
    descriptors_key_len(a.descriptors);
    descriptors_key_len(b.descriptors);
    assert forall|i: int| 0 <= i < 3 * k implies ra[i] == rb[i] by {
        descriptors_key_at(a.descriptors, i / 3);
        descriptors_key_at(b.descriptors, i / 3);
        assert(a.descriptors[i / 3] == b.descriptors[i / 3]);
        assert(i == 3 * (i / 3) || i == 3 * (i / 3) + 1 || i == 3 * (i / 3) + 2);
    }
    assert forall|i: int| 0 <= i < 3 + 3 * k implies ka[i] == kb[i] by {
        if i >= 3 {
            assert(ka[i] == ra[i - 3]);
            assert(kb[i] == rb[i - 3]);
        }
    }
    descriptors_key_at(b.descriptors, k);
    if k == a.descriptors.len() {
        lex_less_at(ka, kb, 3 + 3 * k);
    } else {
        descriptors_key_at(a.descriptors, k);
        let x = a.descriptors[k];
        let y = b.descriptors[k];
        assert(ka[3 + 3 * k] == x.uuid && ka[4 + 3 * k] == x.service_uuid && ka[5 + 3 * k]
            == x.characteristic_uuid);
        assert(kb[3 + 3 * k] == y.uuid && kb[4 + 3 * k] == y.service_uuid && kb[5 + 3 * k]
            == y.characteristic_uuid);
        if x.uuid < y.uuid {
            lex_less_at(ka, kb, 3 + 3 * k);
        } else if x.service_uuid < y.service_uuid {
            lex_less_at(ka, kb, 4 + 3 * k);
        } else {
            lex_less_at(ka, kb, 5 + 3 * k);
        }
    }
}

/// The order of descriptors: by their own UUID, then by their service's, then by their
/// characteristic's.
pub open spec fn descriptor_less(a: Descriptor, b: Descriptor) -> bool {
    if a.uuid != b.uuid {
        a.uuid < b.uuid
    } else if a.service_uuid != b.service_uuid {
        a.service_uuid < b.service_uuid
    } else {
        a.characteristic_uuid < b.characteristic_uuid
    }
}

/// In an ascending run no characteristic occurs twice, and the UUIDs never fall.
pub proof fn ascending_uuids_never_fall(s: Seq<CharacteristicView>)
    requires
        ascending(s),
    ensures
        forall|i: int, j: int|
            0 <= i < j < s.len() ==> #[trigger] s[i] != #[trigger] s[j] && s[i].uuid <= s[j].uuid,
{
    assert forall|i: int, j: int| 0 <= i < j < s.len() implies #[trigger] s[i] != #[trigger] s[j]
        && s[i].uuid <= s[j].uuid by {
        assert(s[i].before(s[j]));
        before_is_total_order(s[i], s[j]);
        order_goes_by_fields(s[j], s[i]);
    }
}

/// A set of properties is shown by their names in brackets. No name stands for a property that
/// is not set; one that is set is named after all lower ones, with a bar between where there
/// are any.
pub proof fn properties_are_shown_by_name(bits: u8, i: u8)
    requires
        i < 8,
    ensures
        flags_text(0) == "CharPropFlags("@ + "0x0"@ + ")"@,
        bits != 0 ==> flags_text(bits) == "CharPropFlags("@ + flag_names(bits, 8) + ")"@,
        flag_names(bits, 0).len() == 0,
        (bits >> i) & 1 == 0 ==> flag_names(bits, (i + 1) as nat) == flag_names(bits, i as nat),
        (bits >> i) & 1 != 0 && flag_names(bits, i as nat).len() == 0 ==> flag_names(
            bits,
            (i + 1) as nat,
        ) == flag_name(i as nat),
        (bits >> i) & 1 != 0 && flag_names(bits, i as nat).len() > 0 ==> flag_names(
            bits,
            (i + 1) as nat,
        ) == flag_names(bits, i as nat) + " | "@ + flag_name(i as nat),
        flag_name(0) == "BROADCAST"@,
        flag_name(1) == "READ"@,
        flag_name(2) == "WRITE_WITHOUT_RESPONSE"@,
        flag_name(3) == "WRITE"@,
        flag_name(4) == "NOTIFY"@,
        flag_name(5) == "INDICATE"@,
        flag_name(6) == "AUTHENTICATED_SIGNED_WRITES"@,
        flag_name(7) == "EXTENDED_PROPERTIES"@,
{
}

} // verus!
