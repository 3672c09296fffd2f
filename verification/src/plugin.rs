//! The set of protocols a plugin provides, and the dissector-table registrations that
//! hand packets over to them.

use vstd::prelude::*;

use crate::name_table::NameTable;
use crate::protocol::Protocol;
use crate::types::DissectorDecodeFrom;

verus! {

/// One registration of a protocol's dissector in a dissector table.
#[derive(Clone, Debug, PartialEq, Eq)]
pub enum TableRegistration {
    /// Offer the dissector in the "Decode As" menu of the named table.
    DecodeAs(String),
    /// Register the dissector in the named table under an unsigned integer key.
    Uint(String, u32),
}

/// The registrations one decode-from definition asks for: one for a "Decode As" table,
/// one per key, in order, for an integer table.
pub open spec fn registrations_of_one(def: DissectorDecodeFrom) -> Seq<TableRegistration> {
    match def {
        DissectorDecodeFrom::DecodeAs(table) => seq![TableRegistration::DecodeAs(table)],
        DissectorDecodeFrom::Uint(table, values) => Seq::new(
            values@.len(),
            |j: int| TableRegistration::Uint(table, values@[j]),
        ),
    }
}

/// The registrations a list of decode-from definitions asks for, in order.
pub open spec fn registrations_of(defs: Seq<DissectorDecodeFrom>) -> Seq<TableRegistration>
    decreases defs.len(),
{
    if defs.len() == 0 {
        Seq::empty()
    } else {
        registrations_of(defs.drop_last()) + registrations_of_one(defs.last())
    }
}

/// How many registrations a list of decode-from definitions asks for: one per "Decode
/// As" table, one per key of each integer table.
pub open spec fn registration_count(defs: Seq<DissectorDecodeFrom>) -> nat
    decreases defs.len(),
{
    if defs.len() == 0 {
        0
    } else {
        registration_count(defs.drop_last()) + match defs.last() {
            DissectorDecodeFrom::DecodeAs(_) => 1nat,
            DissectorDecodeFrom::Uint(_, values) => values@.len(),
        }
    }
}

/// Handoff registers a protocol's dissector exactly once per "Decode As" table and once
/// per key of each integer table, nothing more.
pub proof fn law_registration_count(defs: Seq<DissectorDecodeFrom>)
    ensures
        registrations_of(defs).len() == registration_count(defs),
    decreases defs.len(),
{
    if defs.len() > 0 {
        law_registration_count(defs.drop_last());
    }
}

/// Every key of an integer table definition is registered, in that table.
pub proof fn law_every_key_registered(defs: Seq<DissectorDecodeFrom>, d: int, k: int)
    requires
        0 <= d < defs.len(),
        defs[d] matches DissectorDecodeFrom::Uint(_, values) && 0 <= k < values@.len(),
    ensures
        ({
            let (table, values) = match defs[d] {
                DissectorDecodeFrom::Uint(t, v) => (t, v),
                _ => arbitrary(),
            };
            registrations_of(defs).contains(TableRegistration::Uint(table, values@[k]))
        }),
    decreases defs.len(),
{
    let (table, values) = match defs[d] {
        DissectorDecodeFrom::Uint(t, v) => (t, v),
        _ => arbitrary(),
    };
    let prefix = registrations_of(defs.drop_last());
    let last = registrations_of_one(defs.last());
    assert(registrations_of(defs) == prefix + last);
    if d == defs.len() - 1 {
        assert(last[k] == TableRegistration::Uint(table, values@[k]));
        assert((prefix + last)[prefix.len() + k] == last[k]);
    } else {
        law_every_key_registered(defs.drop_last(), d, k);
        assert(defs.drop_last()[d] == defs[d]);
        let x = TableRegistration::Uint(table, values@[k]);
        let i = choose|i: int| 0 <= i < prefix.len() && prefix[i] == x;
        assert((prefix + last)[i] == x);
    }
}

/// The registrations of one decode-from definition, in order.
fn registrations_for(def: &DissectorDecodeFrom) -> (r: Vec<TableRegistration>)
    ensures
        r@ == registrations_of_one(*def),
{
    match def {
        DissectorDecodeFrom::DecodeAs(table) => {
            let r = vec![TableRegistration::DecodeAs(table.clone())];
            assert(r@ =~= registrations_of_one(*def));
            r
        },
        DissectorDecodeFrom::Uint(table, values) => {
            let mut r: Vec<TableRegistration> = Vec::new();
            let mut j: usize = 0;
            while j < values.len()
                invariant
                    j <= values@.len(),
                    r@.len() == j,
                    forall|k: int| 0 <= k < j ==> #[trigger] r@[k] == TableRegistration::Uint(*table, values@[k]),
                decreases values@.len() - j,
            {
                r.push(TableRegistration::Uint(table.clone(), values[j]));
                j = j + 1;
            }
            assert(r@ =~= registrations_of_one(*def));
            r
        },
    }
}

/// All registrations that a list of decode-from definitions asks for, in order.
pub fn table_registrations(defs: &Vec<DissectorDecodeFrom>) -> (r: Vec<TableRegistration>)
    ensures
        r@ == registrations_of(defs@),
{
    let mut r: Vec<TableRegistration> = Vec::new();
    let mut i: usize = 0;
    while i < defs.len()
        invariant
            i <= defs@.len(),
            r@ == registrations_of(defs@.take(i as int)),
        decreases defs@.len() - i,
    {
        let mut more = registrations_for(&defs[i]);
        proof {
            assert(defs@.take(i + 1).drop_last() =~= defs@.take(i as int));
            assert(defs@.take(i + 1).last() == defs@[i as int]);
        }
        r.append(&mut more);
        i = i + 1;
    }
    assert(defs@.take(defs@.len() as int) =~= defs@);
    r
}

/// The protocols of a plugin, keyed by their abbreviation.
pub struct Plugin<D> {
    protocols: NameTable<Protocol<D>>,
}

impl<D> View for Plugin<D> {
    type V = Map<Seq<char>, Protocol<D>>;

    /// The plugin's protocols, keyed by abbreviation.
    closed spec fn view(&self) -> Map<Seq<char>, Protocol<D>> {
        self.protocols.view()
    }
}

impl<D> Plugin<D> {
    /// Every protocol is consistent and is stored under its own abbreviation.
    pub closed spec fn wf(&self) -> bool {
        &&& self.protocols.wf()
        &&& forall|k: Seq<char>| #[trigger] self.protocols.view().contains_key(k) ==> {
            &&& self.protocols.view()[k].wf()
            &&& self.protocols.view()[k]@.abbrev == k
        }
    }

    pub fn new() -> (p: Self)
        ensures
            p.wf(),
            p.view() == Map::<Seq<char>, Protocol<D>>::empty(),
    {
        Plugin { protocols: NameTable::new() }
    }

    /// Adds a protocol under its abbreviation, replacing a protocol of the same
    /// abbreviation.
    pub fn add_protocol(&mut self, protocol: Protocol<D>)
        requires
            old(self).wf(),
            protocol.wf(),
        ensures
            final(self).wf(),
            final(self).view() == old(self).view().insert(protocol@.abbrev, protocol),
    {
        let id = protocol.abbrev().clone();
        self.protocols.insert(id, protocol);
    }

    /// The protocol of abbreviation `id`, if there is one.
    pub fn get_protocol(&self, id: &str) -> (r: Option<&Protocol<D>>)
        requires
            self.wf(),
        ensures
            match r {
                Some(p) => self.view().contains_key(id@) && *p == self.view()[id@] && p.wf()
                    && p@.abbrev == id@,
                None => !self.view().contains_key(id@),
            },
    {
        self.protocols.get(id)
    }

    /// Takes the protocol of abbreviation `id` out of the plugin, so that it can be
    /// registered and added back.
    pub fn take_protocol(&mut self, id: &str) -> (r: Option<Protocol<D>>)
        requires
            old(self).wf(),
        ensures
            final(self).wf(),
            final(self).view() == old(self).view().remove(id@),
            match r {
                Some(p) => old(self).view().contains_key(id@) && p == old(self).view()[id@]
                    && p.wf() && p@.abbrev == id@,
                None => !old(self).view().contains_key(id@),
            },
    {
        self.protocols.remove(id)
    }

    /// The abbreviations of the plugin's protocols, each once.
    pub fn protocol_ids(&self) -> (r: Vec<String>)
        requires
            self.wf(),
        ensures
            forall|i: int| 0 <= i < r@.len() ==> self.view().contains_key(#[trigger] r@[i]@),
            forall|k: Seq<char>| #[trigger] self.view().contains_key(k) ==> exists|i: int|
                0 <= i < r@.len() && (#[trigger] r@[i])@ == k,
            forall|i: int, j: int| 0 <= i < r@.len() && 0 <= j < r@.len() && i != j
                ==> (#[trigger] r@[i])@ != (#[trigger] r@[j])@,
    {
        self.protocols.keys()
    }
}

} // verus!
