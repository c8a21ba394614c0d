//! A star system as the explorer shows it: what is known of the system, its
//! bodies in the order of their identifiers, and the signals found in it.

use vstd::prelude::*;
use vstd::string::*;
use crate::ordering::{insert_sorted, is_first_with_key, is_stable_sort, SortKey};

verus! {

/// A body of a system: a star, a planet, a belt.
pub trait BodyImplementation {
    /// The identifier that the journal gives the body within its system.
    spec fn id(&self) -> i64;

    /// The identifier of the body.
    fn get_id(&self) -> (id: i64)
        ensures
            id == self.id(),
    ;
}

/// The order of bodies: by their identifiers.
pub struct ById;

impl<B: BodyImplementation> SortKey<B> for ById {
    open spec fn key(item: &B) -> int {
        item.id() as int
    }

    fn of(item: &B) -> (key: i128) {
        item.get_id() as i128
    }
}

/// A body of which only the identifier and the name are known.
#[derive(Clone, Debug, PartialEq, Eq)]
pub struct Body {
    pub body_id: i64,
    pub body_name: String,
}

impl BodyImplementation for Body {
    open spec fn id(&self) -> i64 {
        self.body_id
    }

    fn get_id(&self) -> (id: i64) {
        self.body_id
    }
}

/// A signal on a body.
#[derive(Clone, Debug, PartialEq, Eq)]
pub struct Signal {
    pub signal_type: String,
    pub type_localised: String,
    pub count: i64,
}

impl Signal {
    /// The name under which the signal is listed: its localised type, unless
    /// the journal gave `null` for it, in which case its type.
    pub open spec fn spec_label(&self) -> Seq<char> {
        if self.type_localised@ == "null"@ {
            self.signal_type@
        } else {
            self.type_localised@
        }
    }

    /// The name under which the signal is listed.
    pub fn label(&self) -> (label: &str)
        ensures
            label@ == self.spec_label(),
    {
        let null = String::from_str("null");
        if self.type_localised == null {
            self.signal_type.as_str()
        } else {
            self.type_localised.as_str()
        }
    }
}

/// The signals of one body. Two of them are equal when they are those of the
/// same body.
#[derive(Debug)]
pub struct PlanetSignals {
    pub body_name: String,
    pub body_id: i64,
    pub signals: Vec<Signal>,
}

impl PartialEq for PlanetSignals {
    fn eq(&self, other: &Self) -> (equal: bool) {
        self.body_id == other.body_id
    }
}

impl vstd::std_specs::cmp::PartialEqSpecImpl for PlanetSignals {
    open spec fn obeys_eq_spec() -> bool {
        true
    }

    open spec fn eq_spec(&self, other: &Self) -> bool {
        self.body_id == other.body_id
    }
}

/// A signal of the system that belongs to no body.
#[derive(Clone, Debug)]
pub struct SystemSignal {
    pub timestamp: String,
    pub event: String,
    pub name: String,
    pub thread: String,
}

/// A star system with bodies of the kind `B`.
pub struct System<B: BodyImplementation> {
    pub name: String,
    pub allegiance: String,
    pub economy_localised: String,
    pub second_economy_localised: String,
    pub government_localised: String,
    pub security_localised: String,
    pub population: String,
    pub body_count: String,
    pub non_body_count: String,
    pub signal_list: Vec<SystemSignal>,
    pub body_list: Vec<B>,
    pub planet_signals: Vec<PlanetSignals>,
    pub index: usize,
}

impl<B: BodyImplementation> System<B> {
    /// Adds `body` to the bodies and puts them in the order of their
    /// identifiers, bodies with the same identifier staying in the order in
    /// which they came. Returns the first place at which a body with the
    /// identifier of `body` now stands.
    pub fn insert_body(&mut self, body: B) -> (index: usize)
        ensures
            is_stable_sort::<B, ById>(final(self).body_list@, old(self).body_list@.push(body)),
            final(self).body_list@.len() == old(self).body_list@.len() + 1,
            is_first_with_key::<B, ById>(
                final(self).body_list@,
                body.id() as int,
                index as int,
            ),
            final(self).name == old(self).name,
            final(self).allegiance == old(self).allegiance,
            final(self).economy_localised == old(self).economy_localised,
            final(self).second_economy_localised == old(self).second_economy_localised,
            final(self).government_localised == old(self).government_localised,
            final(self).security_localised == old(self).security_localised,
            final(self).population == old(self).population,
            final(self).body_count == old(self).body_count,
            final(self).non_body_count == old(self).non_body_count,
            final(self).signal_list == old(self).signal_list,
            final(self).planet_signals == old(self).planet_signals,
            final(self).index == old(self).index,
    {
        insert_sorted::<B, ById>(&mut self.body_list, body)
    }
}

} // verus!
