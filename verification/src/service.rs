use vstd::prelude::*;
use vstd::std_specs::cmp::PartialEqSpecImpl;
use vstd::std_specs::cmp::PartialOrdSpecImpl;
use vstd::std_specs::cmp::PartialEqSpec;
use std::cmp::Ordering;

use crate::text::{compare_text, lex_compare, lemma_lex_compare_antisymmetric};
use crate::types::{Priority, Status, same_variant};

verus! {

/// What the manager knows of a service: its type's key, the type's name, its own
/// name, its priority and its current status.
#[derive(Debug, Clone)]
pub struct ServiceInfo {
    pub type_id: u64,
    pub type_label: String,
    pub name: String,
    pub priority: Priority,
    pub status: Status,
}

/// The info after a status change. A status of the same variant as the current one
/// counts as no change, and the current status (with its message) stays.
pub open spec fn info_with_status(info: ServiceInfo, status: Status) -> ServiceInfo {
    if same_variant(info.status, status) {
        info
    } else {
        ServiceInfo {
            type_id: info.type_id,
            type_label: info.type_label,
            name: info.name,
            priority: info.priority,
            status,
        }
    }
}

/// The order of two infos: by name, character by character.
pub open spec fn name_order(a: ServiceInfo, b: ServiceInfo) -> Ordering {
    let c = lex_compare(a.name@, b.name@);
    if c < 0 {
        Ordering::Less
    } else if c == 0 {
        Ordering::Equal
    } else {
        Ordering::Greater
    }
}

/// The opposite order.
pub open spec fn reversed_order(o: Ordering) -> Ordering {
    match o {
        Ordering::Less => Ordering::Greater,
        Ordering::Equal => Ordering::Equal,
        Ordering::Greater => Ordering::Less,
    }
}

impl ServiceInfo {
    /// A service of the given type, name and priority, in status `Stopped`.
    pub fn new(type_id: u64, type_label: String, name: String, priority: Priority) -> (info:
        ServiceInfo)
        ensures
            info.type_id == type_id,
            info.type_label == type_label,
            info.name == name,
            info.priority == priority,
            info.status == Status::Stopped,
    {
        ServiceInfo { type_id, type_label, name, priority, status: Status::Stopped }
    }

    /// Whether the service is running.
    pub fn is_available(&self) -> (r: bool)
        ensures
            r == (self.status is Started),
    {
        self.status == Status::Started
    }

    /// Sets the status, unless it is of the same variant as the current one.
    /// Returns whether it changed.
    pub fn set_status(&mut self, status: Status) -> (changed: bool)
        ensures
            changed == !same_variant(old(self).status, status),
            *final(self) == info_with_status(*old(self), status),
    {
        if self.status == status {
            false
        } else {
            self.status = status;
            true
        }
    }

    /// The name of the event on which the service's status changes are announced.
    pub fn status_event_name(&self) -> (name: String)
        ensures
            name@ == self.type_label@ + "::status_change"@,
    {
        let mut name = self.type_label.clone();
        name.append("::status_change");
        name
    }

    /// Orders services by name.
    pub fn cmp(&self, other: &ServiceInfo) -> (r: Ordering)
        ensures
            r == name_order(*self, *other),
    {
        let c = compare_text(self.name.as_str(), other.name.as_str());
        if c < 0 {
            Ordering::Less
        } else if c == 0 {
            Ordering::Equal
        } else {
            Ordering::Greater
        }
    }
}

impl PartialEq for ServiceInfo {
    fn eq(&self, other: &Self) -> (r: bool) {
        self.type_id == other.type_id
    }
}

impl PartialEqSpecImpl for ServiceInfo {
    open spec fn obeys_eq_spec() -> bool {
        true
    }

    open spec fn eq_spec(&self, other: &ServiceInfo) -> bool {
        self.type_id == other.type_id
    }
}

impl Eq for ServiceInfo {}

impl PartialOrd for ServiceInfo {
    fn partial_cmp(&self, other: &Self) -> (r: Option<Ordering>) {
        Some(self.cmp(other))
    }
}

impl PartialOrdSpecImpl for ServiceInfo {
    open spec fn obeys_partial_cmp_spec() -> bool {
        true
    }

    open spec fn partial_cmp_spec(&self, other: &ServiceInfo) -> Option<Ordering> {
        Some(name_order(*self, *other))
    }
}

/// Two infos are equal exactly when they describe the same type; their order is by
/// name, swapping the arguments reverses it, and it is `Equal` exactly when the
/// names are equal.
pub proof fn lemma_info_eq_and_order(a: ServiceInfo, b: ServiceInfo)
    ensures
        PartialEqSpec::eq_spec(&a, &b) == (a.type_id == b.type_id),
        name_order(a, b) == reversed_order(name_order(b, a)),
        (name_order(a, b) == Ordering::Equal) == (a.name@ == b.name@),
{
    lemma_lex_compare_antisymmetric(a.name@, b.name@);
}

/// A status change followed by a read gives a status of the requested variant, and
/// a second change to the same variant changes nothing.
pub proof fn lemma_set_status_then_read(info: ServiceInfo, status: Status)
    ensures
        same_variant(info_with_status(info, status).status, status),
        info_with_status(info_with_status(info, status), status) == info_with_status(info, status),
        info_with_status(info, status).type_id == info.type_id,
        info_with_status(info, status).name == info.name,
{
}

} // verus!
