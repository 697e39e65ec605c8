//! The desired state of a service, and when two desired states agree.

use crate::limits::{CpuLimit, MemoryLimit};
use crate::service::ServicePort;
use vstd::prelude::*;

verus! {

/// Describes the desired state of a service.
#[derive(Debug, Clone)]
pub struct ServiceConfig {
    /// An opaque identifier for the executable or container image to run.
    pub image: String,
    /// Ports to expose.
    pub ports: Vec<ServicePort>,
    /// An optional limit on the memory that the service can use.
    pub memory_limit: Option<MemoryLimit>,
    /// An optional limit on the CPU that the service can use.
    pub cpu_limit: Option<CpuLimit>,
    /// The number of copies of this service to run; never zero.
    pub scale: usize,
    /// Arbitrary key–value pairs to attach to the service in the backend.
    /// The order of the pairs carries no meaning.
    pub labels: Vec<(String, String)>,
    /// The availability zone the service should be run in, if any.
    pub availability_zone: Option<String>,
}

/// Whether two port lists declare the same ports in the same order.
pub open spec fn same_ports(a: Seq<ServicePort>, b: Seq<ServicePort>) -> bool {
    &&& a.len() == b.len()
    &&& forall|i: int|
        0 <= i < a.len() ==> (#[trigger] a[i]).name@ == b[i].name@ && a[i].port_hint
            == b[i].port_hint
}

/// Whether `labels` holds the pair `key`, `value`.
pub open spec fn has_label(labels: Seq<(String, String)>, key: Seq<char>, value: Seq<char>) -> bool {
    exists|i: int| 0 <= i < labels.len() && (#[trigger] labels[i]).0@ == key && labels[i].1@ == value
}

/// Whether every pair of `a` is also a pair of `b`.
pub open spec fn labels_within(a: Seq<(String, String)>, b: Seq<(String, String)>) -> bool {
    forall|i: int| 0 <= i < a.len() ==> has_label(b, (#[trigger] a[i]).0@, a[i].1@)
}

/// Whether two label lists hold the same pairs, in whatever order.
pub open spec fn same_labels(a: Seq<(String, String)>, b: Seq<(String, String)>) -> bool {
    labels_within(a, b) && labels_within(b, a)
}

/// Whether two optional texts are both absent or both the same text.
pub open spec fn same_opt_text(a: Option<String>, b: Option<String>) -> bool {
    match (a, b) {
        (None, None) => true,
        (Some(x), Some(y)) => x@ == y@,
        _ => false,
    }
}

/// Whether two configurations ask for the same running service: the same
/// image, ports, limits, scale, labels and availability zone.
pub open spec fn same_desired_state(a: ServiceConfig, b: ServiceConfig) -> bool {
    &&& a.image@ == b.image@
    &&& same_ports(a.ports@, b.ports@)
    &&& a.memory_limit == b.memory_limit
    &&& a.cpu_limit == b.cpu_limit
    &&& a.scale == b.scale
    &&& same_labels(a.labels@, b.labels@)
    &&& same_opt_text(a.availability_zone, b.availability_zone)
}

fn ports_match(a: &Vec<ServicePort>, b: &Vec<ServicePort>) -> (r: bool)
    ensures
        r == same_ports(a@, b@),
{
    if a.len() != b.len() {
        return false;
    }
    let mut i: usize = 0;
    while i < a.len()
        invariant
            i <= a.len(),
            a.len() == b.len(),
            forall|k: int|
                0 <= k < i ==> (#[trigger] a@[k]).name@ == b@[k].name@ && a@[k].port_hint
                    == b@[k].port_hint,
        decreases a.len() - i,
    {
        if a[i].name != b[i].name || a[i].port_hint != b[i].port_hint {
            return false;
        }
        i = i + 1;
    }
    true
}

fn contains_label(labels: &Vec<(String, String)>, key: &String, value: &String) -> (r: bool)
    ensures
        r == has_label(labels@, key@, value@),
{
    let mut i: usize = 0;
    while i < labels.len()
        invariant
            i <= labels.len(),
            forall|k: int|
                0 <= k < i ==> !((#[trigger] labels@[k]).0@ == key@ && labels@[k].1@ == value@),
        decreases labels.len() - i,
    {
        if labels[i].0 == *key && labels[i].1 == *value {
            return true;
        }
        i = i + 1;
    }
    false
}

fn labels_contained(a: &Vec<(String, String)>, b: &Vec<(String, String)>) -> (r: bool)
    ensures
        r == labels_within(a@, b@),
{
    let mut i: usize = 0;
    while i < a.len()
        invariant
            i <= a.len(),
            forall|k: int| 0 <= k < i ==> has_label(b@, (#[trigger] a@[k]).0@, a@[k].1@),
        decreases a.len() - i,
    {
        if !contains_label(b, &a[i].0, &a[i].1) {
            return false;
        }
        i = i + 1;
    }
    true
}

fn opt_text_match(a: &Option<String>, b: &Option<String>) -> (r: bool)
    ensures
        r == same_opt_text(*a, *b),
{
    match (a, b) {
        (None, None) => true,
        (Some(x), Some(y)) => *x == *y,
        _ => false,
    }
}

impl ServiceConfig {
    /// Whether `self` and `other` ask for the same running service, so that a
    /// service running as `self` needs no change to run as `other`.
    pub fn matches(&self, other: &ServiceConfig) -> (r: bool)
        ensures
            r == same_desired_state(*self, *other),
    {
        self.image == other.image && ports_match(&self.ports, &other.ports)
            && self.memory_limit == other.memory_limit && self.cpu_limit == other.cpu_limit
            && self.scale == other.scale && labels_contained(&self.labels, &other.labels)
            && labels_contained(&other.labels, &self.labels) && opt_text_match(
            &self.availability_zone,
            &other.availability_zone,
        )
    }
}

/// Every configuration asks for the same service as itself.
pub proof fn lemma_same_desired_state_reflexive(c: ServiceConfig)
    ensures
        same_desired_state(c, c),
{
    assert forall|i: int| 0 <= i < c.labels@.len() implies has_label(
        c.labels@,
        (#[trigger] c.labels@[i]).0@,
        c.labels@[i].1@,
    ) by {}
}

} // verus!
