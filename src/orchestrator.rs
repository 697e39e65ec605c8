//! The namespaces of an orchestrator: each name is entered once and then
//! always reached through the same handle.

use crate::config::ServiceConfig;
use crate::namespace::{reconcile_decision, Reconcile, ServiceRegistry};
use vstd::prelude::*;
use vstd::string::StringExecFns;

verus! {

/// The namespaces that an orchestrator has entered, each with its services.
/// A namespace is reached through its handle: its position in entry order.
pub struct NamespaceTable {
    names: Vec<String>,
    registries: Vec<ServiceRegistry>,
}

impl View for NamespaceTable {
    type V = Seq<(Seq<char>, Map<Seq<char>, ServiceConfig>)>;

    /// Each namespace, by handle: its name and its services.
    closed spec fn view(&self) -> Seq<(Seq<char>, Map<Seq<char>, ServiceConfig>)> {
        Seq::new(self.names@.len(), |i: int| (self.names@[i]@, self.registries@[i]@))
    }
}

/// Whether no two namespaces share a name.
pub open spec fn unique_names(entered: Seq<(Seq<char>, Map<Seq<char>, ServiceConfig>)>) -> bool {
    forall|i: int, j: int|
        0 <= i < entered.len() && 0 <= j < entered.len() && (#[trigger] entered[i]).0 == (
        #[trigger] entered[j]).0 ==> i == j
}

impl NamespaceTable {
    /// Names are unique, and every namespace's registry is well formed.
    pub closed spec fn well_formed(&self) -> bool {
        &&& self.names@.len() == self.registries@.len()
        &&& forall|i: int, j: int|
            0 <= i < j < self.names@.len() ==> (#[trigger] self.names@[i])@
                != (#[trigger] self.names@[j])@
        &&& forall|i: int| 0 <= i < self.registries@.len() ==> (#[trigger] self.registries@[i]).well_formed()
    }

    /// An orchestrator that has entered no namespace.
    pub fn new() -> (r: NamespaceTable)
        ensures
            r.well_formed(),
            r@ == Seq::<(Seq<char>, Map<Seq<char>, ServiceConfig>)>::empty(),
    {
        let r = NamespaceTable { names: Vec::new(), registries: Vec::new() };
        assert(r@ =~= Seq::<(Seq<char>, Map<Seq<char>, ServiceConfig>)>::empty());
        r
    }

    /// Enters the namespace `name` and returns its handle. A name entered
    /// before keeps its handle and its services; a new one starts empty.
    pub fn namespace(&mut self, name: &str) -> (r: usize)
        requires
            old(self).well_formed(),
        ensures
            final(self).well_formed(),
            unique_names(final(self)@),
            r < final(self)@.len(),
            final(self)@[r as int].0 == name@,
            (exists|i: int| 0 <= i < old(self)@.len() && (#[trigger] old(self)@[i]).0 == name@)
                ==> final(self)@ == old(self)@,
            !(exists|i: int| 0 <= i < old(self)@.len() && (#[trigger] old(self)@[i]).0 == name@)
                ==> final(self)@ == old(self)@.push(
                (name@, Map::<Seq<char>, ServiceConfig>::empty()),
            ),
    {
        let key = String::from_str(name);
        let mut i: usize = 0;
        while i < self.names.len()
            invariant
                i <= self.names@.len(),
                key@ == name@,
                self.well_formed(),
                *self == *old(self),
                forall|k: int| 0 <= k < i ==> (#[trigger] self.names@[k])@ != name@,
            decreases self.names.len() - i,
        {
            if self.names[i] == key {
                proof {
                    assert(self@[i as int].0 == name@);
                }
                return i;
            }
            i = i + 1;
        }
        let ghost before = self@;
        assert forall|k: int| 0 <= k < before.len() implies (#[trigger] before[k]).0 != name@ by {
            assert(before[k].0 == self.names@[k]@);
        }
        self.names.push(key);
        self.registries.push(ServiceRegistry::new());
        assert(self@ =~= before.push((name@, Map::<Seq<char>, ServiceConfig>::empty())));
        self.names.len() - 1
    }

    /// Records `config` as the desired state of service `id` in namespace
    /// `ns`, and says what the backend has to do.
    pub fn ensure_service(&mut self, ns: usize, id: &str, config: ServiceConfig) -> (r: Reconcile)
        requires
            old(self).well_formed(),
            ns < old(self)@.len(),
            config.scale > 0,
        ensures
            final(self).well_formed(),
            final(self)@ == old(self)@.update(
                ns as int,
                (old(self)@[ns as int].0, old(self)@[ns as int].1.insert(id@, config)),
            ),
            r == reconcile_decision(old(self)@[ns as int].1, id@, config),
    {
        let ghost before = self@;
        let mut registry = self.registries.remove(ns);
        let r = registry.ensure_service(id, config);
        self.registries.insert(ns, registry);
        assert(self@ =~= before.update(ns as int, (before[ns as int].0, before[ns as int].1.insert(id@, config))));
        r
    }

    /// Forgets service `id` in namespace `ns`, if there is one; says whether
    /// there was.
    pub fn drop_service(&mut self, ns: usize, id: &str) -> (r: bool)
        requires
            old(self).well_formed(),
            ns < old(self)@.len(),
        ensures
            final(self).well_formed(),
            final(self)@ == old(self)@.update(
                ns as int,
                (old(self)@[ns as int].0, old(self)@[ns as int].1.remove(id@)),
            ),
            r == old(self)@[ns as int].1.contains_key(id@),
    {
        let ghost before = self@;
        let mut registry = self.registries.remove(ns);
        let r = registry.drop_service(id);
        self.registries.insert(ns, registry);
        assert(self@ =~= before.update(ns as int, (before[ns as int].0, before[ns as int].1.remove(id@))));
        r
    }

    /// The ids of all services in namespace `ns`, each once.
    pub fn list_services(&self, ns: usize) -> (r: Vec<String>)
        requires
            self.well_formed(),
            ns < self@.len(),
        ensures
            r@.map_values(|s: String| s@).no_duplicates(),
            r@.map_values(|s: String| s@).to_set() == self@[ns as int].1.dom(),
    {
        self.registries[ns].list_services()
    }
}

/// Entering a namespace a second time gives the handle of the first time and
/// changes nothing: the name is found among those entered, so nothing is
/// added, and no other handle carries the name.
pub proof fn lemma_namespace_idempotent(
    entered: Seq<(Seq<char>, Map<Seq<char>, ServiceConfig>)>,
    name: Seq<char>,
    handle: int,
)
    requires
        unique_names(entered),
        0 <= handle < entered.len(),
        entered[handle].0 == name,
    ensures
        exists|i: int| 0 <= i < entered.len() && (#[trigger] entered[i]).0 == name,
        forall|h: int| 0 <= h < entered.len() && (#[trigger] entered[h]).0 == name ==> h == handle,
{
    assert(entered[handle].0 == name);
}

} // verus!
