//! The services of one namespace, and the decisions that reconcile them with
//! the desired states that callers ask for.

use crate::config::{lemma_same_desired_state_reflexive, same_desired_state, ServiceConfig};
use vstd::prelude::*;
use vstd::string::StringExecFns;

verus! {

/// What a backend has to do to bring a service to a desired state.
#[derive(Debug, Clone, Copy, PartialEq, Eq, Structural)]
pub enum Reconcile {
    /// No service has the id: start it.
    Create,
    /// The service runs with another desired state: converge it.
    Update,
    /// The service already runs as asked: leave its processes alone.
    Unchanged,
}

/// The step that reconciles the services `services` with `config` for `id`.
pub open spec fn reconcile_decision(
    services: Map<Seq<char>, ServiceConfig>,
    id: Seq<char>,
    config: ServiceConfig,
) -> Reconcile {
    if !services.contains_key(id) {
        Reconcile::Create
    } else if same_desired_state(services[id], config) {
        Reconcile::Unchanged
    } else {
        Reconcile::Update
    }
}

/// The services known in one namespace, each under its unique id.
pub struct ServiceRegistry {
    entries: Vec<(String, ServiceConfig)>,
    services: Ghost<Map<Seq<char>, ServiceConfig>>,
}

impl View for ServiceRegistry {
    type V = Map<Seq<char>, ServiceConfig>;

    /// Each known service's id, mapped to its current configuration.
    closed spec fn view(&self) -> Map<Seq<char>, ServiceConfig> {
        self.services@
    }
}

impl ServiceRegistry {
    /// The entries hold each id once, and hold exactly the services of the
    /// view.
    pub closed spec fn well_formed(&self) -> bool {
        &&& forall|i: int, j: int|
            0 <= i < j < self.entries@.len() ==> (#[trigger] self.entries@[i]).0@
                != (#[trigger] self.entries@[j]).0@
        &&& forall|i: int|
            0 <= i < self.entries@.len() ==> self.services@.contains_key(
                (#[trigger] self.entries@[i]).0@,
            ) && self.services@[self.entries@[i].0@] == self.entries@[i].1
        &&& forall|k: Seq<char>|
            #[trigger] self.services@.contains_key(k) ==> exists|i: int|
                0 <= i < self.entries@.len() && (#[trigger] self.entries@[i]).0@ == k
    }

    /// A namespace with no services.
    pub fn new() -> (r: ServiceRegistry)
        ensures
            r.well_formed(),
            r@ == Map::<Seq<char>, ServiceConfig>::empty(),
    {
        ServiceRegistry { entries: Vec::new(), services: Ghost(Map::empty()) }
    }

    fn position(&self, id: &str) -> (r: Option<usize>)
        ensures
            r matches Some(i) ==> i < self.entries@.len() && self.entries@[i as int].0@ == id@,
            r is None ==> forall|i: int|
                0 <= i < self.entries@.len() ==> (#[trigger] self.entries@[i]).0@ != id@,
    {
        let key = String::from_str(id);
        let mut i: usize = 0;
        while i < self.entries.len()
            invariant
                i <= self.entries@.len(),
                key@ == id@,
                forall|k: int| 0 <= k < i ==> (#[trigger] self.entries@[k]).0@ != id@,
            decreases self.entries.len() - i,
        {
            if self.entries[i].0 == key {
                return Some(i);
            }
            i = i + 1;
        }
        None
    }

    /// Records `config` as the desired state of the service `id`, creating the
    /// service if there is none, and says what the backend has to do.
    pub fn ensure_service(&mut self, id: &str, config: ServiceConfig) -> (r: Reconcile)
        requires
            old(self).well_formed(),
            config.scale > 0,
        ensures
            final(self).well_formed(),
            final(self)@ == old(self)@.insert(id@, config),
            r == reconcile_decision(old(self)@, id@, config),
    {
        match self.position(id) {
            Some(i) => {
                let r = if self.entries[i].1.matches(&config) {
                    Reconcile::Unchanged
                } else {
                    Reconcile::Update
                };
                let ghost before = self.entries@;
                let key = String::from_str(id);
                self.entries.set(i, (key, config));
                proof {
                    self.services@ = self.services@.insert(id@, config);
                    assert forall|k: int| 0 <= k < self.entries@.len() implies (#[trigger] self.entries@[k]).0@ == before[k].0@ by {}
                    assert forall|k: Seq<char>| #[trigger] self.services@.contains_key(k) implies exists|j: int|
                        0 <= j < self.entries@.len() && (#[trigger] self.entries@[j]).0@ == k by {
                        if k == id@ {
                            assert(self.entries@[i as int].0@ == k);
                        } else {
                            let j = choose|j: int| 0 <= j < before.len() && (#[trigger] before[j]).0@ == k;
                            assert(self.entries@[j].0@ == k);
                        }
                    }
                }
                r
            },
            None => {
                let ghost before = self.entries@;
                let key = String::from_str(id);
                self.entries.push((key, config));
                proof {
                    self.services@ = self.services@.insert(id@, config);
                    assert(self.entries@[self.entries@.len() - 1].0@ == id@);
                    assert forall|k: int| 0 <= k < before.len() implies (#[trigger] self.entries@[k]) == before[k] by {}
                    assert forall|k: Seq<char>| #[trigger] self.services@.contains_key(k) implies exists|j: int|
                        0 <= j < self.entries@.len() && (#[trigger] self.entries@[j]).0@ == k by {
                        if k == id@ {
                            assert(self.entries@[before.len() as int].0@ == k);
                        } else {
                            let j = choose|j: int| 0 <= j < before.len() && (#[trigger] before[j]).0@ == k;
                            assert(self.entries@[j].0@ == k);
                        }
                    }
                }
                Reconcile::Create
            },
        }
    }

    /// Forgets the service `id`, if there is one; says whether there was.
    pub fn drop_service(&mut self, id: &str) -> (r: bool)
        requires
            old(self).well_formed(),
        ensures
            final(self).well_formed(),
            final(self)@ == old(self)@.remove(id@),
            r == old(self)@.contains_key(id@),
    {
        match self.position(id) {
            Some(i) => {
                let ghost before = self.entries@;
                self.entries.remove(i);
                proof {
                    self.services@ = self.services@.remove(id@);
                    assert forall|k: int| 0 <= k < self.entries@.len() implies (#[trigger] self.entries@[k]) == (if k < i {
                        before[k]
                    } else {
                        before[k + 1]
                    }) by {}
                    assert forall|k: Seq<char>| #[trigger] self.services@.contains_key(k) implies exists|j: int|
                        0 <= j < self.entries@.len() && (#[trigger] self.entries@[j]).0@ == k by {
                        let j = choose|j: int| 0 <= j < before.len() && (#[trigger] before[j]).0@ == k;
                        if j < i {
                            assert(self.entries@[j].0@ == k);
                        } else {
                            assert(self.entries@[j - 1].0@ == k);
                        }
                    }
                }
                true
            },
            None => {
                assert(self.services@.remove(id@) =~= self.services@);
                false
            },
        }
    }

    /// The ids of all known services, each once.
    pub fn list_services(&self) -> (r: Vec<String>)
        requires
            self.well_formed(),
        ensures
            r@.map_values(|s: String| s@).no_duplicates(),
            r@.map_values(|s: String| s@).to_set() == self@.dom(),
    {
        let mut out: Vec<String> = Vec::new();
        let mut i: usize = 0;
        while i < self.entries.len()
            invariant
                i <= self.entries@.len(),
                self.well_formed(),
                out@.len() == i,
                forall|k: int| 0 <= k < i ==> (#[trigger] out@[k])@ == self.entries@[k].0@,
            decreases self.entries.len() - i,
        {
            out.push(self.entries[i].0.clone());
            i = i + 1;
        }
        let ghost ids = out@.map_values(|s: String| s@);
        assert forall|a: int, b: int| 0 <= a < b < ids.len() implies ids[a] != ids[b] by {
            assert(ids[a] == self.entries@[a].0@);
            assert(ids[b] == self.entries@[b].0@);
        }
        assert forall|k: Seq<char>| ids.to_set().contains(k) <==> self@.dom().contains(k) by {
            if ids.to_set().contains(k) {
                let a = choose|a: int| 0 <= a < ids.len() && ids[a] == k;
                assert(self.entries@[a].0@ == k);
            }
            if self@.dom().contains(k) {
                let a = choose|a: int| 0 <= a < self.entries@.len() && (#[trigger] self.entries@[a]).0@ == k;
                assert(ids[a] == k);
            }
        }
        assert(ids.to_set() =~= self@.dom());
        out
    }
}

/// Ensuring a service twice with the same configuration leaves the namespace
/// as the first call left it, with the service listed once, and the second
/// call restarts nothing.
pub proof fn lemma_ensure_idempotent(
    services: Map<Seq<char>, ServiceConfig>,
    id: Seq<char>,
    config: ServiceConfig,
)
    ensures
        services.insert(id, config).insert(id, config) == services.insert(id, config),
        services.insert(id, config).contains_key(id),
        reconcile_decision(services.insert(id, config), id, config) == Reconcile::Unchanged,
{
    lemma_same_desired_state_reflexive(config);
    assert(services.insert(id, config).insert(id, config) =~= services.insert(id, config));
}

/// Dropping a service always succeeds: where the id is unknown the namespace
/// is left as it was, and dropping twice is the same as dropping once.
pub proof fn lemma_drop_idempotent(services: Map<Seq<char>, ServiceConfig>, id: Seq<char>)
    ensures
        !services.contains_key(id) ==> services.remove(id) == services,
        services.remove(id).remove(id) == services.remove(id),
        !services.remove(id).contains_key(id),
{
    assert(services.remove(id).remove(id) =~= services.remove(id));
    if !services.contains_key(id) {
        assert(services.remove(id) =~= services);
    }
}

} // verus!
