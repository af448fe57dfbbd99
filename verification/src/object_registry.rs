//! Registry of replicated object types.
//!
//! Each object type is registered under its name with the replication layers
//! it uses. Registering a name again replaces its layers. The registry also
//! counts the registered object types, and the layers that registrations
//! brought; an unregistration takes the type off the type count and leaves
//! the layer count as it is.

use crate::path_router::lemma_index_of_unique;
use vstd::prelude::*;

verus! {

/// Registration counters of an object type registry.
#[derive(Debug, Clone, Copy, PartialEq, Eq, Structural)]
pub struct RegistryCounters {
    /// Number of registered object types.
    pub registered_objects: usize,
    /// Layers brought by all registrations made since the last clear.
    pub total_layers: usize,
}

/// The registered object types, each with its replication layers (of type
/// `L`), and the registration counters.
pub struct ObjectTypeRegistry<L> {
    names: Vec<String>,
    layers: Vec<Vec<L>>,
    stats: RegistryCounters,
}

impl<L> ObjectTypeRegistry<L> {
    /// The registered names, in order of first registration.
    pub closed spec fn names(&self) -> Seq<Seq<char>> {
        self.names@.map_values(|s: String| s@)
    }

    /// The layers of each registered name, in the order of [`Self::names`].
    pub closed spec fn layer_lists(&self) -> Seq<Seq<L>> {
        self.layers@.map_values(|v: Vec<L>| v@)
    }

    /// The registered object types and their layers.
    pub open spec fn types(&self) -> Map<Seq<char>, Seq<L>> {
        Map::new(
            |k: Seq<char>| self.names().contains(k),
            |k: Seq<char>| self.layer_lists()[self.names().index_of(k)],
        )
    }

    /// The registration counters.
    pub closed spec fn stats_view(&self) -> RegistryCounters {
        self.stats
    }

    /// Every name is listed once, with its layers, and the type count is
    /// the number of registered types.
    pub closed spec fn wf(&self) -> bool {
        &&& self.names@.len() == self.layers@.len()
        &&& self.names().no_duplicates()
        &&& self.names@.len() == self.stats.registered_objects
    }

    /// An empty registry with both counters at zero.
    pub fn new() -> (r: Self)
        ensures
            r.wf(),
            r.types() == Map::<Seq<char>, Seq<L>>::empty(),
            r.stats_view() == (RegistryCounters { registered_objects: 0, total_layers: 0 }),
    {
        let r = ObjectTypeRegistry {
            names: Vec::new(),
            layers: Vec::new(),
            stats: RegistryCounters { registered_objects: 0, total_layers: 0 },
        };
        assert(r.names() =~= Seq::<Seq<char>>::empty());
        assert(r.types() =~= Map::<Seq<char>, Seq<L>>::empty());
        r
    }

    /// Index of a registered name, if it is registered.
    fn position_of(&self, name: &str) -> (r: Option<usize>)
        requires
            self.wf(),
        ensures
            r is None <==> !self.names().contains(name@),
            r matches Some(i) ==> i < self.names().len() && i == self.names().index_of(name@),
    {
        let key = name.to_owned();
        let mut i: usize = 0;
        while i < self.names.len()
            invariant
                i <= self.names@.len(),
                key@ == name@,
                self.wf(),
                forall|j: int| 0 <= j < i ==> self.names()[j] != name@,
            decreases self.names@.len() - i,
        {
            if self.names[i] == key {
                proof {
                    assert(self.names()[i as int] == name@);
                    lemma_index_of_unique(self.names(), i as int);
                }
                return Some(i);
            }
            i = i + 1;
        }
        proof {
            if self.names().contains(name@) {
                let j = choose|j: int| 0 <= j < self.names().len() && self.names()[j] == name@;
                assert(false);
            }
        }
        None
    }

    /// Registers an object type with its layers, replacing the layers of a
    /// type registered before under the same name. A new name adds one to
    /// the type count; every registration adds its layers to the layer count.
    pub fn register_object_with_layers(&mut self, object_name: String, layers: Vec<L>)
        requires
            old(self).wf(),
            !old(self).types().contains_key(object_name@) ==> old(self).stats_view().registered_objects < usize::MAX,
            old(self).stats_view().total_layers + layers@.len() <= usize::MAX,
        ensures
            final(self).wf(),
            final(self).types() == old(self).types().insert(object_name@, layers@),
            final(self).stats_view() == (RegistryCounters {
                registered_objects: if old(self).types().contains_key(object_name@) {
                    old(self).stats_view().registered_objects
                } else {
                    (old(self).stats_view().registered_objects + 1) as usize
                },
                total_layers: (old(self).stats_view().total_layers + layers@.len()) as usize,
            }),
    {
        let ghost name = object_name@;
        let ghost new_layers = layers@;
        let ghost old_names = self.names();
        let ghost old_lists = self.layer_lists();
        self.stats.total_layers = self.stats.total_layers + layers.len();
        match self.position_of(object_name.as_str()) {
            Some(i) => {
                self.layers.set(i, layers);
                proof {
                    assert(self.names() =~= old_names);
                    assert(self.layer_lists() =~= old_lists.update(i as int, new_layers));
                    assert(self.types() =~= old(self).types().insert(name, new_layers)) by {
                        assert forall|k: Seq<char>| #[trigger] self.types().contains_key(k) implies
                            self.types()[k] == old(self).types().insert(name, new_layers)[k] by {
                            if k != name {
                                let j = old_names.index_of(k);
                                assert(0 <= j < old_names.len() && old_names[j] == k);
                                assert(j != i);
                            }
                        }
                    }
                }
            },
            None => {
                self.stats.registered_objects = self.stats.registered_objects + 1;
                self.names.push(object_name);
                self.layers.push(layers);
                proof {
                    let ns = self.names();
                    assert(ns =~= old_names.push(name));
                    assert(self.layer_lists() =~= old_lists.push(new_layers));
                    assert(ns.no_duplicates()) by {
                        assert forall|a: int, b: int| 0 <= a < b < ns.len() implies ns[a] != ns[b] by {
                            if b == ns.len() - 1 {
                                assert(old_names.contains(old_names[a]));
                            }
                        }
                    }
                    lemma_index_of_unique(ns, old_names.len() as int);
                    assert forall|k: Seq<char>| old_names.contains(k) implies ns.index_of(k) == old_names.index_of(k) by {
                        let j = old_names.index_of(k);
                        assert(0 <= j < old_names.len() && old_names[j] == k);
                        lemma_index_of_unique(ns, j);
                    }
                    assert forall|k: Seq<char>| ns.contains(k) <==> (old_names.contains(k) || k == name) by {
                        if ns.contains(k) && k != name {
                            let j = choose|j: int| 0 <= j < ns.len() && ns[j] == k;
                            assert(old_names[j] == k);
                        }
                        if old_names.contains(k) {
                            let j = choose|j: int| 0 <= j < old_names.len() && old_names[j] == k;
                            assert(ns[j] == k);
                        }
                    }
                    assert(self.types() =~= old(self).types().insert(name, new_layers));
                }
            },
        }
    }

    /// The layers of a registered object type.
    pub fn get_layers(&self, object_name: &str) -> (r: Option<&Vec<L>>)
        requires
            self.wf(),
        ensures
            r is None <==> !self.types().contains_key(object_name@),
            r matches Some(v) ==> self.types()[object_name@] == v@,
    {
        match self.position_of(object_name) {
            Some(i) => Some(&self.layers[i]),
            None => None,
        }
    }

    /// Whether an object type is registered under the name.
    pub fn is_registered(&self, object_name: &str) -> (b: bool)
        requires
            self.wf(),
        ensures
            b == self.types().contains_key(object_name@),
    {
        self.position_of(object_name).is_some()
    }

    /// Number of registered object types.
    pub fn count(&self) -> (n: usize)
        requires
            self.wf(),
        ensures
            n == self.types().len(),
    {
        proof {
            self.lemma_types_len();
        }
        self.names.len()
    }

    proof fn lemma_types_len(&self)
        requires
            self.wf(),
        ensures
            self.types().dom() == self.names().to_set(),
            self.types().len() == self.names().len(),
    {
        assert(self.types().dom() =~= self.names().to_set());
        self.names().unique_seq_to_set();
    }

    /// The names of all registered object types, each once.
    pub fn list_objects(&self) -> (v: Vec<String>)
        requires
            self.wf(),
        ensures
            v@.map_values(|s: String| s@).to_set() == self.types().dom(),
            v@.map_values(|s: String| s@).no_duplicates(),
    {
        let mut v: Vec<String> = Vec::new();
        let mut i: usize = 0;
        while i < self.names.len()
            invariant
                i <= self.names@.len(),
                v@.map_values(|s: String| s@) == self.names().take(i as int),
            decreases self.names@.len() - i,
        {
            let name = self.names[i].clone();
            v.push(name);
            proof {
                assert(self.names().take(i + 1) =~= self.names().take(i as int).push(self.names()[i as int]));
                assert(v@.map_values(|s: String| s@) =~= self.names().take(i + 1));
            }
            i = i + 1;
        }
        proof {
            assert(self.names().take(self.names().len() as int) =~= self.names());
            self.lemma_types_len();
        }
        v
    }

    /// Removes an object type; returns whether it was registered. A removal
    /// takes the type off the type count; the layer count stays.
    pub fn unregister_object(&mut self, object_name: &str) -> (removed: bool)
        requires
            old(self).wf(),
        ensures
            final(self).wf(),
            removed == old(self).types().contains_key(object_name@),
            final(self).types() == old(self).types().remove(object_name@),
            final(self).stats_view() == (RegistryCounters {
                registered_objects: if removed {
                    (old(self).stats_view().registered_objects - 1) as usize
                } else {
                    old(self).stats_view().registered_objects
                },
                ..old(self).stats_view()
            }),
    {
        let ghost old_names = self.names();
        let ghost old_lists = self.layer_lists();
        match self.position_of(object_name) {
            None => {
                proof {
                    assert(old(self).types().remove(object_name@) =~= old(self).types());
                }
                false
            },
            Some(i) => {
                let _name = self.names.remove(i);
                let _layers = self.layers.remove(i);
                self.stats.registered_objects = self.stats.registered_objects - 1;
                proof {
                    let ns = self.names();
                    assert(ns =~= old_names.remove(i as int));
                    assert(self.layer_lists() =~= old_lists.remove(i as int));
                    assert(ns.no_duplicates()) by {
                        assert forall|a: int, b: int| 0 <= a < b < ns.len() implies ns[a] != ns[b] by {
                            let oa = if a < i { a } else { a + 1 };
                            let ob = if b < i { b } else { b + 1 };
                            assert(ns[a] == old_names[oa] && ns[b] == old_names[ob]);
                        }
                    }
                    assert forall|k: Seq<char>| #[trigger] ns.contains(k) <==> (old_names.contains(k) && k != object_name@) by {
                        if ns.contains(k) {
                            let j = choose|j: int| 0 <= j < ns.len() && ns[j] == k;
                            let oj = if j < i { j } else { j + 1 };
                            assert(old_names[oj] == k);
                            assert(oj != i);
                        }
                        if old_names.contains(k) && k != object_name@ {
                            let oj = old_names.index_of(k);
                            assert(0 <= oj < old_names.len() && old_names[oj] == k);
                            assert(oj != i);
                            let j = if oj < i { oj } else { oj - 1 };
                            assert(ns[j] == k);
                        }
                    }
                    assert forall|k: Seq<char>| ns.contains(k) implies
                        #[trigger] self.layer_lists()[ns.index_of(k)] == old_lists[old_names.index_of(k)] by {
                        let oj = old_names.index_of(k);
                        assert(0 <= oj < old_names.len() && old_names[oj] == k);
                        assert(oj != i);
                        let j = if oj < i { oj } else { oj - 1 };
                        assert(ns[j] == k);
                        lemma_index_of_unique(ns, j);
                    }
                    assert(self.types() =~= old(self).types().remove(object_name@));
                }
                true
            },
        }
    }

    /// Removes every object type and sets both counters to zero.
    pub fn clear(&mut self)
        requires
            old(self).wf(),
        ensures
            final(self).wf(),
            final(self).types() == Map::<Seq<char>, Seq<L>>::empty(),
            final(self).stats_view() == (RegistryCounters { registered_objects: 0, total_layers: 0 }),
    {
        self.names = Vec::new();
        self.layers = Vec::new();
        self.stats = RegistryCounters { registered_objects: 0, total_layers: 0 };
        proof {
            assert(self.names() =~= Seq::<Seq<char>>::empty());
            assert(self.types() =~= Map::<Seq<char>, Seq<L>>::empty());
        }
    }

    /// The registration counters.
    pub fn get_stats(&self) -> (s: RegistryCounters)
        ensures
            s == self.stats_view(),
    {
        self.stats
    }
}

/// The type count of a registry is the number of registered object types,
/// whatever sequence of registrations, unregistrations and clears made it.
pub proof fn law_type_count_is_registered_types<L>(r: ObjectTypeRegistry<L>)
    requires
        r.wf(),
    ensures
        r.stats_view().registered_objects == r.types().len(),
{
    r.lemma_types_len();
}

/// Registering an object type under a name not yet registered and then
/// unregistering that name leaves the registered types as they were. The
/// unregistration finds the type, so the type count returns to where it
/// was, while the layer count keeps the layers of the registration.
pub proof fn law_register_then_unregister_restores<L>(r: ObjectTypeRegistry<L>, name: Seq<char>, layers: Seq<L>)
    requires
        r.wf(),
        !r.types().contains_key(name),
        r.stats_view().registered_objects < usize::MAX,
        r.stats_view().total_layers + layers.len() <= usize::MAX,
    ensures
        r.types().insert(name, layers).contains_key(name),
        r.types().insert(name, layers).remove(name) == r.types(),
        ({
            let registered = RegistryCounters {
                registered_objects: (r.stats_view().registered_objects + 1) as usize,
                total_layers: (r.stats_view().total_layers + layers.len()) as usize,
            };
            RegistryCounters { registered_objects: (registered.registered_objects - 1) as usize, ..registered }
                == RegistryCounters {
                registered_objects: r.stats_view().registered_objects,
                total_layers: (r.stats_view().total_layers + layers.len()) as usize,
            }
        }),
{
    assert(r.types().insert(name, layers).remove(name) =~= r.types());
}

} // verus!
