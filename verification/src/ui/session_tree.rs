//! The session tree's state: which groups are expanded and which item is selected.
use vstd::prelude::*;

use std::collections::HashSet;

use crate::ids::Uuid;
use crate::keyed::{StringMap, StringSet};
use crate::kubernetes::client::{KubeNamespace, KubePod};

verus! {

broadcast use vstd::std_specs::hash::group_hash_axioms;

/// An item of the tree.
#[derive(Clone, Copy, Debug, PartialEq, Eq, Structural)]
pub enum TreeItem {
    Group(Uuid),
    Session(Uuid),
}

/// A set of expanded items after `g` is toggled.
pub open spec fn toggled<A>(s: Set<A>, g: A) -> Set<A> {
    if s.contains(g) { s.remove(g) } else { s.insert(g) }
}

/// Toggling an item twice leaves the expanded items as they were.
pub proof fn lemma_toggle_twice<A>(s: Set<A>, g: A)
    ensures
        toggled(toggled(s, g), g) == s,
{
    if s.contains(g) {
        assert(s.remove(g).insert(g) =~= s);
    } else {
        assert(s.insert(g).remove(g) =~= s);
    }
}

/// Which groups are expanded and which item is selected.
pub struct SessionTreeState {
    expanded_groups: HashSet<Uuid>,
    selected_item: Option<TreeItem>,
}

impl SessionTreeState {
    /// The expanded groups.
    pub closed spec fn expanded(&self) -> Set<Uuid> {
        self.expanded_groups@
    }

    /// The selected item.
    pub closed spec fn selected(&self) -> Option<TreeItem> {
        self.selected_item
    }

    /// Nothing expanded, nothing selected.
    pub fn new() -> (s: Self)
        ensures
            s.expanded() == Set::<Uuid>::empty(),
            s.selected() is None,
    {
        SessionTreeState { expanded_groups: HashSet::new(), selected_item: None }
    }

    /// Whether a group is expanded.
    pub fn is_expanded(&self, group_id: Uuid) -> (b: bool)
        ensures
            b == self.expanded().contains(group_id),
    {
        self.expanded_groups.contains(&group_id)
    }

    /// Expands a collapsed group and collapses an expanded one.
    pub fn toggle_expanded(&mut self, group_id: Uuid)
        ensures
            final(self).expanded() == toggled(old(self).expanded(), group_id),
            final(self).selected() == old(self).selected(),
    {
        if self.expanded_groups.contains(&group_id) {
            self.expanded_groups.remove(&group_id);
        } else {
            self.expanded_groups.insert(group_id);
        }
    }

    /// Expands a group.
    pub fn expand(&mut self, group_id: Uuid)
        ensures
            final(self).expanded() == old(self).expanded().insert(group_id),
            final(self).selected() == old(self).selected(),
    {
        self.expanded_groups.insert(group_id);
    }

    /// Selects an item, or nothing.
    pub fn select(&mut self, item: Option<TreeItem>)
        ensures
            final(self).expanded() == old(self).expanded(),
            final(self).selected() == item,
    {
        self.selected_item = item;
    }
}

/// Namespaces or pods of the Kubernetes part of the tree, loaded in the background.
#[derive(Debug)]
pub enum K8sUpdate {
    Namespaces { context: String, namespaces: Vec<KubeNamespace> },
    NamespacesError { context: String, error: String },
    Pods { context: String, namespace: String, pods: Vec<KubePod> },
    PodsError { context: String, namespace: String, error: String },
}

/// The key of a namespace of a context: `context:namespace`.
pub open spec fn namespace_key_of(context: Seq<char>, namespace: Seq<char>) -> Seq<char> {
    context + ":"@ + namespace
}

/// The key of a namespace of a context.
pub fn namespace_key(context: &str, namespace: &str) -> (k: String)
    ensures
        k@ == namespace_key_of(context@, namespace@),
{
    let mut k = context.to_string();
    k.append(":");
    k.append(namespace);
    k
}

/// The Kubernetes part of the session tree: what is expanded, what was loaded, and what is
/// being loaded.
pub struct K8sTreeState {
    expanded: bool,
    expanded_contexts: StringSet,
    namespaces: StringMap<Vec<KubeNamespace>>,
    pods: StringMap<Vec<KubePod>>,
    expanded_namespaces: StringSet,
    loading_contexts: StringSet,
    loading_namespaces: StringSet,
}

impl K8sTreeState {
    /// Whether the Kubernetes group is expanded.
    pub closed spec fn spec_expanded(&self) -> bool {
        self.expanded
    }

    /// The expanded contexts.
    pub closed spec fn spec_expanded_contexts(&self) -> Set<Seq<char>> {
        self.expanded_contexts@
    }

    /// The loaded namespaces of each context.
    pub closed spec fn spec_namespaces(&self) -> Map<Seq<char>, Vec<KubeNamespace>> {
        self.namespaces@
    }

    /// The loaded pods of each namespace key.
    pub closed spec fn spec_pods(&self) -> Map<Seq<char>, Vec<KubePod>> {
        self.pods@
    }

    /// The expanded namespace keys.
    pub closed spec fn spec_expanded_namespaces(&self) -> Set<Seq<char>> {
        self.expanded_namespaces@
    }

    /// The contexts whose namespaces are being loaded.
    pub closed spec fn spec_loading_contexts(&self) -> Set<Seq<char>> {
        self.loading_contexts@
    }

    /// The namespace keys whose pods are being loaded.
    pub closed spec fn spec_loading_namespaces(&self) -> Set<Seq<char>> {
        self.loading_namespaces@
    }

    /// Collapsed, with nothing loaded.
    pub fn new() -> (t: Self)
        ensures
            !t.spec_expanded(),
            t.spec_expanded_contexts() == Set::<Seq<char>>::empty(),
            t.spec_namespaces() == Map::<Seq<char>, Vec<KubeNamespace>>::empty(),
            t.spec_pods() == Map::<Seq<char>, Vec<KubePod>>::empty(),
            t.spec_expanded_namespaces() == Set::<Seq<char>>::empty(),
            t.spec_loading_contexts() == Set::<Seq<char>>::empty(),
            t.spec_loading_namespaces() == Set::<Seq<char>>::empty(),
    {
        K8sTreeState {
            expanded: false,
            expanded_contexts: StringSet::new(),
            namespaces: StringMap::new(),
            pods: StringMap::new(),
            expanded_namespaces: StringSet::new(),
            loading_contexts: StringSet::new(),
            loading_namespaces: StringSet::new(),
        }
    }

    /// Whether the Kubernetes group is expanded.
    pub fn is_expanded(&self) -> (b: bool)
        ensures
            b == self.spec_expanded(),
    {
        self.expanded
    }

    /// Expands or collapses the Kubernetes group.
    pub fn toggle_expanded(&mut self)
        ensures
            final(self).spec_expanded() == !old(self).spec_expanded(),
            final(self).spec_expanded_contexts() == old(self).spec_expanded_contexts(),
            final(self).spec_namespaces() == old(self).spec_namespaces(),
            final(self).spec_pods() == old(self).spec_pods(),
            final(self).spec_expanded_namespaces() == old(self).spec_expanded_namespaces(),
            final(self).spec_loading_contexts() == old(self).spec_loading_contexts(),
            final(self).spec_loading_namespaces() == old(self).spec_loading_namespaces(),
    {
        self.expanded = !self.expanded;
    }

    /// Whether a context is expanded.
    pub fn is_context_expanded(&self, context: &str) -> (b: bool)
        ensures
            b == self.spec_expanded_contexts().contains(context@),
    {
        self.expanded_contexts.contains(context)
    }

    /// Whether a namespace of a context is expanded.
    pub fn is_namespace_expanded(&self, context: &str, namespace: &str) -> (b: bool)
        ensures
            b == self.spec_expanded_namespaces().contains(namespace_key_of(context@, namespace@)),
    {
        let key = namespace_key(context, namespace);
        self.expanded_namespaces.contains(key.as_str())
    }

    /// The loaded namespaces of a context.
    pub fn namespaces(&self, context: &str) -> (r: Option<&Vec<KubeNamespace>>)
        ensures
            match r {
                Some(v) => self.spec_namespaces().contains_key(context@) && *v == self.spec_namespaces()[context@],
                None => !self.spec_namespaces().contains_key(context@),
            },
    {
        self.namespaces.get(context)
    }

    /// The loaded pods of a namespace of a context.
    pub fn pods(&self, context: &str, namespace: &str) -> (r: Option<&Vec<KubePod>>)
        ensures
            match r {
                Some(v) => self.spec_pods().contains_key(namespace_key_of(context@, namespace@)) && *v
                    == self.spec_pods()[namespace_key_of(context@, namespace@)],
                None => !self.spec_pods().contains_key(namespace_key_of(context@, namespace@)),
            },
    {
        let key = namespace_key(context, namespace);
        self.pods.get(key.as_str())
    }

    /// Expands a collapsed context and collapses an expanded one. Expanding a context whose
    /// namespaces are neither loaded nor being loaded marks them as loading and returns
    /// `true`: the caller starts loading them.
    pub fn toggle_context(&mut self, context: String) -> (load: bool)
        ensures
            final(self).spec_expanded_contexts() == toggled(old(self).spec_expanded_contexts(), context@),
            load == (!old(self).spec_expanded_contexts().contains(context@)
                && !old(self).spec_namespaces().contains_key(context@)
                && !old(self).spec_loading_contexts().contains(context@)),
            final(self).spec_loading_contexts() == (if load {
                old(self).spec_loading_contexts().insert(context@)
            } else {
                old(self).spec_loading_contexts()
            }),
            final(self).spec_expanded() == old(self).spec_expanded(),
            final(self).spec_namespaces() == old(self).spec_namespaces(),
            final(self).spec_pods() == old(self).spec_pods(),
            final(self).spec_expanded_namespaces() == old(self).spec_expanded_namespaces(),
            final(self).spec_loading_namespaces() == old(self).spec_loading_namespaces(),
    {
        if self.expanded_contexts.contains(context.as_str()) {
            self.expanded_contexts.remove(context.as_str());
            false
        } else {
            let load = !self.namespaces.contains_key(context.as_str()) && !self.loading_contexts.contains(
                context.as_str(),
            );
            if load {
                self.loading_contexts.insert(context.clone());
            }
            self.expanded_contexts.insert(context);
            load
        }
    }

    /// Expands a collapsed namespace of a context and collapses an expanded one. Expanding a
    /// namespace whose pods are neither loaded nor being loaded marks them as loading and
    /// returns `true`: the caller starts loading them.
    pub fn toggle_namespace(&mut self, context: &str, namespace: &str) -> (load: bool)
        ensures
            ({
                let key = namespace_key_of(context@, namespace@);
                &&& final(self).spec_expanded_namespaces() == toggled(old(self).spec_expanded_namespaces(), key)
                &&& load == (!old(self).spec_expanded_namespaces().contains(key)
                    && !old(self).spec_pods().contains_key(key)
                    && !old(self).spec_loading_namespaces().contains(key))
                &&& final(self).spec_loading_namespaces() == (if load {
                    old(self).spec_loading_namespaces().insert(key)
                } else {
                    old(self).spec_loading_namespaces()
                })
            }),
            final(self).spec_expanded() == old(self).spec_expanded(),
            final(self).spec_expanded_contexts() == old(self).spec_expanded_contexts(),
            final(self).spec_namespaces() == old(self).spec_namespaces(),
            final(self).spec_pods() == old(self).spec_pods(),
            final(self).spec_loading_contexts() == old(self).spec_loading_contexts(),
    {
        let key = namespace_key(context, namespace);
        if self.expanded_namespaces.contains(key.as_str()) {
            self.expanded_namespaces.remove(key.as_str());
            false
        } else {
            let load = !self.pods.contains_key(key.as_str()) && !self.loading_namespaces.contains(key.as_str());
            if load {
                self.loading_namespaces.insert(key.clone());
            }
            self.expanded_namespaces.insert(key);
            load
        }
    }

    /// Takes what a background load gave: the namespaces or pods are stored (none, after an
    /// error) and no longer loading.
    pub fn handle_update(&mut self, update: K8sUpdate)
        ensures
            final(self).spec_expanded() == old(self).spec_expanded(),
            final(self).spec_expanded_contexts() == old(self).spec_expanded_contexts(),
            final(self).spec_expanded_namespaces() == old(self).spec_expanded_namespaces(),
            match update {
                K8sUpdate::Namespaces { context, namespaces } => {
                    &&& final(self).spec_namespaces() == old(self).spec_namespaces().insert(context@, namespaces)
                    &&& final(self).spec_loading_contexts() == old(self).spec_loading_contexts().remove(context@)
                    &&& final(self).spec_pods() == old(self).spec_pods()
                    &&& final(self).spec_loading_namespaces() == old(self).spec_loading_namespaces()
                },
                K8sUpdate::NamespacesError { context, .. } => {
                    &&& final(self).spec_namespaces().contains_key(context@)
                    &&& final(self).spec_namespaces()[context@]@.len() == 0
                    &&& final(self).spec_namespaces().remove(context@) == old(self).spec_namespaces().remove(context@)
                    &&& final(self).spec_loading_contexts() == old(self).spec_loading_contexts().remove(context@)
                    &&& final(self).spec_pods() == old(self).spec_pods()
                    &&& final(self).spec_loading_namespaces() == old(self).spec_loading_namespaces()
                },
                K8sUpdate::Pods { context, namespace, pods } => {
                    &&& final(self).spec_pods() == old(self).spec_pods().insert(
                        namespace_key_of(context@, namespace@),
                        pods,
                    )
                    &&& final(self).spec_loading_namespaces() == old(self).spec_loading_namespaces().remove(
                        namespace_key_of(context@, namespace@),
                    )
                    &&& final(self).spec_namespaces() == old(self).spec_namespaces()
                    &&& final(self).spec_loading_contexts() == old(self).spec_loading_contexts()
                },
                K8sUpdate::PodsError { context, namespace, .. } => {
                    let key = namespace_key_of(context@, namespace@);
                    &&& final(self).spec_pods().contains_key(key)
                    &&& final(self).spec_pods()[key]@.len() == 0
                    &&& final(self).spec_pods().remove(key) == old(self).spec_pods().remove(key)
                    &&& final(self).spec_loading_namespaces() == old(self).spec_loading_namespaces().remove(key)
                    &&& final(self).spec_namespaces() == old(self).spec_namespaces()
                    &&& final(self).spec_loading_contexts() == old(self).spec_loading_contexts()
                },
            },
    {
        match update {
            K8sUpdate::Namespaces { context, namespaces } => {
                self.loading_contexts.remove(context.as_str());
                self.namespaces.insert(context, namespaces);
            },
            K8sUpdate::NamespacesError { context, .. } => {
                self.loading_contexts.remove(context.as_str());
                self.namespaces.insert(context, Vec::new());
                proof {
                    assert(self.namespaces@.remove(context@) =~= old(self).namespaces@.remove(context@));
                }
            },
            K8sUpdate::Pods { context, namespace, pods } => {
                let key = namespace_key(context.as_str(), namespace.as_str());
                self.loading_namespaces.remove(key.as_str());
                self.pods.insert(key, pods);
            },
            K8sUpdate::PodsError { context, namespace, .. } => {
                let key = namespace_key(context.as_str(), namespace.as_str());
                let ghost kv = key@;
                self.loading_namespaces.remove(key.as_str());
                self.pods.insert(key, Vec::new());
                proof {
                    assert(self.pods@.remove(kv) =~= old(self).pods@.remove(kv));
                }
            },
        }
    }
}

} // verus!
