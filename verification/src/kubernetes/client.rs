//! Namespaces and pods as the session tree lists them, summarised from what the
//! Kubernetes API returns.
use vstd::prelude::*;

use crate::text::{decimal, owned, u64_decimal};

verus! {

/// A namespace.
#[derive(Debug, Clone)]
pub struct KubeNamespace {
    pub name: String,
    pub status: String,
}

/// A pod.
#[derive(Debug, Clone)]
pub struct KubePod {
    pub name: String,
    pub namespace: String,
    /// The pod's phase.
    pub status: String,
    /// Ready containers over all containers, as `ready/total`.
    pub ready: String,
    /// The names of its containers.
    pub containers: Vec<String>,
}

/// The status of one container of a pod.
#[derive(Debug, Clone)]
pub struct ContainerStatusInfo {
    pub name: String,
    pub ready: bool,
}

/// The status of a pod: its phase and its containers' statuses, as far as reported.
#[derive(Debug, Clone)]
pub struct PodStatusInfo {
    pub phase: Option<String>,
    pub container_statuses: Option<Vec<ContainerStatusInfo>>,
}

/// A text, empty when absent.
pub open spec fn text_or_empty(o: Option<String>) -> Seq<char> {
    match o {
        Some(s) => s@,
        None => Seq::empty(),
    }
}

/// A phase, `Unknown` when absent.
pub open spec fn phase_text(o: Option<String>) -> Seq<char> {
    match o {
        Some(s) => s@,
        None => "Unknown"@,
    }
}

/// The number of ready containers.
pub open spec fn ready_count(cs: Seq<ContainerStatusInfo>) -> nat
    decreases cs.len(),
{
    if cs.len() == 0 {
        0
    } else {
        ready_count(cs.drop_last()) + if cs.last().ready { 1nat } else { 0nat }
    }
}

/// The statuses of a pod's containers, none when not reported.
pub open spec fn statuses_of(s: PodStatusInfo) -> Seq<ContainerStatusInfo> {
    match s.container_statuses {
        Some(v) => v@,
        None => Seq::empty(),
    }
}

/// The texts of a list of strings.
pub open spec fn string_texts(v: Seq<String>) -> Seq<Seq<char>> {
    v.map_values(|s: String| s@)
}

fn take_text(o: Option<String>, d: &str) -> (r: String)
    ensures
        r@ == match o {
            Some(s) => s@,
            None => d@,
        },
{
    match o {
        Some(s) => s,
        None => owned(d),
    }
}

impl KubeNamespace {
    /// A namespace from its name and phase: an absent name is empty, an absent phase
    /// `Unknown`.
    pub fn from_parts(name: Option<String>, phase: Option<String>) -> (n: Self)
        ensures
            n.name@ == text_or_empty(name),
            n.status@ == phase_text(phase),
    {
        proof {
            reveal_strlit("");
            assert(""@ =~= Seq::<char>::empty());
        }
        KubeNamespace { name: take_text(name, ""), status: take_text(phase, "Unknown") }
    }
}

impl KubePod {
    /// A pod from its name, namespace and status: absent names are empty; without a
    /// status the phase is `Unknown`, `0/0` containers are ready and none are listed;
    /// with one, an absent phase is `Unknown` and absent container statuses count as
    /// none.
    pub fn from_parts(name: Option<String>, namespace: Option<String>, status: Option<PodStatusInfo>) -> (p: Self)
        ensures
            p.name@ == text_or_empty(name),
            p.namespace@ == text_or_empty(namespace),
            status is None ==> p.status@ == "Unknown"@ && p.ready@ == "0/0"@ && p.containers@.len() == 0,
            status matches Some(s) ==> p.status@ == phase_text(s.phase)
                && p.ready@ == decimal(ready_count(statuses_of(s))) + "/"@ + decimal(statuses_of(s).len())
                && string_texts(p.containers@) == statuses_of(s).map_values(|c: ContainerStatusInfo| c.name@),
    {
        proof {
            reveal_strlit("");
            assert(""@ =~= Seq::<char>::empty());
        }
        let name = take_text(name, "");
        let namespace = take_text(namespace, "");
        match status {
            None => KubePod {
                name,
                namespace,
                status: owned("Unknown"),
                ready: owned("0/0"),
                containers: Vec::new(),
            },
            Some(s) => {
                let ghost all = statuses_of(s);
                let phase = take_text(s.phase, "Unknown");
                let statuses = match s.container_statuses {
                    Some(v) => v,
                    None => Vec::new(),
                };
                assert(statuses@ == all);
                let mut ready: u64 = 0;
                let mut containers: Vec<String> = Vec::new();
                let mut i: usize = 0;
                while i < statuses.len()
                    invariant
                        i <= statuses.len(),
                        statuses@ == all,
                        ready == ready_count(all.take(i as int)),
                        ready <= i,
                        string_texts(containers@) == all.take(i as int).map_values(|c: ContainerStatusInfo| c.name@),
                    decreases statuses.len() - i,
                {
                    assert(all.take(i + 1).drop_last() =~= all.take(i as int));
                    if statuses[i].ready {
                        ready += 1;
                    }
                    let ghost before = containers@;
                    containers.push(statuses[i].name.clone());
                    assert(string_texts(containers@) =~= string_texts(before).push(all[i as int].name@));
                    assert(all.take(i + 1).map_values(|c: ContainerStatusInfo| c.name@)
                        =~= all.take(i as int).map_values(|c: ContainerStatusInfo| c.name@).push(all[i as int].name@));
                    i += 1;
                }
                assert(all.take(statuses.len() as int) =~= all);
                let mut r = u64_decimal(ready);
                r.append("/");
                let total = u64_decimal(statuses.len() as u64);
                r.append(total.as_str());
                KubePod { name, namespace, status: phase, ready: r, containers }
            },
        }
    }
}

} // verus!
