//! Reading clusters and contexts out of a kubeconfig document.
use vstd::prelude::*;

use crate::doc::{json_bool, json_get, json_str, member_str, JsonValue};

use crate::text::{owned, str_eq};

verus! {

/// Errors of kubeconfig handling.
#[derive(Debug)]
pub enum KubeConfigError {
    /// The file could not be read (the I/O error's text).
    ReadError(String),
    ParseError(String),
    ContextNotFound(String),
    ClusterNotFound(String),
    NotFound,
}

/// A cluster entry.
#[derive(Clone, Debug)]
pub struct KubeCluster {
    pub name: String,
    pub server: String,
    pub certificate_authority: Option<String>,
    pub certificate_authority_data: Option<String>,
    pub insecure_skip_tls_verify: bool,
}

/// A context entry.
#[derive(Clone, Debug)]
pub struct KubeContext {
    pub name: String,
    pub cluster: String,
    pub user: String,
    pub namespace: Option<String>,
}

/// A parsed kubeconfig.  Clusters are keyed by name: no name occurs twice.
#[derive(Clone, Debug)]
pub struct KubeConfig {
    pub path: String,
    pub current_context: Option<String>,
    pub contexts: Vec<KubeContext>,
    pub clusters: Vec<KubeCluster>,
}

/// The abstract content of a cluster entry.
pub struct ClusterSpec {
    pub name: Seq<char>,
    pub server: Seq<char>,
    pub certificate_authority: Option<Seq<char>>,
    pub certificate_authority_data: Option<Seq<char>>,
    pub insecure_skip_tls_verify: bool,
}

/// The abstract content of a context entry.
pub struct ContextSpec {
    pub name: Seq<char>,
    pub cluster: Seq<char>,
    pub user: Seq<char>,
    pub namespace: Option<Seq<char>>,
}

/// The text of an optional string.
pub open spec fn opt_view(o: Option<String>) -> Option<Seq<char>> {
    match o {
        Some(s) => Some(s@),
        None => None,
    }
}

impl KubeCluster {
    /// The cluster as plain values.
    pub open spec fn spec(self) -> ClusterSpec {
        ClusterSpec {
            name: self.name@,
            server: self.server@,
            certificate_authority: opt_view(self.certificate_authority),
            certificate_authority_data: opt_view(self.certificate_authority_data),
            insecure_skip_tls_verify: self.insecure_skip_tls_verify,
        }
    }
}

impl KubeContext {
    /// The context as plain values.
    pub open spec fn spec(self) -> ContextSpec {
        ContextSpec {
            name: self.name@,
            cluster: self.cluster@,
            user: self.user@,
            namespace: opt_view(self.namespace),
        }
    }
}

/// A string member, or the empty text when absent or not a string.
pub open spec fn str_or_empty(v: JsonValue, key: Seq<char>) -> Seq<char> {
    match member_str(v, key) {
        Some(s) => s,
        None => Seq::empty(),
    }
}

/// The cluster an item of `clusters` describes: it needs a string `name` and a
/// `cluster` member; the server defaults to the empty text and the TLS check flag to
/// false.
pub open spec fn cluster_of(item: JsonValue) -> Option<ClusterSpec> {
    match (member_str(item, "name"@), json_get(item, "cluster"@)) {
        (Some(name), Some(cd)) => Some(ClusterSpec {
            name,
            server: str_or_empty(cd, "server"@),
            certificate_authority: member_str(cd, "certificate-authority"@),
            certificate_authority_data: member_str(cd, "certificate-authority-data"@),
            insecure_skip_tls_verify: match json_get(cd, "insecure-skip-tls-verify"@) {
                Some(b) => match json_bool(b) { Some(x) => x, None => false },
                None => false,
            },
        }),
        _ => None,
    }
}

/// The context an item of `contexts` describes: it needs a string `name` and a
/// `context` member; cluster and user default to the empty text.
pub open spec fn context_of(item: JsonValue) -> Option<ContextSpec> {
    match (member_str(item, "name"@), json_get(item, "context"@)) {
        (Some(name), Some(cd)) => Some(ContextSpec {
            name,
            cluster: str_or_empty(cd, "cluster"@),
            user: str_or_empty(cd, "user"@),
            namespace: member_str(cd, "namespace"@),
        }),
        _ => None,
    }
}

/// The clusters of a list of items, by name; a later entry of a name replaces an earlier.
pub open spec fn clusters_of(items: Seq<JsonValue>) -> Map<Seq<char>, ClusterSpec>
    decreases items.len(),
{
    if items.len() == 0 {
        Map::empty()
    } else {
        let m = clusters_of(items.drop_last());
        match cluster_of(items.last()) {
            Some(c) => m.insert(c.name, c),
            None => m,
        }
    }
}

/// The contexts of a list of items, in order.
pub open spec fn contexts_of(items: Seq<JsonValue>) -> Seq<ContextSpec>
    decreases items.len(),
{
    if items.len() == 0 {
        Seq::empty()
    } else {
        let s = contexts_of(items.drop_last());
        match context_of(items.last()) {
            Some(c) => s.push(c),
            None => s,
        }
    }
}

/// The items of member `key` when it is an array, else none.
pub open spec fn array_member(doc: JsonValue, key: Seq<char>) -> Seq<JsonValue> {
    match json_get(doc, key) {
        Some(JsonValue::Array(a)) => a@,
        _ => Seq::empty(),
    }
}

/// The map of a list of clusters with distinct names.
pub open spec fn cluster_map(v: Seq<KubeCluster>) -> Map<Seq<char>, ClusterSpec>
    decreases v.len(),
{
    if v.len() == 0 {
        Map::empty()
    } else {
        cluster_map(v.drop_last()).insert(v.last().name@, v.last().spec())
    }
}

/// Whether no two clusters share a name.
pub open spec fn distinct_cluster_names(v: Seq<KubeCluster>) -> bool {
    forall|i: int, j: int| 0 <= i < j < v.len() ==> v[i].name@ != v[j].name@
}

impl KubeConfig {
    /// Whether cluster names are distinct.
    pub open spec fn well_formed(&self) -> bool {
        distinct_cluster_names(self.clusters@)
    }

    /// The clusters, keyed by name.
    pub open spec fn cluster_view(&self) -> Map<Seq<char>, ClusterSpec> {
        cluster_map(self.clusters@)
    }

    /// The contexts, in order.
    pub open spec fn context_view(&self) -> Seq<ContextSpec> {
        self.contexts@.map_values(|c: KubeContext| c.spec())
    }
}

proof fn lemma_cluster_map_domain(v: Seq<KubeCluster>, name: Seq<char>)
    ensures
        cluster_map(v).contains_key(name) <==> exists|i: int| 0 <= i < v.len() && v[i].name@ == name,
    decreases v.len(),
{
    if v.len() > 0 {
        lemma_cluster_map_domain(v.drop_last(), name);
        if cluster_map(v).contains_key(name) && v.last().name@ != name {
            let i = choose|i: int| 0 <= i < v.len() - 1 && v.drop_last()[i].name@ == name;
            assert(v[i].name@ == name);
        }
        if exists|i: int| 0 <= i < v.len() && v[i].name@ == name {
            let i = choose|i: int| 0 <= i < v.len() && v[i].name@ == name;
            if i < v.len() - 1 {
                assert(v.drop_last()[i].name@ == name);
            }
        }
    }
}

proof fn lemma_cluster_map_lookup(v: Seq<KubeCluster>, i: int)
    requires
        distinct_cluster_names(v),
        0 <= i < v.len(),
    ensures
        cluster_map(v).contains_key(v[i].name@),
        cluster_map(v)[v[i].name@] == v[i].spec(),
    decreases v.len(),
{
    if i < v.len() - 1 {
        lemma_cluster_map_lookup(v.drop_last(), i);
        assert(v.drop_last()[i] == v[i]);
    }
}

proof fn lemma_cluster_map_update(v: Seq<KubeCluster>, i: int, c: KubeCluster)
    requires
        distinct_cluster_names(v),
        0 <= i < v.len(),
        v[i].name@ == c.name@,
    ensures
        cluster_map(v.update(i, c)) == cluster_map(v).insert(c.name@, c.spec()),
        distinct_cluster_names(v.update(i, c)),
    decreases v.len(),
{
    let w = v.update(i, c);
    if i == v.len() - 1 {
        assert(w.drop_last() =~= v.drop_last());
        assert(cluster_map(v).insert(c.name@, c.spec()) =~= cluster_map(v.drop_last()).insert(c.name@, c.spec()));
    } else {
        lemma_cluster_map_update(v.drop_last(), i, c);
        assert(w.drop_last() =~= v.drop_last().update(i, c));
        assert(v.last().name@ != c.name@);
        assert(cluster_map(w) =~= cluster_map(v).insert(c.name@, c.spec()));
    }
}

/// The text of a value that is a string.
pub open spec fn text_of(v: Option<JsonValue>) -> Option<Seq<char>> {
    match v {
        Some(JsonValue::Text(t)) => Some(t@),
        _ => None,
    }
}

/// The text of a value that is a string, else the empty text.
pub open spec fn text_or_empty(v: Option<JsonValue>) -> Seq<char> {
    match text_of(v) {
        Some(t) => t,
        None => Seq::empty(),
    }
}

proof fn lemma_contexts_each(items: Seq<JsonValue>)
    requires
        forall|j: int| 0 <= j < items.len() ==> #[trigger] context_of(items[j]) is Some,
    ensures
        contexts_of(items).len() == items.len(),
        forall|j: int| 0 <= j < items.len() ==> Some(#[trigger] contexts_of(items)[j]) == context_of(items[j]),
    decreases items.len(),
{
    if items.len() > 0 {
        let rest = items.drop_last();
        assert forall|j: int| 0 <= j < rest.len() implies #[trigger] context_of(rest[j]) is Some by {
            assert(rest[j] == items[j]);
            assert(context_of(items[j]) is Some);
        }
        lemma_contexts_each(rest);
        assert(context_of(items[items.len() - 1]) is Some);
        assert forall|j: int| 0 <= j < items.len() implies Some(#[trigger] contexts_of(items)[j]) == context_of(items[j]) by {
            if j < items.len() - 1 {
                assert(rest[j] == items[j]);
                assert(Some(contexts_of(rest)[j]) == context_of(rest[j]));
            }
        }
    }
}

proof fn lemma_clusters_each(items: Seq<JsonValue>, i: int)
    requires
        forall|j: int| 0 <= j < items.len() ==> #[trigger] cluster_of(items[j]) is Some,
        forall|j: int, k: int| 0 <= j < k < items.len() ==> cluster_of(items[j])->0.name != cluster_of(items[k])->0.name,
        0 <= i < items.len(),
    ensures
        clusters_of(items).contains_key(cluster_of(items[i])->0.name),
        clusters_of(items)[cluster_of(items[i])->0.name] == cluster_of(items[i])->0,
    decreases items.len(),
{
    let rest = items.drop_last();
    let last = items.len() - 1;
    assert(cluster_of(items[last]) is Some);
    if i < last {
        assert forall|j: int| 0 <= j < rest.len() implies #[trigger] cluster_of(rest[j]) is Some by {
            assert(rest[j] == items[j]);
            assert(cluster_of(items[j]) is Some);
        }
        assert forall|j: int, k: int| 0 <= j < k < rest.len() implies cluster_of(rest[j])->0.name != cluster_of(rest[k])->0.name by {
            assert(rest[j] == items[j] && rest[k] == items[k]);
        }
        assert(rest[i] == items[i]);
        lemma_clusters_each(rest, i);
        assert(cluster_of(items[i])->0.name != cluster_of(items[last])->0.name);
    }
}

/// Law: where every item of the document's `contexts` list has a string `name` and a
/// `context` member, a configuration read from the document (as `parse` and
/// `from_document` return it) holds one context per item, in list order; a context's
/// name is the item's `name`, its cluster, user and namespace are the string members
/// `cluster`, `user` and `namespace` of the item's `context` (cluster and user the empty
/// text, the namespace none, where that member is no string).
pub proof fn lemma_parsed_contexts(cfg: KubeConfig, d: JsonValue, i: int)
    requires
        cfg.context_view() == contexts_of(array_member(d, "contexts"@)),
        forall|j: int| 0 <= j < array_member(d, "contexts"@).len() ==> text_of(
            json_get(#[trigger] array_member(d, "contexts"@)[j], "name"@),
        ) is Some && json_get(array_member(d, "contexts"@)[j], "context"@) is Some,
        0 <= i < array_member(d, "contexts"@).len(),
    ensures
        cfg.contexts@.len() == array_member(d, "contexts"@).len(),
        ({
            let item = array_member(d, "contexts"@)[i];
            let body = json_get(item, "context"@)->0;
            let c = cfg.contexts@[i];
            &&& Some(c.name@) == text_of(json_get(item, "name"@))
            &&& c.cluster@ == text_or_empty(json_get(body, "cluster"@))
            &&& c.user@ == text_or_empty(json_get(body, "user"@))
            &&& opt_view(c.namespace) == text_of(json_get(body, "namespace"@))
        }),
{
    let items = array_member(d, "contexts"@);
    assert forall|j: int| 0 <= j < items.len() implies #[trigger] context_of(items[j]) is Some by {
        assert(text_of(json_get(items[j], "name"@)) is Some);
    }
    lemma_contexts_each(items);
    assert(cfg.context_view().len() == cfg.contexts@.len());
    assert(cfg.context_view()[i] == cfg.contexts@[i].spec());
    assert(Some(contexts_of(items)[i]) == context_of(items[i]));
}

/// Law: where every item of the document's `clusters` list has a string `name` and a
/// `cluster` member, and no two items share a name, a configuration read from the
/// document (as `parse` and `from_document` return it) holds a cluster for each item's
/// name, and the cluster of that name has the item's server (the string member `server` of
/// its `cluster`, else the empty text), its `certificate-authority` and
/// `certificate-authority-data` strings, and skips the TLS check exactly when
/// `insecure-skip-tls-verify` is `true`.
pub proof fn lemma_parsed_clusters(cfg: KubeConfig, d: JsonValue, i: int)
    requires
        cfg.well_formed(),
        cfg.cluster_view() == clusters_of(array_member(d, "clusters"@)),
        forall|j: int| 0 <= j < array_member(d, "clusters"@).len() ==> text_of(
            json_get(#[trigger] array_member(d, "clusters"@)[j], "name"@),
        ) is Some && json_get(array_member(d, "clusters"@)[j], "cluster"@) is Some,
        forall|j: int, k: int| 0 <= j < k < array_member(d, "clusters"@).len() ==> text_of(
            json_get(array_member(d, "clusters"@)[j], "name"@),
        ) != text_of(json_get(array_member(d, "clusters"@)[k], "name"@)),
        0 <= i < array_member(d, "clusters"@).len(),
    ensures
        ({
            let item = array_member(d, "clusters"@)[i];
            let name = text_of(json_get(item, "name"@))->0;
            let body = json_get(item, "cluster"@)->0;
            &&& exists|j: int| 0 <= j < cfg.clusters@.len() && cfg.clusters@[j].name@ == name
            &&& forall|j: int| 0 <= j < cfg.clusters@.len() && #[trigger] cfg.clusters@[j].name@ == name ==> {
                &&& cfg.clusters@[j].server@ == text_or_empty(json_get(body, "server"@))
                &&& opt_view(cfg.clusters@[j].certificate_authority) == text_of(json_get(body, "certificate-authority"@))
                &&& opt_view(cfg.clusters@[j].certificate_authority_data) == text_of(
                    json_get(body, "certificate-authority-data"@),
                )
                &&& cfg.clusters@[j].insecure_skip_tls_verify == (json_get(body, "insecure-skip-tls-verify"@)
                    == Some(JsonValue::Bool(true)))
            }
        }),
{
    let items = array_member(d, "clusters"@);
    assert forall|j: int| 0 <= j < items.len() implies #[trigger] cluster_of(items[j]) is Some by {
        assert(text_of(json_get(items[j], "name"@)) is Some);
    }
    assert forall|j: int, k: int| 0 <= j < k < items.len() implies cluster_of(items[j])->0.name != cluster_of(items[k])->0.name by {
        assert(cluster_of(items[j]) is Some && cluster_of(items[k]) is Some);
    }
    lemma_clusters_each(items, i);
    let name = text_of(json_get(items[i], "name"@))->0;
    assert(cluster_of(items[i])->0.name == name);
    lemma_cluster_map_domain(cfg.clusters@, name);
    assert forall|j: int| 0 <= j < cfg.clusters@.len() && #[trigger] cfg.clusters@[j].name@ == name implies {
        let body = json_get(items[i], "cluster"@)->0;
        &&& cfg.clusters@[j].server@ == text_or_empty(json_get(body, "server"@))
        &&& opt_view(cfg.clusters@[j].certificate_authority) == text_of(json_get(body, "certificate-authority"@))
        &&& opt_view(cfg.clusters@[j].certificate_authority_data) == text_of(json_get(body, "certificate-authority-data"@))
        &&& cfg.clusters@[j].insecure_skip_tls_verify == (json_get(body, "insecure-skip-tls-verify"@) == Some(JsonValue::Bool(true)))
    } by {
        lemma_cluster_map_lookup(cfg.clusters@, j);
    }
}

} // verus!

verus! {

fn opt_owned(o: Option<&str>) -> (r: Option<String>)
    ensures
        opt_view(r) == (match o { Some(s) => Some(s@), None => None::<Seq<char>> }),
{
    match o {
        Some(s) => Some(owned(s)),
        None => None,
    }
}

fn member_text(v: &JsonValue, key: &str) -> (r: Option<String>)
    ensures
        opt_view(r) == member_str(*v, key@),
{
    match v.get(key) {
        Some(m) => opt_owned(m.as_str()),
        None => None,
    }
}

fn member_text_or_empty(v: &JsonValue, key: &str) -> (r: String)
    ensures
        r@ == str_or_empty(*v, key@),
{
    match member_text(v, key) {
        Some(s) => s,
        None => String::new(),
    }
}

fn cluster_from(item: &JsonValue) -> (r: Option<KubeCluster>)
    ensures
        (match r { Some(c) => Some(c.spec()), None => None::<ClusterSpec> }) == cluster_of(*item),
{
    let name = member_text(item, "name");
    let cd = item.get("cluster");
    match (name, cd) {
        (Some(name), Some(cd)) => {
            let server = member_text_or_empty(cd, "server");
            let certificate_authority = member_text(cd, "certificate-authority");
            let certificate_authority_data = member_text(cd, "certificate-authority-data");
            let insecure_skip_tls_verify = match cd.get("insecure-skip-tls-verify") {
                Some(b) => match b.as_bool() { Some(x) => x, None => false },
                None => false,
            };
            Some(KubeCluster { name, server, certificate_authority, certificate_authority_data, insecure_skip_tls_verify })
        },
        _ => None,
    }
}

fn context_from(item: &JsonValue) -> (r: Option<KubeContext>)
    ensures
        (match r { Some(c) => Some(c.spec()), None => None::<ContextSpec> }) == context_of(*item),
{
    let name = member_text(item, "name");
    let cd = item.get("context");
    match (name, cd) {
        (Some(name), Some(cd)) => {
            let cluster = member_text_or_empty(cd, "cluster");
            let user = member_text_or_empty(cd, "user");
            let namespace = member_text(cd, "namespace");
            Some(KubeContext { name, cluster, user, namespace })
        },
        _ => None,
    }
}

/// Inserts a cluster by name: replaces the entry of the same name, else appends.
fn insert_cluster(clusters: &mut Vec<KubeCluster>, c: KubeCluster)
    requires
        distinct_cluster_names(old(clusters)@),
    ensures
        distinct_cluster_names(final(clusters)@),
        cluster_map(final(clusters)@) == cluster_map(old(clusters)@).insert(c.name@, c.spec()),
{
    let mut i: usize = 0;
    while i < clusters.len()
        invariant
            i <= clusters.len(),
            clusters@ == old(clusters)@,
            distinct_cluster_names(clusters@),
            forall|j: int| 0 <= j < i ==> clusters@[j].name@ != c.name@,
        decreases clusters.len() - i,
    {
        if str_eq(clusters[i].name.as_str(), c.name.as_str()) {
            proof {
                lemma_cluster_map_update(clusters@, i as int, c);
            }
            clusters.set(i, c);
            return;
        }
        i += 1;
    }
    let ghost old_v = clusters@;
    clusters.push(c);
    assert(clusters@.drop_last() =~= old_v);
    assert(distinct_cluster_names(clusters@)) by {
        assert forall|a: int, b: int| 0 <= a < b < clusters@.len() implies clusters@[a].name@ != clusters@[b].name@ by {
            if b < old_v.len() {
                assert(old_v[a] == clusters@[a] && old_v[b] == clusters@[b]);
            }
        }
    }
}

/// The view of a list of context items.
fn contexts_from(items: &Vec<JsonValue>) -> (r: Vec<KubeContext>)
    ensures
        r@.map_values(|c: KubeContext| c.spec()) == contexts_of(items@),
{
    let mut r: Vec<KubeContext> = Vec::new();
    let mut i: usize = 0;
    while i < items.len()
        invariant
            i <= items.len(),
            r@.map_values(|c: KubeContext| c.spec()) == contexts_of(items@.take(i as int)),
        decreases items.len() - i,
    {
        let ghost before = r@;
        match context_from(&items[i]) {
            Some(c) => {
                r.push(c);
                assert(r@.map_values(|c: KubeContext| c.spec()) == before.map_values(|c: KubeContext| c.spec()).push(c.spec()));
            },
            None => {},
        }
        assert(items@.take(i + 1).drop_last() == items@.take(i as int));
        i += 1;
    }
    assert(items@.take(items.len() as int) == items@);
    r
}

fn clusters_from(items: &Vec<JsonValue>) -> (r: Vec<KubeCluster>)
    ensures
        distinct_cluster_names(r@),
        cluster_map(r@) == clusters_of(items@),
{
    let mut r: Vec<KubeCluster> = Vec::new();
    let mut i: usize = 0;
    while i < items.len()
        invariant
            i <= items.len(),
            distinct_cluster_names(r@),
            cluster_map(r@) == clusters_of(items@.take(i as int)),
        decreases items.len() - i,
    {
        match cluster_from(&items[i]) {
            Some(c) => insert_cluster(&mut r, c),
            None => {},
        }
        assert(items@.take(i + 1).drop_last() == items@.take(i as int));
        i += 1;
    }
    assert(items@.take(items.len() as int) == items@);
    r
}

/// `serde_json::Value`, the shape a YAML document is read into.
#[verifier::external_type_specification]
#[verifier::external_body]
pub struct ExYamlValue(serde_json::Value);

/// The document that `serde_yaml_ng::from_str` reads out of a YAML text, where the text
/// is a valid document.
pub uninterp spec fn yaml_document_of(content: Seq<char>) -> Option<JsonValue>;

/// Copies a `serde_json::Value` into a `JsonValue`, variant for variant (a number by its
/// text, an object's entries in their order).  Only `yaml_document` calls it; it is a
/// function of its own because the copy recurses.
#[verifier::external_body]
fn document_copy(v: &serde_json::Value) -> JsonValue {
    match v {
        serde_json::Value::Null => JsonValue::Null,
        serde_json::Value::Bool(b) => JsonValue::Bool(*b),
        serde_json::Value::Number(n) => JsonValue::Number(n.to_string()),
        serde_json::Value::String(s) => JsonValue::Text(s.clone()),
        serde_json::Value::Array(a) => JsonValue::Array(a.iter().map(document_copy).collect()),
        serde_json::Value::Object(o) => JsonValue::Object(o.iter().map(|(k, x)| (k.clone(), document_copy(x))).collect()),
    }
}

/// `serde_yaml_ng::from_str` into a `serde_json::Value`: the document the YAML text
/// holds, or the parser's message.  The contract claims that it succeeds exactly on the
/// texts that `yaml_document_of` gives a document for, and then returns that document;
/// what the message says is left unstated.
#[verifier::external_body]
fn yaml_document(content: &str) -> (r: Result<JsonValue, String>)
    ensures
        r is Ok <==> yaml_document_of(content@) is Some,
        r matches Ok(d) ==> yaml_document_of(content@) == Some(d),
{
    match serde_yaml_ng::from_str::<serde_json::Value>(content) {
        Ok(v) => Ok(document_copy(&v)),
        Err(e) => Err(e.to_string()),
    }
}

impl KubeConfig {
    /// Parses kubeconfig YAML text: a text that is no YAML document is a
    /// `ParseError` with the parser's message; else the document is read as
    /// `from_document` reads it.
    pub fn parse(content: &str, path: String) -> (r: Result<KubeConfig, KubeConfigError>)
        ensures
            yaml_document_of(content@) is None ==> r matches Err(KubeConfigError::ParseError(_)),
            yaml_document_of(content@) matches Some(d) ==> (r matches Ok(cfg) && {
                &&& cfg.well_formed()
                &&& cfg.path@ == path@
                &&& opt_view(cfg.current_context) == member_str(d, "current-context"@)
                &&& cfg.cluster_view() == clusters_of(array_member(d, "clusters"@))
                &&& cfg.context_view() == contexts_of(array_member(d, "contexts"@))
            }),
    {
        match yaml_document(content) {
            Ok(d) => Ok(KubeConfig::from_document(&d, path)),
            Err(msg) => Err(KubeConfigError::ParseError(msg)),
        }
    }

    /// Reads the current context name, the clusters and the contexts out of a parsed
    /// kubeconfig document.  Entries without a name or body are skipped; missing
    /// lists read as empty.
    pub fn from_document(yaml: &JsonValue, path: String) -> (cfg: KubeConfig)
        ensures
            cfg.well_formed(),
            cfg.path@ == path@,
            opt_view(cfg.current_context) == member_str(*yaml, "current-context"@),
            cfg.cluster_view() == clusters_of(array_member(*yaml, "clusters"@)),
            cfg.context_view() == contexts_of(array_member(*yaml, "contexts"@)),
    {
        let current_context = member_text(yaml, "current-context");
        let empty: Vec<JsonValue> = Vec::new();
        let cluster_items = match yaml.get("clusters") {
            Some(v) => match v.as_array() { Some(a) => a, None => &empty },
            None => &empty,
        };
        let clusters = clusters_from(cluster_items);
        let context_items = match yaml.get("contexts") {
            Some(v) => match v.as_array() { Some(a) => a, None => &empty },
            None => &empty,
        };
        let contexts = contexts_from(context_items);
        assert(empty@ == Seq::<JsonValue>::empty());
        KubeConfig { path, current_context, contexts, clusters }
    }

    /// The context whose name is `name` (the first such).
    pub fn get_context(&self, name: &str) -> (r: Option<&KubeContext>)
        ensures
            r matches Some(c) ==> c.name@ == name@ && exists|i: int|
                0 <= i < self.contexts@.len() && self.contexts@[i] == *c
                && forall|j: int| 0 <= j < i ==> self.contexts@[j].name@ != name@,
            r is None ==> forall|j: int| 0 <= j < self.contexts@.len() ==> self.contexts@[j].name@ != name@,
    {
        let mut i: usize = 0;
        while i < self.contexts.len()
            invariant
                i <= self.contexts.len(),
                forall|j: int| 0 <= j < i ==> self.contexts@[j].name@ != name@,
            decreases self.contexts.len() - i,
        {
            if str_eq(self.contexts[i].name.as_str(), name) {
                return Some(&self.contexts[i]);
            }
            i += 1;
        }
        None
    }

    /// The current context: the context named by `current-context`, if any.
    pub fn current_context(&self) -> (r: Option<&KubeContext>)
        ensures
            self.current_context is None ==> r is None,
            self.current_context matches Some(n) ==> {
                &&& r matches Some(c) ==> c.name@ == n@ && exists|i: int|
                    0 <= i < self.contexts@.len() && self.contexts@[i] == *c
                    && forall|j: int| 0 <= j < i ==> self.contexts@[j].name@ != n@
                &&& r is None ==> forall|j: int| 0 <= j < self.contexts@.len() ==> self.contexts@[j].name@ != n@
            },
    {
        match &self.current_context {
            Some(name) => self.get_context(name.as_str()),
            None => None,
        }
    }

    /// The cluster named `name`.
    pub fn get_cluster(&self, name: &str) -> (r: Option<&KubeCluster>)
        ensures
            r matches Some(c) ==> c.name@ == name@ && self.cluster_view().contains_key(name@)
                && (self.well_formed() ==> self.cluster_view()[name@] == c.spec()),
            r is None ==> !self.cluster_view().contains_key(name@),
    {
        let mut i: usize = 0;
        while i < self.clusters.len()
            invariant
                i <= self.clusters.len(),
                forall|j: int| 0 <= j < i ==> self.clusters@[j].name@ != name@,
            decreases self.clusters.len() - i,
        {
            if str_eq(self.clusters[i].name.as_str(), name) {
                proof {
                    lemma_cluster_map_domain(self.clusters@, name@);
                    if self.well_formed() {
                        lemma_cluster_map_lookup(self.clusters@, i as int);
                    }
                }
                return Some(&self.clusters[i]);
            }
            i += 1;
        }
        proof {
            lemma_cluster_map_domain(self.clusters@, name@);
        }
        None
    }
}

} // verus!
