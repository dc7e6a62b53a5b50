//! Map cluster-scoped rule findings onto application namespaces for the catalog.

use vstd::prelude::*;

use crate::model::{Finding, FindingView};
use crate::refs::{namespaces_of, namespaces_of_refs, opt_text, parse_resource_namespace, resource_namespace};
use crate::rules::{NamespaceContext, RuleContext};
use crate::sorting::{keys_view, lemma_pair_lt_total, pair_lt, stable_order, stable_sorted};
use crate::text::{lemma_text_lt_irreflexive, str_eq, strings_view, text_lt};

verus! {

/// Namespace of a finding: its `namespace` when non-empty, else that of its `namespace/name`
/// resource.
pub open spec fn spec_finding_namespace(f: FindingView) -> Option<Seq<char>> {
    match f.namespace {
        Some(ns) if ns.len() > 0 => Some(ns),
        _ => match f.resource {
            Some(r) => resource_namespace(r),
            None => None,
        },
    }
}

/// Namespace from `Finding.namespace` or `resource` (`namespace/name`).
pub fn finding_namespace(f: &Finding) -> (r: Option<String>)
    ensures
        opt_text(r) == spec_finding_namespace(f@),
{
    match &f.namespace {
        Some(ns) => {
            if ns.unicode_len() > 0 {
                return Some(ns.clone());
            }
        },
        None => {},
    }
    match &f.resource {
        Some(r) => parse_resource_namespace(r.as_str()),
        None => None,
    }
}

/// Number of occurrences of a text in a list.
pub open spec fn occurrences(s: Seq<Seq<char>>, x: Seq<char>) -> nat
    decreases s.len(),
{
    if s.len() == 0 {
        0
    } else {
        occurrences(s.drop_last(), x) + if s.last() == x { 1nat } else { 0nat }
    }
}

/// `out` lists the texts of `items`, each once, in ascending order.
pub open spec fn sorted_set_of(out: Seq<Seq<char>>, items: Seq<Seq<char>>) -> bool {
    &&& forall|i: int, j: int| 0 <= i < j < out.len() ==> text_lt(out[i], out[j])
    &&& forall|x: Seq<char>| out.contains(x) <==> items.contains(x)
}

pub proof fn lemma_namespaces_of_distinct(refs: Seq<Seq<char>>)
    ensures
        namespaces_of(refs).no_duplicates(),
    decreases refs.len(),
{
    if refs.len() > 0 {
        lemma_namespaces_of_distinct(refs.drop_last());
    }
}

pub proof fn lemma_occurrences_distinct(s: Seq<Seq<char>>, x: Seq<char>)
    requires
        s.no_duplicates(),
    ensures
        occurrences(s, x) == if s.contains(x) { 1nat } else { 0nat },
    decreases s.len(),
{
    if s.len() > 0 {
        let p = s.drop_last();
        assert(p.no_duplicates());
        lemma_occurrences_distinct(p, x);
        if s.last() == x {
            if p.contains(x) {
                let k = choose|k: int| 0 <= k < p.len() && p[k] == x;
                assert(s[k] == s[s.len() - 1]);
            }
        }
        if s.contains(x) && s.last() != x {
            let k = choose|k: int| 0 <= k < s.len() && s[k] == x;
            assert(p[k] == x);
        }
        if p.contains(x) {
            let k = choose|k: int| 0 <= k < p.len() && p[k] == x;
            assert(s[k] == x);
        }
    }
}

pub proof fn lemma_strictly_sorted_distinct(s: Seq<Seq<char>>)
    requires
        forall|i: int, j: int| 0 <= i < j < s.len() ==> text_lt(s[i], s[j]),
    ensures
        s.no_duplicates(),
{
    assert forall|i: int, j: int| 0 <= i < s.len() && 0 <= j < s.len() && i != j implies s[i] != s[j] by {
        if i < j {
            if s[i] == s[j] {
                lemma_text_lt_irreflexive(s[i]);
            }
        } else {
            if s[i] == s[j] {
                lemma_text_lt_irreflexive(s[j]);
            }
        }
    }
}

/// The distinct namespaces of a list of references, in ascending order.
pub fn sorted_distinct_texts(v: &Vec<String>) -> (r: Vec<String>)
    requires
        strings_view(v@).no_duplicates(),
    ensures
        sorted_set_of(strings_view(r@), strings_view(v@)),
{
    let mut keys: Vec<(String, String)> = Vec::new();
    let mut j: usize = 0;
    while j < v.len()
        invariant
            j <= v@.len(),
            keys@.len() == j,
            forall|q: int| 0 <= q < j ==> (#[trigger] keys@[q]).0@ == v@[q]@ && keys@[q].1@ == Seq::<char>::empty(),
        decreases v@.len() - j,
    {
        keys.push((v[j].clone(), String::new()));
        j += 1;
    }
    let ghost kv = keys_view(keys@);
    let ord = stable_order(&keys);
    let mut out: Vec<String> = Vec::new();
    let mut q: usize = 0;
    while q < ord.len()
        invariant
            kv == keys_view(keys@),
            stable_sorted(kv, ord@),
            keys@.len() == v@.len(),
            q <= ord@.len(),
            out@.len() == q,
            forall|t: int| 0 <= t < q ==> #[trigger] out@[t]@ == v@[ord@[t] as int]@,
        decreases ord@.len() - q,
    {
        assert(ord@[q as int] < v@.len());
        out.push(v[ord[q]].clone());
        q += 1;
    }
    let ghost ov = strings_view(out@);
    let ghost vv = strings_view(v@);
    assert forall|i: int, j: int| 0 <= i < j < ov.len() implies text_lt(ov[i], ov[j]) by {
        let a = kv[ord@[i] as int];
        let b = kv[ord@[j] as int];
        assert(!pair_lt(b, a));
        assert(ord@[i] != ord@[j]);
        assert(vv[ord@[i] as int] != vv[ord@[j] as int]);
        lemma_pair_lt_total(a, b);
        assert(a.1 == b.1);
    }
    assert forall|x: Seq<char>| ov.contains(x) <==> vv.contains(x) by {
        if ov.contains(x) {
            let t = choose|t: int| 0 <= t < ov.len() && ov[t] == x;
            assert(vv[ord@[t] as int] == x);
        }
        if vv.contains(x) {
            let k = choose|k: int| 0 <= k < vv.len() && vv[k] == x;
            // every position appears in the permutation
            assert(exists|t: int| 0 <= t < ord@.len() && ord@[t] == k) by {
                lemma_permutation_onto(ord@, vv.len() as int, k);
            }
            let t = choose|t: int| 0 <= t < ord@.len() && ord@[t] == k;
            assert(ov[t] == x);
        }
    }
    out
}

/// A permutation of the positions below `n` reaches each of them.
pub proof fn lemma_permutation_onto(ord: Seq<usize>, n: int, k: int)
    requires
        crate::sorting::is_permutation(ord, n),
        0 <= k < n,
    ensures
        exists|t: int| 0 <= t < ord.len() && ord[t] == k,
{
    let s = ord.map_values(|u: usize| u as int).to_set();
    let full = Set::new(|i: int| 0 <= i < n);
    assert(s.subset_of(full));
    vstd::set_lib::lemma_int_range(0, n);
    assert(full =~= vstd::set_lib::set_int_range(0, n));
    let m = ord.map_values(|u: usize| u as int);
    assert(m.no_duplicates()) by {
        assert forall|i: int, j: int| 0 <= i < m.len() && 0 <= j < m.len() && i != j implies m[i] != m[j] by {
            assert(ord[i] != ord[j]);
        }
    }
    m.unique_seq_to_set();
    vstd::set_lib::lemma_len_subset(s, full);
    if !s.contains(k) {
        assert(s.subset_of(full.remove(k)));
        vstd::set_lib::lemma_len_subset(s, full.remove(k));
        assert(false);
    }
    let t = choose|t: int| 0 <= t < m.len() && m[t] == k;
    assert(ord[t] == k);
}

/// The namespaces of a list of VirtualServices and HTTPRoutes, each once, in ascending order.
pub fn namespaces_from_policy_refs(virtual_services: &Vec<String>, http_routes: &Vec<String>) -> (r: Vec<String>)
    ensures
        sorted_set_of(strings_view(r@), namespaces_of(strings_view(virtual_services@) + strings_view(http_routes@))),
{
    let mut all: Vec<String> = Vec::new();
    let mut i: usize = 0;
    while i < virtual_services.len()
        invariant
            i <= virtual_services@.len(),
            strings_view(all@) == strings_view(virtual_services@).take(i as int),
        decreases virtual_services@.len() - i,
    {
        let ghost before = all@;
        all.push(virtual_services[i].clone());
        assert(strings_view(all@) =~= strings_view(before).push(virtual_services@[i as int]@));
        i += 1;
        assert(strings_view(virtual_services@).take(i as int) =~= strings_view(virtual_services@).take(i - 1).push(virtual_services@[i - 1]@));
    }
    let mut j: usize = 0;
    while j < http_routes.len()
        invariant
            j <= http_routes@.len(),
            strings_view(all@) == strings_view(virtual_services@) + strings_view(http_routes@).take(j as int),
        decreases http_routes@.len() - j,
    {
        let ghost before = all@;
        all.push(http_routes[j].clone());
        assert(strings_view(all@) =~= strings_view(before).push(http_routes@[j as int]@));
        j += 1;
        assert(strings_view(virtual_services@) + strings_view(http_routes@).take(j as int) =~= strings_view(
            virtual_services@,
        ) + strings_view(http_routes@).take(j - 1) + seq![http_routes@[j - 1]@]);
    }
    assert(strings_view(http_routes@).take(http_routes@.len() as int) =~= strings_view(http_routes@));
    let nss = namespaces_of_refs(&all);
    proof {
        lemma_namespaces_of_distinct(strings_view(all@));
    }
    sorted_distinct_texts(&nss)
}

/// Findings grouped by namespace. The first entry of a namespace holds its findings.
#[derive(Debug)]
pub struct NamespaceFindings {
    pub entries: Vec<(String, Vec<Finding>)>,
}

/// Findings of the first entry with key `k`.
pub open spec fn group_lookup(s: Seq<(String, Vec<Finding>)>, k: Seq<char>) -> Option<Seq<FindingView>>
    decreases s.len(),
{
    if s.len() == 0 {
        None
    } else if s[0].0@ == k {
        Some(crate::model::findings_view(s[0].1@))
    } else {
        group_lookup(s.drop_first(), k)
    }
}

/// `i` is the first entry with key `k`.
pub open spec fn first_group(s: Seq<(String, Vec<Finding>)>, k: Seq<char>, i: int) -> bool {
    0 <= i < s.len() && s[i].0@ == k && forall|j: int| 0 <= j < i ==> s[j].0@ != k
}

impl View for NamespaceFindings {
    type V = Map<Seq<char>, Seq<FindingView>>;

    open spec fn view(&self) -> Map<Seq<char>, Seq<FindingView>> {
        Map::new(
            |k: Seq<char>| group_lookup(self.entries@, k) is Some,
            |k: Seq<char>| group_lookup(self.entries@, k)->0,
        )
    }
}

/// Findings of a namespace in a grouping, none when absent.
pub open spec fn group_of(m: Map<Seq<char>, Seq<FindingView>>, k: Seq<char>) -> Seq<FindingView> {
    if m.contains_key(k) {
        m[k]
    } else {
        Seq::empty()
    }
}

pub proof fn lemma_group_lookup(s: Seq<(String, Vec<Finding>)>, k: Seq<char>)
    ensures
        (group_lookup(s, k) is None) <==> (forall|j: int| 0 <= j < s.len() ==> s[j].0@ != k),
        forall|i: int| first_group(s, k, i) ==> group_lookup(s, k) == Some(crate::model::findings_view(s[i].1@)),
        (exists|j: int| 0 <= j < s.len() && s[j].0@ == k) ==> exists|i: int| first_group(s, k, i),
    decreases s.len(),
{
    if s.len() > 0 {
        let t = s.drop_first();
        lemma_group_lookup(t, k);
        assert forall|j: int| 0 <= j < t.len() implies t[j] == s[j + 1] by {}
        if s[0].0@ == k {
            assert(first_group(s, k, 0));
            assert forall|i: int| first_group(s, k, i) implies i == 0 by {
                if i > 0 {
                    assert(s[0].0@ != k);
                }
            }
        } else {
            assert forall|i: int| first_group(s, k, i) implies first_group(t, k, i - 1) by {
                assert forall|j: int| 0 <= j < i - 1 implies t[j].0@ != k by {
                    assert(s[j + 1].0@ != k);
                }
            }
            if exists|j: int| 0 <= j < s.len() && s[j].0@ == k {
                let j = choose|j: int| 0 <= j < s.len() && s[j].0@ == k;
                assert(t[j - 1].0@ == k);
                let i = choose|i: int| first_group(t, k, i);
                assert(first_group(s, k, i + 1)) by {
                    assert forall|q: int| 0 <= q < i + 1 implies s[q].0@ != k by {
                        if q > 0 {
                            assert(t[q - 1].0@ != k);
                        }
                    }
                }
            }
            if forall|j: int| 0 <= j < t.len() ==> t[j].0@ != k {
                assert forall|j: int| 0 <= j < s.len() implies s[j].0@ != k by {
                    if j > 0 {
                        assert(t[j - 1].0@ != k);
                    }
                }
            }
        }
    }
}

impl NamespaceFindings {
    /// No namespace.
    pub fn new() -> (r: NamespaceFindings)
        ensures
            r@ == Map::<Seq<char>, Seq<FindingView>>::empty(),
    {
        let r = NamespaceFindings { entries: Vec::new() };
        assert(r@ =~= Map::<Seq<char>, Seq<FindingView>>::empty());
        r
    }

    fn find(&self, ns: &str) -> (r: Option<usize>)
        ensures
            match r {
                Some(i) => first_group(self.entries@, ns@, i as int),
                None => forall|j: int| 0 <= j < self.entries@.len() ==> self.entries@[j].0@ != ns@,
            },
    {
        let mut i: usize = 0;
        while i < self.entries.len()
            invariant
                i <= self.entries@.len(),
                forall|j: int| 0 <= j < i ==> self.entries@[j].0@ != ns@,
            decreases self.entries@.len() - i,
        {
            if str_eq(self.entries[i].0.as_str(), ns) {
                return Some(i);
            }
            i += 1;
        }
        None
    }

    /// Findings of a namespace.
    pub fn get(&self, ns: &str) -> (r: Option<&Vec<Finding>>)
        ensures
            match r {
                Some(v) => self@.contains_key(ns@) && crate::model::findings_view(v@) == self@[ns@],
                None => !self@.contains_key(ns@),
            },
    {
        proof {
            lemma_group_lookup(self.entries@, ns@);
        }
        match self.find(ns) {
            Some(i) => Some(&self.entries[i].1),
            None => None,
        }
    }

    /// Append a finding to a namespace's findings.
    pub fn add(&mut self, ns: &str, f: Finding)
        ensures
            final(self)@ == old(self)@.insert(ns@, group_of(old(self)@, ns@).push(f@)),
    {
        let ghost old_entries = self.entries@;
        proof {
            lemma_group_lookup(old_entries, ns@);
        }
        match self.find(ns) {
            Some(i) => {
                let mut entry = self.entries.remove(i);
                entry.1.push(f);
                let ghost newv = entry.1@;
                self.entries.insert(i, entry);
                proof {
                    let s2 = self.entries@;
                    assert(s2 =~= old_entries.update(i as int, s2[i as int]));
                    assert(crate::model::findings_view(newv) =~= crate::model::findings_view(old_entries[i as int].1@).push(f@));
                    assert forall|x: Seq<char>| group_lookup(s2, x) == if x == ns@ {
                        Some(crate::model::findings_view(newv))
                    } else {
                        group_lookup(old_entries, x)
                    } by {
                        lemma_group_lookup(s2, x);
                        lemma_group_lookup(old_entries, x);
                        assert forall|j: int| 0 <= j < s2.len() implies s2[j].0@ == old_entries[j].0@ by {}
                        if x == ns@ {
                            assert(first_group(s2, x, i as int));
                        } else if exists|j: int| 0 <= j < old_entries.len() && old_entries[j].0@ == x {
                            let w = choose|w: int| first_group(old_entries, x, w);
                            assert(first_group(s2, x, w));
                            assert(w != i);
                        } else {
                            assert forall|j: int| 0 <= j < s2.len() implies s2[j].0@ != x by {}
                        }
                    }
                    assert(self@ =~= old(self)@.insert(ns@, group_of(old(self)@, ns@).push(f@)));
                }
            },
            None => {
                let mut v: Vec<Finding> = Vec::new();
                v.push(f);
                let ghost newv = v@;
                self.entries.push((ns.to_owned(), v));
                proof {
                    let s2 = self.entries@;
                    assert(crate::model::findings_view(newv) =~= seq![f@]);
                    assert forall|x: Seq<char>| group_lookup(s2, x) == if x == ns@ {
                        Some(crate::model::findings_view(newv))
                    } else {
                        group_lookup(old_entries, x)
                    } by {
                        lemma_group_lookup(s2, x);
                        lemma_group_lookup(old_entries, x);
                        assert forall|j: int| 0 <= j < old_entries.len() implies s2[j] == old_entries[j] by {}
                        if x == ns@ {
                            assert(first_group(s2, x, old_entries.len() as int));
                        } else if exists|j: int| 0 <= j < old_entries.len() && old_entries[j].0@ == x {
                            let w = choose|w: int| first_group(old_entries, x, w);
                            assert(first_group(s2, x, w));
                        } else {
                            assert forall|j: int| 0 <= j < s2.len() implies s2[j].0@ != x by {
                                if j < old_entries.len() {
                                    assert(s2[j] == old_entries[j]);
                                }
                            }
                        }
                    }
                    assert(self@ =~= old(self)@.insert(ns@, group_of(old(self)@, ns@).push(f@)));
                }
            },
        }
    }
}

/// Names of the namespaces with injection or ambient enabled.
pub open spec fn enrolled_names(nss: Seq<NamespaceContext>) -> Seq<Seq<char>>
    decreases nss.len(),
{
    if nss.len() == 0 {
        Seq::empty()
    } else {
        let p = enrolled_names(nss.drop_last());
        if nss.last().injection_enabled || nss.last().ambient_enabled {
            p.push(nss.last().name@)
        } else {
            p
        }
    }
}

/// Names of the namespaces with workloads.
pub open spec fn names_with_workloads(nss: Seq<NamespaceContext>) -> Seq<Seq<char>>
    decreases nss.len(),
{
    if nss.len() == 0 {
        Seq::empty()
    } else {
        let p = names_with_workloads(nss.drop_last());
        if nss.last().workload_count > 0 {
            p.push(nss.last().name@)
        } else {
            p
        }
    }
}

/// Namespaces a cluster-wide finding concerns, by rule.
pub open spec fn spec_cluster_targets(f: FindingView, ctx: RuleContext) -> Seq<Seq<char>> {
    if f.id == "traffic.vs-httproute-conflict"@ {
        namespaces_of(strings_view(ctx.policies.virtual_services@) + strings_view(ctx.policies.http_routes@))
    } else if f.id == "traffic.mixed-mode-l7-bypass"@ {
        enrolled_names(ctx.namespaces@)
    } else if f.id == "readiness.gateway-api"@ || f.id == "readiness.ambient-components"@ || f.id
        == "readiness.istio-version"@ {
        names_with_workloads(ctx.namespaces@)
    } else {
        Seq::empty()
    }
}

/// Namespaces a finding is attributed to.
pub open spec fn finding_targets(f: FindingView, ctx: RuleContext) -> Seq<Seq<char>> {
    match spec_finding_namespace(f) {
        Some(ns) => seq![ns],
        None => spec_cluster_targets(f, ctx),
    }
}

/// `n` copies of a finding.
pub open spec fn copies(f: FindingView, n: nat) -> Seq<FindingView> {
    Seq::new(n, |i: int| f)
}

/// Findings attributed to a namespace, in order, a finding once per time it targets it.
pub open spec fn findings_for(fs: Seq<FindingView>, ctx: RuleContext, ns: Seq<char>) -> Seq<FindingView>
    decreases fs.len(),
{
    if fs.len() == 0 {
        Seq::empty()
    } else {
        findings_for(fs.drop_last(), ctx, ns) + copies(fs.last(), occurrences(finding_targets(fs.last(), ctx), ns))
    }
}

/// Findings attributed to no namespace, in order.
pub open spec fn cluster_only(fs: Seq<FindingView>, ctx: RuleContext) -> Seq<FindingView>
    decreases fs.len(),
{
    if fs.len() == 0 {
        Seq::empty()
    } else if finding_targets(fs.last(), ctx).len() == 0 {
        cluster_only(fs.drop_last(), ctx).push(fs.last())
    } else {
        cluster_only(fs.drop_last(), ctx)
    }
}

fn enrolled_namespace_names(nss: &Vec<NamespaceContext>) -> (r: Vec<String>)
    ensures
        strings_view(r@) == enrolled_names(nss@),
{
    let mut out: Vec<String> = Vec::new();
    let mut i: usize = 0;
    while i < nss.len()
        invariant
            i <= nss@.len(),
            strings_view(out@) == enrolled_names(nss@.take(i as int)),
        decreases nss@.len() - i,
    {
        assert(nss@.take(i + 1).drop_last() =~= nss@.take(i as int));
        if nss[i].injection_enabled || nss[i].ambient_enabled {
            let ghost before = out@;
            out.push(nss[i].name.clone());
            assert(strings_view(out@) =~= strings_view(before).push(nss@[i as int].name@));
        }
        i += 1;
    }
    assert(nss@.take(nss@.len() as int) =~= nss@);
    out
}

fn namespaces_with_workloads(nss: &Vec<NamespaceContext>) -> (r: Vec<String>)
    ensures
        strings_view(r@) == names_with_workloads(nss@),
{
    let mut out: Vec<String> = Vec::new();
    let mut i: usize = 0;
    while i < nss.len()
        invariant
            i <= nss@.len(),
            strings_view(out@) == names_with_workloads(nss@.take(i as int)),
        decreases nss@.len() - i,
    {
        assert(nss@.take(i + 1).drop_last() =~= nss@.take(i as int));
        if nss[i].workload_count > 0 {
            let ghost before = out@;
            out.push(nss[i].name.clone());
            assert(strings_view(out@) =~= strings_view(before).push(nss@[i as int].name@));
        }
        i += 1;
    }
    assert(nss@.take(nss@.len() as int) =~= nss@);
    out
}

pub proof fn lemma_occurrences_same_set(a: Seq<Seq<char>>, b: Seq<Seq<char>>, x: Seq<char>)
    requires
        a.no_duplicates(),
        b.no_duplicates(),
        forall|y: Seq<char>| a.contains(y) <==> b.contains(y),
    ensures
        occurrences(a, x) == occurrences(b, x),
{
    lemma_occurrences_distinct(a, x);
    lemma_occurrences_distinct(b, x);
}

/// Namespaces affected by a finding with no explicit `namespace` field; the namespaces of a
/// VirtualService/HTTPRoute conflict come each once, in ascending order.
pub fn cluster_finding_target_namespaces(f: &Finding, ctx: &RuleContext) -> (r: Vec<String>)
    ensures
        forall|x: Seq<char>| occurrences(strings_view(r@), x) == occurrences(spec_cluster_targets(f@, *ctx), x),
        strings_view(r@).len() == 0 <==> spec_cluster_targets(f@, *ctx).len() == 0,
        f@.id == "traffic.vs-httproute-conflict"@ ==> sorted_set_of(strings_view(r@), spec_cluster_targets(f@, *ctx)),
        f@.id != "traffic.vs-httproute-conflict"@ ==> strings_view(r@) == spec_cluster_targets(f@, *ctx),
{
    let id = f.id.as_str();
    if str_eq(id, "traffic.vs-httproute-conflict") {
        let r = namespaces_from_policy_refs(&ctx.policies.virtual_services, &ctx.policies.http_routes);
        proof {
            let t = spec_cluster_targets(f@, *ctx);
            lemma_namespaces_of_distinct(strings_view(ctx.policies.virtual_services@) + strings_view(ctx.policies.http_routes@));
            lemma_strictly_sorted_distinct(strings_view(r@));
            assert forall|x: Seq<char>| occurrences(strings_view(r@), x) == occurrences(t, x) by {
                lemma_occurrences_same_set(strings_view(r@), t, x);
            }
            if t.len() > 0 {
                assert(t.contains(t[0]));
                assert(strings_view(r@).contains(t[0]));
            }
            if strings_view(r@).len() > 0 {
                assert(strings_view(r@).contains(strings_view(r@)[0]));
            }
        }
        r
    } else if str_eq(id, "traffic.mixed-mode-l7-bypass") {
        enrolled_namespace_names(&ctx.namespaces)
    } else if str_eq(id, "readiness.gateway-api") || str_eq(id, "readiness.ambient-components") || str_eq(
        id,
        "readiness.istio-version",
    ) {
        namespaces_with_workloads(&ctx.namespaces)
    } else {
        let r: Vec<String> = Vec::new();
        assert(strings_view(r@) =~= Seq::<Seq<char>>::empty());
        r
    }
}

pub proof fn lemma_occurrences_push(s: Seq<Seq<char>>, y: Seq<char>, x: Seq<char>)
    ensures
        occurrences(s.push(y), x) == occurrences(s, x) + if y == x { 1nat } else { 0nat },
{
    assert(s.push(y).drop_last() =~= s);
}

/// Partition findings per namespace; returns unattributed cluster findings separately.
pub fn partition_findings_by_namespace(all_findings: &[Finding], ctx: &RuleContext) -> (r: (NamespaceFindings, Vec<Finding>))
    ensures
        forall|ns: Seq<char>|
            r.0@.contains_key(ns) <==> findings_for(crate::model::findings_view(all_findings@), *ctx, ns).len() > 0,
        forall|ns: Seq<char>|
            r.0@.contains_key(ns) ==> r.0@[ns] == findings_for(crate::model::findings_view(all_findings@), *ctx, ns),
        crate::model::findings_view(r.1@) == cluster_only(crate::model::findings_view(all_findings@), *ctx),
{
    let ghost fv = crate::model::findings_view(all_findings@);
    let mut by_ns = NamespaceFindings::new();
    let mut cluster: Vec<Finding> = Vec::new();
    let mut i: usize = 0;
    while i < all_findings.len()
        invariant
            fv == crate::model::findings_view(all_findings@),
            i <= all_findings@.len(),
            forall|x: Seq<char>| by_ns@.contains_key(x) <==> group_of(by_ns@, x).len() > 0,
            forall|x: Seq<char>| #[trigger] group_of(by_ns@, x) == findings_for(fv.take(i as int), *ctx, x),
            crate::model::findings_view(cluster@) == cluster_only(fv.take(i as int), *ctx),
        decreases all_findings@.len() - i,
    {
        let f = &all_findings[i];
        let ghost fvi = fv[i as int];
        assert(fv.take(i + 1).drop_last() =~= fv.take(i as int));
        assert(fv.take(i + 1).last() == fvi);
        let ghost before = by_ns@;
        let ghost prefix = fv.take(i as int);
        match finding_namespace(f) {
            Some(ns) => {
                by_ns.add(ns.as_str(), f.duplicate());
                proof {
                    assert(finding_targets(fvi, *ctx) == seq![ns@]);
                    assert forall|x: Seq<char>| #[trigger] group_of(by_ns@, x) == findings_for(fv.take(i + 1), *ctx, x) by {
                        assert(seq![ns@] =~= Seq::<Seq<char>>::empty().push(ns@));
                        lemma_occurrences_push(Seq::<Seq<char>>::empty(), ns@, x);
                        if x == ns@ {
                            assert(copies(fvi, 1) =~= seq![fvi]);
                            assert(group_of(before, x).push(fvi) =~= group_of(before, x) + seq![fvi]);
                        } else {
                            assert(copies(fvi, 0) =~= Seq::<FindingView>::empty());
                            assert(findings_for(prefix, *ctx, x) + copies(fvi, 0) =~= findings_for(prefix, *ctx, x));
                        }
                    }
                    assert forall|x: Seq<char>| by_ns@.contains_key(x) <==> group_of(by_ns@, x).len() > 0 by {
                        if x != ns@ {
                            assert(group_of(by_ns@, x) == group_of(before, x));
                        }
                    }
                }
                assert(crate::model::findings_view(cluster@) == cluster_only(fv.take(i + 1), *ctx));
            },
            None => {
                let targets = cluster_finding_target_namespaces(f, ctx);
                let ghost tv = strings_view(targets@);
                if targets.len() == 0 {
                    let ghost cbefore = cluster@;
                    cluster.push(f.duplicate());
                    proof {
                        assert(crate::model::findings_view(cluster@) =~= crate::model::findings_view(cbefore).push(fvi));
                        assert forall|x: Seq<char>| #[trigger] group_of(by_ns@, x) == findings_for(fv.take(i + 1), *ctx, x) by {
                            assert(occurrences(finding_targets(fvi, *ctx), x) == 0) by {
                                assert(occurrences(tv, x) == 0);
                            }
                            assert(copies(fvi, 0) =~= Seq::<FindingView>::empty());
                            assert(findings_for(prefix, *ctx, x) + copies(fvi, 0) =~= findings_for(prefix, *ctx, x));
                        }
                    }
                } else {
                    let mut k: usize = 0;
                    while k < targets.len()
                        invariant
                            tv == strings_view(targets@),
                            k <= targets@.len(),
                            forall|x: Seq<char>| by_ns@.contains_key(x) <==> group_of(by_ns@, x).len() > 0,
                            forall|x: Seq<char>| #[trigger] group_of(by_ns@, x) == group_of(before, x) + copies(
                                fvi,
                                occurrences(tv.take(k as int), x),
                            ),
                            fvi == f@,
                        decreases targets@.len() - k,
                    {
                        let ghost mid = by_ns@;
                        by_ns.add(targets[k].as_str(), f.duplicate());
                        proof {
                            let t = targets@[k as int]@;
                            assert(tv.take(k + 1) =~= tv.take(k as int).push(t));
                            assert forall|x: Seq<char>| #[trigger] group_of(by_ns@, x) == group_of(before, x) + copies(
                                fvi,
                                occurrences(tv.take(k + 1), x),
                            ) by {
                                lemma_occurrences_push(tv.take(k as int), t, x);
                                let n = occurrences(tv.take(k as int), x);
                                if x == t {
                                    assert(copies(fvi, n + 1) =~= copies(fvi, n).push(fvi));
                                    assert(group_of(mid, x).push(fvi) =~= group_of(before, x) + copies(fvi, n + 1));
                                }
                            }
                            assert forall|x: Seq<char>| by_ns@.contains_key(x) <==> group_of(by_ns@, x).len() > 0 by {
                                if x != t {
                                    assert(group_of(by_ns@, x) == group_of(mid, x));
                                }
                            }
                        }
                        k += 1;
                    }
                    proof {
                        assert(tv.take(tv.len() as int) =~= tv);
                        assert forall|x: Seq<char>| #[trigger] group_of(by_ns@, x) == findings_for(fv.take(i + 1), *ctx, x) by {
                            assert(occurrences(finding_targets(fvi, *ctx), x) == occurrences(tv, x));
                        }
                        assert(finding_targets(fvi, *ctx).len() != 0);
                    }
                }
            },
        }
        i += 1;
    }
    assert(fv.take(all_findings@.len() as int) =~= fv);
    (by_ns, cluster)
}

/// Most namespaces a finding is attributed to.
pub open spec fn finding_fanout(ctx: RuleContext) -> int {
    (1 + ctx.namespaces@.len() + ctx.policies.virtual_services@.len() + ctx.policies.http_routes@.len()) as int
}

pub proof fn lemma_namespaces_of_len(refs: Seq<Seq<char>>)
    ensures
        namespaces_of(refs).len() <= refs.len(),
    decreases refs.len(),
{
    if refs.len() > 0 {
        lemma_namespaces_of_len(refs.drop_last());
    }
}

pub proof fn lemma_name_lists_len(nss: Seq<NamespaceContext>)
    ensures
        enrolled_names(nss).len() <= nss.len(),
        names_with_workloads(nss).len() <= nss.len(),
    decreases nss.len(),
{
    if nss.len() > 0 {
        lemma_name_lists_len(nss.drop_last());
    }
}

pub proof fn lemma_occurrences_le_len(s: Seq<Seq<char>>, x: Seq<char>)
    ensures
        occurrences(s, x) <= s.len(),
    decreases s.len(),
{
    if s.len() > 0 {
        lemma_occurrences_le_len(s.drop_last(), x);
    }
}

pub proof fn lemma_targets_len(f: FindingView, ctx: RuleContext)
    ensures
        finding_targets(f, ctx).len() <= finding_fanout(ctx),
{
    lemma_namespaces_of_len(strings_view(ctx.policies.virtual_services@) + strings_view(ctx.policies.http_routes@));
    lemma_name_lists_len(ctx.namespaces@);
}

/// A namespace gets at most `finding_fanout` copies of each finding.
pub proof fn lemma_findings_for_len(fs: Seq<FindingView>, ctx: RuleContext, ns: Seq<char>)
    ensures
        findings_for(fs, ctx, ns).len() <= fs.len() * finding_fanout(ctx),
    decreases fs.len(),
{
    if fs.len() > 0 {
        lemma_findings_for_len(fs.drop_last(), ctx, ns);
        lemma_targets_len(fs.last(), ctx);
        lemma_occurrences_le_len(finding_targets(fs.last(), ctx), ns);
        let b = finding_fanout(ctx);
        let n = fs.len() as int;
        assert((n - 1) * b + b == n * b) by (nonlinear_arith);
    }
}


/// How findings are attributed, finding by finding and in input order: a finding that
/// names its namespace (directly or through its `namespace/name` resource) goes to that
/// namespace alone; one that does not goes to every namespace its rule concerns; one that
/// goes to no namespace stays cluster-wide. When no finding concerns a namespace twice,
/// the findings of a namespace are exactly the input findings attributed to it, in order.
pub proof fn law_partition_by_namespace(fs: Seq<FindingView>, ctx: RuleContext, ns: Seq<char>)
    ensures
        forall|i: int|
            0 <= i < fs.len() ==> finding_targets(#[trigger] fs[i], ctx) == match spec_finding_namespace(fs[i]) {
                Some(n) => seq![n],
                None => spec_cluster_targets(fs[i], ctx),
            },
        cluster_only(fs, ctx) == fs.filter(|f: FindingView| finding_targets(f, ctx).len() == 0),
        (forall|i: int| 0 <= i < fs.len() ==> (#[trigger] finding_targets(fs[i], ctx)).no_duplicates()) ==> findings_for(
            fs,
            ctx,
            ns,
        ) == fs.filter(|f: FindingView| finding_targets(f, ctx).contains(ns)),
    decreases fs.len(),
{
    reveal(Seq::filter);
    if fs.len() > 0 {
        let p = fs.drop_last();
        law_partition_by_namespace(p, ctx, ns);
        assert(fs.filter(|f: FindingView| finding_targets(f, ctx).len() == 0) == {
            let q = p.filter(|f: FindingView| finding_targets(f, ctx).len() == 0);
            if finding_targets(fs.last(), ctx).len() == 0 { q.push(fs.last()) } else { q }
        });
        if forall|i: int| 0 <= i < fs.len() ==> (#[trigger] finding_targets(fs[i], ctx)).no_duplicates() {
            assert forall|i: int| 0 <= i < p.len() implies (#[trigger] finding_targets(p[i], ctx)).no_duplicates() by {
                assert(p[i] == fs[i]);
                assert(finding_targets(fs[i], ctx).no_duplicates());
            }
            let t = finding_targets(fs.last(), ctx);
            assert(t == finding_targets(fs[fs.len() - 1], ctx));
            lemma_occurrences_distinct(t, ns);
            let q = p.filter(|f: FindingView| finding_targets(f, ctx).contains(ns));
            assert(fs.filter(|f: FindingView| finding_targets(f, ctx).contains(ns)) == if t.contains(ns) {
                q.push(fs.last())
            } else {
                q
            });
            if t.contains(ns) {
                assert(copies(fs.last(), 1) =~= seq![fs.last()]);
                assert(q + seq![fs.last()] =~= q.push(fs.last()));
            } else {
                assert(copies(fs.last(), 0) =~= Seq::<FindingView>::empty());
                assert(q + Seq::<FindingView>::empty() =~= q);
            }
        }
    }
}

/// The cluster-wide findings are findings of the input.
pub proof fn law_cluster_findings_from_input(fs: Seq<FindingView>, ctx: RuleContext)
    ensures
        forall|i: int| 0 <= i < cluster_only(fs, ctx).len() ==> fs.contains(#[trigger] cluster_only(fs, ctx)[i]),
    decreases fs.len(),
{
    if fs.len() > 0 {
        let p = fs.drop_last();
        law_cluster_findings_from_input(p, ctx);
        let c = cluster_only(fs, ctx);
        let cp = cluster_only(p, ctx);
        assert forall|i: int| 0 <= i < c.len() implies fs.contains(#[trigger] c[i]) by {
            if i < cp.len() {
                assert(c[i] == cp[i]);
                assert(p.contains(cp[i]));
                let k = choose|k: int| 0 <= k < p.len() && p[k] == cp[i];
                assert(fs[k] == p[k]);
            } else {
                assert(c[i] == fs.last());
                assert(fs[fs.len() - 1] == fs.last());
            }
        }
    }
}

} // verus!
