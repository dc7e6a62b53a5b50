//! Resource references written `namespace/name`, and lists of them grouped by namespace.

use vstd::prelude::*;
use vstd::string::*;

use crate::text::{find_char, first_index_of, str_eq, strings_view, substring};

verus! {

/// Namespace of a `namespace/name` reference: the text before the first `/`, when both it
/// and the rest after that `/` are non-empty.
pub open spec fn resource_namespace(r: Seq<char>) -> Option<Seq<char>> {
    match first_index_of(r, '/') {
        Some(i) => if i > 0 && i + 1 < r.len() {
            Some(r.subrange(0, i))
        } else {
            None
        },
        None => None,
    }
}

/// Namespace of a `namespace/name` reference.
pub fn parse_resource_namespace(resource: &str) -> (r: Option<String>)
    ensures
        opt_text(r) == resource_namespace(resource@),
{
    match find_char(resource, '/') {
        Some(i) => {
            let n = resource.unicode_len();
            if i > 0 && i + 1 < n {
                Some(substring(resource, 0, i))
            } else {
                None
            }
        },
        None => None,
    }
}

/// View of an optional owned text.
pub open spec fn opt_text(o: Option<String>) -> Option<Seq<char>> {
    match o {
        Some(s) => Some(s@),
        None => None,
    }
}

/// References whose namespace is `ns`, in their order.
pub open spec fn refs_in(refs: Seq<Seq<char>>, ns: Seq<char>) -> Seq<Seq<char>>
    decreases refs.len(),
{
    if refs.len() == 0 {
        Seq::empty()
    } else {
        let p = refs_in(refs.drop_last(), ns);
        if resource_namespace(refs.last()) == Some(ns) {
            p.push(refs.last())
        } else {
            p
        }
    }
}

/// Namespaces of the references, each once, in order of first appearance.
pub open spec fn namespaces_of(refs: Seq<Seq<char>>) -> Seq<Seq<char>>
    decreases refs.len(),
{
    if refs.len() == 0 {
        Seq::empty()
    } else {
        let p = namespaces_of(refs.drop_last());
        match resource_namespace(refs.last()) {
            Some(n) => if p.contains(n) {
                p
            } else {
                p.push(n)
            },
            None => p,
        }
    }
}

/// Whether a list of texts holds a given text.
pub fn vec_contains_str(v: &Vec<String>, s: &str) -> (r: bool)
    ensures
        r == strings_view(v@).contains(s@),
{
    let mut i: usize = 0;
    while i < v.len()
        invariant
            i <= v@.len(),
            forall|j: int| 0 <= j < i ==> v@[j]@ != s@,
        decreases v@.len() - i,
    {
        if str_eq(v[i].as_str(), s) {
            assert(strings_view(v@)[i as int] == s@);
            return true;
        }
        i += 1;
    }
    assert(!strings_view(v@).contains(s@)) by {
        if strings_view(v@).contains(s@) {
            let k = choose|k: int| 0 <= k < strings_view(v@).len() && strings_view(v@)[k] == s@;
            assert(v@[k]@ == s@);
        }
    }
    false
}

/// References whose namespace is `ns`.
pub fn refs_in_namespace(refs: &Vec<String>, ns: &str) -> (r: Vec<String>)
    ensures
        strings_view(r@) == refs_in(strings_view(refs@), ns@),
{
    let ghost rv = strings_view(refs@);
    let mut out: Vec<String> = Vec::new();
    let mut i: usize = 0;
    while i < refs.len()
        invariant
            rv == strings_view(refs@),
            i <= refs@.len(),
            strings_view(out@) == refs_in(rv.take(i as int), ns@),
        decreases refs@.len() - i,
    {
        assert(rv.take(i + 1).drop_last() =~= rv.take(i as int));
        assert(rv.take(i + 1).last() == refs@[i as int]@);
        let n = parse_resource_namespace(refs[i].as_str());
        let hit = match &n {
            Some(x) => str_eq(x.as_str(), ns),
            None => false,
        };
        if hit {
            let ghost before = out@;
            out.push(refs[i].clone());
            assert(strings_view(out@) =~= strings_view(before).push(refs@[i as int]@));
        }
        i += 1;
    }
    assert(rv.take(refs@.len() as int) =~= rv);
    out
}

/// Namespaces of the references, each once, in order of first appearance.
pub fn namespaces_of_refs(refs: &Vec<String>) -> (r: Vec<String>)
    ensures
        strings_view(r@) == namespaces_of(strings_view(refs@)),
{
    let ghost rv = strings_view(refs@);
    let mut out: Vec<String> = Vec::new();
    let mut i: usize = 0;
    while i < refs.len()
        invariant
            rv == strings_view(refs@),
            i <= refs@.len(),
            strings_view(out@) == namespaces_of(rv.take(i as int)),
        decreases refs@.len() - i,
    {
        assert(rv.take(i + 1).drop_last() =~= rv.take(i as int));
        assert(rv.take(i + 1).last() == refs@[i as int]@);
        let n = parse_resource_namespace(refs[i].as_str());
        match n {
            Some(x) => {
                if !vec_contains_str(&out, x.as_str()) {
                    let ghost before = out@;
                    out.push(x);
                    assert(strings_view(out@) =~= strings_view(before).push(x@));
                }
            },
            None => {},
        }
        i += 1;
    }
    assert(rv.take(refs@.len() as int) =~= rv);
    out
}

} // verus!
