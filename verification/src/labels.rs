//! Kubernetes label sets: a finite map from label keys to values.

use vstd::prelude::*;

use crate::text::str_eq;

verus! {

/// Key/value labels. The first entry with a key gives that key's value.
#[derive(Debug)]
pub struct Labels {
    pub entries: Vec<(String, String)>,
}

/// Map denoted by a list of entries, the first entry of each key winning.
pub open spec fn entries_map(s: Seq<(String, String)>) -> Map<Seq<char>, Seq<char>>
    decreases s.len(),
{
    if s.len() == 0 {
        Map::empty()
    } else {
        let m = entries_map(s.drop_last());
        if m.contains_key(s.last().0@) {
            m
        } else {
            m.insert(s.last().0@, s.last().1@)
        }
    }
}

/// `i` is the first entry with key `k`.
pub open spec fn first_entry(s: Seq<(String, String)>, k: Seq<char>, i: int) -> bool {
    0 <= i < s.len() && s[i].0@ == k && forall|j: int| 0 <= j < i ==> s[j].0@ != k
}

pub proof fn lemma_entries_map(s: Seq<(String, String)>, k: Seq<char>)
    ensures
        entries_map(s).contains_key(k) <==> exists|i: int| 0 <= i < s.len() && s[i].0@ == k,
        forall|i: int| first_entry(s, k, i) ==> entries_map(s)[k] == s[i].1@,
    decreases s.len(),
{
    if s.len() > 0 {
        let p = s.drop_last();
        lemma_entries_map(p, k);
        if entries_map(p).contains_key(k) {
            let w = choose|i: int| 0 <= i < p.len() && p[i].0@ == k;
            assert(s[w].0@ == k);
        }
        assert forall|i: int| first_entry(s, k, i) implies entries_map(s)[k] == s[i].1@ by {
            if i < s.len() - 1 {
                assert(first_entry(p, k, i));
            } else {
                assert forall|j: int| 0 <= j < p.len() implies p[j].0@ != k by {
                    assert(p[j] == s[j]);
                }
            }
        }
        if exists|i: int| 0 <= i < s.len() && s[i].0@ == k {
            let w = choose|i: int| 0 <= i < s.len() && s[i].0@ == k;
            if w < s.len() - 1 {
                assert(p[w].0@ == k);
            }
        }
    }
}

pub proof fn lemma_entries_map_other(s: Seq<(String, String)>, k: Seq<char>, t: Seq<(String, String)>)
    requires
        t.len() == s.len(),
        forall|i: int| 0 <= i < s.len() ==> (#[trigger] t[i]).0@ == s[i].0@,
        forall|i: int| 0 <= i < s.len() && s[i].0@ != k ==> (#[trigger] t[i]).1@ == s[i].1@,
    ensures
        entries_map(t).remove(k) == entries_map(s).remove(k),
        entries_map(t).dom() == entries_map(s).dom(),
    decreases s.len(),
{
    if s.len() > 0 {
        let sp = s.drop_last();
        let tp = t.drop_last();
        assert forall|i: int| 0 <= i < sp.len() implies (#[trigger] tp[i]).0@ == sp[i].0@ by {
            assert(tp[i] == t[i]);
            assert(sp[i] == s[i]);
        }
        assert forall|i: int| 0 <= i < sp.len() && sp[i].0@ != k implies (#[trigger] tp[i]).1@
            == sp[i].1@ by {
            assert(tp[i] == t[i]);
            assert(sp[i] == s[i]);
        }
        lemma_entries_map_other(sp, k, tp);
        let ms = entries_map(sp);
        let mt = entries_map(tp);
        let n = s.len() - 1;
        assert(t.last() == t[n]);
        assert(s.last() == s[n]);
        let kk = s[n].0@;
        assert(t[n].0@ == kk);
        assert(ms.contains_key(kk) == mt.contains_key(kk)) by {
            assert(ms.dom().contains(kk) == mt.dom().contains(kk));
        }
        if kk != k {
            assert(t[n].1@ == s[n].1@);
            if !ms.contains_key(kk) {
                assert(entries_map(t) == mt.insert(kk, t[n].1@));
                assert(entries_map(s) == ms.insert(kk, s[n].1@));
                assert(entries_map(t).remove(k) =~= mt.remove(k).insert(kk, s[n].1@));
                assert(entries_map(s).remove(k) =~= ms.remove(k).insert(kk, s[n].1@));
            }
        } else {
            if !ms.contains_key(kk) {
                assert(entries_map(t).remove(k) =~= mt.remove(k));
                assert(entries_map(s).remove(k) =~= ms.remove(k));
            }
        }
        assert(entries_map(t).remove(k) =~= entries_map(s).remove(k));
        assert(entries_map(t).dom() =~= entries_map(s).dom());
    } else {
        assert(entries_map(t).remove(k) =~= entries_map(s).remove(k));
        assert(entries_map(t).dom() =~= entries_map(s).dom());
    }
}

impl View for Labels {
    type V = Map<Seq<char>, Seq<char>>;

    open spec fn view(&self) -> Map<Seq<char>, Seq<char>> {
        entries_map(self.entries@)
    }
}

impl Labels {
    /// No labels.
    pub fn new() -> (r: Labels)
        ensures
            r@ == Map::<Seq<char>, Seq<char>>::empty(),
    {
        Labels { entries: Vec::new() }
    }

    /// Number of stored entries.
    pub fn len(&self) -> (r: usize)
        ensures
            r == self.entries@.len(),
    {
        self.entries.len()
    }

    fn find(&self, key: &str) -> (r: Option<usize>)
        ensures
            match r {
                Some(i) => first_entry(self.entries@, key@, i as int),
                None => forall|j: int| 0 <= j < self.entries@.len() ==> self.entries@[j].0@ != key@,
            },
    {
        let mut i: usize = 0;
        while i < self.entries.len()
            invariant
                i <= self.entries@.len(),
                forall|j: int| 0 <= j < i ==> self.entries@[j].0@ != key@,
            decreases self.entries@.len() - i,
        {
            if str_eq(self.entries[i].0.as_str(), key) {
                return Some(i);
            }
            i += 1;
        }
        None
    }

    /// Value of a key.
    pub fn get(&self, key: &str) -> (r: Option<&String>)
        ensures
            r is Some <==> self@.contains_key(key@),
            r matches Some(v) ==> v@ == self@[key@],
    {
        proof {
            lemma_entries_map(self.entries@, key@);
        }
        match self.find(key) {
            Some(i) => Some(&self.entries[i].1),
            None => None,
        }
    }

    /// Whether a key is present.
    pub fn contains_key(&self, key: &str) -> (r: bool)
        ensures
            r == self@.contains_key(key@),
    {
        self.get(key).is_some()
    }

    /// Whether a key is present with the given value.
    pub fn has_value(&self, key: &str, value: &str) -> (r: bool)
        ensures
            r == (self@.contains_key(key@) && self@[key@] == value@),
    {
        match self.get(key) {
            Some(v) => str_eq(v.as_str(), value),
            None => false,
        }
    }

    /// Set the value of a key.
    pub fn insert(&mut self, key: String, value: String)
        ensures
            final(self)@ == old(self)@.insert(key@, value@),
    {
        proof {
            lemma_entries_map(self.entries@, key@);
        }
        match self.find(key.as_str()) {
            Some(i) => {
                let ghost before = self.entries@;
                let k = self.entries[i].0.clone();
                self.entries.set(i, (k, value));
                proof {
                    let after = self.entries@;
                    lemma_entries_map_other(before, key@, after);
                    lemma_entries_map(after, key@);
                    assert(first_entry(after, key@, i as int));
                    assert(entries_map(after).contains_key(key@));
                    assert(entries_map(after)[key@] == value@);
                    assert(entries_map(after) =~= entries_map(before).insert(key@, value@)) by {
                        assert forall|k2: Seq<char>| k2 != key@ implies entries_map(after).contains_key(k2)
                            == entries_map(before).contains_key(k2) by {
                            assert(entries_map(after).remove(key@).contains_key(k2)
                                == entries_map(before).remove(key@).contains_key(k2));
                        }
                        assert forall|k2: Seq<char>| k2 != key@ && entries_map(after).contains_key(k2) implies
                            entries_map(after)[k2] == entries_map(before)[k2] by {
                            assert(entries_map(after).remove(key@)[k2] == entries_map(before).remove(key@)[k2]);
                        }
                    }
                }
            },
            None => {
                let ghost before = self.entries@;
                self.entries.push((key, value));
                proof {
                    assert(self.entries@.drop_last() =~= before);
                }
            },
        }
    }

    /// Copy with the same value.
    pub fn duplicate(&self) -> (r: Labels)
        ensures
            r@ == self@,
    {
        let mut out: Vec<(String, String)> = Vec::new();
        let mut i: usize = 0;
        while i < self.entries.len()
            invariant
                i <= self.entries@.len(),
                out@ == self.entries@.take(i as int),
            decreases self.entries@.len() - i,
        {
            let k = self.entries[i].0.clone();
            let v = self.entries[i].1.clone();
            out.push((k, v));
            i += 1;
            assert(out@ =~= self.entries@.take(i as int));
        }
        assert(self.entries@.take(self.entries@.len() as int) =~= self.entries@);
        Labels { entries: out }
    }

    /// Key of the `i`-th stored entry.
    pub fn key_at(&self, i: usize) -> (r: &String)
        requires
            i < self.entries@.len(),
        ensures
            self@.contains_key(r@),
    {
        proof {
            lemma_entries_map(self.entries@, self.entries@[i as int].0@);
        }
        &self.entries[i].0
    }

    /// Value of the `i`-th stored entry.
    pub fn value_at(&self, i: usize) -> (r: &String)
        requires
            i < self.entries@.len(),
        ensures
            r@ == self.entries@[i as int].1@,
    {
        &self.entries[i].1
    }
}

} // verus!
