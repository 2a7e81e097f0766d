//! A header map: field names to field values, with at most one entry per name.
//! A later insertion under a name replaces the earlier value.

use vstd::prelude::*;
use crate::bytes::{append_bytes, trim, trim_str};
use vstd::utf8::encode_utf8;

verus! {

broadcast use vstd::std_specs::vec::group_vec_axioms;

/// The map that a sequence of entries denotes, a later entry winning.
pub open spec fn to_map(s: Seq<(String, String)>) -> Map<Seq<char>, Seq<char>>
    decreases s.len(),
{
    if s.len() == 0 {
        Map::empty()
    } else {
        to_map(s.drop_last()).insert(s.last().0@, s.last().1@)
    }
}

pub open spec fn distinct_names(s: Seq<(String, String)>) -> bool {
    forall|i: int, j: int| 0 <= i < j < s.len() ==> (#[trigger] s[i]).0@ != (#[trigger] s[j]).0@
}

pub proof fn lemma_to_map_absent(s: Seq<(String, String)>, k: Seq<char>)
    requires
        forall|i: int| 0 <= i < s.len() ==> (#[trigger] s[i]).0@ != k,
    ensures
        !to_map(s).contains_key(k),
        to_map(s).dom().finite(),
    decreases s.len(),
{
    if s.len() > 0 {
        let t = s.drop_last();
        assert(forall|i: int| 0 <= i < t.len() ==> #[trigger] t[i] == s[i]);
        lemma_to_map_absent(t, k);
        assert(s.last() == s[s.len() - 1]);
    }
}

pub proof fn lemma_to_map_at(s: Seq<(String, String)>, i: int)
    requires
        distinct_names(s),
        0 <= i < s.len(),
    ensures
        to_map(s).contains_key(s[i].0@),
        to_map(s)[s[i].0@] == s[i].1@,
    decreases s.len(),
{
    if i < s.len() - 1 {
        let t = s.drop_last();
        assert(forall|j: int| 0 <= j < t.len() ==> #[trigger] t[j] == s[j]);
        lemma_to_map_at(t, i);
        assert(s[i].0@ != s[s.len() - 1].0@);
    }
}

pub proof fn lemma_to_map_len(s: Seq<(String, String)>)
    requires
        distinct_names(s),
    ensures
        to_map(s).dom().finite(),
        to_map(s).len() == s.len(),
    decreases s.len(),
{
    if s.len() > 0 {
        let t = s.drop_last();
        assert(forall|j: int| 0 <= j < t.len() ==> #[trigger] t[j] == s[j]);
        lemma_to_map_len(t);
        assert forall|i: int| 0 <= i < t.len() implies (#[trigger] t[i]).0@ != s.last().0@ by {
            assert(s[i].0@ != s[s.len() - 1].0@);
        }
        lemma_to_map_absent(t, s.last().0@);
    }
}

/// Whether some entry has the name `k`, and then that the map holds its value.
pub proof fn lemma_to_map_lookup(s: Seq<(String, String)>, k: Seq<char>)
    requires
        distinct_names(s),
    ensures
        to_map(s).dom().finite(),
        to_map(s).contains_key(k) <==> exists|i: int| 0 <= i < s.len() && (#[trigger] s[i]).0@ == k,
{
    if exists|i: int| 0 <= i < s.len() && (#[trigger] s[i]).0@ == k {
        let i = choose|i: int| 0 <= i < s.len() && (#[trigger] s[i]).0@ == k;
        lemma_to_map_at(s, i);
    } else {
        lemma_to_map_absent(s, k);
    }
    lemma_to_map_len(s);
}

/// Replacing the value of an entry is an insertion under its name.
pub proof fn lemma_to_map_update(s: Seq<(String, String)>, i: int, e: (String, String))
    requires
        distinct_names(s),
        0 <= i < s.len(),
        e.0@ == s[i].0@,
    ensures
        distinct_names(s.update(i, e)),
        to_map(s.update(i, e)) == to_map(s).insert(e.0@, e.1@),
{
    let u = s.update(i, e);
    assert(distinct_names(u)) by {
        assert forall|a: int, b: int| 0 <= a < b < u.len() implies (#[trigger] u[a]).0@ != (#[trigger] u[b]).0@ by {
            assert(s[a].0@ != s[b].0@);
        }
    }
    lemma_to_map_len(s);
    lemma_to_map_len(u);
    assert forall|k: Seq<char>| #[trigger] to_map(u).contains_key(k) <==> to_map(s).insert(e.0@, e.1@).contains_key(k) by {
        lemma_to_map_lookup(s, k);
        lemma_to_map_lookup(u, k);
        if k != e.0@ {
            if exists|j: int| 0 <= j < s.len() && (#[trigger] s[j]).0@ == k {
                let j = choose|j: int| 0 <= j < s.len() && (#[trigger] s[j]).0@ == k;
                assert(u[j].0@ == k);
            }
            if exists|j: int| 0 <= j < u.len() && (#[trigger] u[j]).0@ == k {
                let j = choose|j: int| 0 <= j < u.len() && (#[trigger] u[j]).0@ == k;
                assert(s[j].0@ == k);
            }
        } else {
            lemma_to_map_at(s, i);
            lemma_to_map_at(u, i);
        }
    }
    assert forall|k: Seq<char>| #[trigger] to_map(u).contains_key(k) implies to_map(u)[k] == to_map(s).insert(e.0@, e.1@)[k] by {
        lemma_to_map_lookup(u, k);
        let j = choose|j: int| 0 <= j < u.len() && (#[trigger] u[j]).0@ == k;
        lemma_to_map_at(u, j);
        if j != i {
            lemma_to_map_at(s, j);
        }
    }
    assert(to_map(u) =~= to_map(s).insert(e.0@, e.1@));
}

/// Dropping an entry removes its name from the map.
pub proof fn lemma_to_map_remove(s: Seq<(String, String)>, i: int)
    requires
        distinct_names(s),
        0 <= i < s.len(),
    ensures
        distinct_names(s.remove(i)),
        to_map(s.remove(i)) == to_map(s).remove(s[i].0@),
{
    let u = s.remove(i);
    let n = s[i].0@;
    assert(distinct_names(u)) by {
        assert forall|a: int, b: int| 0 <= a < b < u.len() implies (#[trigger] u[a]).0@ != (#[trigger] u[b]).0@ by {
            let a2 = if a < i { a } else { a + 1 };
            let b2 = if b < i { b } else { b + 1 };
            assert(u[a] == s[a2] && u[b] == s[b2]);
        }
    }
    assert forall|k: Seq<char>| #[trigger] to_map(u).contains_key(k) <==> to_map(s).remove(n).contains_key(k) by {
        lemma_to_map_lookup(s, k);
        lemma_to_map_lookup(u, k);
        if exists|j: int| 0 <= j < s.len() && (#[trigger] s[j]).0@ == k {
            let j = choose|j: int| 0 <= j < s.len() && (#[trigger] s[j]).0@ == k;
            if j < i {
                assert(u[j].0@ == k);
            } else if j > i {
                assert(u[j - 1].0@ == k);
            }
        }
        if exists|j: int| 0 <= j < u.len() && (#[trigger] u[j]).0@ == k {
            let j = choose|j: int| 0 <= j < u.len() && (#[trigger] u[j]).0@ == k;
            if j < i {
                assert(s[j].0@ == k);
            } else {
                assert(s[j + 1].0@ == k);
            }
        }
    }
    assert forall|k: Seq<char>| #[trigger] to_map(u).contains_key(k) implies to_map(u)[k] == to_map(s).remove(n)[k] by {
        lemma_to_map_lookup(u, k);
        let j = choose|j: int| 0 <= j < u.len() && (#[trigger] u[j]).0@ == k;
        lemma_to_map_at(u, j);
        if j < i {
            lemma_to_map_at(s, j);
        } else {
            assert(u[j] == s[j + 1]);
            lemma_to_map_at(s, j + 1);
        }
    }
    assert(to_map(u) =~= to_map(s).remove(n));
}

/// The wire form of the entries: one `name: value` line each, both trimmed.
pub open spec fn encode_entries(s: Seq<(String, String)>) -> Seq<u8>
    decreases s.len(),
{
    if s.len() == 0 {
        Seq::empty()
    } else {
        encode_entries(s.drop_last()) + encode_utf8(trim(s.last().0@)) + seq![0x3au8, 0x20u8]
            + encode_utf8(trim(s.last().1@)) + seq![0x0du8, 0x0au8]
    }
}

/// Field names to field values, stored in insertion order.
#[derive(Clone, Debug)]
pub struct HeaderMap {
    entries: Vec<(String, String)>,
}

impl View for HeaderMap {
    type V = Map<Seq<char>, Seq<char>>;

    closed spec fn view(&self) -> Map<Seq<char>, Seq<char>> {
        to_map(self.entries@)
    }
}

impl HeaderMap {
    pub closed spec fn wf(&self) -> bool {
        distinct_names(self.entries@)
    }

    /// The entries in the order they are stored.
    pub closed spec fn entries_spec(&self) -> Seq<(String, String)> {
        self.entries@
    }

    pub proof fn lemma_entries(&self)
        requires
            self.wf(),
        ensures
            distinct_names(self.entries_spec()),
            self@ == to_map(self.entries_spec()),
            self@.dom().finite(),
    {
        lemma_to_map_len(self.entries@);
    }

    pub fn new() -> (r: HeaderMap)
        ensures
            r.wf(),
            r@ == Map::<Seq<char>, Seq<char>>::empty(),
            r.entries_spec().len() == 0,
    {
        HeaderMap { entries: Vec::new() }
    }

    pub fn entries(&self) -> (r: &Vec<(String, String)>)
        ensures
            r@ == self.entries_spec(),
    {
        &self.entries
    }

    fn position(&self, key: &String) -> (r: Option<usize>)
        requires
            self.wf(),
        ensures
            r matches Some(i) ==> i < self.entries@.len() && self.entries@[i as int].0@ == key@,
            r is None ==> forall|i: int| 0 <= i < self.entries@.len() ==> (#[trigger] self.entries@[i]).0@ != key@,
    {
        let mut i: usize = 0;
        while i < self.entries.len()
            invariant
                i <= self.entries@.len(),
                forall|j: int| 0 <= j < i ==> (#[trigger] self.entries@[j]).0@ != key@,
            decreases self.entries@.len() - i,
        {
            if self.entries[i].0 == *key {
                return Some(i);
            }
            i = i + 1;
        }
        None
    }

    /// The value stored under `key`.
    pub fn get(&self, key: &str) -> (r: Option<&str>)
        requires
            self.wf(),
        ensures
            r is Some <==> self@.contains_key(key@),
            r matches Some(v) ==> v@ == self@[key@],
    {
        let k = key.to_owned();
        proof {
            lemma_to_map_lookup(self.entries@, key@);
        }
        match self.position(&k) {
            Some(i) => {
                proof {
                    lemma_to_map_at(self.entries@, i as int);
                }
                Some(self.entries[i].1.as_str())
            },
            None => None,
        }
    }

    /// Stores `value` under `key`, returning the value it replaces.
    pub fn insert(&mut self, key: String, value: String) -> (r: Option<String>)
        requires
            old(self).wf(),
        ensures
            final(self).wf(),
            final(self)@ == old(self)@.insert(key@, value@),
            r is Some <==> old(self)@.contains_key(key@),
            r matches Some(v) ==> v@ == old(self)@[key@],
    {
        proof {
            lemma_to_map_lookup(self.entries@, key@);
        }
        match self.position(&key) {
            Some(i) => {
                proof {
                    lemma_to_map_at(self.entries@, i as int);
                    lemma_to_map_update(self.entries@, i as int, (key, value));
                }
                let ghost e = (key, value);
                let old_entry = self.entries.remove(i);
                self.entries.insert(i, (key, value));
                assert(self.entries@ =~= old(self).entries@.update(i as int, e));
                Some(old_entry.1)
            },
            None => {
                let ghost s = self.entries@;
                self.entries.push((key, value));
                assert(self.entries@.drop_last() =~= s);
                assert(distinct_names(self.entries@)) by {
                    assert forall|a: int, b: int| 0 <= a < b < self.entries@.len() implies
                        (#[trigger] self.entries@[a]).0@ != (#[trigger] self.entries@[b]).0@ by {
                        if b < s.len() {
                            assert(self.entries@[a] == s[a] && self.entries@[b] == s[b]);
                        } else {
                            assert(self.entries@[a] == s[a]);
                        }
                    }
                }
                None
            },
        }
    }

    /// Removes the entry under `key`, returning its value.
    pub fn remove(&mut self, key: &str) -> (r: Option<String>)
        requires
            old(self).wf(),
        ensures
            final(self).wf(),
            final(self)@ == old(self)@.remove(key@),
            r is Some <==> old(self)@.contains_key(key@),
            r matches Some(v) ==> v@ == old(self)@[key@],
    {
        let k = key.to_owned();
        proof {
            lemma_to_map_lookup(self.entries@, key@);
        }
        match self.position(&k) {
            Some(i) => {
                proof {
                    lemma_to_map_at(self.entries@, i as int);
                    lemma_to_map_remove(self.entries@, i as int);
                }
                let e = self.entries.remove(i);
                Some(e.1)
            },
            None => {
                proof {
                    lemma_to_map_absent(self.entries@, key@);
                    assert(self@.remove(key@) =~= self@);
                }
                None
            },
        }
    }

    /// Number of distinct names.
    pub fn len(&self) -> (r: usize)
        requires
            self.wf(),
        ensures
            r == self@.len(),
    {
        proof {
            lemma_to_map_len(self.entries@);
        }
        self.entries.len()
    }

    /// Appends one `name: value` line per entry to `out`.
    pub fn encode_into(&self, out: &mut Vec<u8>)
        ensures
            final(out)@ == old(out)@ + encode_entries(self.entries_spec()),
    {
        let ghost start = out@;
        let mut i: usize = 0;
        while i < self.entries.len()
            invariant
                i <= self.entries@.len(),
                out@ == start + encode_entries(self.entries@.subrange(0, i as int)),
            decreases self.entries@.len() - i,
        {
            let ghost before = out@;
            let name = trim_str(self.entries[i].0.as_str()).as_bytes();
            let value = trim_str(self.entries[i].1.as_str()).as_bytes();
            append_bytes(out, name);
            out.push(0x3au8);
            out.push(0x20u8);
            append_bytes(out, value);
            out.push(0x0du8);
            out.push(0x0au8);
            proof {
                let t = self.entries@.subrange(0, i + 1);
                assert(t.drop_last() =~= self.entries@.subrange(0, i as int));
                assert(t.last() == self.entries@[i as int]);
                assert(out@ =~= before + encode_utf8(trim(t.last().0@)) + seq![0x3au8, 0x20u8]
                    + encode_utf8(trim(t.last().1@)) + seq![0x0du8, 0x0au8]);
            }
            i = i + 1;
        }
        assert(self.entries@.subrange(0, self.entries@.len() as int) =~= self.entries@);
    }
}

} // verus!
