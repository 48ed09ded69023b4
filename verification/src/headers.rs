//! The header store: an insertion-ordered sequence of (name, value) pairs
//! whose lookups compare names without regard to ASCII case, per RFC 7230.
//! At most one entry exists per folded name; a later `add` under the same
//! key overwrites the value but keeps the casing the name was first
//! inserted with.

use vstd::prelude::*;

use crate::text::{eq_ignore_ascii_case, lower};

verus! {

/// One entry matches a queried name when the ASCII-folded names coincide.
pub open spec fn has_name(s: Seq<(Seq<char>, Seq<char>)>, name: Seq<char>) -> bool {
    exists|i: int| 0 <= i < s.len() && lower(s[i].0) == lower(name)
}

/// The position of the entry for `name`; meaningful only when `has_name`
/// holds and names are unique.
pub open spec fn idx_of_name(s: Seq<(Seq<char>, Seq<char>)>, name: Seq<char>) -> int {
    choose|i: int| 0 <= i < s.len() && lower(s[i].0) == lower(name)
}

/// No two entries share an ASCII-folded name.
pub open spec fn names_unique(s: Seq<(Seq<char>, Seq<char>)>) -> bool {
    forall|i: int, j: int| 0 <= i < j < s.len() ==> lower(s[i].0) != lower(s[j].0)
}

/// The stored value for `name`, if any.
pub open spec fn spec_get(s: Seq<(Seq<char>, Seq<char>)>, name: Seq<char>) -> Option<Seq<char>> {
    if has_name(s, name) {
        Some(s[idx_of_name(s, name)].1)
    } else {
        None
    }
}

/// The store after `add(name, value)`: overwrite in place under an existing
/// key (keeping the stored casing), append otherwise.
pub open spec fn spec_add(
    s: Seq<(Seq<char>, Seq<char>)>,
    name: Seq<char>,
    value: Seq<char>,
) -> Seq<(Seq<char>, Seq<char>)> {
    if has_name(s, name) {
        s.update(idx_of_name(s, name), (s[idx_of_name(s, name)].0, value))
    } else {
        s.push((name, value))
    }
}

/// The store after `remove(name)`: the entry for the key is gone, all other
/// entries keep their relative order.
pub open spec fn spec_remove(
    s: Seq<(Seq<char>, Seq<char>)>,
    name: Seq<char>,
) -> Seq<(Seq<char>, Seq<char>)> {
    if has_name(s, name) {
        s.remove(idx_of_name(s, name))
    } else {
        s
    }
}

pub struct Headers {
    entries: Vec<(String, String)>,
}

impl View for Headers {
    type V = Seq<(Seq<char>, Seq<char>)>;

    closed spec fn view(&self) -> Seq<(Seq<char>, Seq<char>)> {
        Seq::new(self.entries@.len(), |i: int| (self.entries@[i].0@, self.entries@[i].1@))
    }
}

impl Headers {
    /// The store's invariant: keys are unique up to ASCII case.
    pub open spec fn wf(&self) -> bool {
        names_unique(self@)
    }

    pub fn new() -> (r: Headers)
        ensures
            r@ == Seq::<(Seq<char>, Seq<char>)>::empty(),
            r.wf(),
    {
        let r = Headers { entries: Vec::new() };
        proof {
            assert(r@ =~= Seq::<(Seq<char>, Seq<char>)>::empty());
        }
        r
    }

    pub fn len(&self) -> (r: usize)
        ensures
            r == self@.len(),
    {
        self.entries.len()
    }

    /// The entry at a position of the insertion order.
    pub fn entry_at(&self, i: usize) -> (r: (String, String))
        requires
            i < self@.len(),
        ensures
            (r.0@, r.1@) == self@[i as int],
    {
        let pair = &self.entries[i];
        (pair.0.clone(), pair.1.clone())
    }

    /// The position of the entry whose name folds like `name`, if any.
    fn find(&self, name: &str) -> (r: Option<usize>)
        ensures
            match r {
                Some(i) => i < self@.len() && lower(self@[i as int].0) == lower(name@),
                None => !has_name(self@, name@),
            },
    {
        let mut i: usize = 0;
        let n = self.entries.len();
        while i < n
            invariant
                n == self@.len(),
                i <= n,
                n == self.entries@.len(),
                forall|j: int| 0 <= j < i ==> lower(self@[j].0) != lower(name@),
            decreases n - i,
        {
            if eq_ignore_ascii_case(self.entries[i].0.as_str(), name) {
                assert(lower(self@[i as int].0) == lower(name@));
                return Some(i);
            }
            assert(lower(self@[i as int].0) != lower(name@));
            i += 1;
        }
        None
    }

    /// Looks a header up by name, without regard to ASCII case.
    pub fn get(&self, name: &str) -> (r: Option<String>)
        requires
            self.wf(),
        ensures
            match r {
                Some(v) => spec_get(self@, name@) == Some(v@),
                None => spec_get(self@, name@) is None,
            },
    {
        match self.find(name) {
            Some(i) => {
                proof {
                    let k = idx_of_name(self@, name@);
                    assert(0 <= k < self@.len() && lower(self@[k].0) == lower(name@));
                    assert(k == i);
                }
                Some(self.entries[i].1.clone())
            },
            None => None,
        }
    }

    /// Adds a header. Under an existing key (up to ASCII case) the value is
    /// overwritten in place and the stored casing is kept; otherwise the
    /// pair is appended.
    pub fn add(&mut self, name: String, value: String)
        requires
            old(self).wf(),
        ensures
            final(self)@ == spec_add(old(self)@, name@, value@),
            final(self).wf(),
    {
        match self.find(name.as_str()) {
            Some(i) => {
                proof {
                    let k = idx_of_name(old(self)@, name@);
                    assert(0 <= k < old(self)@.len() && lower(old(self)@[k].0) == lower(name@));
                    assert(k == i);
                }
                let pair = self.entries.remove(i);
                self.entries.insert(i, (pair.0, value));
                proof {
                    assert(self@ =~= spec_add(old(self)@, name@, value@));
                    assert forall|a: int, b: int| 0 <= a < b < self@.len() implies lower(
                        self@[a].0,
                    ) != lower(self@[b].0) by {
                        assert(self@[a].0 == old(self)@[a].0);
                        assert(self@[b].0 == old(self)@[b].0);
                    }
                }
            },
            None => {
                self.entries.push((name, value));
                proof {
                    assert(self@ =~= spec_add(old(self)@, name@, value@));
                    assert forall|a: int, b: int| 0 <= a < b < self@.len() implies lower(
                        self@[a].0,
                    ) != lower(self@[b].0) by {
                        if b < self@.len() - 1 {
                            assert(self@[a].0 == old(self)@[a].0);
                            assert(self@[b].0 == old(self)@[b].0);
                        } else {
                            assert(self@[a].0 == old(self)@[a].0);
                            assert(lower(old(self)@[a].0) != lower(name@));
                        }
                    }
                }
            },
        }
    }

    /// Removes the header stored under `name` (up to ASCII case) and hands
    /// its value back, if one was there.
    pub fn remove(&mut self, name: &str) -> (r: Option<String>)
        requires
            old(self).wf(),
        ensures
            final(self)@ == spec_remove(old(self)@, name@),
            match r {
                Some(v) => spec_get(old(self)@, name@) == Some(v@),
                None => spec_get(old(self)@, name@) is None,
            },
            final(self).wf(),
    {
        match self.find(name) {
            Some(i) => {
                proof {
                    let k = idx_of_name(old(self)@, name@);
                    assert(0 <= k < old(self)@.len() && lower(old(self)@[k].0) == lower(name@));
                    assert(k == i);
                }
                let pair = self.entries.remove(i);
                proof {
                    assert(self@ =~= spec_remove(old(self)@, name@));
                    assert forall|a: int, b: int| 0 <= a < b < self@.len() implies lower(
                        self@[a].0,
                    ) != lower(self@[b].0) by {
                        let sa = if a < i { a } else { a + 1 };
                        let sb = if b < i { b } else { b + 1 };
                        assert(self@[a].0 == old(self)@[sa].0);
                        assert(self@[b].0 == old(self)@[sb].0);
                    }
                }
                Some(pair.1)
            },
            None => None,
        }
    }
}

impl Default for Headers {
    fn default() -> (r: Headers)
        ensures
            r@ == Seq::<(Seq<char>, Seq<char>)>::empty(),
            r.wf(),
    {
        Headers::new()
    }
}

/// Names differing only in ASCII case are one key: lookup sees the same
/// value under either spelling, removal yields the same store, and a store
/// extended under either spelling answers every later query alike.
pub proof fn lemma_headers_case_insensitive(
    s: Seq<(Seq<char>, Seq<char>)>,
    n1: Seq<char>,
    n2: Seq<char>,
)
    requires
        names_unique(s),
        lower(n1) == lower(n2),
    ensures
        spec_get(s, n1) == spec_get(s, n2),
        spec_remove(s, n1) == spec_remove(s, n2),
        forall|v: Seq<char>, q: Seq<char>|
            #[trigger] spec_get(spec_add(s, n1, v), q) == spec_get(spec_add(s, n2, v), q),
{
    lemma_same_key_same_idx(s, n1, n2);
    assert forall|v: Seq<char>, q: Seq<char>|
        #[trigger] spec_get(spec_add(s, n1, v), q) == spec_get(spec_add(s, n2, v), q) by {
        if has_name(s, n1) {
            assert(spec_add(s, n1, v) == spec_add(s, n2, v));
        } else {
            let s1 = s.push((n1, v));
            let s2 = s.push((n2, v));
            assert(s1.len() == s2.len());
            assert(forall|i: int| 0 <= i < s1.len() ==> lower(s1[i].0) == lower(s2[i].0));
            assert(forall|i: int| 0 <= i < s1.len() ==> s1[i].1 == s2[i].1);
            lemma_push_unique(s, n1, v);
            lemma_push_unique(s, n2, v);
            lemma_get_same_folded_names(s1, s2, q);
        }
    }
}

/// Two matching positions for one key coincide under unique names; so the
/// chosen index for two foldings of one key coincides as well.
proof fn lemma_same_key_same_idx(s: Seq<(Seq<char>, Seq<char>)>, n1: Seq<char>, n2: Seq<char>)
    requires
        names_unique(s),
        lower(n1) == lower(n2),
    ensures
        has_name(s, n1) == has_name(s, n2),
        has_name(s, n1) ==> idx_of_name(s, n1) == idx_of_name(s, n2),
        spec_get(s, n1) == spec_get(s, n2),
        spec_remove(s, n1) == spec_remove(s, n2),
{
    if has_name(s, n1) {
        let i1 = idx_of_name(s, n1);
        assert(0 <= i1 < s.len() && lower(s[i1].0) == lower(n1));
        assert(has_name(s, n2));
        let i2 = idx_of_name(s, n2);
        assert(0 <= i2 < s.len() && lower(s[i2].0) == lower(n2));
        if i1 != i2 {
            assert(lower(s[i1].0) == lower(s[i2].0));
            assert(false);
        }
    } else if has_name(s, n2) {
        let i2 = idx_of_name(s, n2);
        assert(0 <= i2 < s.len() && lower(s[i2].0) == lower(n2));
        assert(has_name(s, n1));
        assert(false);
    }
}

/// Appending a fresh key preserves uniqueness.
proof fn lemma_push_unique(s: Seq<(Seq<char>, Seq<char>)>, name: Seq<char>, value: Seq<char>)
    requires
        names_unique(s),
        !has_name(s, name),
    ensures
        names_unique(s.push((name, value))),
{
    let t = s.push((name, value));
    assert forall|i: int, j: int| 0 <= i < j < t.len() implies lower(t[i].0) != lower(t[j].0) by {
        if j < s.len() {
        } else {
            assert(t[i].0 == s[i].0);
            assert(lower(s[i].0) != lower(name));
        }
    }
}

/// Lookups agree on two stores whose entries fold alike position by
/// position and carry the same values.
proof fn lemma_get_same_folded_names(
    s1: Seq<(Seq<char>, Seq<char>)>,
    s2: Seq<(Seq<char>, Seq<char>)>,
    q: Seq<char>,
)
    requires
        s1.len() == s2.len(),
        forall|i: int| 0 <= i < s1.len() ==> lower(s1[i].0) == lower(s2[i].0),
        forall|i: int| 0 <= i < s1.len() ==> s1[i].1 == s2[i].1,
        names_unique(s1),
        names_unique(s2),
    ensures
        spec_get(s1, q) == spec_get(s2, q),
{
    if has_name(s1, q) {
        let i1 = idx_of_name(s1, q);
        assert(0 <= i1 < s1.len() && lower(s1[i1].0) == lower(q));
        assert(lower(s2[i1].0) == lower(q));
        assert(has_name(s2, q));
        let i2 = idx_of_name(s2, q);
        assert(0 <= i2 < s2.len() && lower(s2[i2].0) == lower(q));
        if i1 != i2 {
            assert(lower(s2[i1].0) == lower(s2[i2].0));
            assert(false);
        }
    } else if has_name(s2, q) {
        let i2 = idx_of_name(s2, q);
        assert(lower(s1[i2].0) == lower(q));
        assert(has_name(s1, q));
        assert(false);
    }
}

} // verus!
