//! The connection cache's bookkeeping: which (host, port) pairs own a live
//! connection, and which slot each one sits in. The transports themselves
//! live with the driver, in a list aligned with these slots; keep-alive
//! reuse is exactly "the same key resolves to the same slot".

use vstd::prelude::*;

use crate::text::str_eq;

verus! {

/// Whether a key is cached.
pub open spec fn has_key(s: Seq<(Seq<char>, u16)>, host: Seq<char>, port: u16) -> bool {
    exists|i: int| 0 <= i < s.len() && s[i] == (host, port)
}

/// The slot of a cached key; meaningful only when `has_key` holds and keys
/// are unique.
pub open spec fn slot_of(s: Seq<(Seq<char>, u16)>, host: Seq<char>, port: u16) -> int {
    choose|i: int| 0 <= i < s.len() && s[i] == (host, port)
}

/// No key occupies two slots.
pub open spec fn keys_unique(s: Seq<(Seq<char>, u16)>) -> bool {
    forall|i: int, j: int| 0 <= i < j < s.len() ==> s[i] != s[j]
}

pub struct ConnectionCache {
    keys: Vec<(String, u16)>,
}

impl View for ConnectionCache {
    type V = Seq<(Seq<char>, u16)>;

    closed spec fn view(&self) -> Seq<(Seq<char>, u16)> {
        Seq::new(self.keys@.len(), |i: int| (self.keys@[i].0@, self.keys@[i].1))
    }
}

impl ConnectionCache {
    pub open spec fn wf(&self) -> bool {
        keys_unique(self@)
    }

    pub fn new() -> (r: ConnectionCache)
        ensures
            r@ == Seq::<(Seq<char>, u16)>::empty(),
            r.wf(),
    {
        let r = ConnectionCache { keys: Vec::new() };
        proof {
            assert(r@ =~= Seq::<(Seq<char>, u16)>::empty());
        }
        r
    }

    pub fn len(&self) -> (r: usize)
        ensures
            r == self@.len(),
    {
        self.keys.len()
    }

    /// The slot that holds (host, port), and whether it is new. An existing
    /// key resolves to its old slot unconditionally — liveness is never
    /// probed; a fresh key is appended, and the driver must open one
    /// connection for it and store it at that same position.
    pub fn lookup_or_insert(&mut self, host: &str, port: u16) -> (r: (usize, bool))
        requires
            old(self).wf(),
        ensures
            final(self).wf(),
            r.1 == !has_key(old(self)@, host@, port),
            !r.1 ==> final(self)@ == old(self)@ && r.0 == slot_of(old(self)@, host@, port),
            r.1 ==> final(self)@ == old(self)@.push((host@, port)) && r.0 == old(self)@.len(),
            r.0 < final(self)@.len() && final(self)@[r.0 as int] == (host@, port),
    {
        let n = self.keys.len();
        let mut i: usize = 0;
        while i < n
            invariant
                *self == *old(self),
                self.wf(),
                n == self@.len(),
                n == self.keys@.len(),
                i <= n,
                forall|j: int| 0 <= j < i ==> self@[j] != (host@, port),
            decreases n - i,
        {
            if str_eq(self.keys[i].0.as_str(), host) && self.keys[i].1 == port {
                proof {
                    assert(self@[i as int] == (host@, port));
                    let k = slot_of(self@, host@, port);
                    assert(0 <= k < self@.len() && self@[k] == (host@, port));
                    assert(k == i);
                }
                return (i, false);
            }
            assert(self@[i as int] != (host@, port));
            i += 1;
        }
        assert(!has_key(self@, host@, port));
        let ghost old_view = self@;
        self.keys.push((String::from_str(host), port));
        proof {
            assert(self@ =~= old_view.push((host@, port)));
            assert forall|a: int, b: int| 0 <= a < b < self@.len() implies self@[a] != self@[b] by {
                if b < self@.len() - 1 {
                    assert(self@[a] == old_view[a]);
                    assert(self@[b] == old_view[b]);
                } else {
                    assert(self@[a] == old_view[a]);
                    assert(old_view[a] != (host@, port));
                }
            }
        }
        (n, true)
    }
}

impl Default for ConnectionCache {
    fn default() -> (r: ConnectionCache)
        ensures
            r@ == Seq::<(Seq<char>, u16)>::empty(),
            r.wf(),
    {
        ConnectionCache::new()
    }
}

/// Keep-alive reuse: looking the same key up twice, with no other key
/// interleaved, resolves to the same slot and opens nothing new.
pub proof fn lemma_same_key_same_slot(s: Seq<(Seq<char>, u16)>, host: Seq<char>, port: u16)
    requires
        keys_unique(s),
        has_key(s, host, port),
    ensures
        0 <= slot_of(s, host, port) < s.len(),
        s[slot_of(s, host, port)] == (host, port),
{
    let i = slot_of(s, host, port);
    assert(0 <= i < s.len() && s[i] == (host, port));
}

} // verus!
