//! The named collection of compiled procedures assembled into a dispatch
//! table.
//!
//! Keys are unique; registering a taken key, or merging two routers that
//! share a key, is a construction-time error naming the key — never a
//! silent overwrite. Entry order is kept for schema-export passes.

use vstd::prelude::*;
use crate::InternalError;
use crate::procedure::Procedure;

verus! {

/// A router: an ordered table from key to compiled procedure, with unique
/// keys. Once assembled it is read-only and may serve concurrent lookups.
#[derive(Debug)]
pub struct Router {
    pub entries: Vec<(String, Procedure)>,
}

impl Router {
    /// Keys are unique.
    pub open spec fn wf(self) -> bool {
        forall|i: int, j: int|
            0 <= i < j < self.entries@.len() ==> self.entries@[i].0@ != self.entries@[j].0@
    }

    pub open spec fn has_key(self, k: Seq<char>) -> bool {
        exists|i: int| 0 <= i < self.entries@.len() && self.entries@[i].0@ == k
    }

    pub open spec fn key_index(self, k: Seq<char>) -> int {
        choose|i: int| 0 <= i < self.entries@.len() && self.entries@[i].0@ == k
    }

    /// The procedure registered under `k` (meaningful when `has_key(k)`).
    pub open spec fn proc_of(self, k: Seq<char>) -> Procedure {
        self.entries@[self.key_index(k)].1
    }

    /// Two routers define no key in common.
    pub open spec fn disjoint_keys(self, other: Router) -> bool {
        forall|k: Seq<char>| #[trigger] self.has_key(k) ==> !other.has_key(k)
    }

    pub fn new() -> (r: Router)
        ensures
            r.entries@ =~= Seq::<(String, Procedure)>::empty(),
            r.wf(),
    {
        Router { entries: Vec::new() }
    }

    pub fn len(&self) -> (r: usize)
        ensures
            r == self.entries@.len(),
    {
        self.entries.len()
    }

    /// Whether a key is registered.
    pub fn contains_key(&self, key: &String) -> (r: bool)
        ensures
            r == self.has_key(key@),
    {
        let mut i: usize = 0;
        while i < self.entries.len()
            invariant
                0 <= i <= self.entries@.len(),
                forall|j: int| 0 <= j < i ==> self.entries@[j].0@ != key@,
            decreases self.entries@.len() - i,
        {
            if self.entries[i].0 == *key {
                return true;
            }
            i += 1;
        }
        false
    }

    /// Look a key up.
    pub fn get(&self, key: &String) -> (r: Option<&Procedure>)
        requires
            self.wf(),
        ensures
            match r {
                Some(p) => self.has_key(key@) && *p == self.proc_of(key@),
                None => !self.has_key(key@),
            },
    {
        let mut i: usize = 0;
        while i < self.entries.len()
            invariant
                self.wf(),
                0 <= i <= self.entries@.len(),
                forall|j: int| 0 <= j < i ==> self.entries@[j].0@ != key@,
            decreases self.entries@.len() - i,
        {
            if self.entries[i].0 == *key {
                proof {
                    let k = self.key_index(key@);
                    assert(self.entries@[k].0@ == key@);
                    assert(k == i);
                }
                return Some(&self.entries[i].1);
            }
            i += 1;
        }
        None
    }

    /// Register a procedure under a key. A taken key is a construction-time
    /// error carrying the key; no entry is ever overwritten.
    pub fn procedure(self, key: String, procedure: Procedure) -> (r: Result<
        Router,
        InternalError,
    >)
        requires
            self.wf(),
        ensures
            match r {
                Ok(rt) => {
                    &&& !self.has_key(key@)
                    &&& rt.wf()
                    &&& rt.entries@ =~= self.entries@.push((key, procedure))
                },
                Err(e) => {
                    &&& self.has_key(key@)
                    &&& e matches InternalError::DuplicateKey(k) && k@ == key@
                },
            },
    {
        if self.contains_key(&key) {
            Err(InternalError::DuplicateKey(key))
        } else {
            let mut rt = self;
            rt.entries.push((key, procedure));
            Ok(rt)
        }
    }

    /// Combine two routers. Where both define a key, merging is a
    /// construction-time error naming one colliding key; where their keys
    /// are disjoint, every entry of both is preserved, this router's
    /// entries first.
    pub fn merge(self, other: Router) -> (r: Result<Router, InternalError>)
        requires
            self.wf(),
            other.wf(),
        ensures
            match r {
                Ok(rt) => {
                    &&& self.disjoint_keys(other)
                    &&& rt.wf()
                    &&& rt.entries@ =~= self.entries@ + other.entries@
                },
                Err(e) => {
                    &&& e matches InternalError::KeyCollision(k)
                    &&& self.has_key(k@)
                    &&& other.has_key(k@)
                },
            },
    {
        let mut rt = self;
        let mut rest = other.entries;
        let ghost self0 = rt;
        let ghost all = rest@;
        let ghost mut taken: int = 0;
        while rest.len() > 0
            invariant
                rt.wf(),
                self0 == self,
                self0.wf(),
                other.wf(),
                all =~= other.entries@,
                0 <= taken <= all.len(),
                rest@ =~= all.skip(taken),
                rt.entries@ =~= self0.entries@ + all.take(taken),
                forall|k: Seq<char>| #[trigger] rt.has_key(k) ==> self0.has_key(k) || exists|j: int|
                    0 <= j < taken && all[j].0@ == k,
                forall|j: int| 0 <= j < taken ==> rt.has_key(#[trigger] all[j].0@),
            decreases rest@.len(),
        {
            let ghost rt_pre = rt;
            let (key, procedure) = rest.remove(0);
            proof {
                assert(all.skip(taken)[0] == all[taken]);
                assert(key@ == all[taken].0@);
                assert(rest@ =~= all.skip(taken + 1));
            }
            if rt.contains_key(&key) {
                proof {
                    // the colliding key cannot have come from the part of
                    // `other` already moved over: `other`'s keys are unique
                    if !self0.has_key(key@) {
                        let j = choose|j: int| 0 <= j < taken && all[j].0@ == key@;
                        assert(other.entries@[j].0@ == other.entries@[taken].0@);
                        assert(false);
                    }
                    assert(other.has_key(key@)) by {
                        assert(other.entries@[taken].0@ == key@);
                    }
                }
                return Err(InternalError::KeyCollision(key));
            }
            rt.entries.push((key, procedure));
            proof {
                assert(rt.entries@ =~= rt_pre.entries@.push(all[taken]));
                assert(all.take(taken + 1) =~= all.take(taken).push(all[taken]));
                assert(rt.entries@ =~= self0.entries@ + all.take(taken + 1));
                assert forall|k: Seq<char>| #[trigger] rt.has_key(k) implies self0.has_key(k)
                    || exists|j: int| 0 <= j < taken + 1 && all[j].0@ == k by {
                    let i = choose|i: int|
                        0 <= i < rt.entries@.len() && rt.entries@[i].0@ == k;
                    if i < rt_pre.entries@.len() {
                        assert(rt_pre.has_key(k)) by {
                            assert(rt_pre.entries@[i].0@ == k);
                        }
                    } else {
                        assert(all[taken].0@ == k);
                    }
                }
                assert forall|j: int| 0 <= j < taken + 1 implies rt.has_key(
                    #[trigger] all[j].0@,
                ) by {
                    if j < taken {
                        assert(rt_pre.has_key(all[j].0@));
                        let i = choose|i: int|
                            0 <= i < rt_pre.entries@.len() && rt_pre.entries@[i].0@ == all[j].0@;
                        assert(rt.entries@[i].0@ == all[j].0@);
                    } else {
                        assert(rt.entries@[rt.entries@.len() - 1].0@ == all[j].0@);
                    }
                }
                taken = taken + 1;
            }
        }
        proof {
            assert(taken == all.len());
            assert(all.take(taken) =~= all);
            assert(rt.entries@ =~= self.entries@ + other.entries@);
            assert forall|k: Seq<char>| #[trigger] self.has_key(k) implies !other.has_key(k) by {
                if other.has_key(k) {
                    let j = choose|j: int|
                        0 <= j < other.entries@.len() && other.entries@[j].0@ == k;
                    let i = self.key_index(k);
                    assert(self.entries@[i].0@ == k);
                    // `rt` would hold `self`'s copy of `k` and `other`'s
                    // copy of `k` at two indices, against `rt.wf()`
                    assert(rt.entries@[i].0@ == k);
                    assert(rt.entries@[self.entries@.len() + j].0@ == k);
                    assert(false);
                }
            }
        }
        Ok(rt)
    }

    /// The registered entries, in registration order, for a dispatch-table
    /// or schema-export pass. Restartable: each call hands back the same
    /// table.
    pub fn iter(&self) -> (r: &Vec<(String, Procedure)>)
        ensures
            r == &self.entries,
    {
        &self.entries
    }

    /// Consume the router into its entries, in registration order.
    pub fn into_entries(self) -> (r: Vec<(String, Procedure)>)
        ensures
            r == self.entries,
    {
        self.entries
    }

    /// Assemble a router from a sequence of entries, a later entry under a
    /// key replacing an earlier one.
    pub fn from_entries(entries: Vec<(String, Procedure)>) -> (r: Router)
        ensures
            r.wf(),
            forall|k: Seq<char>| r.has_key(k) <==> exists|i: int|
                0 <= i < entries@.len() && (#[trigger] entries@[i]).0@ == k,
            forall|i: int|
                0 <= i < entries@.len() && (forall|j: int|
                    i < j < entries@.len() ==> entries@[j].0@ != entries@[i].0@)
                    ==> r.has_key((#[trigger] entries@[i]).0@)
                        && r.proc_of(entries@[i].0@) == entries@[i].1,
    {
        let mut r = Router { entries: Vec::new() };
        let mut rest = entries;
        let ghost all = rest@;
        let ghost mut taken: int = 0;
        while rest.len() > 0
            invariant
                r.wf(),
                all =~= entries@,
                0 <= taken <= all.len(),
                rest@ =~= all.skip(taken),
                forall|k: Seq<char>| r.has_key(k) <==> exists|i: int|
                    0 <= i < taken && (#[trigger] all[i]).0@ == k,
                forall|i: int|
                    0 <= i < taken && (forall|j: int| i < j < taken ==> all[j].0@ != all[i].0@)
                        ==> r.has_key((#[trigger] all[i]).0@) && r.proc_of(all[i].0@) == all[i].1,
            decreases rest@.len(),
        {
            let ghost r_pre = r;
            let (key, procedure) = rest.remove(0);
            proof {
                assert(all.skip(taken)[0] == all[taken]);
                assert(key@ == all[taken].0@);
                assert(rest@ =~= all.skip(taken + 1));
            }
            r.replace_or_push(key, procedure);
            proof {
                lemma_from_entries_step(r_pre, r, all, taken);
                taken = taken + 1;
            }
        }
        proof {
            assert forall|k: Seq<char>|
                r.has_key(k) <==> exists|i: int|
                    0 <= i < entries@.len() && (#[trigger] entries@[i]).0@ == k by {}
        }
        r
    }

    /// Replace the entry under `key`, or append one.
    fn replace_or_push(&mut self, key: String, procedure: Procedure) -> (r: bool)
        requires
            old(self).wf(),
        ensures
            final(self).wf(),
            final(self).has_key(key@),
            final(self).proc_of(key@) == procedure,
            forall|k: Seq<char>| #[trigger] final(self).has_key(k)
                <==> old(self).has_key(k) || k == key@,
            forall|k: Seq<char>| #[trigger] old(self).has_key(k) && k != key@
                ==> final(self).has_key(k) && final(self).proc_of(k) == old(self).proc_of(k),
            r == old(self).has_key(key@),
    {
        let mut i: usize = 0;
        while i < self.entries.len()
            invariant
                self.wf(),
                *self == *old(self),
                0 <= i <= self.entries@.len(),
                forall|j: int| 0 <= j < i ==> self.entries@[j].0@ != key@,
            decreases self.entries@.len() - i,
        {
            if self.entries[i].0 == key {
                let ghost pre = *self;
                proof {
                    assert(pre.entries@[i as int].0@ == key@);
                    assert(pre.has_key(key@));
                }
                self.entries.set(i, (key, procedure));
                proof {
                    let s = *self;
                    assert(s.entries@[i as int].0@ == key@);
                    assert forall|u: int, v: int|
                        0 <= u < v < s.entries@.len() implies s.entries@[u].0@
                        != s.entries@[v].0@ by {
                        if u != i && v != i {
                            assert(s.entries@[u] == pre.entries@[u]);
                            assert(s.entries@[v] == pre.entries@[v]);
                        } else if u == i {
                            assert(s.entries@[v] == pre.entries@[v]);
                            assert(pre.entries@[v].0@ != key@);
                        } else {
                            assert(s.entries@[u] == pre.entries@[u]);
                            assert(pre.entries@[u].0@ != key@);
                        }
                    }
                    assert(s.has_key(key@)) by {
                        assert(s.entries@[i as int].0@ == key@);
                    }
                    assert(s.proc_of(key@) == procedure) by {
                        let w = s.key_index(key@);
                        assert(s.entries@[w].0@ == key@);
                        assert(w == i);
                    }
                    assert forall|k: Seq<char>| #[trigger] s.has_key(k) implies pre.has_key(k) || k
                        == key@ by {
                        let w = choose|w: int| 0 <= w < s.entries@.len() && s.entries@[w].0@ == k;
                        if w != i {
                            assert(pre.entries@[w].0@ == k);
                        }
                    }
                    assert forall|k: Seq<char>| #[trigger] pre.has_key(k) implies s.has_key(
                        k,
                    ) by {
                        let w = choose|w: int|
                            0 <= w < pre.entries@.len() && pre.entries@[w].0@ == k;
                        if w == i {
                            assert(s.entries@[i as int].0@ == k);
                        } else {
                            assert(s.entries@[w].0@ == k);
                        }
                    }
                    assert forall|k: Seq<char>| pre.has_key(k) && k != key@ implies s.proc_of(k)
                        == pre.proc_of(k) by {
                        let w1 = pre.key_index(k);
                        assert(pre.entries@[w1].0@ == k);
                        assert(w1 != i);
                        assert(s.entries@[w1].0@ == k);
                        let w2 = s.key_index(k);
                        assert(s.entries@[w2].0@ == k);
                        assert(w2 == w1);
                    }
                }
                return true;
            }
            i += 1;
        }
        let ghost pre = *self;
        self.entries.push((key, procedure));
        proof {
            let s = *self;
            assert(s.entries@[s.entries@.len() - 1].0@ == key@);
            assert(s.has_key(key@));
            assert(!pre.has_key(key@));
            assert forall|u: int, v: int|
                0 <= u < v < s.entries@.len() implies s.entries@[u].0@ != s.entries@[v].0@ by {
                if v < s.entries@.len() - 1 {
                    assert(s.entries@[u] == pre.entries@[u]);
                    assert(s.entries@[v] == pre.entries@[v]);
                } else {
                    assert(s.entries@[u] == pre.entries@[u]);
                    assert(pre.entries@[u].0@ != key@);
                }
            }
            assert(s.proc_of(key@) == procedure) by {
                let w = s.key_index(key@);
                assert(s.entries@[w].0@ == key@);
                assert(w == s.entries@.len() - 1);
            }
            assert forall|k: Seq<char>| #[trigger] s.has_key(k) implies pre.has_key(k) || k
                == key@ by {
                let w = choose|w: int| 0 <= w < s.entries@.len() && s.entries@[w].0@ == k;
                if w < pre.entries@.len() {
                    assert(pre.entries@[w].0@ == k);
                }
            }
            assert forall|k: Seq<char>| #[trigger] pre.has_key(k) implies s.has_key(k) by {
                let w = choose|w: int| 0 <= w < pre.entries@.len() && pre.entries@[w].0@ == k;
                assert(s.entries@[w].0@ == k);
            }
            assert forall|k: Seq<char>| pre.has_key(k) && k != key@ implies s.proc_of(k)
                == pre.proc_of(k) by {
                let w1 = pre.key_index(k);
                assert(pre.entries@[w1].0@ == k);
                assert(s.entries@[w1].0@ == k);
                let w2 = s.key_index(k);
                assert(s.entries@[w2].0@ == k);
                assert(w2 == w1);
            }
        }
        false
    }
}

/// Merging two routers with disjoint keys preserves every registration of
/// both: a key registered in either is registered in the merged router,
/// under the same procedure. (`Router::merge` ensures exactly the premises:
/// the merged router is well-formed and holds both entry tables.)
pub proof fn lemma_merge_preserves(a: Router, b: Router, m: Router)
    requires
        a.wf(),
        b.wf(),
        m.wf(),
        m.entries@ =~= a.entries@ + b.entries@,
    ensures
        forall|k: Seq<char>| #[trigger] a.has_key(k) ==> m.has_key(k) && m.proc_of(k)
            == a.proc_of(k),
        forall|k: Seq<char>| #[trigger] b.has_key(k) ==> m.has_key(k) && m.proc_of(k)
            == b.proc_of(k),
{
    assert forall|k: Seq<char>| #[trigger] a.has_key(k) implies m.has_key(k) && m.proc_of(k)
        == a.proc_of(k) by {
        let i = a.key_index(k);
        assert(a.entries@[i].0@ == k);
        assert(m.entries@[i] == a.entries@[i]);
        let w = m.key_index(k);
        assert(m.entries@[w].0@ == k);
        assert(w == i);
    }
    assert forall|k: Seq<char>| #[trigger] b.has_key(k) implies m.has_key(k) && m.proc_of(k)
        == b.proc_of(k) by {
        let j = b.key_index(k);
        assert(b.entries@[j].0@ == k);
        assert(m.entries@[a.entries@.len() + j] == b.entries@[j]);
        assert(m.entries@[a.entries@.len() + j].0@ == k);
        let w = m.key_index(k);
        assert(m.entries@[w].0@ == k);
        assert(w == a.entries@.len() + j);
    }
}

/// One step of `from_entries` keeps its accumulated-table invariants.
proof fn lemma_from_entries_step(pre: Router, post: Router, all: Seq<(String, Procedure)>, t: int)
    requires
        0 <= t < all.len(),
        pre.wf(),
        post.wf(),
        forall|k: Seq<char>| pre.has_key(k) <==> exists|i: int|
            0 <= i < t && (#[trigger] all[i]).0@ == k,
        forall|i: int|
            0 <= i < t && (forall|j: int| i < j < t ==> all[j].0@ != all[i].0@) ==> pre.has_key(
                (#[trigger] all[i]).0@,
            ) && pre.proc_of(all[i].0@) == all[i].1,
        post.has_key(all[t].0@),
        post.proc_of(all[t].0@) == all[t].1,
        forall|k: Seq<char>| #[trigger] post.has_key(k) <==> pre.has_key(k) || k == all[t].0@,
        forall|k: Seq<char>| #[trigger] pre.has_key(k) && k != all[t].0@ ==> post.has_key(k)
            && post.proc_of(k) == pre.proc_of(k),
    ensures
        forall|k: Seq<char>| post.has_key(k) <==> exists|i: int|
            0 <= i < t + 1 && (#[trigger] all[i]).0@ == k,
        forall|i: int|
            0 <= i < t + 1 && (forall|j: int| i < j < t + 1 ==> all[j].0@ != all[i].0@)
                ==> post.has_key((#[trigger] all[i]).0@) && post.proc_of(all[i].0@) == all[i].1,
{
    assert forall|k: Seq<char>| post.has_key(k) implies exists|i: int|
        0 <= i < t + 1 && (#[trigger] all[i]).0@ == k by {
        if pre.has_key(k) {
            let i = choose|i: int| 0 <= i < t && (#[trigger] all[i]).0@ == k;
            assert(all[i].0@ == k);
        } else {
            assert(all[t].0@ == k);
        }
    }
    assert forall|k: Seq<char>|
        (exists|i: int| 0 <= i < t + 1 && (#[trigger] all[i]).0@ == k) implies post.has_key(
        k,
    ) by {
        let i = choose|i: int| 0 <= i < t + 1 && (#[trigger] all[i]).0@ == k;
        if i < t {
            assert(pre.has_key(k));
        }
    }
    assert forall|i: int|
        0 <= i < t + 1 && (forall|j: int| i < j < t + 1 ==> all[j].0@ != all[i].0@)
            implies post.has_key((#[trigger] all[i]).0@) && post.proc_of(all[i].0@)
            == all[i].1 by {
        if i < t {
            assert(all[t].0@ != all[i].0@);
            assert(forall|j: int| i < j < t ==> all[j].0@ != all[i].0@);
            assert(pre.has_key(all[i].0@));
        }
    }
}

impl Default for Router {
    /// An empty router.
    fn default() -> (r: Router)
        ensures
            r.entries@ =~= Seq::<(String, Procedure)>::empty(),
            r.wf(),
    {
        Router { entries: Vec::new() }
    }
}

} // verus!
