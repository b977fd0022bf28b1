//! The per-guest key/value capability.
//!
//! A guest stores JSON values under `(table, key)` pairs.  Tables exist as
//! soon as something is written to them; a store is a single-key upsert and
//! a read returns exactly what the latest store under that pair left.

use vstd::prelude::*;
use core::mem;
use crate::json::JVal;

verus! {

/// The payload of a `kv_store` call.
#[derive(Debug, PartialEq, Eq)]
pub struct KvStoreInput {
    pub table: String,
    pub key: String,
    pub value: JVal,
}

/// The payload of a `kv_read` call.
#[derive(Debug, PartialEq, Eq)]
pub struct KvReadInput {
    pub table: String,
    pub key: String,
}

/// The store of one guest: one value per `(table, key)` pair.
pub struct GuestKvData {
    entries: Vec<(String, String, JVal)>,
}

/// The entry at this position is filed under the given table and key.
pub open spec fn entry_matches(e: (String, String, JVal), table: Seq<char>, key: Seq<char>) -> bool {
    e.0@ == table && e.1@ == key
}

impl GuestKvData {
    /// No two entries share a `(table, key)` pair.
    #[verifier::type_invariant]
    spec fn wf(&self) -> bool {
        forall|i: int, j: int|
            0 <= i < j < self.entries@.len() ==> !((#[trigger] self.entries@[i]).0@ == (
            #[trigger] self.entries@[j]).0@ && self.entries@[i].1@ == self.entries@[j].1@)
    }

    /// The value stored under the pair, if any.
    pub closed spec fn spec_get(&self, table: Seq<char>, key: Seq<char>) -> Option<JVal> {
        if exists|i: int|
            0 <= i < self.entries@.len() && entry_matches(#[trigger] self.entries@[i], table, key) {
            let i = choose|i: int|
                0 <= i < self.entries@.len() && entry_matches(
                    #[trigger] self.entries@[i],
                    table,
                    key,
                );
            Option::Some(self.entries@[i].2)
        } else {
            Option::None
        }
    }

    /// An empty store: nothing under any pair.
    pub fn new() -> (r: GuestKvData)
        ensures
            forall|t: Seq<char>, k: Seq<char>| r.spec_get(t, k) is None,
    {
        GuestKvData { entries: Vec::new() }
    }

    /// With no duplicate pairs, a matching entry is the value `spec_get`
    /// yields.
    proof fn lemma_get_at(&self, i: int, table: Seq<char>, key: Seq<char>)
        requires
            self.wf(),
            0 <= i < self.entries@.len(),
            entry_matches(self.entries@[i], table, key),
        ensures
            self.spec_get(table, key) == Option::Some(self.entries@[i].2),
    {
        let j = choose|j: int|
            0 <= j < self.entries@.len() && entry_matches(#[trigger] self.entries@[j], table, key);
        if j < i {
            assert(!(self.entries@[j].0@ == self.entries@[i].0@ && self.entries@[j].1@
                == self.entries@[i].1@));
        } else if i < j {
            assert(!(self.entries@[i].0@ == self.entries@[j].0@ && self.entries@[i].1@
                == self.entries@[j].1@));
        }
    }

    /// With no matching entry, `spec_get` yields nothing.
    proof fn lemma_get_none(&self, table: Seq<char>, key: Seq<char>)
        requires
            forall|j: int|
                0 <= j < self.entries@.len() ==> !entry_matches(
                    #[trigger] self.entries@[j],
                    table,
                    key,
                ),
        ensures
            self.spec_get(table, key) is None,
    {
    }

    /// Read the value under a pair.
    pub fn kv_read(&self, table: &String, key: &String) -> (r: Option<&JVal>)
        ensures
            read_result(
                self,
                table@,
                key@,
                match r {
                    Option::Some(v) => Option::Some(*v),
                    Option::None => Option::None,
                },
            ),
    {
        proof {
            use_type_invariant(&*self);
        }
        let n = self.entries.len();
        let mut i: usize = 0;
        while i < n
            invariant
                self.wf(),
                n == self.entries@.len(),
                i <= n,
                forall|j: int|
                    0 <= j < i ==> !entry_matches(#[trigger] self.entries@[j], table@, key@),
            decreases n - i,
        {
            if self.entries[i].0 == *table && self.entries[i].1 == *key {
                proof {
                    self.lemma_get_at(i as int, table@, key@);
                }
                return Option::Some(&self.entries[i].2);
            }
            i += 1;
        }
        proof {
            self.lemma_get_none(table@, key@);
        }
        Option::None
    }

    /// Store a value under a pair, replacing what was there.  Returns
    /// `true`: with the store held in memory by its owner, a write cannot
    /// fail.
    pub fn kv_store(&mut self, table: String, key: String, value: JVal) -> (r: bool)
        ensures
            r,
            store_result(old(self), final(self), table@, key@, value),
    {
        proof {
            use_type_invariant(&*self);
        }
        let ghost tv = table@;
        let ghost kyv = key@;
        let n = self.entries.len();
        let mut i: usize = 0;
        while i < n
            invariant
                *self == *old(self),
                self.wf(),
                n == self.entries@.len(),
                i <= n,
                forall|j: int| 0 <= j < i ==> !entry_matches(#[trigger] self.entries@[j], tv, kyv),
                tv == table@,
                kyv == key@,
            decreases n - i,
        {
            if self.entries[i].0 == table && self.entries[i].1 == key {
                let ghost before = self.entries@;
                let mut entries: Vec<(String, String, JVal)> = Vec::new();
                mem::swap(&mut entries, &mut self.entries);
                entries.set(i, (table, key, value));
                mem::swap(&mut entries, &mut self.entries);
                proof {
                    assert(forall|j: int|
                        0 <= j < before.len() && j != i ==> self.entries@[j] == #[trigger] before[j]);
                    assert(self.entries@[i as int].0@ == before[i as int].0@ && self.entries@[
                        i as int
                    ].1@ == before[i as int].1@);
                    assert forall|a: int, b: int| 0 <= a < b < self.entries@.len() implies !((
                    #[trigger] self.entries@[a]).0@ == (#[trigger] self.entries@[b]).0@
                        && self.entries@[a].1@ == self.entries@[b].1@) by {
                        assert(self.entries@[a].0@ == before[a].0@ && self.entries@[a].1@
                            == before[a].1@);
                        assert(self.entries@[b].0@ == before[b].0@ && self.entries@[b].1@
                            == before[b].1@);
                        assert(!(before[a].0@ == before[b].0@ && before[a].1@ == before[b].1@));
                    }
                    use_type_invariant(&*self);
                    self.lemma_get_at(i as int, tv, kyv);
                    assert forall|t: Seq<char>, k: Seq<char>| !(t == tv && k == kyv) implies
                        #[trigger] self.spec_get(t, k) == old(self).spec_get(t, k) by {
                        if exists|j: int|
                            0 <= j < before.len() && entry_matches(#[trigger] before[j], t, k) {
                            let j = choose|j: int|
                                0 <= j < before.len() && entry_matches(#[trigger] before[j], t, k);
                            assert(j != i);
                            assert(entry_matches(self.entries@[j], t, k));
                            old(self).lemma_get_at(j, t, k);
                            self.lemma_get_at(j, t, k);
                        } else {
                            assert forall|j: int|
                                0 <= j < self.entries@.len() implies !entry_matches(
                                #[trigger] self.entries@[j],
                                t,
                                k,
                            ) by {
                                if j == i {
                                    assert(!(t == tv && k == kyv));
                                } else {
                                    assert(!entry_matches(before[j], t, k));
                                }
                            }
                            old(self).lemma_get_none(t, k);
                            self.lemma_get_none(t, k);
                        }
                    }
                }
                return true;
            }
            i += 1;
        }
        let ghost before = self.entries@;
        let mut entries: Vec<(String, String, JVal)> = Vec::new();
        mem::swap(&mut entries, &mut self.entries);
        entries.push((table, key, value));
        mem::swap(&mut entries, &mut self.entries);
        proof {
            let m = before.len() as int;
            assert(forall|j: int| 0 <= j < m ==> self.entries@[j] == #[trigger] before[j]);
            assert(self.entries@[m].0@ == tv && self.entries@[m].1@ == kyv);
            assert forall|a: int, b: int| 0 <= a < b < self.entries@.len() implies !((
            #[trigger] self.entries@[a]).0@ == (#[trigger] self.entries@[b]).0@ && self.entries@[
                a
            ].1@ == self.entries@[b].1@) by {
                if b == m {
                    assert(!entry_matches(before[a], tv, kyv));
                } else {
                    assert(!(before[a].0@ == before[b].0@ && before[a].1@ == before[b].1@));
                }
            }
            use_type_invariant(&*self);
            self.lemma_get_at(m, tv, kyv);
            assert forall|t: Seq<char>, k: Seq<char>| !(t == tv && k == kyv) implies #[trigger] self
                .spec_get(t, k) == old(self).spec_get(t, k) by {
                if exists|j: int| 0 <= j < before.len() && entry_matches(#[trigger] before[j], t, k) {
                    let j = choose|j: int|
                        0 <= j < before.len() && entry_matches(#[trigger] before[j], t, k);
                    assert(entry_matches(self.entries@[j], t, k));
                    old(self).lemma_get_at(j, t, k);
                    self.lemma_get_at(j, t, k);
                } else {
                    assert forall|j: int|
                        0 <= j < self.entries@.len() implies !entry_matches(
                        #[trigger] self.entries@[j],
                        t,
                        k,
                    ) by {
                        if j == m {
                            assert(!(t == tv && k == kyv));
                        } else {
                            assert(!entry_matches(before[j], t, k));
                        }
                    }
                    old(self).lemma_get_none(t, k);
                    self.lemma_get_none(t, k);
                }
            }
        }
        true
    }
}

/// `r` is a value `kv_read` can return for the pair on this store.
pub open spec fn read_result(
    s: &GuestKvData,
    table: Seq<char>,
    key: Seq<char>,
    r: Option<JVal>,
) -> bool {
    r == s.spec_get(table, key)
}

/// `post` is the store that `kv_store` leaves: the value sits under the
/// pair, and every other pair is untouched.
pub open spec fn store_result(
    pre: &GuestKvData,
    post: &GuestKvData,
    table: Seq<char>,
    key: Seq<char>,
    value: JVal,
) -> bool {
    &&& post.spec_get(table, key) == Option::Some(value)
    &&& forall|t: Seq<char>, k: Seq<char>|
        !(t == table && k == key) ==> #[trigger] post.spec_get(t, k) == pre.spec_get(t, k)
}

/// Idempotence of reads: with no intervening store, two reads of the same
/// pair return the same value, since a read returns exactly what the store
/// holds under the pair.
pub proof fn lemma_read_idempotent(
    s: &GuestKvData,
    table: Seq<char>,
    key: Seq<char>,
    r1: Option<JVal>,
    r2: Option<JVal>,
)
    requires
        read_result(s, table, key, r1),
        read_result(s, table, key, r2),
    ensures
        r1 == r2,
{
}

/// Round trip: a read right after `kv_store(table, key, value)` returns
/// `Some(value)`.
pub proof fn lemma_store_read_roundtrip(
    pre: &GuestKvData,
    post: &GuestKvData,
    table: Seq<char>,
    key: Seq<char>,
    value: JVal,
    r: Option<JVal>,
)
    requires
        store_result(pre, post, table, key, value),
        read_result(post, table, key, r),
    ensures
        r == Option::Some(value),
{
}

} // verus!
