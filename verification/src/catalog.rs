//! The catalog: guest records and module history.
//!
//! One row per guest, addressed by its unique name, holding the module
//! bytes and their digest; and an append-only history relation that, on
//! every module update, receives the pre-update bytes before the guest row
//! is overwritten.  Removing a guest deletes its row but never its history.

use vstd::prelude::*;
use crate::hashing::{blake3_hex, blake3_hex_of};

verus! {

/// One guest as the catalog stores it.
#[derive(Debug, PartialEq, Eq)]
pub struct GuestRow {
    pub id: i64,
    pub name: String,
    pub module: Vec<u8>,
    pub module_hash: String,
}

/// One superseded module of a guest, kept for rollback.
#[derive(Debug, PartialEq, Eq)]
pub struct ModuleRow {
    pub id: i64,
    pub parent_id: i64,
    pub module: Vec<u8>,
    pub module_hash: String,
    pub created_at: u64,
}

/// What a catalog operation can fail with.
#[derive(Debug, PartialEq, Eq, Structural)]
pub enum CatalogError {
    NameExists,
    Exhausted,
}

/// Two guest rows carry the same record.
pub open spec fn guest_row_like(a: GuestRow, b: GuestRow) -> bool {
    a.id == b.id && a.name@ == b.name@ && a.module@ == b.module@ && a.module_hash@
        == b.module_hash@
}

/// Two history rows carry the same record.
pub open spec fn module_row_like(a: ModuleRow, b: ModuleRow) -> bool {
    a.id == b.id && a.parent_id == b.parent_id && a.module@ == b.module@ && a.module_hash@
        == b.module_hash@ && a.created_at == b.created_at
}

/// The latest history row of a guest: the greatest `created_at` among its
/// rows, the later insertion winning a tie.
pub open spec fn latest_in(hist: Seq<ModuleRow>, parent_id: i64) -> Option<ModuleRow>
    decreases hist.len(),
{
    if hist.len() == 0 {
        Option::None
    } else {
        let prev = latest_in(hist.drop_last(), parent_id);
        if hist.last().parent_id == parent_id {
            match prev {
                Option::None => Option::Some(hist.last()),
                Option::Some(best) => if hist.last().created_at >= best.created_at {
                    Option::Some(hist.last())
                } else {
                    Option::Some(best)
                },
            }
        } else {
            prev
        }
    }
}

/// The latest history row of a guest is one of its rows.
pub proof fn lemma_latest_in_membership(hist: Seq<ModuleRow>, parent_id: i64)
    ensures
        latest_in(hist, parent_id) matches Option::Some(best) ==> best.parent_id == parent_id
            && exists|i: int| 0 <= i < hist.len() && hist[i] == best,
    decreases hist.len(),
{
    if hist.len() > 0 {
        lemma_latest_in_membership(hist.drop_last(), parent_id);
        match latest_in(hist, parent_id) {
            Option::Some(best) => {
                if best == hist.last() {
                    assert(hist[hist.len() - 1] == best);
                } else {
                    let i = choose|i: int|
                        0 <= i < hist.drop_last().len() && hist.drop_last()[i] == best;
                    assert(hist[i] == best);
                }
            },
            Option::None => {},
        }
    }
}

/// A row appended with a timestamp no older than every existing row of its
/// guest becomes that guest's latest history row.
pub proof fn lemma_latest_after_append(hist: Seq<ModuleRow>, row: ModuleRow)
    requires
        forall|i: int|
            0 <= i < hist.len() && (#[trigger] hist[i]).parent_id == row.parent_id ==> hist[i].created_at
                <= row.created_at,
    ensures
        latest_in(hist.push(row), row.parent_id) == Option::Some(row),
{
    assert(hist.push(row).drop_last() =~= hist);
    lemma_latest_in_membership(hist, row.parent_id);
}

/// Appending a row of one guest leaves every other guest's latest history
/// row unchanged.
pub proof fn lemma_latest_other_parent(hist: Seq<ModuleRow>, row: ModuleRow, parent_id: i64)
    requires
        row.parent_id != parent_id,
    ensures
        latest_in(hist.push(row), parent_id) == latest_in(hist, parent_id),
{
    assert(hist.push(row).drop_last() =~= hist);
}

/// The catalog.  `new_memory` opens it empty; rows live here and the
/// caller keeps them durable as it sees fit.
pub struct Data {
    guests: Vec<GuestRow>,
    history: Vec<ModuleRow>,
    next_guest_id: i64,
    next_history_id: i64,
}

impl Data {
    /// The guest rows, in ascending id order.
    pub closed spec fn spec_guests(&self) -> Seq<GuestRow> {
        self.guests@
    }

    /// The history rows, in insertion order.
    pub closed spec fn spec_history(&self) -> Seq<ModuleRow> {
        self.history@
    }

    /// Ids are assigned in ascending order and never reused; names are
    /// unique; every stored hash is the digest of the stored bytes.
    pub closed spec fn wf(&self) -> bool {
        &&& 1 <= self.next_guest_id
        &&& 1 <= self.next_history_id
        &&& forall|i: int, j: int|
            0 <= i < j < self.guests@.len() ==> (#[trigger] self.guests@[i]).id < (
            #[trigger] self.guests@[j]).id
        &&& forall|i: int|
            0 <= i < self.guests@.len() ==> 1 <= (#[trigger] self.guests@[i]).id
                < self.next_guest_id
        &&& forall|i: int, j: int|
            0 <= i < j < self.guests@.len() ==> (#[trigger] self.guests@[i]).name@ != (
            #[trigger] self.guests@[j]).name@
        &&& forall|i: int|
            0 <= i < self.guests@.len() ==> (#[trigger] self.guests@[i]).module_hash@
                == blake3_hex_of(self.guests@[i].module@)
        &&& forall|i: int, j: int|
            0 <= i < j < self.history@.len() ==> (#[trigger] self.history@[i]).id < (
            #[trigger] self.history@[j]).id
        &&& forall|i: int|
            0 <= i < self.history@.len() ==> 1 <= (#[trigger] self.history@[i]).id
                < self.next_history_id
        &&& forall|i: int|
            0 <= i < self.history@.len() ==> (#[trigger] self.history@[i]).module_hash@
                == blake3_hex_of(self.history@[i].module@)
        &&& self.guests@.len() < self.next_guest_id
        &&& self.history@.len() < self.next_history_id
    }

    /// The id the next created guest will get.
    pub closed spec fn spec_next_guest_id(&self) -> i64 {
        self.next_guest_id
    }

    /// The id the next history row will get.
    pub closed spec fn spec_next_history_id(&self) -> i64 {
        self.next_history_id
    }

    /// The guest row with the given name, if any.
    pub closed spec fn spec_guest_by_name(&self, name: Seq<char>) -> Option<GuestRow> {
        if exists|i: int| 0 <= i < self.guests@.len() && (#[trigger] self.guests@[i]).name@ == name {
            let i = choose|i: int|
                0 <= i < self.guests@.len() && (#[trigger] self.guests@[i]).name@ == name;
            Option::Some(self.guests@[i])
        } else {
            Option::None
        }
    }

    /// The guest row with the given id, if any.
    pub closed spec fn spec_guest_by_id(&self, id: i64) -> Option<GuestRow> {
        if exists|i: int| 0 <= i < self.guests@.len() && (#[trigger] self.guests@[i]).id == id {
            let i = choose|i: int|
                0 <= i < self.guests@.len() && (#[trigger] self.guests@[i]).id == id;
            Option::Some(self.guests@[i])
        } else {
            Option::None
        }
    }

    /// An empty catalog, held in memory.
    pub fn new_memory() -> (r: Data)
        ensures
            r.wf(),
            r.spec_guests().len() == 0,
            r.spec_history().len() == 0,
            forall|n: Seq<char>| r.spec_guest_by_name(n) is None,
            forall|id: i64| r.spec_guest_by_id(id) is None,
            r.spec_next_guest_id() == 1,
            r.spec_next_history_id() == 1,
    {
        let r = Data { guests: Vec::new(), history: Vec::new(), next_guest_id: 1, next_history_id: 1 };
        proof {
            assert forall|n: Seq<char>| r.spec_guest_by_name(n) is None by {
                r.lemma_name_none(n);
            }
            assert forall|id: i64| r.spec_guest_by_id(id) is None by {
                r.lemma_id_none(id);
            }
        }
        r
    }

    proof fn lemma_name_at(&self, i: int, name: Seq<char>)
        requires
            self.wf(),
            0 <= i < self.spec_guests().len(),
            self.spec_guests()[i].name@ == name,
        ensures
            self.spec_guest_by_name(name) == Option::Some(self.spec_guests()[i]),
    {
        let j = choose|j: int|
            0 <= j < self.guests@.len() && (#[trigger] self.guests@[j]).name@ == name;
        if j < i {
            assert(self.guests@[j].name@ != self.guests@[i].name@);
        } else if i < j {
            assert(self.guests@[i].name@ != self.guests@[j].name@);
        }
    }

    proof fn lemma_name_none(&self, name: Seq<char>)
        requires
            forall|j: int|
                0 <= j < self.spec_guests().len() ==> (#[trigger] self.spec_guests()[j]).name@
                    != name,
        ensures
            self.spec_guest_by_name(name) is None,
    {
        if exists|i: int| 0 <= i < self.guests@.len() && (#[trigger] self.guests@[i]).name@ == name {
            let i = choose|i: int|
                0 <= i < self.guests@.len() && (#[trigger] self.guests@[i]).name@ == name;
            assert(self.spec_guests()[i] == self.guests@[i]);
        }
    }

    proof fn lemma_id_at(&self, i: int, id: i64)
        requires
            self.wf(),
            0 <= i < self.spec_guests().len(),
            self.spec_guests()[i].id == id,
        ensures
            self.spec_guest_by_id(id) == Option::Some(self.spec_guests()[i]),
    {
        let j = choose|j: int| 0 <= j < self.guests@.len() && (#[trigger] self.guests@[j]).id == id;
        if j < i {
            assert(self.guests@[j].id < self.guests@[i].id);
        } else if i < j {
            assert(self.guests@[i].id < self.guests@[j].id);
        }
    }

    proof fn lemma_id_none(&self, id: i64)
        requires
            forall|j: int|
                0 <= j < self.spec_guests().len() ==> (#[trigger] self.spec_guests()[j]).id != id,
        ensures
            self.spec_guest_by_id(id) is None,
    {
        if exists|i: int| 0 <= i < self.guests@.len() && (#[trigger] self.guests@[i]).id == id {
            let i = choose|i: int|
                0 <= i < self.guests@.len() && (#[trigger] self.guests@[i]).id == id;
            assert(self.spec_guests()[i] == self.guests@[i]);
        }
    }
}

/// Copy the bytes of a module.
pub fn clone_bytes(v: &Vec<u8>) -> (r: Vec<u8>)
    ensures
        r@ == v@,
{
    let r = v.clone();
    proof {
        assert(v@ =~= r@);
    }
    r
}

impl GuestRow {
    /// A copy of this row.
    pub fn duplicate(&self) -> (r: GuestRow)
        ensures
            guest_row_like(r, *self),
    {
        GuestRow {
            id: self.id,
            name: self.name.clone(),
            module: clone_bytes(&self.module),
            module_hash: self.module_hash.clone(),
        }
    }

    /// Create a guest.  Succeeds exactly when the name is free and ids are
    /// not exhausted; the stored row carries the bytes and their digest,
    /// nothing else changes, and the returned row is a copy of it.
    pub fn create(data: &mut Data, name: String, module: Vec<u8>) -> (r: Result<
        GuestRow,
        CatalogError,
    >)
        requires
            old(data).wf(),
        ensures
            final(data).wf(),
            r is Ok <==> old(data).spec_guest_by_name(name@) is None && old(
                data,
            ).spec_next_guest_id() < i64::MAX,
            r matches Ok(g) ==> {
                &&& final(data).spec_guests().len() == old(data).spec_guests().len() + 1
                &&& final(data).spec_guests().drop_last() == old(data).spec_guests()
                &&& guest_row_like(final(data).spec_guests().last(), g)
                &&& final(data).spec_guest_by_name(name@) == Option::Some(
                    final(data).spec_guests().last(),
                )
                &&& g.id == old(data).spec_next_guest_id()
                &&& g.name@ == name@
                &&& g.module@ == module@
                &&& g.module_hash@ == blake3_hex_of(module@)
                &&& final(data).spec_history() == old(data).spec_history()
                &&& final(data).spec_next_guest_id() == old(data).spec_next_guest_id() + 1
                &&& forall|n2: Seq<char>|
                    n2 != name@ ==> #[trigger] final(data).spec_guest_by_name(n2) == old(
                        data,
                    ).spec_guest_by_name(n2)
            },
            r matches Err(e) ==> *final(data) == *old(data) && (e == CatalogError::NameExists
                <==> old(data).spec_guest_by_name(name@) is Some),
    {
        let n = data.guests.len();
        let mut i: usize = 0;
        while i < n
            invariant
                *data == *old(data),
                old(data).wf(),
                n == data.guests@.len(),
                i <= n,
                forall|j: int| 0 <= j < i ==> (#[trigger] data.guests@[j]).name@ != name@,
            decreases n - i,
        {
            if data.guests[i].name == name {
                proof {
                    data.lemma_name_at(i as int, name@);
                }
                return Err(CatalogError::NameExists);
            }
            i += 1;
        }
        proof {
            data.lemma_name_none(name@);
        }
        if data.next_guest_id == i64::MAX {
            return Err(CatalogError::Exhausted);
        }
        let id = data.next_guest_id;
        let module_hash = blake3_hex(module.as_slice());
        let row = GuestRow { id, name, module, module_hash };
        let copy = row.duplicate();
        let ghost before = data.guests@;
        data.guests.push(row);
        data.next_guest_id = id + 1;
        proof {
            assert(data.spec_guests().drop_last() =~= old(data).spec_guests());
            let m = data.spec_guests().len() - 1;
            data.lemma_name_at(m, data.spec_guests()[m].name@);
            assert forall|n2: Seq<char>| n2 != data.spec_guests()[m].name@ implies #[trigger] data
                .spec_guest_by_name(n2) == old(data).spec_guest_by_name(n2) by {
                if exists|j: int| 0 <= j < before.len() && (#[trigger] before[j]).name@ == n2 {
                    let j = choose|j: int| 0 <= j < before.len() && (#[trigger] before[j]).name@ == n2;
                    assert(data.guests@[j] == before[j]);
                    old(data).lemma_name_at(j, n2);
                    data.lemma_name_at(j, n2);
                } else {
                    assert forall|j: int|
                        0 <= j < data.guests@.len() implies (#[trigger] data.guests@[j]).name@
                            != n2 by {
                        if j < m {
                            assert(data.guests@[j] == before[j]);
                        }
                    }
                    old(data).lemma_name_none(n2);
                    data.lemma_name_none(n2);
                }
            }
        }
        Ok(copy)
    }

    /// Look up a guest by id.  The returned row is a copy; its hash is the
    /// digest of its bytes.
    pub fn by_id(data: &Data, id: i64) -> (r: Result<Option<GuestRow>, CatalogError>)
        requires
            data.wf(),
        ensures
            r matches Ok(g) ==> match g {
                Option::Some(g) => data.spec_guest_by_id(id) matches Option::Some(s)
                    && guest_row_like(g, s) && g.module_hash@ == blake3_hex_of(g.module@),
                Option::None => data.spec_guest_by_id(id) is None,
            },
            r is Ok,
    {
        let n = data.guests.len();
        let mut i: usize = 0;
        while i < n
            invariant
                data.wf(),
                n == data.guests@.len(),
                i <= n,
                forall|j: int| 0 <= j < i ==> (#[trigger] data.guests@[j]).id != id,
            decreases n - i,
        {
            if data.guests[i].id == id {
                proof {
                    data.lemma_id_at(i as int, id);
                }
                return Ok(Option::Some(data.guests[i].duplicate()));
            }
            i += 1;
        }
        proof {
            data.lemma_id_none(id);
        }
        Ok(Option::None)
    }

    /// Look up a guest by name.  The returned row is a copy; its hash is
    /// the digest of its bytes — the catalog invariant, observable here.
    pub fn by_name(data: &Data, name: &String) -> (r: Result<Option<GuestRow>, CatalogError>)
        requires
            data.wf(),
        ensures
            r matches Ok(g) ==> match g {
                Option::Some(g) => data.spec_guest_by_name(name@) matches Option::Some(s)
                    && guest_row_like(g, s) && g.module_hash@ == blake3_hex_of(g.module@),
                Option::None => data.spec_guest_by_name(name@) is None,
            },
            r is Ok,
    {
        let n = data.guests.len();
        let mut i: usize = 0;
        while i < n
            invariant
                data.wf(),
                n == data.guests@.len(),
                i <= n,
                forall|j: int| 0 <= j < i ==> (#[trigger] data.guests@[j]).name@ != name@,
            decreases n - i,
        {
            if data.guests[i].name == *name {
                proof {
                    data.lemma_name_at(i as int, name@);
                }
                return Ok(Option::Some(data.guests[i].duplicate()));
            }
            i += 1;
        }
        proof {
            data.lemma_name_none(name@);
        }
        Ok(Option::None)
    }

    /// Update a guest's module.  The guest's previous bytes and digest are
    /// appended to history first, with the given timestamp, and only then
    /// is the guest row overwritten with the new bytes and their digest.
    /// Returns `Ok(false)` and changes nothing when no guest has the name.
    pub fn update_module_by_name(
        data: &mut Data,
        name: &String,
        module: &[u8],
        now_nanos: u64,
    ) -> (r: Result<bool, CatalogError>)
        requires
            old(data).wf(),
        ensures
            final(data).wf(),
            r matches Ok(b) ==> (b <==> old(data).spec_guest_by_name(name@) is Some),
            r is Err <==> old(data).spec_guest_by_name(name@) is Some && old(
                data,
            ).spec_next_history_id() == i64::MAX,
            r == Ok::<bool, CatalogError>(false) || r is Err ==> *final(data) == *old(data),
            r == Ok::<bool, CatalogError>(true) ==> (old(data).spec_guest_by_name(name@)
                matches Option::Some(g0) && {
                &&& final(data).spec_history().len() == old(data).spec_history().len() + 1
                &&& final(data).spec_history().drop_last() == old(data).spec_history()
                &&& final(data).spec_history().last().parent_id == g0.id
                &&& final(data).spec_history().last().module@ == g0.module@
                &&& final(data).spec_history().last().module_hash@ == g0.module_hash@
                &&& final(data).spec_history().last().created_at == now_nanos
                &&& final(data).spec_history().last().id == old(data).spec_next_history_id()
                &&& (final(data).spec_guest_by_name(name@) matches Option::Some(g1) && g1.id
                    == g0.id && g1.name@ == g0.name@ && g1.module@ == module@ && g1.module_hash@
                    == blake3_hex_of(module@))
                &&& final(data).spec_guests().len() == old(data).spec_guests().len()
                &&& forall|k: int|
                    0 <= k < old(data).spec_guests().len() && (#[trigger] old(
                        data,
                    ).spec_guests()[k]).name@ != name@ ==> final(data).spec_guests()[k] == old(
                        data,
                    ).spec_guests()[k]
                &&& final(data).spec_next_guest_id() == old(data).spec_next_guest_id()
                &&& forall|n2: Seq<char>|
                    n2 != name@ ==> #[trigger] final(data).spec_guest_by_name(n2) == old(
                        data,
                    ).spec_guest_by_name(n2)
            }),
    {
        let n = data.guests.len();
        let mut i: usize = 0;
        while i < n
            invariant
                *data == *old(data),
                old(data).wf(),
                n == data.guests@.len(),
                i <= n,
                forall|j: int| 0 <= j < i ==> (#[trigger] data.guests@[j]).name@ != name@,
            decreases n - i,
        {
            if data.guests[i].name == *name {
                proof {
                    data.lemma_name_at(i as int, name@);
                }
                if data.next_history_id == i64::MAX {
                    return Err(CatalogError::Exhausted);
                }
                let mut row = GuestRow {
                    id: 0,
                    name: String::new(),
                    module: Vec::new(),
                    module_hash: String::new(),
                };
                data.guests.set_and_swap(i, &mut row);
                let hist_id = data.next_history_id;
                let hist_row = ModuleRow {
                    id: hist_id,
                    parent_id: row.id,
                    module: row.module,
                    module_hash: row.module_hash,
                    created_at: now_nanos,
                };
                data.history.push(hist_row);
                data.next_history_id = hist_id + 1;
                let new_row = GuestRow {
                    id: row.id,
                    name: row.name,
                    module: vstd::slice::slice_to_vec(module),
                    module_hash: blake3_hex(module),
                };
                let ghost before = old(data).guests@;
                data.guests.set(i, new_row);
                proof {
                    assert(data.spec_history().drop_last() =~= old(data).spec_history());
                    data.lemma_name_at(i as int, name@);
                    assert forall|n2: Seq<char>| n2 != name@ implies #[trigger] data
                        .spec_guest_by_name(n2) == old(data).spec_guest_by_name(n2) by {
                        if exists|j: int|
                            0 <= j < before.len() && (#[trigger] before[j]).name@ == n2 {
                            let j = choose|j: int|
                                0 <= j < before.len() && (#[trigger] before[j]).name@ == n2;
                            assert(j != i);
                            assert(data.guests@[j] == before[j]);
                            old(data).lemma_name_at(j, n2);
                            data.lemma_name_at(j, n2);
                        } else {
                            assert forall|j: int|
                                0 <= j < data.guests@.len() implies (
                            #[trigger] data.guests@[j]).name@ != n2 by {
                                if j != i {
                                    assert(data.guests@[j] == before[j]);
                                }
                            }
                            old(data).lemma_name_none(n2);
                            data.lemma_name_none(n2);
                        }
                    }
                }
                return Ok(true);
            }
            i += 1;
        }
        proof {
            data.lemma_name_none(name@);
        }
        Ok(false)
    }

    /// Remove a guest by name.  The guest row goes; its history rows are
    /// preserved.  Returns `Ok(false)` and changes nothing when no guest
    /// has the name.
    pub fn remove_by_name(data: &mut Data, name: &String) -> (r: Result<bool, CatalogError>)
        requires
            old(data).wf(),
        ensures
            final(data).wf(),
            r matches Ok(b) && (b <==> old(data).spec_guest_by_name(name@) is Some),
            r == Ok::<bool, CatalogError>(false) ==> *final(data) == *old(data),
            r == Ok::<bool, CatalogError>(true) ==> {
                &&& final(data).spec_guest_by_name(name@) is None
                &&& final(data).spec_guests().len() + 1 == old(data).spec_guests().len()
                &&& final(data).spec_history() == old(data).spec_history()
                &&& forall|n2: Seq<char>|
                    n2 != name@ ==> #[trigger] final(data).spec_guest_by_name(n2) == old(
                        data,
                    ).spec_guest_by_name(n2)
                &&& final(data).spec_next_guest_id() == old(data).spec_next_guest_id()
                &&& final(data).spec_next_history_id() == old(data).spec_next_history_id()
            },
    {
        let n = data.guests.len();
        let mut i: usize = 0;
        while i < n
            invariant
                *data == *old(data),
                old(data).wf(),
                n == data.guests@.len(),
                i <= n,
                forall|j: int| 0 <= j < i ==> (#[trigger] data.guests@[j]).name@ != name@,
            decreases n - i,
        {
            if data.guests[i].name == *name {
                proof {
                    data.lemma_name_at(i as int, name@);
                }
                let ghost before = data.guests@;
                data.guests.remove(i);
                proof {
                    assert forall|j: int|
                        0 <= j < data.guests@.len() implies (#[trigger] data.guests@[j]) == (if j
                        < i {
                        before[j]
                    } else {
                        before[j + 1]
                    }) by {}
                    assert forall|j: int|
                        0 <= j < data.guests@.len() implies (#[trigger] data.guests@[j]).name@
                            != name@ by {}
                    data.lemma_name_none(name@);
                    assert forall|n2: Seq<char>| n2 != name@ implies #[trigger] data
                        .spec_guest_by_name(n2) == old(data).spec_guest_by_name(n2) by {
                        if exists|j: int|
                            0 <= j < before.len() && (#[trigger] before[j]).name@ == n2 {
                            let j = choose|j: int|
                                0 <= j < before.len() && (#[trigger] before[j]).name@ == n2;
                            old(data).lemma_name_at(j, n2);
                            if j < i {
                                data.lemma_name_at(j, n2);
                            } else {
                                assert(j != i);
                                assert(data.guests@[j - 1] == before[j]);
                                data.lemma_name_at(j - 1, n2);
                            }
                        } else {
                            assert forall|j: int|
                                0 <= j < data.guests@.len() implies (
                            #[trigger] data.guests@[j]).name@ != n2 by {
                                if j < i {
                                    assert(data.guests@[j] == before[j]);
                                } else {
                                    assert(data.guests@[j] == before[j + 1]);
                                }
                            }
                            old(data).lemma_name_none(n2);
                            data.lemma_name_none(n2);
                        }
                    }
                }
                return Ok(true);
            }
            i += 1;
        }
        proof {
            data.lemma_name_none(name@);
        }
        Ok(false)
    }

    /// One page of guests in ascending id order: `limit` rows starting at
    /// `offset`.  A negative offset reads from the start; a negative limit
    /// means no limit.
    pub fn all_with_pagination(data: &Data, limit: i64, offset: i64) -> (r: Result<
        Vec<GuestRow>,
        CatalogError,
    >)
        requires
            data.wf(),
        ensures
            r matches Ok(page) && page@.len() == page_of(data.spec_guests(), limit, offset).len()
                && forall|i: int|
                0 <= i < page@.len() ==> guest_row_like(
                    #[trigger] page@[i],
                    page_of(data.spec_guests(), limit, offset)[i],
                ),
    {
        let n = data.guests.len();
        let start: usize = if offset < 0 {
            0
        } else if offset as u64 >= n as u64 {
            n
        } else {
            offset as usize
        };
        let end: usize = if limit < 0 {
            n
        } else if limit as u64 >= (n - start) as u64 {
            n
        } else {
            start + limit as usize
        };
        let mut out: Vec<GuestRow> = Vec::new();
        let mut i: usize = start;
        while i < end
            invariant
                data.wf(),
                n == data.guests@.len(),
                start <= i <= end <= n,
                out@.len() == i - start,
                forall|k: int|
                    0 <= k < out@.len() ==> guest_row_like(
                        #[trigger] out@[k],
                        data.spec_guests()[start + k],
                    ),
            decreases end - i,
        {
            out.push(data.guests[i].duplicate());
            i += 1;
        }
        proof {
            let page = page_of(data.spec_guests(), limit, offset);
            assert(page =~= data.spec_guests().subrange(start as int, end as int));
        }
        Ok(out)
    }
}

/// The page of rows selected by `limit` and `offset`: up to `limit` rows
/// starting at `offset`, clamped to the sequence; a negative offset reads
/// from the start and a negative limit means no limit.
pub open spec fn page_of(s: Seq<GuestRow>, limit: i64, offset: i64) -> Seq<GuestRow> {
    let start = if offset < 0 {
        0
    } else if offset as int >= s.len() {
        s.len() as int
    } else {
        offset as int
    };
    let end = if limit < 0 {
        s.len() as int
    } else if limit as int >= s.len() - start {
        s.len() as int
    } else {
        start + limit as int
    };
    s.subrange(start, end)
}

impl ModuleRow {
    /// A copy of this row.
    pub fn duplicate(&self) -> (r: ModuleRow)
        ensures
            module_row_like(r, *self),
    {
        ModuleRow {
            id: self.id,
            parent_id: self.parent_id,
            module: clone_bytes(&self.module),
            module_hash: self.module_hash.clone(),
            created_at: self.created_at,
        }
    }

    /// Append one history row: the superseded bytes of a guest, their
    /// digest, and the moment they were superseded.  The row is appended
    /// after everything already recorded; the returned row is a copy.
    pub fn create(
        data: &mut Data,
        parent_id: i64,
        module: Vec<u8>,
        module_hash: String,
        now_nanos: u64,
    ) -> (r: Result<ModuleRow, CatalogError>)
        requires
            old(data).wf(),
            module_hash@ == blake3_hex_of(module@),
        ensures
            final(data).wf(),
            r is Ok <==> old(data).spec_next_history_id() < i64::MAX,
            r matches Ok(m) ==> {
                &&& final(data).spec_history().len() == old(data).spec_history().len() + 1
                &&& final(data).spec_history().drop_last() == old(data).spec_history()
                &&& module_row_like(final(data).spec_history().last(), m)
                &&& m.id == old(data).spec_next_history_id()
                &&& m.parent_id == parent_id
                &&& m.module@ == module@
                &&& m.module_hash@ == module_hash@
                &&& m.created_at == now_nanos
                &&& final(data).spec_guests() == old(data).spec_guests()
            },
            r is Err ==> *final(data) == *old(data),
    {
        if data.next_history_id == i64::MAX {
            return Err(CatalogError::Exhausted);
        }
        let id = data.next_history_id;
        let row = ModuleRow { id, parent_id, module, module_hash, created_at: now_nanos };
        let copy = row.duplicate();
        data.history.push(row);
        data.next_history_id = id + 1;
        proof {
            assert(data.spec_history().drop_last() =~= old(data).spec_history());
        }
        Ok(copy)
    }

    /// The latest history row of a guest: the greatest `created_at` among
    /// its rows, the later insertion winning a tie.  The returned row is a
    /// copy.
    pub fn latest_by_guest_id(data: &Data, guest_id: i64) -> (r: Result<
        Option<ModuleRow>,
        CatalogError,
    >)
        requires
            data.wf(),
        ensures
            r matches Ok(m) ==> match m {
                Option::Some(m) => latest_in(data.spec_history(), guest_id)
                    matches Option::Some(best) && module_row_like(m, best),
                Option::None => latest_in(data.spec_history(), guest_id) is None,
            },
            r is Ok,
    {
        let n = data.history.len();
        let mut best: Option<usize> = Option::None;
        let mut i: usize = 0;
        proof {
            assert(data.spec_history().subrange(0, 0) =~= Seq::<ModuleRow>::empty());
        }
        while i < n
            invariant
                data.wf(),
                n == data.history@.len(),
                i <= n,
                match best {
                    Option::Some(b) => b < i && latest_in(
                        data.spec_history().subrange(0, i as int),
                        guest_id,
                    ) == Option::Some(data.spec_history()[b as int]),
                    Option::None => latest_in(
                        data.spec_history().subrange(0, i as int),
                        guest_id,
                    ) is None,
                },
            decreases n - i,
        {
            proof {
                assert(data.spec_history().subrange(0, i + 1).drop_last() =~= data.spec_history()
                    .subrange(0, i as int));
                assert(data.spec_history().subrange(0, i + 1).last() == data.spec_history()[
                    i as int
                ]);
            }
            if data.history[i].parent_id == guest_id {
                let take = match best {
                    Option::Some(b) => data.history[i].created_at >= data.history[b].created_at,
                    Option::None => true,
                };
                if take {
                    best = Option::Some(i);
                }
            }
            i += 1;
        }
        proof {
            assert(data.spec_history().subrange(0, n as int) =~= data.spec_history());
        }
        match best {
            Option::Some(b) => Ok(Option::Some(data.history[b].duplicate())),
            Option::None => Ok(Option::None),
        }
    }
}

/// Identity of the update path.  When a guest's module is updated — the
/// previous bytes appended to history with a timestamp no older than every
/// earlier history row of that guest, the guest row overwritten — the
/// guest's latest history row holds exactly the pre-update bytes, and the
/// guest row holds exactly the post-update bytes.
pub proof fn lemma_update_law(
    pre: Data,
    post: Data,
    name: Seq<char>,
    module: Seq<u8>,
    now_nanos: u64,
    g0: GuestRow,
)
    requires
        pre.spec_guest_by_name(name) == Option::Some(g0),
        post.spec_history().len() == pre.spec_history().len() + 1,
        post.spec_history().drop_last() == pre.spec_history(),
        post.spec_history().last().parent_id == g0.id,
        post.spec_history().last().module@ == g0.module@,
        post.spec_history().last().created_at == now_nanos,
        post.spec_guest_by_name(name) matches Option::Some(g1) && g1.module@ == module,
        forall|i: int|
            0 <= i < pre.spec_history().len() && (#[trigger] pre.spec_history()[i]).parent_id
                == g0.id ==> pre.spec_history()[i].created_at <= now_nanos,
    ensures
        latest_in(post.spec_history(), g0.id) matches Option::Some(m) && m.module@ == g0.module@,
        post.spec_guest_by_name(name) matches Option::Some(g1) && g1.module@ == module,
{
    let row = post.spec_history().last();
    assert(post.spec_history() =~= pre.spec_history().push(row));
    lemma_latest_after_append(pre.spec_history(), row);
}

} // verus!
