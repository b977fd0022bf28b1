//! The server core: one serialized command loop.
//!
//! The server owns the catalog, the map of live guests, and the bootstrap
//! peer list, and is their only writer.  The loop around it performs the
//! outside work — binding endpoints, instantiating modules, shutting guests
//! down — and feeds each outcome into the decision functions here, which
//! say exactly what changes and what is replied.

use vstd::prelude::*;
use vstd::string::StringExecFns;
use crate::catalog::{CatalogError, Data, GuestRow};
use crate::hashing::{blake3_hex, blake3_hex_of};
use crate::supervisor::NodeId;

verus! {

/// One live guest as the server tracks it.
pub struct InstanceEntry {
    pub name: String,
    pub node_id: NodeId,
    pub module_hash: String,
    pub guest_id: i64,
}

/// What the server reports about one live guest.
#[derive(Debug, PartialEq, Eq)]
pub struct GuestInfo {
    pub name: String,
    pub endpoint_id: NodeId,
    pub module_hash: String,
}

/// The reply to a create command.
#[derive(Debug, PartialEq, Eq)]
pub struct CreateResponse {
    pub endpoint_id: NodeId,
}

/// The reply to an update command.
#[derive(Debug, PartialEq, Eq)]
pub struct UpdateResponse {
    pub success: bool,
    pub module_hash: String,
    pub previous_hash: Option<String>,
}

/// The reply to a remove command.
#[derive(Debug, PartialEq, Eq)]
pub struct RemoveResponse {
    pub success: bool,
    pub message: String,
}

/// The reply to a bootstrap update.
#[derive(Debug, PartialEq, Eq)]
pub struct UpdateBootstrapResponse {
    pub success: bool,
    pub node_count: usize,
}

/// What a server command can fail with.
#[derive(Debug, PartialEq, Eq, Structural)]
pub enum ServerError {
    NameCollision,
    NotFound,
    Catalog(CatalogError),
    StartFailed,
}

/// The server state: catalog, live guests, bootstrap peers, and the
/// server's own overlay identity.
pub struct Server {
    data: Data,
    instances: Vec<InstanceEntry>,
    bootstrap: Vec<NodeId>,
    node_id: NodeId,
}

impl Server {
    /// The catalog.
    pub closed spec fn spec_catalog(&self) -> Data {
        self.data
    }

    /// The live guests, in insertion order.
    pub closed spec fn spec_instances(&self) -> Seq<InstanceEntry> {
        self.instances@
    }

    /// The bootstrap peer list.
    pub closed spec fn spec_bootstrap(&self) -> Seq<NodeId> {
        self.bootstrap@
    }

    /// The server's own overlay identity.
    pub closed spec fn spec_node_id(&self) -> NodeId {
        self.node_id
    }

    /// The catalog is well formed and at most one live guest carries any
    /// name.
    pub closed spec fn wf(&self) -> bool {
        &&& self.data.wf()
        &&& forall|i: int, j: int|
            0 <= i < j < self.instances@.len() ==> (#[trigger] self.instances@[i]).name@ != (
            #[trigger] self.instances@[j]).name@
    }

    /// The live guest with the given name, if any.
    pub closed spec fn spec_instance_by_name(&self, name: Seq<char>) -> Option<InstanceEntry> {
        if exists|i: int|
            0 <= i < self.instances@.len() && (#[trigger] self.instances@[i]).name@ == name {
            let i = choose|i: int|
                0 <= i < self.instances@.len() && (#[trigger] self.instances@[i]).name@ == name;
            Option::Some(self.instances@[i])
        } else {
            Option::None
        }
    }

    proof fn lemma_instance_at(&self, i: int, name: Seq<char>)
        requires
            self.wf(),
            0 <= i < self.spec_instances().len(),
            self.spec_instances()[i].name@ == name,
        ensures
            self.spec_instance_by_name(name) == Option::Some(self.spec_instances()[i]),
    {
        let j = choose|j: int|
            0 <= j < self.instances@.len() && (#[trigger] self.instances@[j]).name@ == name;
        if j < i {
            assert(self.instances@[j].name@ != self.instances@[i].name@);
        } else if i < j {
            assert(self.instances@[i].name@ != self.instances@[j].name@);
        }
    }

    proof fn lemma_instance_none(&self, name: Seq<char>)
        requires
            forall|j: int|
                0 <= j < self.spec_instances().len() ==> (#[trigger] self.spec_instances()[j]).name@
                    != name,
        ensures
            self.spec_instance_by_name(name) is None,
    {
        if exists|i: int|
            0 <= i < self.instances@.len() && (#[trigger] self.instances@[i]).name@ == name {
            let i = choose|i: int|
                0 <= i < self.instances@.len() && (#[trigger] self.instances@[i]).name@ == name;
            assert(self.spec_instances()[i] == self.instances@[i]);
        }
    }

    /// A server with an empty catalog, no live guests, and itself as the
    /// only bootstrap peer.
    pub fn new(node_id: NodeId) -> (r: Server)
        ensures
            r.wf(),
            r.spec_catalog().spec_guests().len() == 0,
            r.spec_catalog().spec_history().len() == 0,
            r.spec_instances().len() == 0,
            r.spec_bootstrap().len() == 1,
            r.spec_node_id().bytes@ == r.spec_bootstrap()[0].bytes@,
            r.spec_node_id().bytes@ == node_id.bytes@,
            forall|n: Seq<char>| r.spec_instance_by_name(n) is None,
            forall|n: Seq<char>| r.spec_catalog().spec_guest_by_name(n) is None,
            r.spec_catalog().spec_next_guest_id() == 1,
            r.spec_catalog().spec_next_history_id() == 1,
    {
        let own = node_id.duplicate();
        let mut bootstrap: Vec<NodeId> = Vec::new();
        let node_id2 = own.duplicate();
        bootstrap.push(own);
        proof {
            assert(node_id2.bytes@ == bootstrap@[0].bytes@);
        }
        let r = Server { data: Data::new_memory(), instances: Vec::new(), bootstrap, node_id: node_id2 };
        proof {
            assert(r.spec_node_id().bytes@ == r.spec_bootstrap()[0].bytes@);
            assert forall|n: Seq<char>| r.spec_instance_by_name(n) is None by {
                r.lemma_instance_none(n);
            }
        }
        r
    }

    /// Read access to the catalog.
    pub fn catalog(&self) -> (r: &Data)
        ensures
            *r == self.spec_catalog(),
    {
        &self.data
    }

    /// Record a guest the startup reconciliation brought back online.
    /// Skipped (returns false) when the name is already live.
    pub fn register_running(
        &mut self,
        name: String,
        node_id: NodeId,
        module_hash: String,
        guest_id: i64,
    ) -> (r: bool)
        requires
            old(self).wf(),
        ensures
            final(self).wf(),
            r <==> old(self).spec_instance_by_name(name@) is None,
            r ==> (final(self).spec_instance_by_name(name@) matches Option::Some(e) && e.name@
                == name@ && e.node_id.bytes@ == node_id.bytes@ && e.module_hash@ == module_hash@
                && e.guest_id == guest_id),
            r ==> final(self).spec_instances().len() == old(self).spec_instances().len() + 1
                && final(self).spec_instances().drop_last() == old(self).spec_instances() && final(self).spec_instance_by_name(name@) == Option::Some(final(self).spec_instances().last()),
            !r ==> *final(self) == *old(self),
            final(self).spec_catalog() == old(self).spec_catalog(),
            final(self).spec_node_id() == old(self).spec_node_id(),
    {
        let n = self.instances.len();
        let mut i: usize = 0;
        while i < n
            invariant
                *self == *old(self),
                old(self).wf(),
                n == self.instances@.len(),
                i <= n,
                forall|j: int| 0 <= j < i ==> (#[trigger] self.instances@[j]).name@ != name@,
            decreases n - i,
        {
            if self.instances[i].name == name {
                proof {
                    self.lemma_instance_at(i as int, name@);
                }
                return false;
            }
            i += 1;
        }
        proof {
            self.lemma_instance_none(name@);
        }
        self.instances.push(InstanceEntry { name, node_id, module_hash, guest_id });
        proof {
            assert(self.spec_instances().drop_last() =~= old(self).spec_instances());
            let m = self.spec_instances().len() - 1;
            self.lemma_instance_at(m, self.spec_instances()[m].name@);
        }
        true
    }

    /// Create a guest.  Rejected when the name is already live or already
    /// in the catalog; otherwise the catalog row is created first, and the
    /// guest becomes live only if its instance initialized — a failed
    /// start keeps the row but registers nothing.  On success the reply
    /// carries the endpoint the new guest was bound to.
    pub fn create_module(
        &mut self,
        name: String,
        module: Vec<u8>,
        endpoint_id: NodeId,
        init_ok: bool,
    ) -> (r: Result<CreateResponse, ServerError>)
        requires
            old(self).wf(),
        ensures
            final(self).wf(),
            r is Ok <==> old(self).spec_instance_by_name(name@) is None && old(self).spec_catalog().spec_guest_by_name(name@) is None && old(self).spec_catalog().spec_next_guest_id() < i64::MAX && init_ok,
            r matches Ok(resp) ==> {
                &&& resp.endpoint_id.bytes@ == endpoint_id.bytes@
                &&& (final(self).spec_instance_by_name(name@) matches Option::Some(e) && e.name@
                    == name@ && e.node_id.bytes@ == endpoint_id.bytes@ && e.module_hash@
                    == blake3_hex_of(module@))
                &&& (final(self).spec_catalog().spec_guest_by_name(name@)
                    matches Option::Some(g) && g.module@ == module@ && g.module_hash@
                    == blake3_hex_of(module@))
                &&& final(self).spec_instances().len() == old(self).spec_instances().len() + 1
                &&& final(self).spec_instances().drop_last() == old(self).spec_instances()
                &&& final(self).spec_instance_by_name(name@) == Option::Some(
                    final(self).spec_instances().last(),
                )
                &&& final(self).spec_catalog().spec_history() == old(self).spec_catalog().spec_history()
            },
            r == Err::<CreateResponse, ServerError>(ServerError::NameCollision) <==> old(self).spec_instance_by_name(name@) is Some,
            r == Err::<CreateResponse, ServerError>(ServerError::NameCollision) ==> *final(self)
                == *old(self),
            final(self).spec_node_id() == old(self).spec_node_id(),
            final(self).spec_bootstrap() == old(self).spec_bootstrap(),
    {
        let n = self.instances.len();
        let mut i: usize = 0;
        while i < n
            invariant
                *self == *old(self),
                old(self).wf(),
                n == self.instances@.len(),
                i <= n,
                forall|j: int| 0 <= j < i ==> (#[trigger] self.instances@[j]).name@ != name@,
            decreases n - i,
        {
            if self.instances[i].name == name {
                proof {
                    self.lemma_instance_at(i as int, name@);
                }
                return Err(ServerError::NameCollision);
            }
            i += 1;
        }
        proof {
            self.lemma_instance_none(name@);
        }
        let entry_name = name.clone();
        let row = match GuestRow::create(&mut self.data, name, module) {
            Ok(row) => row,
            Err(e) => {
                return Err(ServerError::Catalog(e));
            },
        };
        if !init_ok {
            proof {
                self.lemma_instance_none(entry_name@);
            }
            return Err(ServerError::StartFailed);
        }
        let reply_id = endpoint_id.duplicate();
        self.instances.push(
            InstanceEntry {
                name: entry_name,
                node_id: endpoint_id,
                module_hash: row.module_hash,
                guest_id: row.id,
            },
        );
        proof {
            assert(self.spec_instances().drop_last() =~= old(self).spec_instances());
            let m = self.spec_instances().len() - 1;
            self.lemma_instance_at(m, self.spec_instances()[m].name@);
        }
        Ok(CreateResponse { endpoint_id: reply_id })
    }

    /// Update a guest's module.  Rejected when the name is not live.  The
    /// catalog appends the previous bytes to history and overwrites the
    /// row; the reply carries the new module's digest and the previous
    /// one, and reports success only if both the catalog update and the
    /// instance swap went through.  The guest's endpoint is untouched:
    /// identity survives the update.
    pub fn update_module(
        &mut self,
        name: &String,
        module: &[u8],
        now_nanos: u64,
        swap_ok: bool,
    ) -> (r: Result<UpdateResponse, ServerError>)
        requires
            old(self).wf(),
        ensures
            final(self).wf(),
            r is Err <==> old(self).spec_instance_by_name(name@) is None || (old(self).spec_catalog().spec_guest_by_name(name@) is Some && old(self).spec_catalog().spec_next_history_id() == i64::MAX),
            r == Err::<UpdateResponse, ServerError>(ServerError::NotFound) <==> old(self).spec_instance_by_name(name@) is None,
            r == Err::<UpdateResponse, ServerError>(ServerError::NotFound) ==> *final(self) == *old(self),
            r matches Ok(u) ==> {
                &&& u.module_hash@ == blake3_hex_of(module@)
                &&& match old(self).spec_catalog().spec_guest_by_name(name@) {
                    Option::Some(g0) => {
                        &&& (u.previous_hash matches Option::Some(ph) && ph@ == g0.module_hash@)
                        &&& u.success == swap_ok
                        &&& final(self).spec_catalog().spec_history().len() == old(self).spec_catalog().spec_history().len() + 1
                        &&& final(self).spec_catalog().spec_history().drop_last() == old(self).spec_catalog().spec_history()
                        &&& final(self).spec_catalog().spec_history().last().parent_id == g0.id
                        &&& final(self).spec_catalog().spec_history().last().module@ == g0.module@
                        &&& final(self).spec_catalog().spec_history().last().module_hash@
                            == g0.module_hash@
                        &&& final(self).spec_catalog().spec_history().last().created_at
                            == now_nanos
                        &&& (final(self).spec_catalog().spec_guest_by_name(name@)
                            matches Option::Some(g1) && g1.id == g0.id && g1.module@ == module@
                            && g1.module_hash@ == blake3_hex_of(module@))
                    },
                    Option::None => u.previous_hash is None && !u.success && final(self).spec_catalog() == old(self).spec_catalog(),
                }
                &&& (old(self).spec_instance_by_name(name@) matches Option::Some(e0) && (final(self).spec_instance_by_name(name@) matches Option::Some(e1) && e1.node_id.bytes@
                    == e0.node_id.bytes@ && e1.guest_id == e0.guest_id && e1.module_hash@ == if u.success {
                    blake3_hex_of(module@)
                } else {
                    e0.module_hash@
                }))
                &&& final(self).spec_instances().len() == old(self).spec_instances().len()
            },
            final(self).spec_node_id() == old(self).spec_node_id(),
            final(self).spec_bootstrap() == old(self).spec_bootstrap(),
    {
        let n = self.instances.len();
        let mut idx: usize = n;
        let mut i: usize = 0;
        while i < n
            invariant_except_break
                idx == n,
            invariant
                *self == *old(self),
                old(self).wf(),
                n == self.instances@.len(),
                i <= n,
                forall|j: int| 0 <= j < i ==> (#[trigger] self.instances@[j]).name@ != name@,
            ensures
                *self == *old(self),
                n == self.instances@.len(),
                idx <= n,
                idx == n ==> forall|j: int|
                    0 <= j < n ==> (#[trigger] self.instances@[j]).name@ != name@,
                idx < n ==> self.instances@[idx as int].name@ == name@,
            decreases n - i,
        {
            if self.instances[i].name == *name {
                idx = i;
                break ;
            }
            i += 1;
        }
        if idx == n {
            proof {
                self.lemma_instance_none(name@);
            }
            return Err(ServerError::NotFound);
        }
        proof {
            self.lemma_instance_at(idx as int, name@);
        }
        let previous_hash: Option<String> = match GuestRow::by_name(&self.data, name) {
            Ok(Option::Some(g)) => Option::Some(g.module_hash),
            Ok(Option::None) => Option::None,
            Err(_) => Option::None,
        };
        let db_ok = match GuestRow::update_module_by_name(&mut self.data, name, module, now_nanos) {
            Ok(b) => b,
            Err(e) => {
                return Err(ServerError::Catalog(e));
            },
        };
        let module_hash = blake3_hex(module);
        let success = db_ok && swap_ok;
        if success {
            let mut entry = InstanceEntry {
                name: String::new(),
                node_id: NodeId { bytes: Vec::new() },
                module_hash: String::new(),
                guest_id: 0,
            };
            self.instances.set_and_swap(idx, &mut entry);
            let updated = InstanceEntry {
                name: entry.name,
                node_id: entry.node_id,
                module_hash: module_hash.clone(),
                guest_id: entry.guest_id,
            };
            self.instances.set(idx, updated);
            proof {
                assert forall|a: int, b: int|
                    0 <= a < b < self.instances@.len() implies (#[trigger] self.instances@[a]).name@
                    != (#[trigger] self.instances@[b]).name@ by {
                    assert(self.instances@[a].name@ == old(self).spec_instances()[a].name@);
                    assert(self.instances@[b].name@ == old(self).spec_instances()[b].name@);
                }
                self.lemma_instance_at(idx as int, name@);
            }
        } else {
            proof {
                self.lemma_instance_at(idx as int, name@);
            }
        }
        Ok(UpdateResponse { success, module_hash, previous_hash })
    }

    /// Remove a guest.  When the name is live, the guest leaves the map
    /// and its catalog row is deleted — its history rows are preserved —
    /// and the reply reports success exactly when the shutdown and the
    /// catalog deletion both went through.  When the name is not live,
    /// nothing changes and the reply says so.
    pub fn remove_module(&mut self, name: &String, shutdown_ok: bool) -> (r: RemoveResponse)
        requires
            old(self).wf(),
        ensures
            final(self).wf(),
            r.success <==> old(self).spec_instance_by_name(name@) is Some && shutdown_ok && old(self).spec_catalog().spec_guest_by_name(name@) is Some,
            old(self).spec_instance_by_name(name@) is None ==> *final(self) == *old(self)
                && r.message@ == "Guest with name '"@ + name@ + "' does not exist"@,
            old(self).spec_instance_by_name(name@) is Some ==> {
                &&& final(self).spec_instance_by_name(name@) is None
                &&& final(self).spec_instances().len() + 1 == old(self).spec_instances().len()
                &&& final(self).spec_catalog().spec_guest_by_name(name@) is None
                &&& final(self).spec_catalog().spec_history() == old(self).spec_catalog().spec_history()
                &&& forall|n2: Seq<char>|
                    n2 != name@ ==> #[trigger] final(self).spec_catalog().spec_guest_by_name(n2)
                        == old(self).spec_catalog().spec_guest_by_name(n2)
            },
            r.success ==> r.message@ == "Successfully removed guest '"@ + name@ + "'"@,
            final(self).spec_node_id() == old(self).spec_node_id(),
            final(self).spec_bootstrap() == old(self).spec_bootstrap(),
    {
        let n = self.instances.len();
        let mut idx: usize = n;
        let mut i: usize = 0;
        while i < n
            invariant_except_break
                idx == n,
            invariant
                *self == *old(self),
                old(self).wf(),
                n == self.instances@.len(),
                i <= n,
                forall|j: int| 0 <= j < i ==> (#[trigger] self.instances@[j]).name@ != name@,
            ensures
                *self == *old(self),
                n == self.instances@.len(),
                idx <= n,
                idx == n ==> forall|j: int|
                    0 <= j < n ==> (#[trigger] self.instances@[j]).name@ != name@,
                idx < n ==> self.instances@[idx as int].name@ == name@,
            decreases n - i,
        {
            if self.instances[i].name == *name {
                idx = i;
                break ;
            }
            i += 1;
        }
        if idx == n {
            proof {
                self.lemma_instance_none(name@);
            }
            let mut message = String::from_str("Guest with name '");
            message.append(name.as_str());
            message.append("' does not exist");
            return RemoveResponse { success: false, message };
        }
        proof {
            self.lemma_instance_at(idx as int, name@);
        }
        let ghost before = self.instances@;
        self.instances.remove(idx);
        proof {
            assert forall|j: int|
                0 <= j < self.instances@.len() implies (#[trigger] self.instances@[j]).name@
                    != name@ by {
                if j < idx {
                    assert(self.instances@[j] == before[j]);
                } else {
                    assert(self.instances@[j] == before[j + 1]);
                }
            }
            self.lemma_instance_none(name@);
            assert forall|a: int, b: int|
                0 <= a < b < self.instances@.len() implies (#[trigger] self.instances@[a]).name@
                != (#[trigger] self.instances@[b]).name@ by {
                let a0 = if a < idx {
                    a
                } else {
                    a + 1
                };
                let b0 = if b < idx {
                    b
                } else {
                    b + 1
                };
                assert(self.instances@[a] == before[a0]);
                assert(self.instances@[b] == before[b0]);
            }
        }
        let db_removed = match GuestRow::remove_by_name(&mut self.data, name) {
            Ok(b) => b,
            Err(_) => false,
        };
        if shutdown_ok && db_removed {
            let mut message = String::from_str("Successfully removed guest '");
            message.append(name.as_str());
            message.append("'");
            RemoveResponse { success: true, message }
        } else if db_removed {
            let mut message = String::from_str("Guest '");
            message.append(name.as_str());
            message.append("' removed from database but shutdown failed");
            RemoveResponse { success: false, message }
        } else {
            let mut message = String::from_str("Failed to remove guest '");
            message.append(name.as_str());
            message.append("' from database");
            RemoveResponse { success: false, message }
        }
    }

    /// Replace the bootstrap peer list.
    pub fn update_bootstrap(&mut self, nodes: Vec<NodeId>) -> (r: UpdateBootstrapResponse)
        requires
            old(self).wf(),
        ensures
            final(self).wf(),
            r.success,
            r.node_count == final(self).spec_bootstrap().len(),
            final(self).spec_bootstrap() == nodes@,
            final(self).spec_catalog() == old(self).spec_catalog(),
            final(self).spec_instances() == old(self).spec_instances(),
            final(self).spec_node_id() == old(self).spec_node_id(),
    {
        let node_count = nodes.len();
        self.bootstrap = nodes;
        UpdateBootstrapResponse { success: true, node_count }
    }

    /// A snapshot of the live guests: name, endpoint, and module hash of
    /// each, in map order.
    pub fn guest_info(&self) -> (r: Vec<GuestInfo>)
        ensures
            r@.len() == self.spec_instances().len(),
            forall|i: int|
                0 <= i < r@.len() ==> {
                    &&& (#[trigger] r@[i]).name@ == self.spec_instances()[i].name@
                    &&& r@[i].endpoint_id.bytes@ == self.spec_instances()[i].node_id.bytes@
                    &&& r@[i].module_hash@ == self.spec_instances()[i].module_hash@
                },
    {
        let n = self.instances.len();
        let mut out: Vec<GuestInfo> = Vec::new();
        let mut i: usize = 0;
        while i < n
            invariant
                n == self.instances@.len(),
                i <= n,
                out@.len() == i,
                forall|k: int|
                    0 <= k < i ==> {
                        &&& (#[trigger] out@[k]).name@ == self.instances@[k].name@
                        &&& out@[k].endpoint_id.bytes@ == self.instances@[k].node_id.bytes@
                        &&& out@[k].module_hash@ == self.instances@[k].module_hash@
                    },
            decreases n - i,
        {
            let e = &self.instances[i];
            out.push(
                GuestInfo {
                    name: e.name.clone(),
                    endpoint_id: e.node_id.duplicate(),
                    module_hash: e.module_hash.clone(),
                },
            );
            i += 1;
        }
        out
    }

    /// The server's own overlay identity.
    pub fn node_address(&self) -> (r: NodeId)
        ensures
            r.bytes@ == self.spec_node_id().bytes@,
    {
        self.node_id.duplicate()
    }
}

} // verus!
