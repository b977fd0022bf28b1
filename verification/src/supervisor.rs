//! The per-guest supervisor.
//!
//! One supervisor owns one live guest: its WASM instance, its capability
//! bundle, its command mailbox, and the network identity it was created
//! with.  The loop around it — the tick timer, the channels, the WASM and
//! overlay calls — performs the outside work and feeds each outcome into
//! the transition functions here, which make every decision: what state
//! the supervisor enters, what is carried across a hot swap, and what is
//! replied.
//!
//! The one thing no transition may do is touch the identity key: a guest
//! keeps its network identity from creation to shutdown, across every
//! module replacement.

use vstd::prelude::*;
use vstd::string::StringExecFns;
use crate::gossip::{GuestGossip, InboundGossipMsg, Mailbox, COMMAND_CHANNEL_CAPACITY};
use crate::kv::GuestKvData;
use crate::sqlhost::SqliteState;

verus! {

/// A guest's 32-byte network identity key: generated at create time and
/// never regenerated, whatever happens to the module.
#[derive(Debug, PartialEq, Eq)]
pub struct IdentityKey {
    pub bytes: Vec<u8>,
}

/// What loading an identity key can fail with.
#[derive(Debug, PartialEq, Eq, Structural)]
pub enum IdentityKeyError {
    WrongLength,
}

impl IdentityKey {
    /// The key is exactly 32 bytes.
    pub open spec fn wf(&self) -> bool {
        self.bytes@.len() == 32
    }

    /// Parse a key from raw bytes, as read from a `secret.key` file.
    /// Succeeds exactly on 32 bytes.
    pub fn from_bytes(bytes: &[u8]) -> (r: Result<IdentityKey, IdentityKeyError>)
        ensures
            r is Ok <==> bytes@.len() == 32,
            r matches Ok(k) ==> k.bytes@ == bytes@ && k.wf(),
    {
        if bytes.len() == 32 {
            Ok(IdentityKey { bytes: vstd::slice::slice_to_vec(bytes) })
        } else {
            Err(IdentityKeyError::WrongLength)
        }
    }

    /// A copy of the key.
    pub fn duplicate(&self) -> (r: IdentityKey)
        ensures
            r.bytes@ == self.bytes@,
    {
        IdentityKey { bytes: crate::catalog::clone_bytes(&self.bytes) }
    }
}

/// A node identity on the overlay: the public half of an identity key.
#[derive(Debug, PartialEq, Eq)]
pub struct NodeId {
    pub bytes: Vec<u8>,
}

impl NodeId {
    /// A copy of the id.
    pub fn duplicate(&self) -> (r: NodeId)
        ensures
            r.bytes@ == self.bytes@,
    {
        NodeId { bytes: crate::catalog::clone_bytes(&self.bytes) }
    }
}

/// Where a guest finds its per-guest storage.
#[derive(Debug, PartialEq, Eq)]
pub struct GuestConfig {
    pub name: String,
    pub host_data_path: Option<String>,
}

/// The path under the host data directory where a guest file lives:
/// `<host_data_path>/<guest_name>/<file>`.
pub open spec fn guest_file_path(base: Seq<char>, name: Seq<char>, file: Seq<char>) -> Seq<char> {
    base + "/"@ + name + "/"@ + file
}

impl GuestConfig {
    fn data_file_path(&self, file: &str) -> (r: Option<String>)
        ensures
            r is Some <==> self.host_data_path is Some,
            r matches Option::Some(p) ==> (self.host_data_path matches Option::Some(base) && p@
                == guest_file_path(base@, self.name@, file@)),
    {
        match &self.host_data_path {
            Option::Some(base) => {
                let mut p = base.clone();
                p.append("/");
                p.append(self.name.as_str());
                p.append("/");
                p.append(file);
                Option::Some(p)
            },
            Option::None => Option::None,
        }
    }

    /// Where the guest's key/value store lives, when storage is
    /// configured: `<host_data_path>/<guest_name>/db.kv`.
    pub fn kv_path(&self) -> (r: Option<String>)
        ensures
            r is Some <==> self.host_data_path is Some,
            r matches Option::Some(p) ==> (self.host_data_path matches Option::Some(base) && p@
                == guest_file_path(base@, self.name@, "db.kv"@)),
    {
        self.data_file_path("db.kv")
    }

    /// Where the guest's SQL database lives, when storage is configured:
    /// `<host_data_path>/<guest_name>/db.sqlite`.
    pub fn sqlite_path(&self) -> (r: Option<String>)
        ensures
            r is Some <==> self.host_data_path is Some,
            r matches Option::Some(p) ==> (self.host_data_path matches Option::Some(base) && p@
                == guest_file_path(base@, self.name@, "db.sqlite"@)),
    {
        self.data_file_path("db.sqlite")
    }
}

/// The engine pragmas applied to a guest database: write-ahead logging and
/// a busy timeout for a file-backed store, full synchronous mode for an
/// in-memory one.
pub fn pragma_batch(file_backed: bool) -> (r: &'static str)
    ensures
        file_backed ==> r@
            == "PRAGMA foreign_keys = ON; PRAGMA journal_mode = WAL; PRAGMA synchronous = NORMAL; PRAGMA temp_store = MEMORY; PRAGMA cache_size = -64000; PRAGMA busy_timeout = 30000;"@,
        !file_backed ==> r@
            == "PRAGMA foreign_keys = ON; PRAGMA journal_mode = MEMORY; PRAGMA synchronous = FULL; PRAGMA temp_store = MEMORY; PRAGMA cache_size = -64000;"@,
{
    if file_backed {
        "PRAGMA foreign_keys = ON; PRAGMA journal_mode = WAL; PRAGMA synchronous = NORMAL; PRAGMA temp_store = MEMORY; PRAGMA cache_size = -64000; PRAGMA busy_timeout = 30000;"
    } else {
        "PRAGMA foreign_keys = ON; PRAGMA journal_mode = MEMORY; PRAGMA synchronous = FULL; PRAGMA temp_store = MEMORY; PRAGMA cache_size = -64000;"
    }
}

/// The request to replace a guest's module in place.
pub struct UpdateModule {
    pub module: Vec<u8>,
    pub module_hash: String,
    pub guest_name: String,
    pub guest_db_path: Option<String>,
    pub bootstrap: Vec<NodeId>,
}

/// The request to shut a guest down.
pub struct ShutdownModule {}

/// What a supervisor can be asked to do.
pub enum GuestCommand {
    UpdateModule(UpdateModule),
    ShutdownModule(ShutdownModule),
}

/// The reply to an [`UpdateModule`] command.
#[derive(Debug, PartialEq, Eq)]
pub struct UpdateModuleResponse {
    pub success: bool,
    pub error_message: Option<String>,
}

/// The reply to a [`ShutdownModule`] command.
#[derive(Debug, PartialEq, Eq)]
pub struct ShutdownModuleResponse {
    pub success: bool,
    pub error_message: Option<String>,
}

/// The reply a command produces.
pub enum GuestReply {
    Update(UpdateModuleResponse),
    Shutdown(ShutdownModuleResponse),
}

/// Where a supervisor stands in its lifecycle.
#[derive(Debug, Clone, Copy, PartialEq, Eq, Structural)]
pub enum SupervisorStatus {
    Starting,
    Running,
    Updating,
    Stopping,
    Stopped,
}

/// The host-owned capabilities of one guest.  Across a hot swap the SQL
/// and key/value state are carried over; the gossip bridge is rebuilt
/// because it is bound to the endpoint and router.
pub struct CapBundle {
    pub sqlite: SqliteState,
    pub kv: GuestKvData,
    pub gossip: GuestGossip,
}

impl CapBundle {
    /// A fresh bundle: no resources, nothing stored, empty channels.
    pub fn new() -> (r: CapBundle)
        ensures
            forall|h: crate::resource::ResourceHandle| !r.sqlite.spec_live(h),
            forall|t: Seq<char>, k: Seq<char>| r.kv.spec_get(t, k) is None,
            r.gossip.inbound.spec_items().len() == 0,
            r.gossip.outbound.spec_items().len() == 0,
    {
        CapBundle { sqlite: SqliteState::new(), kv: GuestKvData::new(), gossip: GuestGossip::new() }
    }
}

/// The two supervisor states carry the same network identity.
pub open spec fn same_identity(pre: &Supervisor, post: &Supervisor) -> bool {
    post.secret_key.bytes@ == pre.secret_key.bytes@
}

/// One live guest's supervisor.
pub struct Supervisor {
    pub guest_id: i64,
    pub guest_name: String,
    pub module_hash: String,
    pub secret_key: IdentityKey,
    pub status: SupervisorStatus,
    pub caps: CapBundle,
    pub mailbox: Mailbox<GuestCommand>,
}

impl Supervisor {
    /// A supervisor in `Starting`, owning a fresh capability bundle and
    /// the identity it will keep for the guest's whole lifetime.
    pub fn new(guest_id: i64, guest_name: String, module_hash: String, secret_key: IdentityKey) -> (r:
        Supervisor)
        ensures
            r.guest_id == guest_id,
            r.guest_name == guest_name,
            r.module_hash == module_hash,
            r.secret_key.bytes@ == secret_key.bytes@,
            r.status == SupervisorStatus::Starting,
            r.mailbox.spec_items().len() == 0,
            r.mailbox.spec_capacity() == COMMAND_CHANNEL_CAPACITY,
    {
        Supervisor {
            guest_id,
            guest_name,
            module_hash,
            secret_key,
            status: SupervisorStatus::Starting,
            caps: CapBundle::new(),
            mailbox: Mailbox::new(COMMAND_CHANNEL_CAPACITY),
        }
    }

    /// Finish `Starting` with the outcome of instantiation and `init`:
    /// `Running` on success, `Stopped` on failure.  The identity is kept
    /// either way.
    pub fn complete_start(&mut self, init_ok: bool)
        ensures
            same_identity(old(self), final(self)),
            final(self).status == if init_ok {
                SupervisorStatus::Running
            } else {
                SupervisorStatus::Stopped
            },
            final(self).module_hash == old(self).module_hash,
            final(self).guest_id == old(self).guest_id,
            final(self).guest_name == old(self).guest_name,
            final(self).caps == old(self).caps,
    {
        self.status = if init_ok {
            SupervisorStatus::Running
        } else {
            SupervisorStatus::Stopped
        };
    }

    /// The messages to hand to the guest on a tick, in arrival order, one
    /// handler call per message; a handler error does not stop the rest.
    pub fn tick_gossip(&mut self) -> (r: Vec<InboundGossipMsg>)
        ensures
            same_identity(old(self), final(self)),
            r@ == old(self).caps.gossip.inbound.spec_items(),
            final(self).caps.gossip.inbound.spec_items().len() == 0,
            final(self).caps.gossip.outbound == old(self).caps.gossip.outbound,
            final(self).caps.kv == old(self).caps.kv,
            final(self).caps.sqlite == old(self).caps.sqlite,
            final(self).status == old(self).status,
            final(self).module_hash == old(self).module_hash,
    {
        self.caps.gossip.drain_inbox()
    }

    /// Replace the module in place.  The protocol: capture the identity
    /// key, shut the old instance down, rebind the endpoint with the same
    /// key, carry the SQL and key/value state into the new bundle, rebuild
    /// the gossip bridge, and instantiate the new module.  On success the
    /// supervisor runs the new module under the same identity; on failure
    /// the old instance is already gone, so it stops — still under the
    /// same identity.
    pub fn hot_swap(&mut self, module_hash: String, instantiate_ok: bool) -> (r:
        UpdateModuleResponse)
        ensures
            same_identity(old(self), final(self)),
            r.success == instantiate_ok,
            final(self).module_hash == if instantiate_ok {
                module_hash
            } else {
                old(self).module_hash
            },
            final(self).status == if instantiate_ok {
                SupervisorStatus::Running
            } else {
                SupervisorStatus::Stopped
            },
            final(self).caps.kv == old(self).caps.kv,
            final(self).caps.sqlite == old(self).caps.sqlite,
            final(self).caps.gossip.inbound.spec_items().len() == 0,
            final(self).caps.gossip.outbound.spec_items().len() == 0,
            final(self).guest_id == old(self).guest_id,
            final(self).guest_name == old(self).guest_name,
            instantiate_ok ==> r.error_message is None,
    {
        self.status = SupervisorStatus::Updating;
        self.caps.gossip = GuestGossip::new();
        if instantiate_ok {
            self.module_hash = module_hash;
            self.status = SupervisorStatus::Running;
            UpdateModuleResponse { success: true, error_message: Option::None }
        } else {
            self.status = SupervisorStatus::Stopped;
            UpdateModuleResponse {
                success: false,
                error_message: Option::Some(
                    String::from_str("failed to instantiate the new module"),
                ),
            }
        }
    }

    /// Shut the guest down: `shutdown` is called on the instance, the
    /// endpoint closed, the router stopped.  The supervisor is `Stopped`;
    /// the identity is kept to the end.
    pub fn shutdown(&mut self, shutdown_ok: bool) -> (r: ShutdownModuleResponse)
        ensures
            same_identity(old(self), final(self)),
            r.success == shutdown_ok,
            final(self).status == SupervisorStatus::Stopped,
            final(self).module_hash == old(self).module_hash,
            final(self).guest_id == old(self).guest_id,
            final(self).guest_name == old(self).guest_name,
            shutdown_ok ==> r.error_message is None,
    {
        self.status = SupervisorStatus::Stopped;
        if shutdown_ok {
            ShutdownModuleResponse { success: true, error_message: Option::None }
        } else {
            ShutdownModuleResponse {
                success: false,
                error_message: Option::Some(String::from_str("guest shutdown failed")),
            }
        }
    }

    /// Handle one command from the mailbox, given the outcome of the
    /// outside work it needed.  Returns the reply to send and whether the
    /// supervisor loop should exit — which it does exactly after a
    /// shutdown command.  Whatever the command did, the identity is
    /// unchanged.
    pub fn handle_command(&mut self, cmd: GuestCommand, work_ok: bool) -> (r: (GuestReply, bool))
        ensures
            same_identity(old(self), final(self)),
            r.1 == (cmd is ShutdownModule),
            cmd matches GuestCommand::UpdateModule(u) ==> (r.0 matches GuestReply::Update(resp)
                && resp.success == work_ok && final(self).module_hash == if work_ok {
                u.module_hash
            } else {
                old(self).module_hash
            }),
            cmd is ShutdownModule ==> (r.0 matches GuestReply::Shutdown(resp) && resp.success
                == work_ok && final(self).status == SupervisorStatus::Stopped),
    {
        match cmd {
            GuestCommand::UpdateModule(update) => {
                let resp = self.hot_swap(update.module_hash, work_ok);
                (GuestReply::Update(resp), false)
            },
            GuestCommand::ShutdownModule(_) => {
                let resp = self.shutdown(work_ok);
                (GuestReply::Shutdown(resp), true)
            },
        }
    }
}

/// Identity is invariant for the whole life of a supervisor: every
/// transition — finishing a start, a tick, a hot swap, a shutdown, a
/// command — relates its pre- and post-state by `same_identity`, and the
/// relation composes over any run of them.
pub proof fn lemma_identity_invariant(s0: &Supervisor, s1: &Supervisor, s2: &Supervisor)
    requires
        same_identity(s0, s1),
        same_identity(s1, s2),
    ensures
        same_identity(s0, s2),
{
}

} // verus!
