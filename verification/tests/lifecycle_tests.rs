use fern_core::catalog::{GuestRow, ModuleRow};
use fern_core::json::JVal;
use fern_core::server::{Server, ServerError};
use fern_core::sqlhost::SqliteState;
use fern_core::sqlvalue::{SqlRow, SqlValue};
use fern_core::supervisor::{
    GuestCommand, GuestConfig, GuestReply, IdentityKey, IdentityKeyError, NodeId, ShutdownModule,
    Supervisor, SupervisorStatus, UpdateModule,
};

fn node(tag: u8) -> NodeId {
    NodeId { bytes: vec![tag; 32] }
}

fn key(tag: u8) -> IdentityKey {
    IdentityKey::from_bytes(&[tag; 32]).expect("32 bytes make a key")
}

#[test]
fn create_and_roundtrip() {
    // Start a server with an empty catalog, create a guest, and read it
    // back: the listing shows its name, its endpoint, and the digest of
    // the module bytes it was created with.
    let mut server = Server::new(node(1));
    let m0 = b"module zero".to_vec();
    let endpoint = node(9);
    let created = server
        .create_module("hw".to_string(), m0.clone(), endpoint, true)
        .expect("create should succeed");
    assert_eq!(created.endpoint_id, node(9));

    let guests = server.guest_info();
    assert_eq!(guests.len(), 1);
    assert_eq!(guests[0].name, "hw");
    assert_eq!(guests[0].endpoint_id, node(9));
    assert_eq!(guests[0].module_hash, blake3::hash(&m0).to_string());
}

#[test]
fn identity_preserved_under_update() {
    // Updating a guest's module reports the new and previous digests,
    // keeps the endpoint, and leaves the pre-update bytes as the latest
    // history row.
    let mut server = Server::new(node(1));
    let m0 = b"module zero".to_vec();
    let m1 = b"module one".to_vec();
    server
        .create_module("hw".to_string(), m0.clone(), node(9), true)
        .expect("create should succeed");

    let updated = server
        .update_module(&"hw".to_string(), &m1, 1000, true)
        .expect("update should succeed");
    assert!(updated.success);
    assert_eq!(updated.module_hash, blake3::hash(&m1).to_string());
    assert_eq!(updated.previous_hash, Some(blake3::hash(&m0).to_string()));

    let guests = server.guest_info();
    assert_eq!(guests.len(), 1);
    // the endpoint is unchanged: the guest kept its identity
    assert_eq!(guests[0].endpoint_id, node(9));
    assert_eq!(guests[0].module_hash, blake3::hash(&m1).to_string());

    let row = GuestRow::by_name(server.catalog(), &"hw".to_string())
        .expect("query should succeed")
        .expect("row should exist");
    let latest = ModuleRow::latest_by_guest_id(server.catalog(), row.id)
        .expect("history query should succeed")
        .expect("history should exist");
    assert_eq!(latest.module_hash, blake3::hash(&m0).to_string());
}

#[test]
fn remove_preserves_history() {
    let mut server = Server::new(node(1));
    let m0 = b"module zero".to_vec();
    let m1 = b"module one".to_vec();
    server
        .create_module("hw".to_string(), m0.clone(), node(9), true)
        .expect("create should succeed");
    server
        .update_module(&"hw".to_string(), &m1, 1000, true)
        .expect("update should succeed");
    let row = GuestRow::by_name(server.catalog(), &"hw".to_string())
        .expect("query should succeed")
        .expect("row should exist");

    let removed = server.remove_module(&"hw".to_string(), true);
    assert!(removed.success);
    assert_eq!(removed.message, "Successfully removed guest 'hw'");

    assert!(server.guest_info().is_empty());
    let gone = GuestRow::by_name(server.catalog(), &"hw".to_string()).expect("query should succeed");
    assert!(gone.is_none());
    // history rows of the removed guest are preserved
    let latest = ModuleRow::latest_by_guest_id(server.catalog(), row.id)
        .expect("history query should succeed")
        .expect("history should exist");
    assert_eq!(latest.module_hash, blake3::hash(&m0).to_string());

    // removing again reports the absence
    let again = server.remove_module(&"hw".to_string(), true);
    assert!(!again.success);
    assert_eq!(again.message, "Guest with name 'hw' does not exist");
}

#[test]
fn create_rejects_live_name() {
    let mut server = Server::new(node(1));
    server
        .create_module("hw".to_string(), vec![1], node(2), true)
        .expect("create should succeed");
    let second = server.create_module("hw".to_string(), vec![2], node(3), true);
    assert_eq!(second, Err(ServerError::NameCollision));
    let missing = server.update_module(&"nope".to_string(), &[1], 0, true);
    assert_eq!(missing, Err(ServerError::NotFound));
}

#[test]
fn failed_start_keeps_catalog_row_but_registers_nothing() {
    let mut server = Server::new(node(1));
    let failed = server.create_module("hw".to_string(), vec![1], node(2), false);
    assert_eq!(failed, Err(ServerError::StartFailed));
    // the catalog row was created before the start failed ...
    let row = GuestRow::by_name(server.catalog(), &"hw".to_string()).expect("query should succeed");
    assert!(row.is_some());
    // ... so the guest is not live, and a retry collides in the catalog
    assert!(server.guest_info().is_empty());
    let retry = server.create_module("hw".to_string(), vec![1], node(2), true);
    assert_eq!(
        retry,
        Err(ServerError::Catalog(fern_core::catalog::CatalogError::NameExists))
    );
}

#[test]
fn update_bootstrap_replaces_peer_list() {
    let mut server = Server::new(node(1));
    let reply = server.update_bootstrap(vec![node(2), node(3)]);
    assert!(reply.success);
    assert_eq!(reply.node_count, 2);
}

#[test]
fn supervisor_keeps_identity_across_hot_swap() {
    let mut sup = Supervisor::new(7, "hw".to_string(), "hash0".to_string(), key(0xAA));
    sup.complete_start(true);
    assert_eq!(sup.status, SupervisorStatus::Running);

    // state a guest stored before the swap survives it
    sup.caps.kv.kv_store("t".to_string(), "k".to_string(), JVal::Int(1));

    let reply = sup.hot_swap("hash1".to_string(), true);
    assert!(reply.success);
    assert_eq!(sup.module_hash, "hash1");
    assert_eq!(sup.status, SupervisorStatus::Running);
    // the identity key is byte-for-byte the one the guest was created with
    assert_eq!(sup.secret_key.bytes, vec![0xAA; 32]);
    // the kv capability was carried over; the gossip bridge was rebuilt
    assert_eq!(
        sup.caps.kv.kv_read(&"t".to_string(), &"k".to_string()),
        Some(&JVal::Int(1))
    );
    assert!(sup.caps.gossip.drain_inbox().is_empty());

    // a failed swap stops the supervisor but never touches the identity
    let failed = sup.hot_swap("hash2".to_string(), false);
    assert!(!failed.success);
    assert_eq!(sup.module_hash, "hash1");
    assert_eq!(sup.status, SupervisorStatus::Stopped);
    assert_eq!(sup.secret_key.bytes, vec![0xAA; 32]);
}

#[test]
fn supervisor_command_dispatch() {
    let mut sup = Supervisor::new(7, "hw".to_string(), "hash0".to_string(), key(0x01));
    sup.complete_start(true);
    let update = GuestCommand::UpdateModule(UpdateModule {
        module: vec![1, 2, 3],
        module_hash: "hash1".to_string(),
        guest_name: "hw".to_string(),
        guest_db_path: None,
        bootstrap: vec![],
    });
    let (reply, exit) = sup.handle_command(update, true);
    assert!(!exit);
    match reply {
        GuestReply::Update(u) => assert!(u.success),
        GuestReply::Shutdown(_) => panic!("expected an update reply"),
    }
    assert_eq!(sup.module_hash, "hash1");

    let (reply, exit) = sup.handle_command(GuestCommand::ShutdownModule(ShutdownModule {}), true);
    assert!(exit);
    match reply {
        GuestReply::Shutdown(s) => assert!(s.success),
        GuestReply::Update(_) => panic!("expected a shutdown reply"),
    }
    assert_eq!(sup.status, SupervisorStatus::Stopped);
    assert_eq!(sup.secret_key.bytes, vec![0x01; 32]);
}

#[test]
fn identity_key_requires_exactly_32_bytes() {
    assert_eq!(IdentityKey::from_bytes(&[0u8; 31]), Err(IdentityKeyError::WrongLength));
    assert_eq!(IdentityKey::from_bytes(&[0u8; 33]), Err(IdentityKeyError::WrongLength));
    let k = IdentityKey::from_bytes(&[5u8; 32]).expect("32 bytes make a key");
    assert_eq!(k.bytes.len(), 32);
}

#[test]
fn guest_config_paths() {
    let config = GuestConfig { name: "hw".to_string(), host_data_path: Some("/data".to_string()) };
    assert_eq!(config.kv_path(), Some("/data/hw/db.kv".to_string()));
    assert_eq!(config.sqlite_path(), Some("/data/hw/db.sqlite".to_string()));
    let ephemeral = GuestConfig { name: "hw".to_string(), host_data_path: None };
    assert_eq!(ephemeral.kv_path(), None);
    assert_eq!(ephemeral.sqlite_path(), None);
}

#[test]
fn resource_cursor_lifetime() {
    // Open a database, run a query returning two rows, read one, drop the
    // cursor, and touch it again: the host reports a stale handle while
    // the connection stays usable.
    let mut state = SqliteState::new();
    let db = state.open_db("main".to_string());
    let rows = vec![
        SqlRow { values: vec![SqlValue::Integer(1)] },
        SqlRow { values: vec![SqlValue::Integer(2)] },
    ];
    let cursor = state.query(db, rows).expect("query should succeed");

    let first = state.next_row(cursor).expect("cursor should be live");
    assert_eq!(first, Some(SqlRow { values: vec![SqlValue::Integer(1)] }));

    state.drop_resource(cursor).expect("drop should succeed");

    // the dropped handle is stale for good
    assert!(state.next_row(cursor).is_err());
    assert!(state.drop_resource(cursor).is_err());

    // the underlying connection remains usable
    let stats = state
        .database_stats(db, 1, 4096, "3.45.0".to_string())
        .expect("connection should remain usable");
    assert_eq!(stats.total_queries, 0);

    // a fresh cursor gets a fresh generation; the old handle stays dead
    let rows2 = vec![SqlRow { values: vec![SqlValue::Integer(3)] }];
    let cursor2 = state.query(db, rows2).expect("query should succeed");
    assert!(state.next_row(cursor).is_err());
    let row = state.next_row(cursor2).expect("new cursor should be live");
    assert_eq!(row, Some(SqlRow { values: vec![SqlValue::Integer(3)] }));
}
