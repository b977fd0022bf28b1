use fern_core::catalog::{Data, GuestRow, ModuleRow};

#[test]
fn data_sql_guest_row() {
    let mut data = Data::new_memory();
    let guest = GuestRow::create(
        &mut data,
        "test module".to_string(),
        uuid::Uuid::new_v4().as_bytes().into(),
    )
    .expect("failed to create guest row");

    let got_guest = GuestRow::by_id(&data, guest.id)
        .expect("failed to query guest row")
        .expect("couldn't find guest row");

    assert_eq!(guest, got_guest);

    let got_guest = GuestRow::by_name(&data, &"test module".to_string())
        .expect("failed to execute sql")
        .expect("failed to find row");

    assert_eq!(guest, got_guest);

    let new_module = uuid::Uuid::new_v4();
    GuestRow::update_module_by_name(&mut data, &"test module".to_string(), new_module.as_bytes(), 1)
        .expect("failed to update module bytes");

    let got_guest = GuestRow::by_name(&data, &"test module".to_string())
        .expect("failed to execute sql")
        .expect("failed to find row");

    assert_eq!(got_guest.module, new_module.as_bytes());

    // Test pagination - create a few more guests first
    GuestRow::create(&mut data, "guest2".to_string(), vec![1, 2, 3]).expect("failed to create guest2");
    GuestRow::create(&mut data, "guest3".to_string(), vec![4, 5, 6]).expect("failed to create guest3");

    // Test getting all guests with pagination
    let all_guests =
        GuestRow::all_with_pagination(&data, 10, 0).expect("failed to get paginated guests");
    assert_eq!(all_guests.len(), 3); // Should have 3 guests total

    // Test pagination with limit
    let first_two = GuestRow::all_with_pagination(&data, 2, 0).expect("failed to get first page");
    assert_eq!(first_two.len(), 2);

    // Test pagination with offset
    let last_one = GuestRow::all_with_pagination(&data, 2, 2).expect("failed to get second page");
    assert_eq!(last_one.len(), 1);
}

#[test]
fn guest_row_sql_guest_row() {
    let mut data = Data::new_memory();
    let guest = GuestRow::create(
        &mut data,
        "test module".to_string(),
        uuid::Uuid::new_v4().as_bytes().into(),
    )
    .expect("failed to create guest row");

    let got_guest = GuestRow::by_id(&data, guest.id)
        .expect("failed to query guest row")
        .expect("couldn't find guest row");

    assert_eq!(guest, got_guest);

    let got_guest = GuestRow::by_name(&data, &"test module".to_string())
        .expect("failed to execute sql")
        .expect("failed to find row");

    assert_eq!(guest, got_guest);

    let new_module = uuid::Uuid::new_v4();
    GuestRow::update_module_by_name(&mut data, &"test module".to_string(), new_module.as_bytes(), 1)
        .expect("failed to update module bytes");

    let got_guest = GuestRow::by_name(&data, &"test module".to_string())
        .expect("failed to execute sql")
        .expect("failed to find row");

    assert_eq!(got_guest.module, new_module.as_bytes());

    // Test pagination - create a few more guests first
    GuestRow::create(&mut data, "guest2".to_string(), vec![1, 2, 3])
        .expect("failed to create guest2");
    GuestRow::create(&mut data, "guest3".to_string(), vec![4, 5, 6])
        .expect("failed to create guest3");

    // Test getting all guests with pagination
    let all_guests =
        GuestRow::all_with_pagination(&data, 10, 0).expect("failed to get paginated guests");
    assert_eq!(all_guests.len(), 3); // Should have 3 guests total

    // Test pagination with limit
    let first_two =
        GuestRow::all_with_pagination(&data, 2, 0).expect("failed to get first page");
    assert_eq!(first_two.len(), 2);

    // Test pagination with offset
    let last_one =
        GuestRow::all_with_pagination(&data, 2, 2).expect("failed to get second page");
    assert_eq!(last_one.len(), 1);
}

#[test]
fn test_module_row_operations() {
    let mut data = Data::new_memory();

    // Create a guest first
    let guest = GuestRow::create(&mut data, "test_guest".to_string(), vec![1, 2, 3, 4])
        .expect("failed to create guest");

    // Create a module history entry
    let module_data = vec![5, 6, 7, 8];
    let module_hash = blake3::hash(&module_data).to_string();

    let module_row = ModuleRow::create(
        &mut data,
        guest.id,
        module_data.clone(),
        module_hash.clone(),
        1000,
    )
    .expect("failed to create module row");

    assert_eq!(module_row.parent_id, guest.id);
    assert_eq!(module_row.module, module_data);
    assert_eq!(module_row.module_hash, module_hash);

    // Test getting latest module by guest id
    let latest = ModuleRow::latest_by_guest_id(&data, guest.id)
        .expect("failed to query latest module")
        .expect("no module found");

    assert_eq!(latest.id, module_row.id);
    assert_eq!(latest.parent_id, guest.id);
    assert_eq!(latest.module, module_data);

    // Create another module entry for the same guest
    let module_data2 = vec![9, 10, 11, 12];
    let module_hash2 = blake3::hash(&module_data2).to_string();

    let module_row2 = ModuleRow::create(
        &mut data,
        guest.id,
        module_data2.clone(),
        module_hash2.clone(),
        2000,
    )
    .expect("failed to create second module row");

    // Latest should now return the second module
    let latest = ModuleRow::latest_by_guest_id(&data, guest.id)
        .expect("failed to query latest module")
        .expect("no module found");

    assert_eq!(latest.id, module_row2.id);
    assert_eq!(latest.module, module_data2);

    // Test with non-existent guest id
    let no_module =
        ModuleRow::latest_by_guest_id(&data, 999).expect("failed to query non-existent guest");
    assert!(no_module.is_none());
}

#[test]
fn catalog_hash_matches_module_bytes() {
    let mut data = Data::new_memory();
    let module = b"some wasm module bytes".to_vec();
    let guest = GuestRow::create(&mut data, "hw".to_string(), module.clone())
        .expect("failed to create guest row");
    // The stored hash is the lowercase hex digest of the stored bytes.
    assert_eq!(guest.module_hash, blake3::hash(&module).to_string());
    let got = GuestRow::by_name(&data, &"hw".to_string())
        .expect("query failed")
        .expect("row missing");
    assert_eq!(got.module_hash, blake3::hash(&got.module).to_string());
}

#[test]
fn catalog_create_duplicate_name_fails() {
    let mut data = Data::new_memory();
    GuestRow::create(&mut data, "dup".to_string(), vec![1]).expect("first create failed");
    let second = GuestRow::create(&mut data, "dup".to_string(), vec![2]);
    assert_eq!(second, Err(fern_core::catalog::CatalogError::NameExists));
}

#[test]
fn catalog_update_appends_previous_module_to_history() {
    let mut data = Data::new_memory();
    let first = b"module one".to_vec();
    let second = b"module two".to_vec();
    let guest =
        GuestRow::create(&mut data, "hw".to_string(), first.clone()).expect("create failed");

    let updated = GuestRow::update_module_by_name(&mut data, &"hw".to_string(), &second, 500)
        .expect("update failed");
    assert!(updated);

    // The guest row holds the post-update bytes.
    let row = GuestRow::by_name(&data, &"hw".to_string())
        .expect("query failed")
        .expect("row missing");
    assert_eq!(row.module, second);
    assert_eq!(row.module_hash, blake3::hash(&second).to_string());

    // The latest history row holds the pre-update bytes.
    let latest = ModuleRow::latest_by_guest_id(&data, guest.id)
        .expect("history query failed")
        .expect("history missing");
    assert_eq!(latest.module, first);
    assert_eq!(latest.module_hash, blake3::hash(&first).to_string());
    assert_eq!(latest.created_at, 500);
}

#[test]
fn catalog_update_missing_guest_reports_false() {
    let mut data = Data::new_memory();
    let updated = GuestRow::update_module_by_name(&mut data, &"ghost".to_string(), &[1, 2], 7)
        .expect("update failed");
    assert!(!updated);
}

#[test]
fn catalog_remove_keeps_history() {
    let mut data = Data::new_memory();
    let m0 = b"m0".to_vec();
    let m1 = b"m1".to_vec();
    let guest = GuestRow::create(&mut data, "hw".to_string(), m0.clone()).expect("create failed");
    GuestRow::update_module_by_name(&mut data, &"hw".to_string(), &m1, 10).expect("update failed");

    let removed = GuestRow::remove_by_name(&mut data, &"hw".to_string()).expect("remove failed");
    assert!(removed);

    // The guest row is gone ...
    let gone = GuestRow::by_name(&data, &"hw".to_string()).expect("query failed");
    assert!(gone.is_none());

    // ... but its history rows are preserved.
    let latest = ModuleRow::latest_by_guest_id(&data, guest.id)
        .expect("history query failed")
        .expect("history missing");
    assert_eq!(latest.module, m0);
}

#[test]
fn pagination_clamps_to_bounds() {
    let mut data = Data::new_memory();
    GuestRow::create(&mut data, "a".to_string(), vec![1]).expect("create failed");
    GuestRow::create(&mut data, "b".to_string(), vec![2]).expect("create failed");

    let all = GuestRow::all_with_pagination(&data, -1, -1).expect("page failed");
    assert_eq!(all.len(), 2);
    let empty = GuestRow::all_with_pagination(&data, 5, 99).expect("page failed");
    assert_eq!(empty.len(), 0);
    let one = GuestRow::all_with_pagination(&data, 1, 1).expect("page failed");
    assert_eq!(one.len(), 1);
    assert_eq!(one[0].name, "b");
}
