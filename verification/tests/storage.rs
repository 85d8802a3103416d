use amp_android::components::storage::{
    addresses_from_rows, count_stored_addresses as count_rows, from_local_data, rows_for_saving,
    storage_repair, to_local_data, StorageRepair,
};
use amp_android::storage::{
    clear_all_addresses, count_stored_addresses, deserialize_addresses, escape_json,
    read_addresses_from_device, serialize_addresses, write_addresses_to_device,
};
use amp_android::structs::{LocalData, DB};
use amp_android::ui::StoredAddress;

fn plain_address(id: usize, street: &str, number: &str, postal: &str, valid: bool, active: bool) -> StoredAddress {
    StoredAddress {
        id,
        street: street.to_string(),
        street_number: number.to_string(),
        postal_code: postal.to_string(),
        valid,
        active,
        matched_entry: None,
    }
}

#[test]
fn test_escape_json() {
    assert_eq!(escape_json(r#"test"string"#), r#"test\"string"#);
    assert_eq!(escape_json("line1\nline2"), "line1\\nline2");
    assert_eq!(escape_json("tab\there"), "tab\\there");
    assert_eq!(escape_json("back\\slash"), "back\\\\slash");
}

#[test]
fn escape_json_carriage_return_and_plain_text() {
    assert_eq!(escape_json("a\rb"), "a\\rb");
    assert_eq!(escape_json("Vägen"), "Vägen");
    assert_eq!(escape_json(""), "");
}

#[test]
fn test_serialize_empty() {
    let result = serialize_addresses(&Vec::new());
    assert_eq!(result.unwrap(), "[]");
}

#[test]
fn test_serialize_single_address() {
    let addresses = vec![plain_address(1, "Storgatan", "10", "22100", true, true)];
    let json = serialize_addresses(&addresses).unwrap();
    assert!(json.contains("Storgatan"));
    assert!(json.contains("10"));
    assert!(json.contains("22100"));
    assert!(json.contains("true"));
}

#[test]
fn serialize_exact_text() {
    let addresses = vec![
        plain_address(1, "Street1", "1", "11111", true, true),
        plain_address(2, "St\"reet2", "2", "22222", true, false),
    ];
    let json = serialize_addresses(&addresses).unwrap();
    assert_eq!(
        json,
        r#"[{"street":"Street1","street_number":"1","postal_code":"11111","active":true},{"street":"St\"reet2","street_number":"2","postal_code":"22222","active":false}]"#
    );
}

#[test]
fn serialized_addresses_read_back() {
    let addresses = vec![
        plain_address(7, "Lilla \"Torg\"\\ 1", "2\tB", "221 00", true, true),
        plain_address(9, "Rad\nbryt", "", "", false, false),
    ];
    let json = serialize_addresses(&addresses).unwrap();
    let back = deserialize_addresses(&json).unwrap();
    assert_eq!(back.len(), 2);
    for (i, (a, b)) in addresses.iter().zip(back.iter()).enumerate() {
        assert_eq!(a.street, b.street);
        assert_eq!(a.street_number, b.street_number);
        assert_eq!(a.postal_code, b.postal_code);
        assert_eq!(a.active, b.active);
        assert_eq!(b.id, i);
        assert!(!b.valid && b.matched_entry.is_none());
    }
}

#[test]
fn malformed_address_json_is_refused() {
    assert!(deserialize_addresses("").is_err());
    assert!(deserialize_addresses("[").is_err());
    assert!(deserialize_addresses("[{}]").is_err());
    assert!(deserialize_addresses(r#"[{"street":"A","street_number":"1","postal_code":"2","active":true}"#).is_err());
    assert!(deserialize_addresses(r#"[{"street":"A","street_number":"1","postal_code":"2","active":yes}]"#).is_err());
    let one = deserialize_addresses(r#"[{"street":"A\nB","street_number":"1","postal_code":"2","active":false}]"#).unwrap();
    assert_eq!(one[0].street, "A\nB");
    assert!(!one[0].active);
}

#[test]
fn test_serialize_multiple_addresses() {
    let addresses = vec![
        plain_address(1, "Street1", "1", "11111", true, true),
        plain_address(2, "Street2", "2", "22222", true, false),
    ];
    let json = serialize_addresses(&addresses).unwrap();
    assert!(json.contains("Street1"));
    assert!(json.contains("Street2"));
    assert!(json.contains(","));
}

#[test]
fn test_read_write_non_android() {
    let addresses = read_addresses_from_device();
    assert_eq!(addresses.len(), 0);
    let result = write_addresses_to_device(&Vec::new());
    assert!(result.is_ok());
}

#[test]
fn test_count_stored_addresses() {
    let count = count_stored_addresses();
    assert_eq!(count, 0);
}

#[test]
fn preference_backend_stubs() {
    assert!(clear_all_addresses().is_ok());
    assert_eq!(deserialize_addresses("[]").unwrap().len(), 0);
}

#[test]
fn test_to_from_local_data_roundtrip() {
    let original = plain_address(1, "Storgatan", "10", "22100", true, true);
    let local_data = to_local_data(&original);
    let restored = from_local_data(&local_data, 1, 2024, 1, &Vec::new());
    assert_eq!(original.street, restored.street);
    assert_eq!(original.street_number, restored.street_number);
    assert_eq!(original.postal_code, restored.postal_code);
    assert_eq!(original.valid, restored.valid);
    assert_eq!(original.active, restored.active);
}

#[test]
fn test_complex_street_number_roundtrip() {
    let test_cases = vec![("Kornettsgatan", "18C"), ("Storgatan", "5"), ("Parkgatan", "12A"), ("Vägen", "100B")];
    for (street, number) in test_cases {
        let original = plain_address(1, street, number, "21438", true, false);
        let local_data = to_local_data(&original);
        let restored = from_local_data(&local_data, 1, 2024, 1, &Vec::new());
        assert_eq!(original.street, restored.street, "Street mismatch for {} {}", street, number);
        assert_eq!(original.street_number, restored.street_number, "Street number mismatch for {} {}", street, number);
    }
}

#[test]
fn test_storage_parquet_roundtrip() {
    let addresses = vec![
        plain_address(1, "Kornettsgatan", "18C", "21438", true, false),
        plain_address(2, "Storgatan", "5", "22100", true, true),
    ];
    let rows = rows_for_saving(&addresses);
    let loaded = addresses_from_rows(&rows, 2024, 1, &Vec::new());
    assert_eq!(loaded.len(), 2, "Should load 2 addresses");
    assert_eq!(loaded[0].street, "Kornettsgatan");
    assert_eq!(loaded[0].street_number, "18C");
    assert_eq!(loaded[0].postal_code, "21438");
    assert_eq!(loaded[0].valid, true);
    assert_eq!(loaded[0].active, false);
    assert_eq!(loaded[1].street, "Storgatan");
    assert_eq!(loaded[1].street_number, "5");
    assert_eq!(loaded[1].postal_code, "22100");
    assert_eq!(loaded[1].valid, true);
    assert_eq!(loaded[1].active, true);
}

#[test]
fn test_empty_storage_files() {
    let rows = rows_for_saving(&Vec::new());
    assert_eq!(rows.len(), 1);
    assert_eq!(rows[0].adress, "");
    let addresses = addresses_from_rows(&rows, 2024, 1, &Vec::new());
    assert_eq!(addresses.len(), 0, "Should return empty vector after clear");
    assert_eq!(count_rows(&rows), 0);
    assert_eq!(storage_repair(false, false), StorageRepair::CreateBoth);
    assert_eq!(storage_repair(false, true), StorageRepair::RestoreFromBackup);
    assert_eq!(storage_repair(true, false), StorageRepair::BackupFromMain);
    assert_eq!(storage_repair(true, true), StorageRepair::Nothing);
}

#[test]
fn test_single_address() {
    let address = vec![plain_address(42, "Testgatan", "7", "12345", false, true)];
    let rows = rows_for_saving(&address);
    let loaded = addresses_from_rows(&rows, 2024, 1, &Vec::new());
    assert_eq!(loaded.len(), 1, "Should load 1 address");
    assert_eq!(loaded[0].street, "Testgatan");
    assert_eq!(loaded[0].street_number, "7");
    assert_eq!(loaded[0].postal_code, "12345");
    assert_eq!(loaded[0].valid, false);
    assert_eq!(loaded[0].active, true);
}

#[test]
fn test_matched_entry_persistence() {
    let db_entry = DB::from_dag_tid(
        Some("21438".to_string()),
        "Kornettsgatan 18C".to_string(),
        Some("Kornettsgatan".to_string()),
        Some("18C".to_string()),
        Some("Parkering förbjuden".to_string()),
        15,
        "0800-1200",
        Some("Taxa C".to_string()),
        Some(26),
        Some("Längsgående 6".to_string()),
        2024,
        1,
    )
    .expect("Should create DB entry");
    let original = StoredAddress {
        id: 1,
        street: "Kornettsgatan".to_string(),
        street_number: "18C".to_string(),
        postal_code: "21438".to_string(),
        valid: true,
        active: true,
        matched_entry: Some(db_entry.clone()),
    };
    let rows = rows_for_saving(&vec![original.clone()]);
    assert_eq!(rows[0].tid.as_deref(), Some("0800-1200"));
    assert_eq!(rows[0].dag, Some(15));
    let loaded = addresses_from_rows(&rows, 2024, 2, &Vec::new());
    assert_eq!(loaded.len(), 1, "Should load 1 address");
    let restored = &loaded[0];
    assert_eq!(original.street, restored.street);
    assert_eq!(original.street_number, restored.street_number);
    assert_eq!(original.postal_code, restored.postal_code);
    assert_eq!(original.valid, restored.valid);
    assert_eq!(original.active, restored.active);
    assert!(restored.matched_entry.is_some(), "matched_entry should be restored");
    let restored_entry = restored.matched_entry.as_ref().unwrap();
    assert_eq!(db_entry.taxa, restored_entry.taxa, "Taxa should be preserved");
    assert_eq!(db_entry.antal_platser, restored_entry.antal_platser, "Antal platser should be preserved");
    assert_eq!(db_entry.typ_av_parkering, restored_entry.typ_av_parkering, "Typ av parkering should be preserved");
    assert_eq!(db_entry.info, restored_entry.info, "Info should be preserved");
    assert_eq!(db_entry.gata, restored_entry.gata, "Gata should be preserved");
    assert_eq!(db_entry.gatunummer, restored_entry.gatunummer, "Gatunummer should be preserved");
    assert_eq!(restored_entry.month, 2);
    assert_eq!(restored_entry.start_time, 1707980400);
}

#[test]
fn test_mixed_matched_entries() {
    let db_entry = DB::from_dag_tid(
        Some("22100".to_string()),
        "Storgatan 10".to_string(),
        Some("Storgatan".to_string()),
        Some("10".to_string()),
        None,
        20,
        "1200-1600",
        Some("Taxa A".to_string()),
        Some(50),
        Some("Längsgående 8".to_string()),
        2024,
        3,
    )
    .expect("Should create DB entry");
    let addresses = vec![
        StoredAddress {
            id: 1,
            street: "Storgatan".to_string(),
            street_number: "10".to_string(),
            postal_code: "22100".to_string(),
            valid: true,
            active: true,
            matched_entry: Some(db_entry),
        },
        plain_address(2, "Okänd Gata", "99", "99999", false, false),
    ];
    let rows = rows_for_saving(&addresses);
    let loaded = addresses_from_rows(&rows, 2024, 3, &Vec::new());
    assert_eq!(loaded.len(), 2, "Should load 2 addresses");
    assert!(loaded[0].matched_entry.is_some(), "First address should have match data");
    assert_eq!(loaded[0].valid, true);
    assert!(loaded[1].matched_entry.is_none(), "Second address should not have match data");
    assert_eq!(loaded[1].valid, false);
}

#[test]
fn rows_without_street_field_split_at_last_space() {
    let row = LocalData {
        valid: false,
        active: true,
        postnummer: None,
        adress: "Stora Nygatan 12A".to_string(),
        gata: None,
        gatunummer: None,
        info: None,
        tid: None,
        dag: None,
        taxa: None,
        antal_platser: None,
        typ_av_parkering: None,
    };
    let a = from_local_data(&row, 5, 2024, 1, &Vec::new());
    assert_eq!(a.street, "Stora Nygatan");
    assert_eq!(a.street_number, "12A");
    assert_eq!(a.postal_code, "");
    assert_eq!(a.id, 5);
    let mut one_word = row.clone();
    one_word.adress = "Torget".to_string();
    let b = from_local_data(&one_word, 6, 2024, 1, &Vec::new());
    assert_eq!((b.street.as_str(), b.street_number.as_str()), ("Torget", ""));
}

#[test]
fn valid_row_without_hours_is_looked_up_again() {
    let data = vec![DB::from_dag_tid(
        Some("22100".to_string()),
        "Storgatan 10".to_string(),
        Some("Storgatan".to_string()),
        Some("10".to_string()),
        None,
        3,
        "0900-1100",
        None,
        None,
        None,
        2024,
        1,
    )
    .unwrap()];
    let saved = to_local_data(&plain_address(1, "Storgatan", "10", "22100", true, true));
    let restored = from_local_data(&saved, 1, 2024, 1, &data);
    assert_eq!(restored.matched_entry.unwrap().dag, 3);
    let invalid = to_local_data(&plain_address(1, "Storgatan", "10", "22100", false, true));
    assert!(from_local_data(&invalid, 1, 2024, 1, &data).matched_entry.is_none());
}

#[test]
fn rows_keep_their_index_as_id() {
    let mut rows = rows_for_saving(&vec![
        plain_address(10, "A", "1", "11111", true, true),
        plain_address(11, "B", "2", "22222", true, true),
    ]);
    rows.insert(0, rows_for_saving(&Vec::new())[0].clone());
    let loaded = addresses_from_rows(&rows, 2024, 1, &Vec::new());
    assert_eq!(loaded.len(), 2);
    assert_eq!((loaded[0].id, loaded[1].id), (1, 2));
    assert_eq!(count_rows(&rows), 2);
}
