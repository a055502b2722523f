use save_manager::archive::{pack_save_file, stored_file_name, version_save_file};

#[test]
fn packed_file_reads_back() {
    let data: Vec<u8> = b"slot contents \x00\x01\x02 repeated repeated repeated".to_vec();
    let archive = pack_save_file("Save 1.dat.sav", &data).expect("archive");
    assert_ne!(archive, data);
    assert_eq!(&archive[0..2], b"PK");
    assert_eq!(version_save_file(&archive), Some(data));
}

#[test]
fn packed_empty_file_reads_back_empty() {
    let data: Vec<u8> = Vec::new();
    let archive = pack_save_file("empty.sav", &data).expect("archive");
    assert!(!archive.is_empty());
    assert_eq!(version_save_file(&archive), Some(Vec::new()));
}

#[test]
fn large_file_is_compressed() {
    let data: Vec<u8> = vec![7u8; 100_000];
    let archive = pack_save_file("big.sav", &data).expect("archive");
    assert!(archive.len() < data.len());
    assert_eq!(version_save_file(&archive), Some(data));
}

#[test]
fn garbage_is_no_archive() {
    let bytes: Vec<u8> = b"this is not a zip archive".to_vec();
    assert_eq!(version_save_file(&bytes), None);
    assert_eq!(version_save_file(&Vec::new()), None);
}

#[test]
fn archive_with_no_file_has_no_save() {
    // The end-of-central-directory record of an empty archive.
    let mut empty: Vec<u8> = vec![0x50, 0x4b, 0x05, 0x06];
    empty.extend_from_slice(&[0u8; 18]);
    assert_eq!(version_save_file(&empty), None);
}

#[test]
fn packed_file_keeps_its_name() {
    let data: Vec<u8> = b"contents".to_vec();
    let archive = pack_save_file("Save 1.dat.sav", &data).expect("archive");
    assert_eq!(stored_file_name(&archive), Some("Save 1.dat.sav".to_string()));
    let other = pack_save_file("Überlebender Speicher ☢.sav", &data).expect("archive");
    assert_eq!(stored_file_name(&other), Some("Überlebender Speicher ☢.sav".to_string()));
    assert_eq!(version_save_file(&other), Some(data));
}

#[test]
fn unreadable_archive_has_no_name() {
    assert_eq!(stored_file_name(&b"not a zip".to_vec()), None);
}

#[test]
fn long_name_within_the_limit_is_accepted() {
    let name: String = "n".repeat(16000);
    let data: Vec<u8> = vec![1, 2, 3];
    let archive = pack_save_file(&name, &data).expect("archive");
    assert_eq!(stored_file_name(&archive), Some(name));
    let wide: String = "\u{1F600}".repeat(16000);
    assert!(pack_save_file(&wide, &data).is_some());
}
