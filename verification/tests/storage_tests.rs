use eadkp::storage::{to_cstring, Storage, StorageError};

/// The magic header bytes a valid store opens with.
const MAGIC_BYTES: [u8; 4] = [0xBA, 0xDD, 0x0B, 0xEE];

/// A freshly formatted region: valid header, all-zero body.
fn empty_region(size: usize) -> Vec<u8> {
    assert!(size >= 4);
    let mut v = vec![0u8; size];
    v[..4].copy_from_slice(&MAGIC_BYTES);
    v
}

#[test]
fn empty_region_scenario() {
    let mut st = Storage::new(empty_region(64));
    assert!(!st.file_exists("a"));
    assert!(st.file_write_raw("a", &[1, 2, 3]).is_ok());
    let read = st.file_read_raw("a").unwrap();
    assert_eq!(read.as_slice(), &[1, 2, 3]);
    assert_eq!(read.len(), 3);
    assert!(st.file_erase("a").is_ok());
    assert!(!st.file_exists("a"));
    for i in 4..st.bytes().len() {
        assert_eq!(st.bytes()[i], 0);
    }
}

#[test]
fn write_then_read_round_trip() {
    let mut st = Storage::new(empty_region(128));
    let content = [0u8, 255, 7, 0, 42];
    assert!(st.file_write_raw("blob", &content).is_ok());
    assert_eq!(st.file_read_raw("blob").unwrap().as_slice(), &content);
}

#[test]
fn record_layout_is_bit_exact() {
    let mut st = Storage::new(empty_region(16));
    st.file_write_raw("ab", &[9, 8]).unwrap();
    // total = 2 (size) + 3 (name with terminator) + 2 (content) = 7
    let expected = [
        0xBA, 0xDD, 0x0B, 0xEE, // magic
        7, 0, // record size, little-endian
        b'a', b'b', 0, // name with terminator
        9, 8, // content
        0, 0, 0, 0, 0, // zero padding
    ];
    assert_eq!(st.bytes().as_slice(), &expected);
}

#[test]
fn erase_removes_reachability() {
    let mut st = Storage::new(empty_region(64));
    st.file_write_raw("gone", &[5]).unwrap();
    assert!(st.file_exists("gone"));
    assert!(st.file_erase("gone").is_ok());
    assert!(!st.file_exists("gone"));
    assert_eq!(st.file_read_raw("gone"), Err(StorageError::FileNotFound));
}

#[test]
fn compaction_preserves_order_and_content() {
    let mut st = Storage::new(empty_region(64));
    st.file_write_raw("a", &[1, 1]).unwrap(); // total 2+2+2 = 6, at 4
    st.file_write_raw("b", &[2, 2, 2]).unwrap(); // total 2+2+3 = 7, at 10
    st.file_write_raw("c", &[3]).unwrap(); // total 2+2+1 = 5, at 17
    assert!(st.file_erase("b").is_ok());
    assert_eq!(st.file_read_raw("a").unwrap().as_slice(), &[1, 1]);
    assert_eq!(st.file_read_raw("b"), Err(StorageError::FileNotFound));
    assert_eq!(st.file_read_raw("c").unwrap().as_slice(), &[3]);
    // the used area shrank by exactly b's 7 bytes: c now ends at 15,
    // and a new record lands right there
    st.file_write_raw("d", &[4]).unwrap();
    let bytes = st.bytes();
    // a at 4 (6 bytes), c at 10 (5 bytes), d at 15 (5 bytes)
    assert_eq!(&bytes[4..10], &[6, 0, b'a', 0, 1, 1]);
    assert_eq!(&bytes[10..15], &[5, 0, b'c', 0, 3]);
    assert_eq!(&bytes[15..20], &[5, 0, b'd', 0, 4]);
}

#[test]
fn duplicate_names_read_first_match() {
    let mut st = Storage::new(empty_region(64));
    st.file_write_raw("x", &[1]).unwrap();
    st.file_write_raw("x", &[2]).unwrap();
    assert_eq!(st.file_read_raw("x").unwrap().as_slice(), &[1]);
    // erasing removes the first; the second becomes reachable
    st.file_erase("x").unwrap();
    assert_eq!(st.file_read_raw("x").unwrap().as_slice(), &[2]);
}

#[test]
fn capacity_boundary_exact_fit() {
    // 16-byte region: 12 bytes free after the header.
    // name "ab" takes 3 bytes with terminator; 7 content bytes make
    // total = 2 + 3 + 7 = 12: exactly the free space.
    let mut st = Storage::new(empty_region(16));
    assert!(st.file_write_raw("ab", &[1, 2, 3, 4, 5, 6, 7]).is_ok());
    assert_eq!(st.file_read_raw("ab").unwrap().len(), 7);
}

#[test]
fn capacity_boundary_one_byte_over() {
    let mut st = Storage::new(empty_region(16));
    let before = st.bytes().clone();
    assert_eq!(
        st.file_write_raw("ab", &[1, 2, 3, 4, 5, 6, 7, 8]),
        Err(StorageError::StorageOverflow { available: 12, needed: 13 })
    );
    // no partial write: the region is untouched
    assert_eq!(st.bytes(), &before);
}

#[test]
fn corrupted_header_fails_every_operation() {
    let mut region = empty_region(32);
    region[1] = 0x00; // any header byte off the magic constant
    let expected = 0xEE0BDDBA;
    let found = u32::from_le_bytes([region[0], region[1], region[2], region[3]]);
    let mut st = Storage::new(region);
    assert_eq!(
        st.file_read_raw("a"),
        Err(StorageError::InvalidMagicNumber { expected, found })
    );
    assert_eq!(
        st.file_write_raw("a", &[1]),
        Err(StorageError::InvalidMagicNumber { expected, found })
    );
    assert_eq!(
        st.file_erase("a"),
        Err(StorageError::InvalidMagicNumber { expected, found })
    );
    assert_eq!(
        st.file_read_string("a"),
        Err(StorageError::InvalidMagicNumber { expected, found })
    );
    assert!(!st.file_exists("a"));
}

#[test]
fn malformed_record_is_reported() {
    // valid magic, then a record whose size field runs past the region
    let mut region = empty_region(16);
    region[4] = 200;
    let st = Storage::new(region);
    assert_eq!(st.file_read_raw("a"), Err(StorageError::InvalidStorage));

    // a record too small to hold a terminated name
    let mut region2 = empty_region(16);
    region2[4] = 2;
    let st2 = Storage::new(region2);
    assert_eq!(st2.file_read_raw("a"), Err(StorageError::InvalidStorage));

    // a record whose name never terminates
    let mut region3 = empty_region(16);
    region3[4] = 5;
    region3[6] = b'x';
    region3[7] = b'y';
    region3[8] = b'z';
    let st3 = Storage::new(region3);
    assert_eq!(st3.file_read_raw("a"), Err(StorageError::InvalidStorage));
}

#[test]
fn write_on_malformed_region_reports_full() {
    let mut region = empty_region(16);
    region[4] = 200; // size field runs past the region: no free slot found
    let mut st = Storage::new(region);
    assert_eq!(st.file_write_raw("a", &[1]), Err(StorageError::StorageFull));
}

#[test]
fn to_cstring_appends_terminator() {
    let c = to_cstring("ab").unwrap();
    assert_eq!(c.as_slice(), &[b'a', b'b', 0]);
}

#[test]
fn to_cstring_rejects_oversized_names() {
    let long = "a".repeat(255);
    assert!(to_cstring(&long).is_ok());
    let too_long = "a".repeat(256);
    assert_eq!(to_cstring(&too_long), Err(StorageError::InvalidInput));
}

#[test]
fn oversized_name_rejected_by_operations() {
    let mut st = Storage::new(empty_region(1024));
    let too_long = "n".repeat(256);
    assert_eq!(st.file_read_raw(&too_long), Err(StorageError::InvalidInput));
    assert_eq!(st.file_write_raw(&too_long, &[1]), Err(StorageError::InvalidInput));
    assert_eq!(st.file_erase(&too_long), Err(StorageError::InvalidInput));
    assert!(!st.file_exists(&too_long));
}

#[test]
fn string_round_trip() {
    let mut st = Storage::new(empty_region(128));
    assert!(st.file_write_string("greeting", "héllo wörld").is_ok());
    assert_eq!(st.file_read_string("greeting").unwrap(), "héllo wörld");
}

#[test]
fn string_payload_is_null_terminated() {
    let mut st = Storage::new(empty_region(64));
    st.file_write_string("k", "hi").unwrap();
    let raw = st.file_read_raw("k").unwrap();
    assert_eq!(raw.as_slice(), &[b'h', b'i', 0]);
}

#[test]
fn read_string_requires_terminator() {
    let mut st = Storage::new(empty_region(64));
    st.file_write_raw("raw", &[b'h', b'i']).unwrap();
    assert_eq!(st.file_read_string("raw"), Err(StorageError::InvalidInput));
    st.file_write_raw("empty", &[]).unwrap();
    assert_eq!(st.file_read_string("empty"), Err(StorageError::InvalidInput));
}

#[test]
fn read_string_rejects_invalid_utf8() {
    let mut st = Storage::new(empty_region(64));
    st.file_write_raw("bad", &[0xFF, 0xFE, 0]).unwrap();
    assert_eq!(st.file_read_string("bad"), Err(StorageError::InvalidInput));
}

#[test]
fn empty_name_and_empty_content() {
    let mut st = Storage::new(empty_region(32));
    assert!(st.file_write_raw("", &[9]).is_ok());
    assert_eq!(st.file_read_raw("").unwrap().as_slice(), &[9]);
    assert!(st.file_write_raw("n", &[]).is_ok());
    assert_eq!(st.file_read_raw("n").unwrap().len(), 0);
}

#[test]
fn embedded_nul_names_compare_as_c_strings() {
    let mut st = Storage::new(empty_region(64));
    st.file_write_raw("a\0b", &[7]).unwrap();
    // the stored name ends at its first null byte, as a C string does:
    // the record is found under "a", and the bytes after that null fall
    // to the content
    assert_eq!(st.file_read_raw("a").unwrap().as_slice(), &[b'b', 0, 7]);
    // a query is cut at its first null the same way
    assert_eq!(st.file_read_raw("a\0zzz").unwrap().as_slice(), &[b'b', 0, 7]);
}

#[test]
fn record_larger_than_size_field_is_rejected() {
    // the region would hold it, but the 2-byte size field cannot
    let mut st = Storage::new(empty_region(70000));
    let content = vec![1u8; 65600];
    assert_eq!(
        st.file_write_raw("ab", &content),
        Err(StorageError::StorageOverflow { available: 69996, needed: 65605 })
    );
}

#[test]
fn region_too_small_for_any_record() {
    // 5 bytes: the header plus one byte, no room for a size field
    let mut st = Storage::new(empty_region(5));
    assert_eq!(st.file_read_raw("a"), Err(StorageError::FileNotFound));
    assert_eq!(
        st.file_write_raw("a", &[]),
        Err(StorageError::StorageOverflow { available: 1, needed: 4 })
    );
}

#[test]
fn size_reports_region_length() {
    let st = Storage::new(empty_region(96));
    assert_eq!(st.size(), 96);
}
