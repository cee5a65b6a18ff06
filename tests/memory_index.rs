use anchor_lang::prelude::Pubkey;
use memory_index::address::memory_seeds_of;
use memory_index::record::{str_byte_len, MAX_CID_LEN, MAX_TAGS, MAX_TAG_LEN};
use memory_index::store::validate;
use memory_index::{
    derive_address, initialize, max_record_size, store_memory, store_memory_at, ErrorCode,
    MemoryIndex, RecordStore,
};
use std::str::FromStr;

const PROGRAM: [u8; 32] = [7u8; 32];
const SUBMITTER: [u8; 32] = [42u8; 32];

fn tags(items: &[&str]) -> Vec<String> {
    items.iter().map(|t| t.to_string()).collect()
}

#[test]
fn valid_store_creates_record_at_derived_address() {
    let mut store = RecordStore::new();
    let address = store_memory(
        &mut store,
        &PROGRAM,
        SUBMITTER,
        "ipfs://abc".to_string(),
        tags(&["research", "v1"]),
        1_700_000_000,
    )
    .unwrap();
    assert_eq!(Some(address), derive_address(&PROGRAM, &SUBMITTER, "ipfs://abc"));
    let record = store.get(&address).unwrap();
    assert_eq!(record.cid, "ipfs://abc");
    assert_eq!(record.tags, vec!["research".to_string(), "v1".to_string()]);
    assert_eq!(record.authority, SUBMITTER);
    assert_eq!(record.timestamp, 1_700_000_000);
}

#[test]
fn cid_of_101_bytes_is_refused() {
    let mut store = RecordStore::new();
    let cid = "a".repeat(101);
    let address = derive_address(&PROGRAM, &SUBMITTER, &cid).unwrap();
    let r = store_memory(&mut store, &PROGRAM, SUBMITTER, cid, vec![], 5);
    assert_eq!(r, Err(ErrorCode::CidTooLong));
    assert!(!store.contains(&address));
}

#[test]
fn cid_of_100_bytes_is_stored() {
    let mut store = RecordStore::new();
    let cid = "b".repeat(100);
    let address = store_memory(&mut store, &PROGRAM, SUBMITTER, cid.clone(), vec![], 5).unwrap();
    assert_eq!(store.get(&address).unwrap().cid, cid);
}

#[test]
fn twenty_one_tags_are_refused() {
    let mut store = RecordStore::new();
    let many: Vec<String> = (0..21).map(|i| format!("t{}", i)).collect();
    let r = store_memory(&mut store, &PROGRAM, SUBMITTER, "x".to_string(), many, 5);
    assert_eq!(r, Err(ErrorCode::TooManyTags));
    let address = derive_address(&PROGRAM, &SUBMITTER, "x").unwrap();
    assert!(!store.contains(&address));
}

#[test]
fn twenty_tags_of_fifty_bytes_are_stored() {
    let mut store = RecordStore::new();
    let full: Vec<String> = (0..20).map(|_| "c".repeat(50)).collect();
    let address =
        store_memory(&mut store, &PROGRAM, SUBMITTER, "x".to_string(), full.clone(), 5).unwrap();
    let record = store.get(&address).unwrap();
    assert_eq!(record.tags, full);
    assert_eq!(record.serialized_len(), max_record_size() - 99);
    let largest = MemoryIndex {
        cid: "b".repeat(100),
        tags: full,
        timestamp: i64::MIN,
        authority: SUBMITTER,
    };
    assert_eq!(largest.serialized_len(), max_record_size());
}

#[test]
fn tag_of_51_bytes_is_refused() {
    let mut store = RecordStore::new();
    let r = store_memory(
        &mut store,
        &PROGRAM,
        SUBMITTER,
        "x".to_string(),
        vec!["ok".to_string(), "d".repeat(51)],
        5,
    );
    assert_eq!(r, Err(ErrorCode::TagTooLong));
    let address = derive_address(&PROGRAM, &SUBMITTER, "x").unwrap();
    assert!(!store.contains(&address));
}

#[test]
fn cid_is_checked_before_tags() {
    let many: Vec<String> = (0..30).map(|_| "e".repeat(60)).collect();
    assert_eq!(validate(&"f".repeat(101), &many), Err(ErrorCode::CidTooLong));
    assert_eq!(validate(&"f".to_string(), &many), Err(ErrorCode::TooManyTags));
    assert_eq!(validate(&"f".to_string(), &many[..20].to_vec()), Err(ErrorCode::TagTooLong));
    assert_eq!(validate(&"f".to_string(), &vec![]), Ok(()));
}

#[test]
fn byte_length_counts_utf8_bytes() {
    assert_eq!(str_byte_len("é"), 2);
    assert_eq!(str_byte_len(""), 0);
    let mut store = RecordStore::new();
    let cid = "é".repeat(51);
    let r = store_memory(&mut store, &PROGRAM, SUBMITTER, cid, vec![], 5);
    assert_eq!(r, Err(ErrorCode::CidTooLong));
}

#[test]
fn same_submitter_and_cid_twice_is_occupied() {
    let mut store = RecordStore::new();
    let first = store_memory(
        &mut store,
        &PROGRAM,
        SUBMITTER,
        "ipfs://same".to_string(),
        tags(&["one"]),
        10,
    )
    .unwrap();
    let second = store_memory(
        &mut store,
        &PROGRAM,
        SUBMITTER,
        "ipfs://same".to_string(),
        tags(&["two", "three"]),
        20,
    );
    assert_eq!(second, Err(ErrorCode::AddressAlreadyOccupied));
    let record = store.get(&first).unwrap();
    assert_eq!(record.tags, tags(&["one"]));
    assert_eq!(record.timestamp, 10);
}

#[test]
fn other_submitter_gets_other_address() {
    let mut store = RecordStore::new();
    let a = store_memory(&mut store, &PROGRAM, SUBMITTER, "cid".to_string(), vec![], 1).unwrap();
    let b = store_memory(&mut store, &PROGRAM, [9u8; 32], "cid".to_string(), vec![], 2).unwrap();
    assert_ne!(a, b);
    assert_eq!(store.get(&a).unwrap().authority, SUBMITTER);
    assert_eq!(store.get(&b).unwrap().authority, [9u8; 32]);
}

#[test]
fn explicit_address_twice_keeps_first_record() {
    let mut store = RecordStore::new();
    let digest = [3u8; 32];
    let first = store_memory_at(&mut store, digest, SUBMITTER, "first".to_string(), vec![], 1);
    assert_eq!(first, Ok(()));
    let second = store_memory_at(&mut store, digest, SUBMITTER, "second".to_string(), vec![], 2);
    assert_eq!(second, Err(ErrorCode::AddressAlreadyOccupied));
    assert_eq!(store.get(&digest).unwrap().cid, "first");
    assert_eq!(store.get(&digest).unwrap().timestamp, 1);
}

#[test]
fn invalid_input_at_occupied_address_reports_the_bound() {
    let mut store = RecordStore::new();
    let digest = [4u8; 32];
    store_memory_at(&mut store, digest, SUBMITTER, "a".to_string(), vec![], 1).unwrap();
    let r = store_memory_at(&mut store, digest, SUBMITTER, "g".repeat(101), vec![], 2);
    assert_eq!(r, Err(ErrorCode::CidTooLong));
    assert_eq!(store.get(&digest).unwrap().cid, "a");
}

#[test]
fn empty_store_holds_nothing() {
    let store = RecordStore::new();
    assert!(!store.contains(&[0u8; 32]));
    assert!(store.get(&[0u8; 32]).is_none());
}

#[test]
fn max_record_size_is_exact() {
    assert_eq!(max_record_size(), 1236);
    assert_eq!(MemoryIndex::SPACE, 8 + 4 + 100 + 4 + (4 + 50) * 20 + 8 + 32);
    assert_eq!(MAX_CID_LEN, 100);
    assert_eq!(MAX_TAGS, 20);
    assert_eq!(MAX_TAG_LEN, 50);
}

#[test]
fn serialized_len_of_small_record() {
    let record = MemoryIndex {
        cid: "ipfs://abc".to_string(),
        tags: tags(&["research", "v1"]),
        timestamp: 0,
        authority: SUBMITTER,
    };
    assert_eq!(record.serialized_len(), 8 + 4 + 10 + 4 + (4 + 8) + (4 + 2) + 8 + 32);
    assert!(record.serialized_len() <= max_record_size());
}

#[test]
fn seeds_split_long_cid() {
    let cid = "h".repeat(100);
    let seeds = memory_seeds_of(&SUBMITTER, &cid);
    assert_eq!(seeds.len(), 6);
    assert_eq!(seeds[0], b"memory".to_vec());
    assert_eq!(seeds[1], SUBMITTER.to_vec());
    assert_eq!(seeds[2].len(), 32);
    assert_eq!(seeds[5].len(), 4);
    let joined: Vec<u8> = seeds[2..].concat();
    assert_eq!(joined, cid.as_bytes().to_vec());
    let short = memory_seeds_of(&SUBMITTER, "");
    assert_eq!(short.len(), 3);
    assert!(short[2].is_empty());
}

#[test]
fn derived_address_matches_program_address() {
    let program = Pubkey::from_str("6dLHMacUJMThKeCwCzZRTLy9qfA1fwzoPXSYNy4CHEAE").unwrap();
    let submitter = Pubkey::new_from_array(SUBMITTER);
    let (expected, _) = Pubkey::find_program_address(
        &[b"memory", submitter.as_ref(), b"ipfs://abc"],
        &program,
    );
    let derived = derive_address(&program.to_bytes(), &SUBMITTER, "ipfs://abc").unwrap();
    assert_eq!(derived, expected.to_bytes());
    assert_ne!(derived, SUBMITTER);
    assert_ne!(derived, program.to_bytes());
}

#[test]
fn derived_address_depends_on_cid() {
    let a = derive_address(&PROGRAM, &SUBMITTER, "one").unwrap();
    let b = derive_address(&PROGRAM, &SUBMITTER, "two").unwrap();
    assert_ne!(a, b);
    assert_eq!(Some(a), derive_address(&PROGRAM, &SUBMITTER, "one"));
}

#[test]
fn error_messages() {
    assert_eq!(ErrorCode::CidTooLong.message(), "CID is too long, maximum 100 characters");
    assert_eq!(ErrorCode::TooManyTags.message(), "Too many tags, maximum 20 tags");
    assert_eq!(ErrorCode::TagTooLong.message(), "Tag is too long, maximum 50 characters");
}

#[test]
fn initialize_succeeds() {
    assert_eq!(initialize(), Ok(()));
}
