use holochain_core::address::Address;
use holochain_core::entry::{DeletionEntry, Entry, EntryType, LinkAdd, LinkRemove};

fn test_entry_a() -> Entry {
    Entry::App(String::from("testEntryType"), b"\"test entry value\"".to_vec())
}

fn test_deletion_entry() -> DeletionEntry {
    let entry = test_entry_a();
    DeletionEntry::new(entry.address())
}

#[test]
fn deletion_entry_smoke_test() {
    assert_eq!(
        test_entry_a().address(),
        test_deletion_entry().deleted_entry_address()
    );
}

fn all_variants() -> Vec<Entry> {
    let a = test_entry_a().address();
    vec![
        test_entry_a(),
        Entry::App(String::from("ünïcode"), vec![]),
        Entry::LinkAdd(LinkAdd { base: a.clone(), target: a.clone(), tag: String::from("likes") }),
        Entry::LinkRemove(LinkRemove { link_add_address: a.clone() }),
        Entry::Deletion(DeletionEntry::new(a.clone())),
        Entry::AgentId(String::from("alice-key")),
        Entry::Dna(a),
    ]
}

#[test]
fn address_survives_serialize_and_parse_for_every_variant() {
    for e in all_variants() {
        let parsed = Entry::from_content(&e.content()).expect("canonical bytes parse");
        assert_eq!(parsed.address(), e.address());
        assert_eq!(parsed, e);
    }
}

#[test]
fn address_is_sha256_multihash() {
    let a = test_entry_a().address();
    assert_eq!(a.hash.len(), 34);
    assert_eq!(a.hash[0], 0x12);
    assert_eq!(a.hash[1], 32);
    // the multihash of "hello world"
    let h = Address::of_content(b"hello world");
    assert_eq!(
        h.hash,
        vec![
            18, 32, 185, 77, 39, 185, 147, 77, 62, 8, 165, 46, 82, 215, 218, 125, 171, 250, 196,
            132, 239, 227, 122, 83, 128, 238, 144, 136, 247, 172, 226, 239, 205, 233
        ]
    );
}

#[test]
fn different_entries_have_different_addresses() {
    let a = Entry::App(String::from("t"), vec![1]);
    let b = Entry::App(String::from("t"), vec![2]);
    assert_ne!(a.address(), b.address());
}

#[test]
fn canonical_bytes_layout() {
    let e = Entry::AgentId(String::from("ab"));
    assert_eq!(e.content(), vec![4, 2, 0, 0, 0, 0, 0, 0, 0, b'a', b'b']);
}

#[test]
fn parse_rejects_bad_bytes() {
    assert!(Entry::from_content(&[]).is_none());
    assert!(Entry::from_content(&[9]).is_none());
    // trailing byte
    assert!(Entry::from_content(&[4, 1, 0, 0, 0, 0, 0, 0, 0, b'a', 0]).is_none());
    // length longer than the bytes
    assert!(Entry::from_content(&[4, 5, 0, 0, 0, 0, 0, 0, 0, b'a']).is_none());
    // invalid UTF-8 in a text field
    assert!(Entry::from_content(&[4, 1, 0, 0, 0, 0, 0, 0, 0, 0xff]).is_none());
}

#[test]
fn entry_types_of_entries() {
    assert_eq!(test_entry_a().entry_type(), EntryType::App(String::from("testEntryType")));
    assert_eq!(Entry::AgentId(String::new()).entry_type(), EntryType::AgentId);
    assert!(EntryType::App(String::from("x")).is_app_named("x"));
    assert!(!EntryType::Deletion.is_app_named("x"));
}
