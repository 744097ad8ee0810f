use holochain_core::address::Address;
use holochain_core::agent::AgentState;
use holochain_core::crud::{status_record, CrudStatus};
use holochain_core::entry::{Entry, EntryType};
use holochain_core::network::{
    get_entry_local, start_get_entry, GetEntryStart, NetworkOp, NetworkState, RequestAction,
};
use holochain_core::validation::{
    build_validation_package, check_package_header, definition_from_callback_answer, CallbackAnswer,
    ValidationPackageDefinition,
};

fn test_entry() -> Entry {
    Entry::App(String::from("testEntryType"), b"\"test entry value\"".to_vec())
}

const TIMEOUT: u64 = 60_000;

#[test]
fn get_entry_roundtrip() {
    let mut alice = AgentState::new();
    let bob = AgentState::new();
    let mut net = NetworkState::new();

    // Create the entry and its status metadata, and store them.
    let entry = test_entry();
    let address = alice.content.add(&entry.content());
    alice.eav.add_eav(status_record(&entry.address(), CrudStatus::Live));
    assert_eq!(address, entry.address());

    // Bob has nothing locally, so the read goes out once.
    let start = start_get_entry(&mut net, &bob, &entry.address(), true, 0, TIMEOUT);
    assert_eq!(start, GetEntryStart::Network(RequestAction::Send));
    // Alice answers from her stores.
    let answer = get_entry_local(&alice, &entry.address());
    assert!(answer.is_some());
    let entry_with_meta = answer.unwrap();
    assert_eq!(entry_with_meta.entry, entry);
    assert_eq!(entry_with_meta.crud_status, CrudStatus::Live);
    assert_eq!(net.complete(NetworkOp::GetEntry, &entry.address()), Some(1));
}

#[test]
fn get_non_existant_entry() {
    let alice = AgentState::new();
    let bob = AgentState::new();
    let mut net = NetworkState::new();
    let entry = test_entry();

    let start = start_get_entry(&mut net, &bob, &entry.address(), true, 0, TIMEOUT);
    assert_eq!(start, GetEntryStart::Network(RequestAction::Send));
    assert!(get_entry_local(&alice, &entry.address()).is_none());
    // Nobody answers: the request times out and the read gives nothing.
    let expired = net.expired(TIMEOUT);
    assert_eq!(expired.len(), 1);
    assert_eq!(expired[0].0, NetworkOp::GetEntry);
    assert_eq!(net.complete(NetworkOp::GetEntry, &entry.address()), Some(1));
    assert!(net.pending.is_empty());
}

#[test]
fn get_when_alone() {
    let bob = AgentState::new();
    let mut net = NetworkState::new();
    let entry = test_entry();

    let start = start_get_entry(&mut net, &bob, &entry.address(), false, 0, TIMEOUT);
    assert_eq!(start, GetEntryStart::Done(None));
    assert!(net.pending.is_empty());
}

#[test]
fn get_validation_package_roundtrip() {
    let mut alice = AgentState::new();
    let entry = test_entry();
    alice.commit(&entry, 1, vec![]);

    let header = alice
        .chain
        .iter_type(&entry.entry_type())
        .into_iter()
        .find(|h| h.entry_address == entry.address())
        .expect("There must be a header in the author's source chain after commit")
        .clone();

    // The zome's callback answered "Entry".
    let answer = CallbackAnswer::Definition(ValidationPackageDefinition::Entry);
    let definition = definition_from_callback_answer(answer).unwrap();
    assert_eq!(definition, ValidationPackageDefinition::Entry);
    let package = build_validation_package(&definition, &header, &alice);
    assert_eq!(package.chain_header, Some(header.clone()));
    assert!(check_package_header(&header, &package).is_ok());
}

#[test]
fn concurrent_reads_send_one_request() {
    let bob = AgentState::new();
    let mut net = NetworkState::new();
    let a = test_entry().address();
    let first = start_get_entry(&mut net, &bob, &a, true, 10, TIMEOUT);
    let second = start_get_entry(&mut net, &bob, &a, true, 11, TIMEOUT);
    let third = start_get_entry(&mut net, &bob, &a, true, 12, TIMEOUT);
    assert_eq!(first, GetEntryStart::Network(RequestAction::Send));
    assert_eq!(second, GetEntryStart::Network(RequestAction::Wait));
    assert_eq!(third, GetEntryStart::Network(RequestAction::Wait));
    assert_eq!(net.pending.len(), 1);
    assert_eq!(net.pending[0].deadline, 10 + TIMEOUT);
    assert_eq!(net.pending[0].waiters, 3);
    assert_eq!(net.complete(NetworkOp::GetEntry, &a), Some(3));
    // A late second answer is dropped.
    assert_eq!(net.complete(NetworkOp::GetEntry, &a), None);
    // Afterwards a new read sends again.
    let again = start_get_entry(&mut net, &bob, &a, true, 20, TIMEOUT);
    assert_eq!(again, GetEntryStart::Network(RequestAction::Send));
}

#[test]
fn requests_for_other_keys_or_ops_are_separate() {
    let mut net = NetworkState::new();
    let a = Address::of_content(b"a");
    let b = Address::of_content(b"b");
    assert_eq!(net.request(NetworkOp::GetEntry, &a, 0, 5), RequestAction::Send);
    assert_eq!(net.request(NetworkOp::GetEntry, &b, 0, 5), RequestAction::Send);
    assert_eq!(net.request(NetworkOp::GetValidationPackage, &a, 0, 5), RequestAction::Send);
    assert_eq!(net.pending.len(), 3);
    assert!(net.expired(4).is_empty());
    assert_eq!(net.expired(5).len(), 3);
    // a deadline past the largest time saturates
    assert_eq!(net.request(NetworkOp::GetEntry, &Address::of_content(b"c"), u64::MAX - 1, 5), RequestAction::Send);
    assert_eq!(net.pending[3].deadline, u64::MAX);
}

#[test]
fn local_data_answers_at_once() {
    let mut alice = AgentState::new();
    let mut net = NetworkState::new();
    let e = test_entry();
    alice.commit(&e, 1, vec![]);
    match start_get_entry(&mut net, &alice, &e.address(), true, 0, TIMEOUT) {
        GetEntryStart::Done(Some(m)) => {
            assert_eq!(m.entry, e);
            assert_eq!(m.crud_status, CrudStatus::Live);
            assert_eq!(m.maybe_link_update_delete, None);
        }
        other => panic!("unexpected {:?}", other),
    }
    assert!(net.pending.is_empty());
    assert_eq!(e.entry_type(), EntryType::App(String::from("testEntryType")));
}
