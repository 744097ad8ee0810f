use holochain_core::address::Address;
use holochain_core::agent::{invoke_update_entry, AgentState};
use holochain_core::chain::{Chain, Provenance};
use holochain_core::crud::{crud_status, CrudStatus};
use holochain_core::entry::{Entry, EntryType};
use holochain_core::error::HolochainError;
use holochain_core::network::get_entry_local;
use holochain_core::validation::{
    decode_callback_return, validation_outcome, verdict, CallbackOutcome, EntryLifecycle,
};

fn app(v: &[u8]) -> Entry {
    Entry::App(String::from("post"), v.to_vec())
}

fn prov() -> Vec<Provenance> {
    vec![Provenance { agent_address: Address::of_content(b"alice"), signature: String::from("sig") }]
}

#[test]
fn prev_links_reach_genesis() {
    let mut agent = AgentState::new();
    for i in 0..5u8 {
        agent.commit(&app(&[i]), i as u64, prov());
    }
    let hs = agent.chain.iter();
    assert_eq!(hs.len(), 5);
    let mut steps = 0;
    let mut cur = hs[0].clone();
    while let Some(prev) = cur.prev_header_address.clone() {
        let next = agent.chain.headers.iter().find(|h| h.address() == prev).unwrap().clone();
        cur = next;
        steps += 1;
        assert!(steps <= 5);
    }
    assert_eq!(steps, 4);
    assert_eq!(cur, agent.chain.headers[0]);
}

#[test]
fn same_type_links_skip_other_types() {
    let mut agent = AgentState::new();
    agent.commit(&app(b"1"), 1, vec![]);
    agent.commit(&Entry::AgentId(String::from("k")), 2, vec![]);
    agent.commit(&app(b"2"), 3, vec![]);
    let h = &agent.chain.headers;
    assert_eq!(h[0].same_type_prev_address, None);
    assert_eq!(h[1].same_type_prev_address, None);
    assert_eq!(h[2].same_type_prev_address, Some(h[0].address()));
    assert_eq!(h[2].prev_header_address, Some(h[1].address()));
    let posts = agent.chain.iter_type(&EntryType::App(String::from("post")));
    assert_eq!(posts.len(), 2);
    assert_eq!(posts[0].timestamp, 3);
    assert_eq!(posts[1].timestamp, 1);
    assert_eq!(agent.chain.find_header(&app(b"1").address()).unwrap().timestamp, 1);
    assert!(agent.chain.find_header(&app(b"9").address()).is_none());
}

#[test]
fn push_refuses_a_header_that_does_not_link_to_top() {
    let mut agent = AgentState::new();
    agent.commit(&app(b"1"), 1, vec![]);
    let stale = Chain::new().next_header(EntryType::AgentId, Address::of_content(b"x"), 2, vec![]);
    let before = agent.chain.headers.len();
    assert_eq!(agent.chain.push(stale), Err(HolochainError::ChainDivergence));
    assert_eq!(agent.chain.headers.len(), before);
    let good = agent.chain.next_header(EntryType::AgentId, Address::of_content(b"x"), 2, vec![]);
    assert_eq!(agent.chain.push(good.clone()), Ok(()));
    // the same header again no longer links to the top
    assert_eq!(agent.chain.push(good), Err(HolochainError::ChainDivergence));
}

#[test]
fn deleted_status_is_final() {
    let mut agent = AgentState::new();
    let e = app(b"1");
    let a = agent.commit(&e, 1, vec![]);
    assert_eq!(crud_status(&agent.eav, &a), Some(CrudStatus::Live));
    assert!(agent.remove_entry(&a, 2, vec![]).is_ok());
    assert_eq!(crud_status(&agent.eav, &a), Some(CrudStatus::Deleted));
    let eav_before = agent.eav.items.len();
    let chain_before = agent.chain.headers.len();
    assert!(agent.set_crud_status(&a, CrudStatus::Live).is_err());
    assert!(agent.remove_entry(&a, 3, vec![]).is_err());
    assert!(agent.update_entry(&a, &app(b"2"), 4, vec![]).is_err());
    assert_eq!(agent.eav.items.len(), eav_before);
    assert_eq!(agent.chain.headers.len(), chain_before);
    assert_eq!(crud_status(&agent.eav, &a), Some(CrudStatus::Deleted));
}

#[test]
fn rejected_status_is_final() {
    let mut agent = AgentState::new();
    let a = Address::of_content(b"x");
    assert!(agent.set_crud_status(&a, CrudStatus::Rejected).is_ok());
    assert_eq!(
        agent.set_crud_status(&a, CrudStatus::Modified),
        Err(HolochainError::ErrorGeneric(String::from("entry status is final")))
    );
    assert_eq!(crud_status(&agent.eav, &a), Some(CrudStatus::Rejected));
}

#[test]
fn one_header_per_committed_entry() {
    let mut agent = AgentState::new();
    let e = app(b"only");
    agent.commit(&app(b"other"), 1, vec![]);
    let a = agent.commit(&e, 2, vec![]);
    let n = agent.chain.headers.iter().filter(|h| h.entry_address == a).count();
    assert_eq!(n, 1);
}

#[test]
fn storing_twice_leaves_store_unchanged() {
    let mut agent = AgentState::new();
    let e = app(b"same");
    agent.content.add(&e.content());
    let once = agent.content.items.clone();
    agent.content.add(&e.content());
    assert_eq!(agent.content.items, once);
    assert_eq!(agent.content.fetch(&e.address()), Some(&e.content()));
}

#[test]
fn two_commits_of_same_bytes() {
    let mut agent = AgentState::new();
    let e = app(b"same");
    agent.commit(&e, 1, vec![]);
    agent.commit(&e, 2, vec![]);
    assert_eq!(agent.chain.headers.len(), 2);
    assert_ne!(agent.chain.headers[0], agent.chain.headers[1]);
    assert_ne!(agent.chain.headers[0].address(), agent.chain.headers[1].address());
    assert_eq!(agent.content.items.len(), 1);
}

#[test]
fn modify_then_read() {
    let mut agent = AgentState::new();
    let e1 = app(b"one");
    let e2 = app(b"two");
    let a1 = agent.commit(&e1, 1, vec![]);
    let a2 = invoke_update_entry(&mut agent, &a1, &e2, Ok(()), 2, vec![]).unwrap();
    assert_eq!(a2, e2.address());
    let m1 = get_entry_local(&agent, &a1).unwrap();
    assert_eq!(m1.entry, e1);
    assert_eq!(m1.crud_status, CrudStatus::Modified);
    assert_eq!(m1.maybe_link_update_delete, Some(a2.clone()));
    let m2 = get_entry_local(&agent, &a2).unwrap();
    assert_eq!(m2.crud_status, CrudStatus::Live);
    assert_eq!(m2.maybe_link_update_delete, None);
}

#[test]
fn update_with_failed_verdict_changes_nothing() {
    let mut agent = AgentState::new();
    let a1 = agent.commit(&app(b"one"), 1, vec![]);
    let r = invoke_update_entry(
        &mut agent,
        &a1,
        &app(b"two"),
        Err(HolochainError::ValidationFailed(String::from("no"))),
        2,
        vec![],
    );
    assert_eq!(r, Err(HolochainError::ValidationFailed(String::from("no"))));
    assert_eq!(agent.chain.headers.len(), 1);
}

#[test]
fn validation_rejects() {
    let mut agent = AgentState::new();
    let e = app(b"bad");
    // The callback returned a block holding the JSON string "denied".
    let ret = decode_callback_return((1 << 16) | 8);
    let outcome = validation_outcome(ret, Some(String::from("denied"))).unwrap();
    assert_eq!(outcome, CallbackOutcome::Fail(String::from("denied")));
    let v = verdict(outcome, EntryLifecycle::Chain, &e.entry_type());
    let r = agent.commit_entry(&e, v, 1, vec![]);
    assert_eq!(r, Err(HolochainError::ValidationFailed(String::from("denied"))));
    assert!(agent.chain.headers.is_empty());
    assert!(agent.content.items.is_empty());
}

#[test]
fn remove_commits_a_deletion() {
    let mut agent = AgentState::new();
    let a = agent.commit(&app(b"x"), 1, vec![]);
    let d = agent.remove_entry(&a, 2, vec![]).unwrap();
    let top = agent.chain.top().unwrap();
    assert_eq!(top.entry_type, EntryType::Deletion);
    assert_eq!(top.entry_address, d);
    assert_eq!(crud_status(&agent.eav, &a), Some(CrudStatus::Deleted));
}
