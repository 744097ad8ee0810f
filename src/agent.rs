//! An agent's local state and the actions that change it: commit, update
//! and removal of entries.
use crate::address::Address;
use crate::chain::{chain_wf, header_address, links_hold, Chain, Header, Provenance};
use crate::crud::{crud_status, status_is_final, current_status, is_final, link_attribute, status_key, status_record, CrudStatus};
use crate::entry::{encode_entry, entry_address, type_of, DeletionEntry, Entry, EntryModel};
use crate::error::HolochainError;
use crate::storage::{eav_add, store_add, ContentStore, Eav, EavStore};
use vstd::prelude::*;
use vstd::string::StringExecFns;

verus! {

/// An agent's chain, content store and metadata store.
pub struct AgentState {
    pub chain: Chain,
    pub content: ContentStore,
    pub eav: EavStore,
}

/// The metadata after committing the entry at `a`: it is marked live,
/// unless its status is final already.
pub open spec fn eav_after_commit(m: Seq<(Seq<u8>, Seq<char>, Seq<u8>)>, a: Seq<u8>) -> Seq<
    (Seq<u8>, Seq<char>, Seq<u8>),
> {
    if is_final(current_status(m, a)) {
        m
    } else {
        eav_add(m, status_key(a, CrudStatus::Live))
    }
}

/// The chain grew by one header for entry `e`, linked as it must be.
pub open spec fn appended_for(old_hs: Seq<Header>, new_hs: Seq<Header>, e: EntryModel, timestamp: u64) -> bool {
    &&& new_hs.len() == old_hs.len() + 1
    &&& new_hs.drop_last() == old_hs
    &&& new_hs.last().entry_address@ == entry_address(e)
    &&& new_hs.last().entry_type@ == type_of(e)
    &&& new_hs.last().timestamp == timestamp
    &&& links_hold(new_hs, old_hs.len() as int)
}

/// The message of the error refused status changes come with.
pub open spec fn final_status_message() -> Seq<char> {
    "entry status is final"@
}

fn final_status_error() -> (r: HolochainError)
    ensures
        r matches HolochainError::ErrorGeneric(m) && m@ == final_status_message(),
{
    HolochainError::ErrorGeneric(String::from_str("entry status is final"))
}

impl AgentState {
    pub open spec fn wf(&self) -> bool {
        self.chain.wf()
    }

    /// A fresh agent with nothing committed.
    pub fn new() -> (r: AgentState)
        ensures
            r.wf(),
            r.chain.headers@.len() == 0,
            r.content@.len() == 0,
            r.eav@.len() == 0,
    {
        AgentState { chain: Chain::new(), content: ContentStore::new(), eav: EavStore::new() }
    }

    /// Commits a validated entry: appends its header, stores its content and
    /// marks it live (unless its status is final already).
    pub fn commit(&mut self, entry: &Entry, timestamp: u64, provenances: Vec<Provenance>) -> (r: Address)
        requires
            old(self).wf(),
        ensures
            final(self).wf(),
            r@ == entry_address(entry@),
            appended_for(old(self).chain.headers@, final(self).chain.headers@, entry@, timestamp),
            final(self).content@ == store_add(old(self).content@, encode_entry(entry@)),
            final(self).eav@ == eav_after_commit(old(self).eav@, r@),
    {
        let bytes = entry.content();
        let address = self.content.add(bytes.as_slice());
        let header = self.chain.next_header(entry.entry_type(), address.duplicate(), timestamp, provenances);
        let ghost hs = self.chain.headers@;
        let pushed = self.chain.push(header);
        assert(pushed is Ok);
        assert(self.chain.headers@.drop_last() == hs);
        if !status_is_final(crud_status(&self.eav, &address)) {
            self.eav.add_eav(status_record(&address, CrudStatus::Live));
        }
        address
    }

    /// Commits an entry once its validation verdict is known: on a failed
    /// verdict nothing changes and the verdict's error comes back.
    pub fn commit_entry(
        &mut self,
        entry: &Entry,
        verdict: Result<(), HolochainError>,
        timestamp: u64,
        provenances: Vec<Provenance>,
    ) -> (r: Result<Address, HolochainError>)
        requires
            old(self).wf(),
        ensures
            final(self).wf(),
            match verdict {
                Err(e) => r == Err::<Address, HolochainError>(e) && final(self).chain == old(self).chain
                    && final(self).content == old(self).content && final(self).eav == old(self).eav,
                Ok(_) => r is Ok && r->Ok_0@ == entry_address(entry@) && appended_for(
                    old(self).chain.headers@,
                    final(self).chain.headers@,
                    entry@,
                    timestamp,
                ) && final(self).content@ == store_add(old(self).content@, encode_entry(entry@))
                    && final(self).eav@ == eav_after_commit(old(self).eav@, entry_address(entry@)),
            },
    {
        match verdict {
            Err(e) => Err(e),
            Ok(_) => Ok(self.commit(entry, timestamp, provenances)),
        }
    }

    /// Changes the status of entry `a`; refused, with nothing changed, when
    /// its status is final.
    pub fn set_crud_status(&mut self, a: &Address, s: CrudStatus) -> (r: Result<(), HolochainError>)
        ensures
            is_final(current_status(old(self).eav@, a@)) ==> r is Err && final(self).eav == old(self).eav,
            !is_final(current_status(old(self).eav@, a@)) ==> r is Ok && final(self).eav@ == eav_add(
                old(self).eav@,
                status_key(a@, s),
            ),
            final(self).chain == old(self).chain,
            final(self).content == old(self).content,
    {
        let cur = crud_status(&self.eav, a);
        if status_is_final(cur) {
            return Err(final_status_error());
        }
        self.eav.add_eav(status_record(a, s));
        Ok(())
    }

    /// Replaces the entry at `old_address` by `new_entry`: commits the new
    /// entry, links the old address to the new one and marks the old entry
    /// modified. Refused, with nothing changed, when the old entry's status
    /// is final.
    pub fn update_entry(
        &mut self,
        old_address: &Address,
        new_entry: &Entry,
        timestamp: u64,
        provenances: Vec<Provenance>,
    ) -> (r: Result<Address, HolochainError>)
        requires
            old(self).wf(),
        ensures
            final(self).wf(),
            is_final(current_status(old(self).eav@, old_address@)) ==> r is Err && final(self).chain
                == old(self).chain && final(self).content == old(self).content && final(self).eav
                == old(self).eav,
            !is_final(current_status(old(self).eav@, old_address@)) ==> {
                &&& r is Ok
                &&& r->Ok_0@ == entry_address(new_entry@)
                &&& appended_for(old(self).chain.headers@, final(self).chain.headers@, new_entry@, timestamp)
                &&& final(self).content@ == store_add(old(self).content@, encode_entry(new_entry@))
                &&& final(self).eav@ == eav_add(
                    eav_add(
                        eav_after_commit(old(self).eav@, entry_address(new_entry@)),
                        (old_address@, link_attribute(), entry_address(new_entry@)),
                    ),
                    status_key(old_address@, CrudStatus::Modified),
                )
            },
    {
        let cur = crud_status(&self.eav, old_address);
        if status_is_final(cur) {
            return Err(final_status_error());
        }
        let new_address = self.commit(new_entry, timestamp, provenances);
        self.eav.add_eav(
            Eav {
                entity: old_address.duplicate(),
                attribute: String::from_str("crud-link"),
                value: new_address.hash.clone(),
            },
        );
        self.eav.add_eav(status_record(old_address, CrudStatus::Modified));
        Ok(new_address)
    }

    /// Removes the entry at `address`: commits a deletion entry for it and
    /// marks it deleted. Refused, with nothing changed, when its status is final.
    pub fn remove_entry(&mut self, address: &Address, timestamp: u64, provenances: Vec<Provenance>) -> (r:
        Result<Address, HolochainError>)
        requires
            old(self).wf(),
        ensures
            final(self).wf(),
            is_final(current_status(old(self).eav@, address@)) ==> r is Err && final(self).chain
                == old(self).chain && final(self).content == old(self).content && final(self).eav
                == old(self).eav,
            !is_final(current_status(old(self).eav@, address@)) ==> {
                &&& r is Ok
                &&& r->Ok_0@ == entry_address(EntryModel::Deletion(address@))
                &&& appended_for(
                    old(self).chain.headers@,
                    final(self).chain.headers@,
                    EntryModel::Deletion(address@),
                    timestamp,
                )
                &&& final(self).content@ == store_add(
                    old(self).content@,
                    encode_entry(EntryModel::Deletion(address@)),
                )
                &&& final(self).eav@ == eav_add(
                    eav_after_commit(old(self).eav@, entry_address(EntryModel::Deletion(address@))),
                    status_key(address@, CrudStatus::Deleted),
                )
            },
    {
        let cur = crud_status(&self.eav, address);
        if status_is_final(cur) {
            return Err(final_status_error());
        }
        let deletion = Entry::Deletion(DeletionEntry::new(address.duplicate()));
        let a = self.commit(&deletion, timestamp, provenances);
        self.eav.add_eav(status_record(address, CrudStatus::Deleted));
        Ok(a)
    }
}

/// Updates the entry at `old_address` to `new_entry` once the new entry's
/// validation verdict is known (the verdict of the callback that
/// `validation_callback` names for the modify action, run on the data of
/// `update_validation_data`): a failed verdict changes nothing and comes
/// back as the error; else this is `update_entry`.
pub fn invoke_update_entry(
    agent: &mut AgentState,
    old_address: &Address,
    new_entry: &Entry,
    verdict: Result<(), HolochainError>,
    timestamp: u64,
    provenances: Vec<Provenance>,
) -> (r: Result<Address, HolochainError>)
    requires
        old(agent).wf(),
    ensures
        final(agent).wf(),
        verdict is Err ==> r == Err::<Address, HolochainError>(verdict->Err_0) && final(agent).chain == old(agent).chain
            && final(agent).content == old(agent).content && final(agent).eav == old(agent).eav,
        verdict is Ok && is_final(current_status(old(agent).eav@, old_address@)) ==> r is Err
            && final(agent).chain == old(agent).chain && final(agent).content == old(agent).content
            && final(agent).eav == old(agent).eav,
        verdict is Ok && !is_final(current_status(old(agent).eav@, old_address@)) ==> {
            &&& r is Ok
            &&& r->Ok_0@ == entry_address(new_entry@)
            &&& appended_for(old(agent).chain.headers@, final(agent).chain.headers@, new_entry@, timestamp)
            &&& final(agent).content@ == store_add(old(agent).content@, encode_entry(new_entry@))
            &&& final(agent).eav@ == eav_add(
                eav_add(
                    eav_after_commit(old(agent).eav@, entry_address(new_entry@)),
                    (old_address@, link_attribute(), entry_address(new_entry@)),
                ),
                status_key(old_address@, CrudStatus::Modified),
            )
        },
{
    match verdict {
        Err(e) => Err(e),
        Ok(_) => agent.update_entry(old_address, new_entry, timestamp, provenances),
    }
}

/// The number of headers in `hs` for the entry at address `a`.
pub open spec fn headers_for(hs: Seq<Header>, a: Seq<u8>) -> nat
    decreases hs.len(),
{
    if hs.len() == 0 {
        0
    } else {
        headers_for(hs.drop_last(), a) + if hs.last().entry_address@ == a {
            1nat
        } else {
            0nat
        }
    }
}

/// After a commit of an entry that the chain had no header for, the chain
/// holds exactly one header for that entry's address.
pub proof fn lemma_commit_gives_one_header(old_hs: Seq<Header>, new_hs: Seq<Header>, e: EntryModel, timestamp: u64)
    requires
        appended_for(old_hs, new_hs, e, timestamp),
        headers_for(old_hs, entry_address(e)) == 0,
    ensures
        headers_for(new_hs, entry_address(e)) == 1,
{
}

/// Two commits of the same entry give two headers, the second linked to
/// the first (and so distinct from it when their times differ or the chain
/// started empty), while the content store keeps one record, as after the
/// first commit.
pub proof fn lemma_two_commits(
    hs0: Seq<Header>,
    hs1: Seq<Header>,
    hs2: Seq<Header>,
    store: Seq<(Seq<u8>, Seq<u8>)>,
    e: EntryModel,
    t1: u64,
    t2: u64,
)
    requires
        appended_for(hs0, hs1, e, t1),
        appended_for(hs1, hs2, e, t2),
    ensures
        hs2.len() == hs0.len() + 2,
        hs2[hs0.len() as int].entry_address@ == hs2[hs0.len() as int + 1].entry_address@,
        hs2[hs0.len() as int + 1].prev_header_address is Some,
        hs2[hs0.len() as int + 1].prev_header_address->Some_0@ == header_address(hs2[hs0.len() as int]),
        (hs0.len() == 0 || t1 != t2) ==> hs2[hs0.len() as int] != hs2[hs0.len() as int + 1],
        store_add(store_add(store, encode_entry(e)), encode_entry(e)) == store_add(store, encode_entry(e)),
{
    crate::storage::lemma_store_add_idempotent(store, encode_entry(e));
    assert(hs2.drop_last()[hs0.len() as int] == hs2[hs0.len() as int]);
    assert(hs1.last() == hs2[hs0.len() as int]);
    if hs0.len() == 0 {
        assert(hs2[0].prev_header_address is None);
    }
}

} // verus!
