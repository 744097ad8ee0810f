//! Network request bookkeeping: one outbound request per key while it is in
//! flight, answers from local data when there are any, and timeouts.
use crate::address::{copy_bytes, Address};
use crate::agent::AgentState;
use crate::crud::{crud_status, current_status, link_attribute, CrudStatus};
use crate::entry::{decode_entry, Entry, EntryModel};
use crate::error::HolochainError;
use crate::storage::{eav_select, store_get};
use vstd::prelude::*;

verus! {

/// The network operations that wait for an answer.
#[derive(Debug, Clone, Copy, PartialEq, Eq)]
pub enum NetworkOp {
    GetEntry,
    GetValidationPackage,
}

/// A request in flight: its operation and key, how many callers wait on
/// it, and when it times out.
#[derive(Debug, Clone)]
pub struct PendingRequest {
    pub op: NetworkOp,
    pub key: Address,
    pub waiters: u64,
    pub deadline: u64,
}

/// What a caller of a network operation must do next.
#[derive(Debug, Clone, Copy, PartialEq, Eq)]
pub enum RequestAction {
    /// Send the one outbound request for this key.
    Send,
    /// A request for this key is in flight: wait for it.
    Wait,
}

/// The requests in flight.
#[derive(Debug, Clone)]
pub struct NetworkState {
    pub pending: Vec<PendingRequest>,
}

/// Position `i` holds the request for `op` and `key`.
pub open spec fn is_for(p: Seq<PendingRequest>, i: int, op: NetworkOp, key: Seq<u8>) -> bool {
    0 <= i < p.len() && p[i].op == op && p[i].key@ == key
}

/// Some request for `op` and `key` is in flight.
pub open spec fn in_flight(p: Seq<PendingRequest>, op: NetworkOp, key: Seq<u8>) -> bool {
    exists|i: int| #[trigger] is_for(p, i, op, key)
}

/// At most one request per operation and key is in flight.
pub open spec fn one_per_key(p: Seq<PendingRequest>) -> bool {
    forall|i: int, j: int|
        0 <= i < j < p.len() ==> !(#[trigger] p[i].op == #[trigger] p[j].op && p[i].key@ == p[j].key@)
}

fn same_op(a: NetworkOp, b: NetworkOp) -> (r: bool)
    ensures
        r == (a == b),
{
    match (a, b) {
        (NetworkOp::GetEntry, NetworkOp::GetEntry) => true,
        (NetworkOp::GetValidationPackage, NetworkOp::GetValidationPackage) => true,
        _ => false,
    }
}

impl NetworkState {
    pub open spec fn wf(&self) -> bool {
        one_per_key(self.pending@)
    }

    pub fn new() -> (r: NetworkState)
        ensures
            r.wf(),
            r.pending@.len() == 0,
    {
        NetworkState { pending: Vec::new() }
    }

    /// The position of the request for `op` and `key`.
    pub fn find(&self, op: NetworkOp, key: &Address) -> (r: Option<usize>)
        ensures
            match r {
                Some(i) => is_for(self.pending@, i as int, op, key@),
                None => !in_flight(self.pending@, op, key@),
            },
    {
        let mut i: usize = 0;
        while i < self.pending.len()
            invariant
                0 <= i <= self.pending@.len(),
                forall|k: int| 0 <= k < i ==> !#[trigger] is_for(self.pending@, k, op, key@),
            decreases self.pending@.len() - i,
        {
            if same_op(self.pending[i].op, op) && self.pending[i].key.same(key) {
                return Some(i);
            }
            i = i + 1;
        }
        None
    }

    /// Registers a caller of `op` for `key` at time `now`. The first caller
    /// gets `Send`, and the request times out `timeout` later; while it is
    /// in flight, later callers get `Wait` and no second request goes out.
    pub fn request(&mut self, op: NetworkOp, key: &Address, now: u64, timeout: u64) -> (r: RequestAction)
        requires
            old(self).wf(),
        ensures
            final(self).wf(),
            in_flight(final(self).pending@, op, key@),
            in_flight(old(self).pending@, op, key@) ==> r == RequestAction::Wait && exists|i: int|
                #[trigger] is_for(old(self).pending@, i, op, key@) && final(self).pending@.len()
                    == old(self).pending@.len() && final(self).pending@[i].op == op
                    && final(self).pending@[i].key@ == key@ && final(self).pending@[i].waiters == (if old(
                    self,
                ).pending@[i].waiters < u64::MAX {
                    old(self).pending@[i].waiters + 1
                } else {
                    u64::MAX as int
                }) && final(self).pending@[i].deadline == old(self).pending@[i].deadline && forall|j: int|
                    0 <= j < old(self).pending@.len() && j != i ==> #[trigger] final(self).pending@[j]
                        == old(self).pending@[j],
            !in_flight(old(self).pending@, op, key@) ==> r == RequestAction::Send && final(self).pending@.len()
                == old(self).pending@.len() + 1 && final(self).pending@.drop_last() == old(self).pending@
                && final(self).pending@.last().op == op && final(self).pending@.last().key@ == key@
                && final(self).pending@.last().waiters == 1 && final(self).pending@.last().deadline == (if now
                <= u64::MAX - timeout {
                now + timeout
            } else {
                u64::MAX as int
            }),
    {
        match self.find(op, key) {
            Some(i) => {
                let ghost before = self.pending@;
                let mut p = self.pending[i].clone_request();
                p.waiters = if p.waiters < u64::MAX {
                    p.waiters + 1
                } else {
                    p.waiters
                };
                self.pending.set(i, p);
                proof {
                    assert(is_for(self.pending@, i as int, op, key@));
                    assert(is_for(before, i as int, op, key@));
                    assert forall|a: int, b: int| 0 <= a < b < self.pending@.len() implies !(
                    #[trigger] self.pending@[a].op == #[trigger] self.pending@[b].op && self.pending@[a].key@
                        == self.pending@[b].key@) by {
                        assert(!(before[a].op == before[b].op && before[a].key@ == before[b].key@));
                    }
                }
                RequestAction::Wait
            },
            None => {
                let deadline = if now <= u64::MAX - timeout {
                    now + timeout
                } else {
                    u64::MAX
                };
                let ghost before = self.pending@;
                self.pending.push(PendingRequest { op, key: key.duplicate(), waiters: 1, deadline });
                proof {
                    assert(self.pending@.drop_last() == before);
                    assert(is_for(self.pending@, before.len() as int, op, key@));
                    assert forall|a: int, b: int| 0 <= a < b < self.pending@.len() implies !(
                    #[trigger] self.pending@[a].op == #[trigger] self.pending@[b].op && self.pending@[a].key@
                        == self.pending@[b].key@) by {
                        if b == before.len() {
                            assert(!is_for(before, a, op, key@));
                        } else {
                            assert(!(before[a].op == before[b].op && before[a].key@ == before[b].key@));
                        }
                    }
                }
                RequestAction::Send
            },
        }
    }

    /// Clears the request for `op` and `key` when an answer or a timeout
    /// ends it; returns how many callers were waiting, or `None` when no
    /// request was in flight (a late answer, which is dropped).
    pub fn complete(&mut self, op: NetworkOp, key: &Address) -> (r: Option<u64>)
        requires
            old(self).wf(),
        ensures
            final(self).wf(),
            !in_flight(final(self).pending@, op, key@),
            !in_flight(old(self).pending@, op, key@) ==> r is None && final(self).pending@ == old(self).pending@,
            in_flight(old(self).pending@, op, key@) ==> exists|i: int|
                #[trigger] is_for(old(self).pending@, i, op, key@) && r == Some(old(self).pending@[i].waiters)
                    && final(self).pending@ == old(self).pending@.remove(i),
    {
        match self.find(op, key) {
            Some(i) => {
                let ghost before = self.pending@;
                let p = self.pending.remove(i);
                proof {
                    assert(is_for(before, i as int, op, key@));
                    assert forall|a: int, b: int| 0 <= a < b < self.pending@.len() implies !(
                    #[trigger] self.pending@[a].op == #[trigger] self.pending@[b].op && self.pending@[a].key@
                        == self.pending@[b].key@) by {
                        let a0 = if a < i { a } else { a + 1 };
                        let b0 = if b < i { b } else { b + 1 };
                        assert(self.pending@[a] == before[a0]);
                        assert(self.pending@[b] == before[b0]);
                        assert(!(before[a0].op == before[b0].op && before[a0].key@ == before[b0].key@));
                    }
                    if in_flight(self.pending@, op, key@) {
                        let k = choose|k: int| is_for(self.pending@, k, op, key@);
                        let k0 = if k < i { k } else { k + 1 };
                        assert(self.pending@[k] == before[k0]);
                        assert(!(before[if k0 < i { k0 } else { i as int }].op == before[if k0 < i { i as int } else { k0 }].op
                            && before[if k0 < i { k0 } else { i as int }].key@ == before[if k0 < i { i as int } else { k0 }].key@));
                    }
                }
                Some(p.waiters)
            },
            None => None,
        }
    }

    /// The requests whose time is up at `now`, in the order they were
    /// made, which the caller completes (an entry read gives nothing, a
    /// package read a timeout error).
    pub fn expired(&self, now: u64) -> (r: Vec<(NetworkOp, Address)>)
        ensures
            r@.map_values(|x: (NetworkOp, Address)| (x.0, x.1@)) == expired_of(self.pending@, now),
    {
        let mut r: Vec<(NetworkOp, Address)> = Vec::new();
        let mut i: usize = 0;
        while i < self.pending.len()
            invariant
                0 <= i <= self.pending@.len(),
                r@.map_values(|x: (NetworkOp, Address)| (x.0, x.1@)) == expired_of(
                    self.pending@.subrange(0, i as int),
                    now,
                ),
            decreases self.pending@.len() - i,
        {
            let ghost pre = self.pending@.subrange(0, i + 1);
            assert(pre.drop_last() == self.pending@.subrange(0, i as int));
            assert(pre.last() == self.pending@[i as int]);
            if self.pending[i].deadline <= now {
                let ghost before = r@.map_values(|x: (NetworkOp, Address)| (x.0, x.1@));
                r.push((self.pending[i].op, self.pending[i].key.duplicate()));
                assert(r@.map_values(|x: (NetworkOp, Address)| (x.0, x.1@)) == before.push(
                    (self.pending@[i as int].op, self.pending@[i as int].key@),
                ));
            }
            i = i + 1;
        }
        assert(self.pending@.subrange(0, self.pending@.len() as int) == self.pending@);
        r
    }
}

/// The operation and key of each request whose time is up at `now`, in order.
pub open spec fn expired_of(p: Seq<PendingRequest>, now: u64) -> Seq<(NetworkOp, Seq<u8>)>
    decreases p.len(),
{
    if p.len() == 0 {
        Seq::empty()
    } else if p.last().deadline <= now {
        expired_of(p.drop_last(), now).push((p.last().op, p.last().key@))
    } else {
        expired_of(p.drop_last(), now)
    }
}

impl PendingRequest {
    fn clone_request(&self) -> (r: PendingRequest)
        ensures
            r.op == self.op,
            r.key@ == self.key@,
            r.waiters == self.waiters,
            r.deadline == self.deadline,
    {
        PendingRequest { op: self.op, key: self.key.duplicate(), waiters: self.waiters, deadline: self.deadline }
    }
}

/// While a request for a key is in flight, another caller for the same key
/// sends nothing: the state stays with one request per key.
pub proof fn lemma_one_request_per_key(p: Seq<PendingRequest>, op: NetworkOp, key: Seq<u8>, i: int, j: int)
    requires
        one_per_key(p),
        is_for(p, i, op, key),
        is_for(p, j, op, key),
    ensures
        i == j,
{
    if i < j {
        assert(!(p[i].op == p[j].op && p[i].key@ == p[j].key@));
    } else if j < i {
        assert(!(p[j].op == p[i].op && p[j].key@ == p[i].key@));
    }
}

/// An entry with the metadata a reader needs: its lifecycle status and,
/// when it was modified or deleted, the address that followed it.
#[derive(Debug, Clone, PartialEq)]
pub struct EntryWithMeta {
    pub entry: Entry,
    pub crud_status: CrudStatus,
    pub maybe_link_update_delete: Option<Address>,
}

/// The status a reader sees: the entry's current status, live when it has none.
pub open spec fn status_seen(m: Seq<(Seq<u8>, Seq<char>, Seq<u8>)>, a: Seq<u8>) -> CrudStatus {
    match current_status(m, a) {
        Some(s) => s,
        None => CrudStatus::Live,
    }
}

/// What the local stores say of the entry at `a`.
pub open spec fn local_entry_matches(agent: AgentState, a: Seq<u8>, r: Option<EntryWithMeta>) -> bool {
    match store_get(agent.content@, a) {
        None => r is None,
        Some(c) => match decode_entry(c) {
            None => r is None,
            Some(m) => {
                let links = eav_select(agent.eav.items@, Some(a), Some(link_attribute()), None);
                &&& r is Some
                &&& r->Some_0.entry@ == m
                &&& r->Some_0.crud_status == status_seen(agent.eav@, a)
                &&& (r->Some_0.maybe_link_update_delete is None <==> links.len() == 0)
                &&& (links.len() > 0 ==> r->Some_0.maybe_link_update_delete->Some_0@ == links.last().value@)
            },
        },
    }
}

/// The entry at `address` as the agent's own stores hold it.
pub fn get_entry_local(agent: &AgentState, address: &Address) -> (r: Option<EntryWithMeta>)
    ensures
        local_entry_matches(*agent, address@, r),
{
    let content = match agent.content.fetch(address) {
        Some(c) => c,
        None => {
            return None;
        },
    };
    let entry = match Entry::from_content(content.as_slice()) {
        Some(e) => e,
        None => {
            return None;
        },
    };
    let crud = match crud_status(&agent.eav, address) {
        Some(s) => s,
        None => CrudStatus::Live,
    };
    let links = agent.eav.fetch_eav(Some(address), Some("crud-link"), None);
    let link = if links.len() == 0 {
        None
    } else {
        let last = links[links.len() - 1];
        proof {
            assert(links@.map_values(|e: &crate::storage::Eav| *e)[links@.len() - 1] == *last);
        }
        Some(Address::from_bytes(copy_bytes(last.value.as_slice())))
    };
    Some(EntryWithMeta { entry, crud_status: crud, maybe_link_update_delete: link })
}

/// How a read of an entry starts.
#[derive(Debug, Clone, PartialEq)]
pub enum GetEntryStart {
    /// Answered at once from local data (or nothing, when there is no one to ask).
    Done(Option<EntryWithMeta>),
    /// Go to the network: send the request, or wait for the one in flight.
    Network(RequestAction),
}

/// Starts a read of the entry at `address`: local data answers at once; an
/// agent with no peers gets nothing at once; else the read joins the
/// network request for that address, sending one only when none is in flight.
pub fn start_get_entry(
    net: &mut NetworkState,
    agent: &AgentState,
    address: &Address,
    has_peers: bool,
    now: u64,
    timeout: u64,
) -> (r: GetEntryStart)
    requires
        old(net).wf(),
    ensures
        final(net).wf(),
        match r {
            GetEntryStart::Done(e) => *final(net) == *old(net) && local_entry_matches(*agent, address@, e) && (
            e is None ==> !has_peers),
            GetEntryStart::Network(_) => has_peers && (store_get(agent.content@, address@) is None
                || decode_entry(store_get(agent.content@, address@)->Some_0) is None),
        },
        r is Network ==> in_flight(final(net).pending@, NetworkOp::GetEntry, address@),
        r == GetEntryStart::Network(RequestAction::Send) ==> !in_flight(
            old(net).pending@,
            NetworkOp::GetEntry,
            address@,
        ),
        r is Network && in_flight(old(net).pending@, NetworkOp::GetEntry, address@) ==> r
            == GetEntryStart::Network(RequestAction::Wait),
{
    let local = get_entry_local(agent, address);
    if local.is_some() || !has_peers {
        return GetEntryStart::Done(local);
    }
    GetEntryStart::Network(net.request(NetworkOp::GetEntry, address, now, timeout))
}

} // verus!
