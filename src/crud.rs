//! Lifecycle status of entries, kept as metadata records.
use crate::address::Address;
use crate::storage::{Eav, EavStore};
use vstd::prelude::*;
use vstd::string::StringExecFns;

verus! {

/// The lifecycle status of an entry.
#[derive(Debug, Clone, Copy, PartialEq, Eq)]
pub enum CrudStatus {
    Live,
    Rejected,
    Modified,
    Deleted,
    Locked,
}

/// The number of each status.
pub open spec fn status_number(s: CrudStatus) -> u8 {
    match s {
        CrudStatus::Live => 1,
        CrudStatus::Rejected => 2,
        CrudStatus::Modified => 3,
        CrudStatus::Deleted => 4,
        CrudStatus::Locked => 5,
    }
}

/// A status as stored: its number in decimal.
pub open spec fn status_value(s: CrudStatus) -> Seq<u8> {
    seq![(0x30 + status_number(s)) as u8]
}

/// The attribute under which statuses are stored.
pub open spec fn status_attribute() -> Seq<char> {
    "crud-status"@
}

/// The attribute under which the successor of a modified entry is stored.
pub open spec fn link_attribute() -> Seq<char> {
    "crud-link"@
}

/// The record that gives entry `a` status `s`.
pub open spec fn status_key(a: Seq<u8>, s: CrudStatus) -> (Seq<u8>, Seq<char>, Seq<u8>) {
    (a, status_attribute(), status_value(s))
}

/// Entry `a` was given status `s`.
pub open spec fn has_status(m: Seq<(Seq<u8>, Seq<char>, Seq<u8>)>, a: Seq<u8>, s: CrudStatus) -> bool {
    m.contains(status_key(a, s))
}

/// The status of entry `a`: of those it was given, the one furthest along
/// (rejected, deleted, modified, locked, live, in that order).
pub open spec fn current_status(m: Seq<(Seq<u8>, Seq<char>, Seq<u8>)>, a: Seq<u8>) -> Option<CrudStatus> {
    if has_status(m, a, CrudStatus::Rejected) {
        Some(CrudStatus::Rejected)
    } else if has_status(m, a, CrudStatus::Deleted) {
        Some(CrudStatus::Deleted)
    } else if has_status(m, a, CrudStatus::Modified) {
        Some(CrudStatus::Modified)
    } else if has_status(m, a, CrudStatus::Locked) {
        Some(CrudStatus::Locked)
    } else if has_status(m, a, CrudStatus::Live) {
        Some(CrudStatus::Live)
    } else {
        None
    }
}

/// Deleted and rejected are final: no later status change is accepted.
pub open spec fn is_final(s: Option<CrudStatus>) -> bool {
    s == Some(CrudStatus::Deleted) || s == Some(CrudStatus::Rejected)
}

impl CrudStatus {
    pub fn number(&self) -> (r: u8)
        ensures
            r == status_number(*self),
    {
        match self {
            CrudStatus::Live => 1,
            CrudStatus::Rejected => 2,
            CrudStatus::Modified => 3,
            CrudStatus::Deleted => 4,
            CrudStatus::Locked => 5,
        }
    }

    /// The stored form of this status.
    pub fn to_value(&self) -> (r: Vec<u8>)
        ensures
            r@ == status_value(*self),
    {
        let mut v: Vec<u8> = Vec::new();
        v.push(0x30u8 + self.number());
        assert(v@ =~= status_value(*self));
        v
    }

    /// The status stored as `v`, if `v` stores one.
    pub fn from_value(v: &[u8]) -> (r: Option<CrudStatus>)
        ensures
            match r {
                Some(s) => status_value(s) == v@,
                None => forall|s: CrudStatus| status_value(s) != v@,
            },
    {
        if v.len() != 1 {
            return None;
        }
        let c = v[0];
        let r = if c == 0x31 {
            Some(CrudStatus::Live)
        } else if c == 0x32 {
            Some(CrudStatus::Rejected)
        } else if c == 0x33 {
            Some(CrudStatus::Modified)
        } else if c == 0x34 {
            Some(CrudStatus::Deleted)
        } else if c == 0x35 {
            Some(CrudStatus::Locked)
        } else {
            None
        };
        match r {
            Some(s) => {
                assert(status_value(s) =~= v@);
            },
            None => {
                assert forall|s: CrudStatus| status_value(s) != v@ by {
                    assert(status_value(s)[0] != v@[0]);
                }
            },
        }
        r
    }
}

/// True when the status is final.
pub fn status_is_final(s: Option<CrudStatus>) -> (r: bool)
    ensures
        r == is_final(s),
{
    match s {
        Some(CrudStatus::Deleted) => true,
        Some(CrudStatus::Rejected) => true,
        _ => false,
    }
}

/// The record that gives entry `a` status `s`.
pub fn status_record(a: &Address, s: CrudStatus) -> (r: Eav)
    ensures
        (r.entity@, r.attribute@, r.value@) == status_key(a@, s),
{
    Eav { entity: a.duplicate(), attribute: String::from_str("crud-status"), value: s.to_value() }
}

/// True when entry `a` was given status `s`.
pub fn status_given(eav: &EavStore, a: &Address, s: CrudStatus) -> (r: bool)
    ensures
        r == has_status(eav@, a@, s),
{
    eav.contains(&status_record(a, s))
}

/// The status of entry `a`.
pub fn crud_status(eav: &EavStore, a: &Address) -> (r: Option<CrudStatus>)
    ensures
        r == current_status(eav@, a@),
{
    if status_given(eav, a, CrudStatus::Rejected) {
        Some(CrudStatus::Rejected)
    } else if status_given(eav, a, CrudStatus::Deleted) {
        Some(CrudStatus::Deleted)
    } else if status_given(eav, a, CrudStatus::Modified) {
        Some(CrudStatus::Modified)
    } else if status_given(eav, a, CrudStatus::Locked) {
        Some(CrudStatus::Locked)
    } else if status_given(eav, a, CrudStatus::Live) {
        Some(CrudStatus::Live)
    } else {
        None
    }
}

/// A final status stays final whatever record is added after it, and a
/// status change that is refused leaves the records as they were.
pub proof fn lemma_final_status_is_kept(
    m: Seq<(Seq<u8>, Seq<char>, Seq<u8>)>,
    a: Seq<u8>,
    k: (Seq<u8>, Seq<char>, Seq<u8>),
)
    requires
        is_final(current_status(m, a)),
    ensures
        is_final(current_status(m.push(k), a)),
{
    let s = current_status(m, a)->Some_0;
    assert(m.contains(status_key(a, s)));
    let i = choose|i: int| 0 <= i < m.len() && m[i] == status_key(a, s);
    assert(m.push(k)[i] == status_key(a, s));
    assert(m.push(k).contains(status_key(a, s)));
}

} // verus!
