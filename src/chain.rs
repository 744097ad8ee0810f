//! Headers and the per-agent chain of them.
use crate::address::{sha256_multihash, Address};
use crate::codec::{le_bytes, push_field, text_bytes};
use crate::entry::{fields_concat, lemma_fields_concat_push, EntryType, EntryTypeModel};
use crate::error::HolochainError;
use vstd::prelude::*;
use vstd::utf8::encode_utf8;

verus! {

/// The author's signature over an entry address.
#[derive(Debug, Clone, PartialEq, Eq)]
pub struct Provenance {
    pub agent_address: Address,
    pub signature: String,
}

/// Metadata that places an entry in an agent's chain.
#[derive(Debug, Clone, PartialEq)]
pub struct Header {
    pub entry_type: EntryType,
    pub entry_address: Address,
    pub timestamp: u64,
    pub prev_header_address: Option<Address>,
    pub same_type_prev_address: Option<Address>,
    pub provenances: Vec<Provenance>,
}

/// The bytes that stand for an entry type in a header.
pub open spec fn type_bytes(t: EntryTypeModel) -> Seq<u8> {
    match t {
        EntryTypeModel::App(n) => seq![0u8] + encode_utf8(n),
        EntryTypeModel::LinkAdd => seq![1u8],
        EntryTypeModel::LinkRemove => seq![2u8],
        EntryTypeModel::Deletion => seq![3u8],
        EntryTypeModel::AgentId => seq![4u8],
        EntryTypeModel::Dna => seq![5u8],
    }
}

/// The bytes that stand for an optional address.
pub open spec fn opt_bytes(a: Option<Address>) -> Seq<u8> {
    match a {
        Some(a) => seq![1u8] + a@,
        None => seq![0u8],
    }
}

/// The fields of a list of provenances: agent address, then signature, each.
pub open spec fn provenance_fields(ps: Seq<Provenance>) -> Seq<Seq<u8>>
    decreases ps.len(),
{
    if ps.len() == 0 {
        Seq::empty()
    } else {
        provenance_fields(ps.drop_last()).push(ps.last().agent_address@).push(
            encode_utf8(ps.last().signature@),
        )
    }
}

/// The fields of a header's canonical form.
pub open spec fn header_fields(h: Header) -> Seq<Seq<u8>> {
    seq![
        type_bytes(h.entry_type@),
        h.entry_address@,
        le_bytes(h.timestamp),
        opt_bytes(h.prev_header_address),
        opt_bytes(h.same_type_prev_address),
    ] + provenance_fields(h.provenances@)
}

/// The address of a header: the hash of its canonical bytes.
pub open spec fn header_address(h: Header) -> Seq<u8> {
    sha256_multihash(fields_concat(header_fields(h)))
}

fn type_field(t: &EntryType) -> (r: Vec<u8>)
    ensures
        r@ == type_bytes(t@),
{
    let mut out: Vec<u8> = Vec::new();
    match t {
        EntryType::App(n) => {
            out.push(0u8);
            let b = text_bytes(n);
            let mut i: usize = 0;
            while i < b.len()
                invariant
                    0 <= i <= b@.len(),
                    out@ == seq![0u8] + b@.subrange(0, i as int),
                decreases b@.len() - i,
            {
                out.push(b[i]);
                assert(b@.subrange(0, i + 1) == b@.subrange(0, i as int).push(b@[i as int]));
                i = i + 1;
            }
            assert(b@ == b@.subrange(0, b@.len() as int));
        },
        EntryType::LinkAdd => out.push(1u8),
        EntryType::LinkRemove => out.push(2u8),
        EntryType::Deletion => out.push(3u8),
        EntryType::AgentId => out.push(4u8),
        EntryType::Dna => out.push(5u8),
    }
    assert(out@ =~= type_bytes(t@));
    out
}

fn opt_field(a: &Option<Address>) -> (r: Vec<u8>)
    ensures
        r@ == opt_bytes(*a),
{
    let mut out: Vec<u8> = Vec::new();
    match a {
        Some(a) => {
            out.push(1u8);
            let mut i: usize = 0;
            while i < a.hash.len()
                invariant
                    0 <= i <= a@.len(),
                    out@ == seq![1u8] + a@.subrange(0, i as int),
                decreases a@.len() - i,
            {
                out.push(a.hash[i]);
                assert(a@.subrange(0, i + 1) == a@.subrange(0, i as int).push(a@[i as int]));
                i = i + 1;
            }
            assert(a@ == a@.subrange(0, a@.len() as int));
        },
        None => out.push(0u8),
    }
    out
}

/// Two lists of provenances with the same plain values have the same fields.
proof fn lemma_provenance_fields_same(a: Seq<Provenance>, b: Seq<Provenance>)
    requires
        a.len() == b.len(),
        forall|i: int|
            0 <= i < a.len() ==> (#[trigger] a[i]).agent_address@ == b[i].agent_address@ && a[i].signature@
                == b[i].signature@,
    ensures
        provenance_fields(a) == provenance_fields(b),
    decreases a.len(),
{
    if a.len() > 0 {
        assert forall|i: int| 0 <= i < a.drop_last().len() implies (#[trigger] a.drop_last()[i]).agent_address@
            == b.drop_last()[i].agent_address@ && a.drop_last()[i].signature@ == b.drop_last()[i].signature@ by {
            assert(a.drop_last()[i] == a[i]);
            assert(b.drop_last()[i] == b[i]);
        }
        lemma_provenance_fields_same(a.drop_last(), b.drop_last());
    }
}

impl Provenance {
    pub fn duplicate(&self) -> (r: Provenance)
        ensures
            r.agent_address@ == self.agent_address@,
            r.signature@ == self.signature@,
    {
        Provenance { agent_address: self.agent_address.duplicate(), signature: self.signature.clone() }
    }
}

fn duplicate_opt(a: &Option<Address>) -> (r: Option<Address>)
    ensures
        opt_bytes(r) == opt_bytes(*a),
        r is Some <==> a is Some,
        r is Some ==> r->Some_0@ == a->Some_0@,
{
    match a {
        Some(x) => Some(x.duplicate()),
        None => None,
    }
}

impl Header {
    /// A copy of this header with the same canonical fields.
    pub fn duplicate(&self) -> (r: Header)
        ensures
            header_fields(r) == header_fields(*self),
            r.entry_type@ == self.entry_type@,
            r.entry_address@ == self.entry_address@,
            r.timestamp == self.timestamp,
    {
        let mut ps: Vec<Provenance> = Vec::new();
        let mut i: usize = 0;
        while i < self.provenances.len()
            invariant
                0 <= i <= self.provenances@.len(),
                ps@.len() == i,
                forall|k: int|
                    0 <= k < i ==> (#[trigger] ps@[k]).agent_address@ == self.provenances@[k].agent_address@
                        && ps@[k].signature@ == self.provenances@[k].signature@,
            decreases self.provenances@.len() - i,
        {
            ps.push(self.provenances[i].duplicate());
            i = i + 1;
        }
        proof {
            lemma_provenance_fields_same(ps@, self.provenances@);
        }
        Header {
            entry_type: self.entry_type.duplicate(),
            entry_address: self.entry_address.duplicate(),
            timestamp: self.timestamp,
            prev_header_address: duplicate_opt(&self.prev_header_address),
            same_type_prev_address: duplicate_opt(&self.same_type_prev_address),
            provenances: ps,
        }
    }

    /// The canonical bytes of this header.
    pub fn content(&self) -> (r: Vec<u8>)
        ensures
            r@ == fields_concat(header_fields(*self)),
    {
        let mut out: Vec<u8> = Vec::new();
        let ghost fs0: Seq<Seq<u8>> = Seq::empty();
        let t = type_field(&self.entry_type);
        push_field(&mut out, t.as_slice());
        proof {
            lemma_fields_concat_push(fs0, t@);
        }
        let ghost fs1 = fs0.push(t@);
        push_field(&mut out, self.entry_address.hash.as_slice());
        proof {
            lemma_fields_concat_push(fs1, self.entry_address@);
        }
        let ghost fs2 = fs1.push(self.entry_address@);
        let mut ts: Vec<u8> = Vec::new();
        let n = self.timestamp;
        ts.push((n & 0xff) as u8);
        ts.push(((n >> 8u64) & 0xff) as u8);
        ts.push(((n >> 16u64) & 0xff) as u8);
        ts.push(((n >> 24u64) & 0xff) as u8);
        ts.push(((n >> 32u64) & 0xff) as u8);
        ts.push(((n >> 40u64) & 0xff) as u8);
        ts.push(((n >> 48u64) & 0xff) as u8);
        ts.push(((n >> 56u64) & 0xff) as u8);
        assert(ts@ =~= le_bytes(n));
        push_field(&mut out, ts.as_slice());
        proof {
            lemma_fields_concat_push(fs2, ts@);
        }
        let ghost fs3 = fs2.push(ts@);
        let p = opt_field(&self.prev_header_address);
        push_field(&mut out, p.as_slice());
        proof {
            lemma_fields_concat_push(fs3, p@);
        }
        let ghost fs4 = fs3.push(p@);
        let s = opt_field(&self.same_type_prev_address);
        push_field(&mut out, s.as_slice());
        proof {
            lemma_fields_concat_push(fs4, s@);
        }
        let ghost fs5 = fs4.push(s@);
        assert(fs5 =~= seq![
            type_bytes(self.entry_type@),
            self.entry_address@,
            le_bytes(self.timestamp),
            opt_bytes(self.prev_header_address),
            opt_bytes(self.same_type_prev_address),
        ]);
        let mut i: usize = 0;
        while i < self.provenances.len()
            invariant
                0 <= i <= self.provenances@.len(),
                out@ == fields_concat(fs5 + provenance_fields(self.provenances@.subrange(0, i as int))),
            decreases self.provenances@.len() - i,
        {
            let pv = &self.provenances[i];
            let ghost before = fs5 + provenance_fields(self.provenances@.subrange(0, i as int));
            push_field(&mut out, pv.agent_address.hash.as_slice());
            proof {
                lemma_fields_concat_push(before, pv.agent_address@);
            }
            let sig = text_bytes(&pv.signature);
            push_field(&mut out, sig);
            proof {
                lemma_fields_concat_push(before.push(pv.agent_address@), sig@);
                let sub = self.provenances@.subrange(0, i + 1);
                assert(sub.drop_last() == self.provenances@.subrange(0, i as int));
                assert(sub.last() == *pv);
                assert(fs5 + provenance_fields(sub) == before.push(pv.agent_address@).push(sig@));
            }
            i = i + 1;
        }
        assert(self.provenances@.subrange(0, self.provenances@.len() as int) == self.provenances@);
        out
    }

    /// The address of this header.
    pub fn address(&self) -> (r: Address)
        ensures
            r@ == header_address(*self),
    {
        let c = self.content();
        Address::of_content(c.as_slice())
    }
}

/// The position of the newest header of type `t` before position `i`.
pub open spec fn last_of_type_before(hs: Seq<Header>, t: EntryTypeModel, i: int) -> Option<int>
    decreases i,
{
    if i <= 0 {
        None
    } else if hs[i - 1].entry_type@ == t {
        Some(i - 1)
    } else {
        last_of_type_before(hs, t, i - 1)
    }
}

/// The links of the header at `i`: its previous header is the one just
/// before it (none for the first), and its same-type link names the newest
/// earlier header of its type, present exactly when there is one.
pub open spec fn links_hold(hs: Seq<Header>, i: int) -> bool {
    &&& (i == 0 ==> hs[i].prev_header_address is None)
    &&& (i > 0 ==> hs[i].prev_header_address is Some && hs[i].prev_header_address->Some_0@
        == header_address(hs[i - 1]))
    &&& match last_of_type_before(hs, hs[i].entry_type@, i) {
        Some(j) => hs[i].same_type_prev_address is Some && hs[i].same_type_prev_address->Some_0@
            == header_address(hs[j]),
        None => hs[i].same_type_prev_address is None,
    }
}

/// Every header of the chain is linked as it must be.
pub open spec fn chain_wf(hs: Seq<Header>) -> bool {
    forall|i: int| 0 <= i < hs.len() ==> #[trigger] links_hold(hs, i)
}

/// The headers of type `t`, newest first.
pub open spec fn of_type_newest_first(hs: Seq<Header>, t: EntryTypeModel) -> Seq<Header>
    decreases hs.len(),
{
    if hs.len() == 0 {
        Seq::empty()
    } else if hs.last().entry_type@ == t {
        seq![hs.last()] + of_type_newest_first(hs.drop_last(), t)
    } else {
        of_type_newest_first(hs.drop_last(), t)
    }
}

/// Appending keeps the links of the headers already there.
proof fn lemma_links_kept(hs: Seq<Header>, h: Header, i: int)
    requires
        0 <= i < hs.len(),
        links_hold(hs, i),
    ensures
        links_hold(hs.push(h), i),
{
    lemma_last_of_type_prefix(hs, h, hs[i].entry_type@, i);
}

proof fn lemma_last_of_type_prefix(hs: Seq<Header>, h: Header, t: EntryTypeModel, i: int)
    requires
        0 <= i <= hs.len(),
    ensures
        last_of_type_before(hs.push(h), t, i) == last_of_type_before(hs, t, i),
        match last_of_type_before(hs, t, i) {
            Some(j) => 0 <= j < i,
            None => true,
        },
    decreases i,
{
    if i > 0 {
        assert(hs.push(h)[i - 1] == hs[i - 1]);
        lemma_last_of_type_prefix(hs, h, t, i - 1);
    }
}

fn same_opt_address(a: &Option<Address>, b: &Option<Address>) -> (r: bool)
    ensures
        r == (match (*a, *b) {
            (Some(x), Some(y)) => x@ == y@,
            (None, None) => true,
            _ => false,
        }),
{
    match a {
        Some(x) => match b {
            Some(y) => x.same(y),
            None => false,
        },
        None => b.is_none(),
    }
}

/// An agent's append-only sequence of headers, oldest first.
#[derive(Debug, Clone)]
pub struct Chain {
    pub headers: Vec<Header>,
}

impl Chain {
    pub open spec fn wf(&self) -> bool {
        chain_wf(self.headers@)
    }

    /// An empty chain.
    pub fn new() -> (r: Chain)
        ensures
            r.headers@.len() == 0,
            r.wf(),
    {
        Chain { headers: Vec::new() }
    }

    /// The most recently appended header.
    pub fn top(&self) -> (r: Option<&Header>)
        ensures
            match r {
                Some(h) => self.headers@.len() > 0 && *h == self.headers@.last(),
                None => self.headers@.len() == 0,
            },
    {
        if self.headers.len() == 0 {
            None
        } else {
            Some(&self.headers[self.headers.len() - 1])
        }
    }

    /// The address of the most recently appended header.
    pub fn top_address(&self) -> (r: Option<Address>)
        ensures
            match r {
                Some(a) => self.headers@.len() > 0 && a@ == header_address(self.headers@.last()),
                None => self.headers@.len() == 0,
            },
    {
        match self.top() {
            Some(h) => Some(h.address()),
            None => None,
        }
    }

    /// The position of the newest header of type `t`.
    fn last_of_type(&self, t: &EntryType) -> (r: Option<usize>)
        ensures
            match r {
                Some(j) => j < self.headers@.len() && last_of_type_before(
                    self.headers@,
                    t@,
                    self.headers@.len() as int,
                ) == Some(j as int),
                None => last_of_type_before(self.headers@, t@, self.headers@.len() as int) is None,
            },
    {
        let mut i: usize = self.headers.len();
        while i > 0
            invariant
                i <= self.headers@.len(),
                last_of_type_before(self.headers@, t@, self.headers@.len() as int)
                    == last_of_type_before(self.headers@, t@, i as int),
            decreases i,
        {
            if self.headers[i - 1].entry_type.same_type(t) {
                return Some(i - 1);
            }
            i = i - 1;
        }
        None
    }

    /// The header that the next entry of this type must carry to be appended.
    pub fn next_header(
        &self,
        entry_type: EntryType,
        entry_address: Address,
        timestamp: u64,
        provenances: Vec<Provenance>,
    ) -> (r: Header)
        ensures
            links_hold(self.headers@.push(r), self.headers@.len() as int),
            r.entry_type@ == entry_type@,
            r.entry_address@ == entry_address@,
            r.timestamp == timestamp,
            r.provenances@ == provenances@,
    {
        let prev = self.top_address();
        let same = match self.last_of_type(&entry_type) {
            Some(j) => Some(self.headers[j].address()),
            None => None,
        };
        let r = Header {
            entry_type,
            entry_address,
            timestamp,
            prev_header_address: prev,
            same_type_prev_address: same,
            provenances,
        };
        proof {
            let hs = self.headers@;
            let n = hs.len() as int;
            lemma_last_of_type_prefix(hs, r, r.entry_type@, n);
            if n > 0 {
                assert(hs.push(r)[n - 1] == hs.last());
            }
            match last_of_type_before(hs, r.entry_type@, n) {
                Some(j) => {
                    assert(hs.push(r)[j] == hs[j]);
                },
                None => {},
            }
            assert(hs.push(r)[n] == r);
        }
        r
    }

    /// Appends a header. It must link to the current top and to the newest
    /// header of its type; else the chain has diverged and stays as it was.
    pub fn push(&mut self, header: Header) -> (r: Result<(), HolochainError>)
        requires
            old(self).wf(),
        ensures
            final(self).wf(),
            r is Ok <==> links_hold(old(self).headers@.push(header), old(self).headers@.len() as int),
            r is Ok ==> final(self).headers@ == old(self).headers@.push(header),
            r is Err ==> r == Err::<(), HolochainError>(HolochainError::ChainDivergence) && *final(self)
                == *old(self),
    {
        let expected = self.next_header(
            header.entry_type.duplicate(),
            header.entry_address.duplicate(),
            header.timestamp,
            Vec::new(),
        );
        let ok = same_opt_address(&header.prev_header_address, &expected.prev_header_address)
            && same_opt_address(&header.same_type_prev_address, &expected.same_type_prev_address);
        proof {
            let hs = self.headers@;
            let n = hs.len() as int;
            lemma_last_of_type_prefix(hs, header, header.entry_type@, n);
            lemma_last_of_type_prefix(hs, expected, header.entry_type@, n);
            if n > 0 {
                assert(hs.push(header)[n - 1] == hs.last());
                assert(hs.push(expected)[n - 1] == hs.last());
            }
            match last_of_type_before(hs, header.entry_type@, n) {
                Some(j) => {
                    assert(hs.push(header)[j] == hs[j]);
                    assert(hs.push(expected)[j] == hs[j]);
                },
                None => {},
            }
            assert(hs.push(header)[n] == header);
            assert(hs.push(expected)[n] == expected);
        }
        if !ok {
            return Err(HolochainError::ChainDivergence);
        }
        let ghost before = self.headers@;
        self.headers.push(header);
        proof {
            assert forall|i: int| 0 <= i < self.headers@.len() implies #[trigger] links_hold(
                self.headers@,
                i,
            ) by {
                if i < before.len() {
                    assert(links_hold(before, i));
                    lemma_links_kept(before, header, i);
                }
            }
        }
        Ok(())
    }

    /// All headers, newest first.
    pub fn iter(&self) -> (r: Vec<&Header>)
        ensures
            r@.len() == self.headers@.len(),
            forall|i: int|
                0 <= i < r@.len() ==> *r@[i] == self.headers@[self.headers@.len() - 1 - i],
    {
        let mut r: Vec<&Header> = Vec::new();
        let mut i: usize = self.headers.len();
        while i > 0
            invariant
                i <= self.headers@.len(),
                r@.len() == self.headers@.len() - i,
                forall|k: int|
                    0 <= k < r@.len() ==> *r@[k] == self.headers@[self.headers@.len() - 1 - k],
            decreases i,
        {
            r.push(&self.headers[i - 1]);
            i = i - 1;
        }
        r
    }

    /// The headers of one entry type, newest first.
    pub fn iter_type(&self, entry_type: &EntryType) -> (r: Vec<&Header>)
        ensures
            r@.map_values(|h: &Header| *h) == of_type_newest_first(self.headers@, entry_type@),
    {
        let mut r: Vec<&Header> = Vec::new();
        let mut i: usize = self.headers.len();
        proof {
            assert(self.headers@.subrange(0, self.headers@.len() as int) == self.headers@);
        }
        while i > 0
            invariant
                i <= self.headers@.len(),
                of_type_newest_first(self.headers@, entry_type@) == r@.map_values(|h: &Header| *h)
                    + of_type_newest_first(self.headers@.subrange(0, i as int), entry_type@),
            decreases i,
        {
            let ghost pre = self.headers@.subrange(0, i as int);
            let ghost old_r = r@.map_values(|h: &Header| *h);
            assert(pre.drop_last() == self.headers@.subrange(0, i - 1));
            assert(pre.last() == self.headers@[i - 1]);
            if self.headers[i - 1].entry_type.same_type(entry_type) {
                r.push(&self.headers[i - 1]);
                assert(r@.map_values(|h: &Header| *h) == old_r.push(self.headers@[i - 1]));
                assert(old_r + (seq![pre.last()] + of_type_newest_first(pre.drop_last(), entry_type@))
                    == old_r.push(pre.last()) + of_type_newest_first(pre.drop_last(), entry_type@));
            }
            i = i - 1;
        }
        assert(of_type_newest_first(self.headers@.subrange(0, 0), entry_type@) == Seq::<Header>::empty());
        assert(r@.map_values(|h: &Header| *h) + Seq::<Header>::empty() == r@.map_values(|h: &Header| *h));
        r
    }

    /// The newest header whose entry address is `entry_address`.
    pub fn find_header(&self, entry_address: &Address) -> (r: Option<&Header>)
        ensures
            match r {
                Some(h) => exists|i: int|
                    0 <= i < self.headers@.len() && *h == self.headers@[i] && h.entry_address@
                        == entry_address@ && forall|k: int|
                        i < k < self.headers@.len() ==> #[trigger] self.headers@[k].entry_address@
                            != entry_address@,
                None => forall|k: int|
                    0 <= k < self.headers@.len() ==> #[trigger] self.headers@[k].entry_address@
                        != entry_address@,
            },
    {
        let mut i: usize = self.headers.len();
        while i > 0
            invariant
                i <= self.headers@.len(),
                forall|k: int|
                    i <= k < self.headers@.len() ==> #[trigger] self.headers@[k].entry_address@
                        != entry_address@,
            decreases i,
        {
            if self.headers[i - 1].entry_address.same(entry_address) {
                return Some(&self.headers[i - 1]);
            }
            i = i - 1;
        }
        None
    }
}

/// The newest header before position `p` whose address is `a`.
pub open spec fn newest_before_with_address(hs: Seq<Header>, p: int, a: Seq<u8>) -> Option<int>
    decreases p,
{
    if p <= 0 {
        None
    } else if header_address(hs[p - 1]) == a {
        Some(p - 1)
    } else {
        newest_before_with_address(hs, p - 1, a)
    }
}

/// One step along the previous-header link of the header at `p`: to the
/// newest earlier header with that address; none at a header without one.
pub open spec fn step_back(hs: Seq<Header>, p: int) -> Option<int> {
    match hs[p].prev_header_address {
        Some(a) => newest_before_with_address(hs, p, a@),
        None => None,
    }
}

/// Where `n` steps along previous-header links from `p` lead.
pub open spec fn walk_back(hs: Seq<Header>, p: int, n: nat) -> Option<int>
    decreases n,
{
    if n == 0 {
        Some(p)
    } else {
        match step_back(hs, p) {
            Some(q) => walk_back(hs, q, (n - 1) as nat),
            None => None,
        }
    }
}

proof fn lemma_walk_back(hs: Seq<Header>, p: int, k: nat)
    requires
        chain_wf(hs),
        0 <= p < hs.len(),
        k <= p,
    ensures
        walk_back(hs, p, k) == Some(p - k),
    decreases k,
{
    if k > 0 {
        assert(links_hold(hs, p));
        assert(step_back(hs, p) == Some(p - 1));
        lemma_walk_back(hs, p - 1, (k - 1) as nat);
    }
}

/// Following previous-header links from the top of a well-formed chain
/// reaches the genesis header, which has no previous header, after one step
/// fewer than the chain has headers; each step lands on the header just
/// before, so no header is visited twice.
pub proof fn lemma_prev_links_reach_genesis(hs: Seq<Header>)
    requires
        chain_wf(hs),
        hs.len() > 0,
    ensures
        forall|k: nat| k < hs.len() ==> #[trigger] walk_back(hs, hs.len() - 1, k) == Some(hs.len() - 1 - k),
        walk_back(hs, hs.len() - 1, (hs.len() - 1) as nat) == Some(0int),
        step_back(hs, 0) is None,
        hs[0].prev_header_address is None,
{
    assert(links_hold(hs, 0));
    assert forall|k: nat| k < hs.len() implies #[trigger] walk_back(hs, hs.len() - 1, k) == Some(
        hs.len() - 1 - k,
    ) by {
        lemma_walk_back(hs, hs.len() - 1, k);
    }
    lemma_walk_back(hs, hs.len() - 1, (hs.len() - 1) as nat);
}

} // verus!
