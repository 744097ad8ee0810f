//! Entries, their types, their canonical bytes and their addresses.
use crate::address::{copy_bytes, sha256_multihash, Address};
use crate::codec::{
    field, field_at, lemma_field_at, lemma_text_round_trip, push_field, read_field, text_bytes,
    text_from_bytes, text_of,
};
use vstd::prelude::*;
use vstd::utf8::encode_utf8;

verus! {

/// The type of an entry: an application type by name, or one of the system types.
#[derive(Debug, Clone, PartialEq, Eq)]
pub enum EntryType {
    App(String),
    LinkAdd,
    LinkRemove,
    Deletion,
    AgentId,
    Dna,
}

pub enum EntryTypeModel {
    App(Seq<char>),
    LinkAdd,
    LinkRemove,
    Deletion,
    AgentId,
    Dna,
}

impl View for EntryType {
    type V = EntryTypeModel;

    open spec fn view(&self) -> EntryTypeModel {
        match self {
            EntryType::App(n) => EntryTypeModel::App(n@),
            EntryType::LinkAdd => EntryTypeModel::LinkAdd,
            EntryType::LinkRemove => EntryTypeModel::LinkRemove,
            EntryType::Deletion => EntryTypeModel::Deletion,
            EntryType::AgentId => EntryTypeModel::AgentId,
            EntryType::Dna => EntryTypeModel::Dna,
        }
    }
}

impl EntryType {
    /// True when both name the same type.
    pub fn same_type(&self, other: &EntryType) -> (r: bool)
        ensures
            r == (self@ == other@),
    {
        match self {
            EntryType::App(a) => match other {
                EntryType::App(b) => a.eq(b),
                _ => false,
            },
            EntryType::LinkAdd => matches!(other, EntryType::LinkAdd),
            EntryType::LinkRemove => matches!(other, EntryType::LinkRemove),
            EntryType::Deletion => matches!(other, EntryType::Deletion),
            EntryType::AgentId => matches!(other, EntryType::AgentId),
            EntryType::Dna => matches!(other, EntryType::Dna),
        }
    }

    /// True when this is the application type of the given name.
    pub fn is_app_named(&self, name: &str) -> (r: bool)
        ensures
            r == (self@ == EntryTypeModel::App(name@)),
    {
        match self {
            EntryType::App(a) => {
                let n = name.to_owned();
                *a == n
            },
            _ => false,
        }
    }

    pub fn duplicate(&self) -> (r: EntryType)
        ensures
            r@ == self@,
    {
        match self {
            EntryType::App(a) => EntryType::App(a.clone()),
            EntryType::LinkAdd => EntryType::LinkAdd,
            EntryType::LinkRemove => EntryType::LinkRemove,
            EntryType::Deletion => EntryType::Deletion,
            EntryType::AgentId => EntryType::AgentId,
            EntryType::Dna => EntryType::Dna,
        }
    }
}

/// An entry that marks an earlier entry as deleted.
#[derive(Debug, Clone, PartialEq)]
pub struct DeletionEntry {
    deleted_entry_address: Address,
}

impl DeletionEntry {
    pub closed spec fn spec_deleted(&self) -> Seq<u8> {
        self.deleted_entry_address@
    }

    pub fn new(deleted_entry_address: Address) -> (r: DeletionEntry)
        ensures
            r.spec_deleted() == deleted_entry_address@,
    {
        DeletionEntry { deleted_entry_address }
    }

    pub fn deleted_entry_address(self) -> (r: Address)
        ensures
            r@ == self.spec_deleted(),
    {
        self.deleted_entry_address
    }

    pub fn deleted_address(&self) -> (r: &Address)
        ensures
            r@ == self.spec_deleted(),
    {
        &self.deleted_entry_address
    }
}

/// A directed, tagged edge from one entry to another.
#[derive(Debug, Clone, PartialEq)]
pub struct LinkAdd {
    pub base: Address,
    pub target: Address,
    pub tag: String,
}

/// Retracts the link added by the entry at `link_add_address`.
#[derive(Debug, Clone, PartialEq)]
pub struct LinkRemove {
    pub link_add_address: Address,
}

/// An addressable record: application content or a system entry.
#[derive(Debug, Clone, PartialEq)]
pub enum Entry {
    App(String, Vec<u8>),
    LinkAdd(LinkAdd),
    LinkRemove(LinkRemove),
    Deletion(DeletionEntry),
    AgentId(String),
    Dna(Address),
}

/// The mathematical value of an entry.
pub enum EntryModel {
    App(Seq<char>, Seq<u8>),
    LinkAdd(Seq<u8>, Seq<u8>, Seq<char>),
    LinkRemove(Seq<u8>),
    Deletion(Seq<u8>),
    AgentId(Seq<char>),
    Dna(Seq<u8>),
}

impl View for Entry {
    type V = EntryModel;

    open spec fn view(&self) -> EntryModel {
        match self {
            Entry::App(t, v) => EntryModel::App(t@, v@),
            Entry::LinkAdd(l) => EntryModel::LinkAdd(l.base@, l.target@, l.tag@),
            Entry::LinkRemove(l) => EntryModel::LinkRemove(l.link_add_address@),
            Entry::Deletion(d) => EntryModel::Deletion(d.spec_deleted()),
            Entry::AgentId(k) => EntryModel::AgentId(k@),
            Entry::Dna(h) => EntryModel::Dna(h@),
        }
    }
}

/// The type of an entry's value.
pub open spec fn type_of(m: EntryModel) -> EntryTypeModel {
    match m {
        EntryModel::App(t, _) => EntryTypeModel::App(t),
        EntryModel::LinkAdd(..) => EntryTypeModel::LinkAdd,
        EntryModel::LinkRemove(..) => EntryTypeModel::LinkRemove,
        EntryModel::Deletion(..) => EntryTypeModel::Deletion,
        EntryModel::AgentId(..) => EntryTypeModel::AgentId,
        EntryModel::Dna(..) => EntryTypeModel::Dna,
    }
}

/// The tag byte and the fields of an entry's canonical form.
pub open spec fn parts(m: EntryModel) -> (u8, Seq<Seq<u8>>) {
    match m {
        EntryModel::App(t, v) => (0u8, seq![encode_utf8(t), v]),
        EntryModel::LinkAdd(b, t, g) => (1u8, seq![b, t, encode_utf8(g)]),
        EntryModel::LinkRemove(a) => (2u8, seq![a]),
        EntryModel::Deletion(a) => (3u8, seq![a]),
        EntryModel::AgentId(k) => (4u8, seq![encode_utf8(k)]),
        EntryModel::Dna(h) => (5u8, seq![h]),
    }
}

/// The number of fields that follow each tag byte.
pub open spec fn arity(tag: u8) -> Option<nat> {
    if tag == 0 {
        Some(2)
    } else if tag == 1 {
        Some(3)
    } else if tag <= 5 {
        Some(1)
    } else {
        None
    }
}

pub open spec fn fields_concat(fs: Seq<Seq<u8>>) -> Seq<u8>
    decreases fs.len(),
{
    if fs.len() == 0 {
        Seq::empty()
    } else {
        field(fs[0]) + fields_concat(fs.drop_first())
    }
}

/// The `k` fields from `pos` on, which must end exactly at the end of `b`.
pub open spec fn fields_from(b: Seq<u8>, pos: int, k: nat) -> Option<Seq<Seq<u8>>>
    decreases k,
{
    if k == 0 {
        if pos == b.len() {
            Some(Seq::empty())
        } else {
            None
        }
    } else {
        match field_at(b, pos) {
            Some((f, p)) => match fields_from(b, p, (k - 1) as nat) {
                Some(rest) => Some(seq![f] + rest),
                None => None,
            },
            None => None,
        }
    }
}

/// The entry that a tag byte and its fields stand for.
pub open spec fn build(tag: u8, fs: Seq<Seq<u8>>) -> Option<EntryModel> {
    if tag == 0 {
        match text_of(fs[0]) {
            Some(t) => Some(EntryModel::App(t, fs[1])),
            None => None,
        }
    } else if tag == 1 {
        match text_of(fs[2]) {
            Some(g) => Some(EntryModel::LinkAdd(fs[0], fs[1], g)),
            None => None,
        }
    } else if tag == 2 {
        Some(EntryModel::LinkRemove(fs[0]))
    } else if tag == 3 {
        Some(EntryModel::Deletion(fs[0]))
    } else if tag == 4 {
        match text_of(fs[0]) {
            Some(k) => Some(EntryModel::AgentId(k)),
            None => None,
        }
    } else {
        Some(EntryModel::Dna(fs[0]))
    }
}

/// The canonical bytes of an entry.
pub open spec fn encode_entry(m: EntryModel) -> Seq<u8> {
    seq![parts(m).0] + fields_concat(parts(m).1)
}

/// The entry whose canonical bytes `b` are, if any.
pub open spec fn decode_entry(b: Seq<u8>) -> Option<EntryModel> {
    if b.len() == 0 {
        None
    } else {
        match arity(b[0]) {
            Some(k) => match fields_from(b, 1, k) {
                Some(fs) => build(b[0], fs),
                None => None,
            },
            None => None,
        }
    }
}

/// The address of an entry: the hash of its canonical bytes.
pub open spec fn entry_address(m: EntryModel) -> Seq<u8> {
    sha256_multihash(encode_entry(m))
}

/// Every field of the entry is short enough for its length prefix.
pub open spec fn fits(m: EntryModel) -> bool {
    forall|i: int| 0 <= i < parts(m).1.len() ==> #[trigger] parts(m).1[i].len() <= u64::MAX
}

proof fn lemma_fields_from(prefix: Seq<u8>, fs: Seq<Seq<u8>>)
    requires
        forall|i: int| 0 <= i < fs.len() ==> #[trigger] fs[i].len() <= u64::MAX,
    ensures
        fields_from(prefix + fields_concat(fs), prefix.len() as int, fs.len()) == Some(fs),
    decreases fs.len(),
{
    if fs.len() == 0 {
        assert(prefix + fields_concat(fs) == prefix);
    } else {
        let rest = fs.drop_first();
        let b = prefix + fields_concat(fs);
        assert(b == prefix + field(fs[0]) + fields_concat(rest));
        lemma_field_at(prefix, fs[0], fields_concat(rest));
        let prefix2 = prefix + field(fs[0]);
        assert(b == prefix2 + fields_concat(rest));
        assert(forall|i: int| 0 <= i < rest.len() ==> #[trigger] rest[i] == fs[i + 1]);
        lemma_fields_from(prefix2, rest);
        assert(prefix2.len() == prefix.len() + 8 + fs[0].len());
        assert(seq![fs[0]] + rest == fs);
    }
}

/// Reading an entry's canonical bytes gives the entry back.
pub proof fn lemma_decode_encode(m: EntryModel)
    requires
        fits(m),
    ensures
        decode_entry(encode_entry(m)) == Some(m),
{
    let (tag, fs) = parts(m);
    assert forall|i: int| 0 <= i < fs.len() implies #[trigger] fs[i].len() <= u64::MAX by {
        assert(parts(m).1[i].len() <= u64::MAX);
    }
    lemma_fields_from(seq![tag], fs);
    let b = encode_entry(m);
    assert(b[0] == tag);
    match m {
        EntryModel::App(t, _) => {
            lemma_text_round_trip(t);
        },
        EntryModel::LinkAdd(_, _, g) => {
            lemma_text_round_trip(g);
        },
        EntryModel::AgentId(k) => {
            lemma_text_round_trip(k);
        },
        _ => {},
    }
}

/// An entry's address survives a trip through its canonical bytes: parsing
/// the serialized entry gives an entry with the same address.
pub proof fn lemma_address_round_trip(m: EntryModel)
    requires
        fits(m),
    ensures
        decode_entry(encode_entry(m)) is Some,
        entry_address(decode_entry(encode_entry(m))->Some_0) == entry_address(m),
{
    lemma_decode_encode(m);
}

/// Appending a field to a list appends its bytes to the concatenation.
pub proof fn lemma_fields_concat_push(fs: Seq<Seq<u8>>, f: Seq<u8>)
    ensures
        fields_concat(fs.push(f)) == fields_concat(fs) + field(f),
    decreases fs.len(),
{
    if fs.len() == 0 {
        assert(fs.push(f).drop_first() == Seq::<Seq<u8>>::empty());
        assert(fs.push(f)[0] == f);
        assert(fields_concat(Seq::<Seq<u8>>::empty()) == Seq::<u8>::empty());
        assert(fields_concat(fs.push(f)) == field(f) + Seq::<u8>::empty());
        assert(field(f) + Seq::<u8>::empty() == field(f));
        assert(fields_concat(fs) + field(f) == Seq::<u8>::empty() + field(f));
        assert(Seq::<u8>::empty() + field(f) == field(f));
    } else {
        assert(fs.push(f).drop_first() == fs.drop_first().push(f));
        lemma_fields_concat_push(fs.drop_first(), f);
        assert(fs.push(f)[0] == fs[0]);
        assert(fields_concat(fs.push(f)) == field(fs[0]) + fields_concat(fs.drop_first().push(f)));
        assert(field(fs[0]) + (fields_concat(fs.drop_first()) + field(f)) == (field(fs[0])
            + fields_concat(fs.drop_first())) + field(f));
    }
}

/// The plain values of a list of byte vectors.
pub open spec fn views(fs: Seq<Vec<u8>>) -> Seq<Seq<u8>> {
    fs.map_values(|v: Vec<u8>| v@)
}

proof fn lemma_fields_from_len(b: Seq<u8>, pos: int, k: nat)
    ensures
        fields_from(b, pos, k) is Some ==> fields_from(b, pos, k)->Some_0.len() == k,
    decreases k,
{
    if k > 0 {
        match field_at(b, pos) {
            Some((f, p)) => lemma_fields_from_len(b, p, (k - 1) as nat),
            None => {},
        }
    }
}

/// Reads `k` fields after the tag byte; they must end at the end of `b`.
fn read_fields(b: &[u8], k: usize) -> (r: Option<Vec<Vec<u8>>>)
    requires
        b@.len() >= 1,
    ensures
        match r {
            Some(fs) => fields_from(b@, 1, k as nat) == Some(views(fs@)),
            None => fields_from(b@, 1, k as nat) is None,
        },
{
    let mut acc: Vec<Vec<u8>> = Vec::new();
    let mut pos: usize = 1;
    let mut j: usize = 0;
    while j < k
        invariant
            0 <= j <= k,
            fields_from(b@, 1, k as nat) == match fields_from(b@, pos as int, (k - j) as nat) {
                Some(rest) => Some(views(acc@) + rest),
                None => None::<Seq<Seq<u8>>>,
            },
        decreases k - j,
    {
        let ghost old_acc = views(acc@);
        match read_field(b, pos) {
            None => {
                return None;
            },
            Some((f, p)) => {
                proof {
                    let rest_k = (k - j - 1) as nat;
                    assert((k - j) as nat == rest_k + 1);
                    match fields_from(b@, p as int, rest_k) {
                        Some(rest) => {
                            assert(views(acc@.push(f)) == old_acc.push(f@));
                            assert(old_acc + (seq![f@] + rest) == old_acc.push(f@) + rest);
                        },
                        None => {},
                    }
                }
                acc.push(f);
                pos = p;
                j = j + 1;
            },
        }
    }
    if pos == b.len() {
        assert(views(acc@) + Seq::<Seq<u8>>::empty() == views(acc@));
        Some(acc)
    } else {
        None
    }
}

impl Entry {
    /// The canonical bytes of this entry.
    pub fn content(&self) -> (r: Vec<u8>)
        ensures
            r@ == encode_entry(self@),
    {
        reveal_with_fuel(fields_concat, 4);
        let mut out: Vec<u8> = Vec::new();
        match self {
            Entry::App(t, v) => {
                out.push(0u8);
                push_field(&mut out, text_bytes(t));
                push_field(&mut out, v.as_slice());
                assert(seq![encode_utf8(t@), v@].drop_first() == seq![v@]);
                assert(seq![v@].drop_first() == Seq::<Seq<u8>>::empty());
            },
            Entry::LinkAdd(l) => {
                out.push(1u8);
                push_field(&mut out, l.base.hash.as_slice());
                push_field(&mut out, l.target.hash.as_slice());
                push_field(&mut out, text_bytes(&l.tag));
                let ghost fs = seq![l.base@, l.target@, encode_utf8(l.tag@)];
                assert(fs.drop_first() == seq![l.target@, encode_utf8(l.tag@)]);
                assert(fs.drop_first().drop_first() == seq![encode_utf8(l.tag@)]);
                assert(fs.drop_first().drop_first().drop_first() == Seq::<Seq<u8>>::empty());
            },
            Entry::LinkRemove(l) => {
                out.push(2u8);
                push_field(&mut out, l.link_add_address.hash.as_slice());
                assert(seq![l.link_add_address@].drop_first() == Seq::<Seq<u8>>::empty());
            },
            Entry::Deletion(d) => {
                out.push(3u8);
                push_field(&mut out, d.deleted_address().hash.as_slice());
                assert(seq![d.spec_deleted()].drop_first() == Seq::<Seq<u8>>::empty());
            },
            Entry::AgentId(k) => {
                out.push(4u8);
                push_field(&mut out, text_bytes(k));
                assert(seq![encode_utf8(k@)].drop_first() == Seq::<Seq<u8>>::empty());
            },
            Entry::Dna(h) => {
                out.push(5u8);
                push_field(&mut out, h.hash.as_slice());
                assert(seq![h@].drop_first() == Seq::<Seq<u8>>::empty());
            },
        }
        assert(out@ =~= encode_entry(self@));
        out
    }

    /// Reads an entry back from canonical bytes; `None` when they are not
    /// the canonical bytes of any entry.
    pub fn from_content(b: &[u8]) -> (r: Option<Entry>)
        ensures
            match r {
                Some(e) => decode_entry(b@) == Some(e@),
                None => decode_entry(b@) is None,
            },
    {
        if b.len() == 0 {
            return None;
        }
        let tag = b[0];
        let k: usize = if tag == 0 {
            2
        } else if tag == 1 {
            3
        } else if tag <= 5 {
            1
        } else {
            return None;
        };
        let mut fs = match read_fields(b, k) {
            Some(fs) => fs,
            None => {
                return None;
            },
        };
        let ghost g = views(fs@);
        proof {
            lemma_fields_from_len(b@, 1, k as nat);
        }
        assert(g.len() == k);
        if tag == 0 {
            let v = fs.pop().unwrap();
            let t = fs.pop().unwrap();
            assert(g[1] == v@ && g[0] == t@);
            match text_from_bytes(t) {
                Some(ts) => Some(Entry::App(ts, v)),
                None => None,
            }
        } else if tag == 1 {
            let g2 = fs.pop().unwrap();
            let t = fs.pop().unwrap();
            let base = fs.pop().unwrap();
            assert(g[2] == g2@ && g[1] == t@ && g[0] == base@);
            match text_from_bytes(g2) {
                Some(tag_text) => Some(
                    Entry::LinkAdd(
                        LinkAdd {
                            base: Address::from_bytes(base),
                            target: Address::from_bytes(t),
                            tag: tag_text,
                        },
                    ),
                ),
                None => None,
            }
        } else {
            let a = fs.pop().unwrap();
            assert(g[0] == a@);
            if tag == 2 {
                Some(Entry::LinkRemove(LinkRemove { link_add_address: Address::from_bytes(a) }))
            } else if tag == 3 {
                Some(Entry::Deletion(DeletionEntry::new(Address::from_bytes(a))))
            } else if tag == 4 {
                match text_from_bytes(a) {
                    Some(key) => Some(Entry::AgentId(key)),
                    None => None,
                }
            } else {
                Some(Entry::Dna(Address::from_bytes(a)))
            }
        }
    }

    /// The address of this entry: the hash of its canonical bytes.
    pub fn address(&self) -> (r: Address)
        ensures
            r@ == entry_address(self@),
    {
        let c = self.content();
        Address::of_content(c.as_slice())
    }

    /// The type of this entry.
    pub fn entry_type(&self) -> (r: EntryType)
        ensures
            r@ == type_of(self@),
    {
        match self {
            Entry::App(t, _) => EntryType::App(t.clone()),
            Entry::LinkAdd(_) => EntryType::LinkAdd,
            Entry::LinkRemove(_) => EntryType::LinkRemove,
            Entry::Deletion(_) => EntryType::Deletion,
            Entry::AgentId(_) => EntryType::AgentId,
            Entry::Dna(_) => EntryType::Dna,
        }
    }
}

} // verus!
