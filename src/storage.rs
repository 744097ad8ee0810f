//! The content store (content by address) and the entity-attribute-value
//! store of metadata.
use crate::address::{bytes_equal, copy_bytes, sha256_multihash, Address};
use vstd::prelude::*;

verus! {

/// The contents of a content store: address and bytes, in the order added.
pub open spec fn store_items(items: Seq<(Address, Vec<u8>)>) -> Seq<(Seq<u8>, Seq<u8>)> {
    items.map_values(|p: (Address, Vec<u8>)| (p.0@, p.1@))
}

/// Some record of the store is kept under address `a`.
pub open spec fn store_has(s: Seq<(Seq<u8>, Seq<u8>)>, a: Seq<u8>) -> bool {
    exists|i: int| 0 <= i < s.len() && (#[trigger] s[i]).0 == a
}

/// The store after adding `c`: a new record unless its address is there already.
pub open spec fn store_add(s: Seq<(Seq<u8>, Seq<u8>)>, c: Seq<u8>) -> Seq<(Seq<u8>, Seq<u8>)> {
    if store_has(s, sha256_multihash(c)) {
        s
    } else {
        s.push((sha256_multihash(c), c))
    }
}

/// The content kept under address `a`: that of the newest record for it.
pub open spec fn store_get(s: Seq<(Seq<u8>, Seq<u8>)>, a: Seq<u8>) -> Option<Seq<u8>>
    decreases s.len(),
{
    if s.len() == 0 {
        None
    } else if s.last().0 == a {
        Some(s.last().1)
    } else {
        store_get(s.drop_last(), a)
    }
}

proof fn lemma_store_get_none(s: Seq<(Seq<u8>, Seq<u8>)>, a: Seq<u8>)
    ensures
        store_get(s, a) is None <==> !store_has(s, a),
    decreases s.len(),
{
    if s.len() > 0 {
        lemma_store_get_none(s.drop_last(), a);
        if store_has(s.drop_last(), a) {
            let i = choose|i: int| 0 <= i < s.drop_last().len() && (#[trigger] s.drop_last()[i]).0 == a;
            assert(s[i] == s.drop_last()[i]);
        }
        if store_has(s, a) && s.last().0 != a {
            let i = choose|i: int| 0 <= i < s.len() && (#[trigger] s[i]).0 == a;
            assert(s.drop_last()[i] == s[i]);
        }
    }
}

/// Storing the same content twice leaves the store as storing it once did.
pub proof fn lemma_store_add_idempotent(s: Seq<(Seq<u8>, Seq<u8>)>, c: Seq<u8>)
    ensures
        store_add(store_add(s, c), c) == store_add(s, c),
{
    let s1 = store_add(s, c);
    if !store_has(s, sha256_multihash(c)) {
        assert(s1[s.len() as int].0 == sha256_multihash(c));
    }
}

/// Content kept by its address.
#[derive(Debug, Clone)]
pub struct ContentStore {
    pub items: Vec<(Address, Vec<u8>)>,
}

impl View for ContentStore {
    type V = Seq<(Seq<u8>, Seq<u8>)>;

    open spec fn view(&self) -> Seq<(Seq<u8>, Seq<u8>)> {
        store_items(self.items@)
    }
}

impl ContentStore {
    pub fn new() -> (r: ContentStore)
        ensures
            r@.len() == 0,
    {
        ContentStore { items: Vec::new() }
    }

    fn position(&self, address: &Address) -> (r: Option<usize>)
        ensures
            match r {
                Some(i) => i < self@.len() && self@[i as int].0 == address@ && store_get(self@, address@)
                    == Some(self@[i as int].1),
                None => !store_has(self@, address@) && store_get(self@, address@) is None,
            },
    {
        let mut i: usize = self.items.len();
        assert(self@.subrange(0, self@.len() as int) == self@);
        while i > 0
            invariant
                i <= self.items@.len(),
                store_get(self@, address@) == store_get(self@.subrange(0, i as int), address@),
            decreases i,
        {
            let ghost pre = self@.subrange(0, i as int);
            assert(pre.drop_last() == self@.subrange(0, i - 1));
            assert(pre.last() == self@[i - 1]);
            if self.items[i - 1].0.same(address) {
                return Some(i - 1);
            }
            i = i - 1;
        }
        proof {
            lemma_store_get_none(self@, address@);
        }
        None
    }

    /// Stores content under its address; storing it again changes nothing.
    pub fn add(&mut self, content: &[u8]) -> (r: Address)
        ensures
            r@ == sha256_multihash(content@),
            final(self)@ == store_add(old(self)@, content@),
    {
        let a = Address::of_content(content);
        proof {
            lemma_store_get_none(self@, a@);
        }
        match self.position(&a) {
            Some(_) => {},
            None => {
                let ghost before = self.items@;
                self.items.push((a.duplicate(), copy_bytes(content)));
                assert(store_items(self.items@) == store_items(before).push((a@, content@)));
            },
        }
        a
    }

    /// The content kept under `address`.
    pub fn fetch(&self, address: &Address) -> (r: Option<&Vec<u8>>)
        ensures
            match r {
                Some(c) => store_get(self@, address@) == Some(c@),
                None => store_get(self@, address@) is None,
            },
    {
        match self.position(address) {
            Some(i) => Some(&self.items[i].1),
            None => None,
        }
    }
}

/// One metadata record: an entity, an attribute and a value.
#[derive(Debug, Clone, PartialEq)]
pub struct Eav {
    pub entity: Address,
    pub attribute: String,
    pub value: Vec<u8>,
}

/// The plain values of a record.
pub open spec fn eav_key(e: Eav) -> (Seq<u8>, Seq<char>, Seq<u8>) {
    (e.entity@, e.attribute@, e.value@)
}

/// What a selection asks of a record; `None` matches anything.
pub open spec fn eav_selected(
    e: Eav,
    entity: Option<Seq<u8>>,
    attribute: Option<Seq<char>>,
    value: Option<Seq<u8>>,
) -> bool {
    &&& (entity is Some ==> e.entity@ == entity->Some_0)
    &&& (attribute is Some ==> e.attribute@ == attribute->Some_0)
    &&& (value is Some ==> e.value@ == value->Some_0)
}

/// The records of `s` that match the selection, in their order.
pub open spec fn eav_select(
    s: Seq<Eav>,
    entity: Option<Seq<u8>>,
    attribute: Option<Seq<char>>,
    value: Option<Seq<u8>>,
) -> Seq<Eav>
    decreases s.len(),
{
    if s.len() == 0 {
        Seq::empty()
    } else if eav_selected(s.last(), entity, attribute, value) {
        eav_select(s.drop_last(), entity, attribute, value).push(s.last())
    } else {
        eav_select(s.drop_last(), entity, attribute, value)
    }
}

pub open spec fn opt_view_address(a: Option<&Address>) -> Option<Seq<u8>> {
    match a {
        Some(a) => Some(a@),
        None => None,
    }
}

pub open spec fn opt_view_text(a: Option<&str>) -> Option<Seq<char>> {
    match a {
        Some(a) => Some(a@),
        None => None,
    }
}

pub open spec fn opt_view_bytes(a: Option<&[u8]>) -> Option<Seq<u8>> {
    match a {
        Some(a) => Some(a@),
        None => None,
    }
}

/// The store after adding a record with key `k`: unchanged when one is there.
pub open spec fn eav_add(s: Seq<(Seq<u8>, Seq<char>, Seq<u8>)>, k: (Seq<u8>, Seq<char>, Seq<u8>)) -> Seq<
    (Seq<u8>, Seq<char>, Seq<u8>),
> {
    if s.contains(k) {
        s
    } else {
        s.push(k)
    }
}

/// Entity-attribute-value records in the order added, without repeats.
#[derive(Debug, Clone)]
pub struct EavStore {
    pub items: Vec<Eav>,
}

impl View for EavStore {
    type V = Seq<(Seq<u8>, Seq<char>, Seq<u8>)>;

    open spec fn view(&self) -> Seq<(Seq<u8>, Seq<char>, Seq<u8>)> {
        self.items@.map_values(|e: Eav| eav_key(e))
    }
}

impl EavStore {
    pub fn new() -> (r: EavStore)
        ensures
            r@.len() == 0,
    {
        EavStore { items: Vec::new() }
    }

    /// True when a record with the same entity, attribute and value is kept.
    pub fn contains(&self, e: &Eav) -> (r: bool)
        ensures
            r == self@.contains(eav_key(*e)),
    {
        let mut i: usize = 0;
        while i < self.items.len()
            invariant
                0 <= i <= self.items@.len(),
                forall|k: int| 0 <= k < i ==> #[trigger] self@[k] != eav_key(*e),
            decreases self.items@.len() - i,
        {
            let x = &self.items[i];
            if x.entity.same(&e.entity) && x.attribute.eq(&e.attribute) && bytes_equal(
                x.value.as_slice(),
                e.value.as_slice(),
            ) {
                assert(self@[i as int] == eav_key(*e));
                return true;
            }
            i = i + 1;
        }
        false
    }

    /// Adds a record; adding one that is there already changes nothing.
    pub fn add_eav(&mut self, e: Eav)
        ensures
            final(self)@ == eav_add(old(self)@, eav_key(e)),
    {
        if !self.contains(&e) {
            let ghost before = self.items@;
            self.items.push(e);
            assert(self.items@.map_values(|x: Eav| eav_key(x)) == before.map_values(|x: Eav| eav_key(x)).push(
                eav_key(e),
            ));
        }
    }

    /// The records that match the selection, in the order added.
    pub fn fetch_eav(
        &self,
        entity: Option<&Address>,
        attribute: Option<&str>,
        value: Option<&[u8]>,
    ) -> (r: Vec<&Eav>)
        ensures
            r@.map_values(|e: &Eav| *e) == eav_select(
                self.items@,
                opt_view_address(entity),
                opt_view_text(attribute),
                opt_view_bytes(value),
            ),
    {
        let ghost ent = opt_view_address(entity);
        let ghost att = opt_view_text(attribute);
        let ghost val = opt_view_bytes(value);
        let att_text: Option<String> = match attribute {
            Some(a) => Some(a.to_owned()),
            None => None,
        };
        let mut r: Vec<&Eav> = Vec::new();
        let mut i: usize = 0;
        while i < self.items.len()
            invariant
                0 <= i <= self.items@.len(),
                ent == opt_view_address(entity),
                att == opt_view_text(attribute),
                val == opt_view_bytes(value),
                match att_text {
                    Some(t) => att == Some(t@),
                    None => att is None,
                },
                r@.map_values(|e: &Eav| *e) == eav_select(self.items@.subrange(0, i as int), ent, att, val),
            decreases self.items@.len() - i,
        {
            let x = &self.items[i];
            let ok_e = match entity {
                Some(a) => x.entity.same(a),
                None => true,
            };
            let ok_a = match &att_text {
                Some(t) => x.attribute.eq(t),
                None => true,
            };
            let ok_v = match value {
                Some(v) => bytes_equal(x.value.as_slice(), v),
                None => true,
            };
            let ghost old_r = r@.map_values(|e: &Eav| *e);
            let ghost sub = self.items@.subrange(0, i + 1);
            assert(sub.drop_last() == self.items@.subrange(0, i as int));
            assert(sub.last() == *x);
            assert(eav_selected(*x, ent, att, val) == (ok_e && ok_a && ok_v));
            if ok_e && ok_a && ok_v {
                r.push(x);
                assert(r@.map_values(|e: &Eav| *e) == old_r.push(*x));
            }
            i = i + 1;
        }
        assert(self.items@.subrange(0, self.items@.len() as int) == self.items@);
        r
    }
}

} // verus!
