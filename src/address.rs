//! Content addresses: the SHA-256 multihash of a value's canonical bytes.
use vstd::prelude::*;

verus! {

/// What `multihash::encode(Hash::SHA2256, ..)` gives for these bytes.
pub uninterp spec fn sha256_multihash(content: Seq<u8>) -> Seq<u8>;

/// Relies on `multihash::encode` with `Hash::SHA2256`: the result depends on
/// the bytes alone and is 34 bytes long, the code 0x12, the digest length 32,
/// then the digest. That hash kind is always supported, so no error comes back.
#[verifier::external_body]
fn sha256_multihash_of(content: &[u8]) -> (r: Vec<u8>)
    ensures
        r@ == sha256_multihash(content@),
        r@.len() == 34,
        r@[0] == 0x12u8,
        r@[1] == 32u8,
{
    match multihash::encode(multihash::Hash::SHA2256, content) {
        Ok(h) => h,
        Err(_) => Vec::new(),
    }
}

/// An opaque content address.
#[derive(Debug, Clone)]
pub struct Address {
    pub hash: Vec<u8>,
}

impl View for Address {
    type V = Seq<u8>;

    open spec fn view(&self) -> Seq<u8> {
        self.hash@
    }
}

/// True when two byte strings hold the same bytes.
pub fn bytes_equal(a: &[u8], b: &[u8]) -> (r: bool)
    ensures
        r == (a@ == b@),
{
    if a.len() != b.len() {
        return false;
    }
    let mut i: usize = 0;
    while i < a.len()
        invariant
            a@.len() == b@.len(),
            0 <= i <= a@.len(),
            a@.subrange(0, i as int) == b@.subrange(0, i as int),
        decreases a@.len() - i,
    {
        if a[i] != b[i] {
            assert(a@[i as int] != b@[i as int]);
            return false;
        }
        assert(a@.subrange(0, i + 1) == a@.subrange(0, i as int).push(a@[i as int]));
        assert(b@.subrange(0, i + 1) == b@.subrange(0, i as int).push(b@[i as int]));
        i = i + 1;
    }
    assert(a@ == a@.subrange(0, a@.len() as int));
    assert(b@ == b@.subrange(0, b@.len() as int));
    true
}

/// A copy of the bytes.
pub fn copy_bytes(a: &[u8]) -> (r: Vec<u8>)
    ensures
        r@ == a@,
{
    let mut r: Vec<u8> = Vec::new();
    let mut i: usize = 0;
    while i < a.len()
        invariant
            0 <= i <= a@.len(),
            r@ == a@.subrange(0, i as int),
        decreases a@.len() - i,
    {
        r.push(a[i]);
        assert(a@.subrange(0, i + 1) == a@.subrange(0, i as int).push(a@[i as int]));
        i = i + 1;
    }
    assert(a@ == a@.subrange(0, a@.len() as int));
    r
}

impl Address {
    /// The address of the given canonical bytes.
    pub fn of_content(content: &[u8]) -> (r: Address)
        ensures
            r@ == sha256_multihash(content@),
            r@.len() == 34,
            r@[0] == 0x12u8,
            r@[1] == 32u8,
    {
        Address { hash: sha256_multihash_of(content) }
    }

    /// An address made of the given hash bytes.
    pub fn from_bytes(hash: Vec<u8>) -> (r: Address)
        ensures
            r@ == hash@,
    {
        Address { hash }
    }

    pub fn duplicate(&self) -> (r: Address)
        ensures
            r@ == self@,
    {
        Address { hash: copy_bytes(self.hash.as_slice()) }
    }

    pub fn same(&self, other: &Address) -> (r: bool)
        ensures
            r == (self@ == other@),
    {
        bytes_equal(self.hash.as_slice(), other.hash.as_slice())
    }
}

impl PartialEq for Address {
    fn eq(&self, other: &Address) -> (r: bool) {
        self.same(other)
    }
}

impl vstd::std_specs::cmp::PartialEqSpecImpl for Address {
    open spec fn obeys_eq_spec() -> bool {
        true
    }

    open spec fn eq_spec(&self, other: &Address) -> bool {
        self@ == other@
    }
}

impl Eq for Address {
}

} // verus!
