//! The application DNA: zomes, their entry types, capabilities and code.
use crate::entry::{EntryType, EntryTypeModel};
use crate::error::DnaError;
use vstd::prelude::*;
use vstd::string::StringExecFns;

verus! {

/// How a zome reports errors to its caller.
#[derive(Debug, Clone, Copy, PartialEq, Eq)]
pub enum ErrorHandling {
    ThrowErrors,
    ReturnErrorCode,
}

#[derive(Debug, Clone, Copy, PartialEq, Eq)]
pub struct ZomeConfig {
    pub error_handling: ErrorHandling,
}

/// Who may see entries of a type.
#[derive(Debug, Clone, Copy, PartialEq, Eq)]
pub enum Sharing {
    Public,
    Private,
    Encrypted,
}

#[derive(Debug, Clone, PartialEq, Eq)]
pub struct LinksTo {
    pub target_type: String,
    pub tag: String,
}

#[derive(Debug, Clone, PartialEq, Eq)]
pub struct LinkedFrom {
    pub base_type: String,
    pub tag: String,
}

/// The definition of one entry type of a zome.
#[derive(Debug, Clone, PartialEq, Eq)]
pub struct EntryTypeDef {
    pub description: String,
    pub sharing: Sharing,
    pub links_to: Vec<LinksTo>,
    pub linked_from: Vec<LinkedFrom>,
}

impl EntryTypeDef {
    /// An empty, public definition.
    pub fn new() -> (r: EntryTypeDef)
        ensures
            r.description@.len() == 0,
            r.sharing == Sharing::Public,
            r.links_to@.len() == 0,
            r.linked_from@.len() == 0,
    {
        EntryTypeDef {
            description: String::new(),
            sharing: Sharing::Public,
            links_to: Vec::new(),
            linked_from: Vec::new(),
        }
    }
}

/// Who may call the functions of a capability.
#[derive(Debug, Clone, Copy, PartialEq, Eq)]
pub enum Membrane {
    Public,
    Agent,
    ApiKey,
    Zome,
}

#[derive(Debug, Clone, PartialEq, Eq)]
pub struct FnParameter {
    pub parameter_type: String,
    pub name: String,
}

#[derive(Debug, Clone, PartialEq, Eq)]
pub struct FnDeclaration {
    pub name: String,
    pub inputs: Vec<FnParameter>,
    pub outputs: Vec<FnParameter>,
}

/// A set of zome functions and who may call them.
#[derive(Debug, Clone, PartialEq, Eq)]
pub struct Capability {
    pub membrane: Membrane,
    pub fn_declarations: Vec<FnDeclaration>,
}

/// A zome's compiled code.
#[derive(Debug, Clone, PartialEq, Eq)]
pub struct DnaWasm {
    pub code: Vec<u8>,
}

/// A named module of the application.
#[derive(Debug, Clone, PartialEq, Eq)]
pub struct Zome {
    pub description: String,
    pub config: ZomeConfig,
    pub entry_types: Vec<(EntryType, EntryTypeDef)>,
    pub capabilities: Vec<(String, Capability)>,
    pub code: DnaWasm,
}

/// The application definition. Two DNAs are the same application when
/// their canonical JSON is the same; there is no field-by-field `==`.
#[derive(Debug, Clone)]
pub struct Dna {
    pub name: String,
    pub description: String,
    pub version: String,
    pub uuid: String,
    pub dna_spec_version: String,
    /// Application properties, as JSON text.
    pub properties: String,
    pub zomes: Vec<(String, Zome)>,
}

/// `k` is the key at `i` and at no earlier position.
pub open spec fn first_key_at<V>(m: Seq<(String, V)>, k: Seq<char>, i: int) -> bool {
    0 <= i < m.len() && m[i].0@ == k && forall|j: int| 0 <= j < i ==> #[trigger] m[j].0@ != k
}

/// `k` is no key of `m`.
pub open spec fn no_key<V>(m: Seq<(String, V)>, k: Seq<char>) -> bool {
    forall|j: int| 0 <= j < m.len() ==> #[trigger] m[j].0@ != k
}

/// The keys of `m` are distinct.
pub open spec fn keys_distinct<V>(m: Seq<(String, V)>) -> bool {
    forall|i: int, j: int| 0 <= i < j < m.len() ==> #[trigger] m[i].0@ != #[trigger] m[j].0@
}

/// The entry types of a zome name distinct types.
pub open spec fn types_distinct(m: Seq<(EntryType, EntryTypeDef)>) -> bool {
    forall|i: int, j: int| 0 <= i < j < m.len() ==> #[trigger] m[i].0@ != #[trigger] m[j].0@
}

/// The zome declares the application entry type `t`.
pub open spec fn zome_has_type(z: Zome, t: Seq<char>) -> bool {
    exists|j: int| 0 <= j < z.entry_types@.len() && #[trigger] z.entry_types@[j].0@ == EntryTypeModel::App(t)
}

/// `i` is the first zome that declares the application entry type `t`.
pub open spec fn first_zome_with_type(zs: Seq<(String, Zome)>, t: Seq<char>, i: int) -> bool {
    0 <= i < zs.len() && zome_has_type(zs[i].1, t) && forall|j: int|
        0 <= j < i ==> !zome_has_type(#[trigger] zs[j].1, t)
}

/// The position of key `k` in `m`: the first one that holds it.
pub fn find_key<V>(m: &Vec<(String, V)>, k: &str) -> (r: Option<usize>)
    ensures
        match r {
            Some(i) => first_key_at(m@, k@, i as int),
            None => no_key(m@, k@),
        },
{
    let key = k.to_owned();
    let mut i: usize = 0;
    while i < m.len()
        invariant
            0 <= i <= m@.len(),
            key@ == k@,
            forall|j: int| 0 <= j < i ==> #[trigger] m@[j].0@ != k@,
        decreases m@.len() - i,
    {
        if m[i].0.eq(&key) {
            return Some(i);
        }
        i = i + 1;
    }
    None
}

/// The position of application entry type `t` among a zome's entry types.
fn find_app_type(m: &Vec<(EntryType, EntryTypeDef)>, t: &str) -> (r: Option<usize>)
    ensures
        match r {
            Some(i) => i < m@.len() && m@[i as int].0@ == EntryTypeModel::App(t@) && forall|j: int|
                0 <= j < i ==> #[trigger] m@[j].0@ != EntryTypeModel::App(t@),
            None => forall|j: int|
                0 <= j < m@.len() ==> #[trigger] m@[j].0@ != EntryTypeModel::App(t@),
        },
{
    let mut i: usize = 0;
    while i < m.len()
        invariant
            0 <= i <= m@.len(),
            forall|j: int| 0 <= j < i ==> #[trigger] m@[j].0@ != EntryTypeModel::App(t@),
        decreases m@.len() - i,
    {
        if m[i].0.is_app_named(t) {
            return Some(i);
        }
        i = i + 1;
    }
    None
}

/// The position of the first zome that declares application entry type `t`,
/// and of the type within it.
pub fn find_zome_with_type(zs: &Vec<(String, Zome)>, t: &str) -> (r: Option<(usize, usize)>)
    ensures
        match r {
            Some((i, j)) => first_zome_with_type(zs@, t@, i as int) && j < zs@[i as int].1.entry_types@.len()
                && zs@[i as int].1.entry_types@[j as int].0@ == EntryTypeModel::App(t@) && forall|k: int|
                0 <= k < j ==> #[trigger] zs@[i as int].1.entry_types@[k].0@ != EntryTypeModel::App(t@),
            None => forall|i: int| 0 <= i < zs@.len() ==> !zome_has_type(#[trigger] zs@[i].1, t@),
        },
{
    let mut i: usize = 0;
    while i < zs.len()
        invariant
            0 <= i <= zs@.len(),
            forall|k: int| 0 <= k < i ==> !zome_has_type(#[trigger] zs@[k].1, t@),
        decreases zs@.len() - i,
    {
        match find_app_type(&zs[i].1.entry_types, t) {
            Some(j) => {
                return Some((i, j));
            },
            None => {},
        }
        i = i + 1;
    }
    None
}

impl Zome {
    /// A zome with no entry types, capabilities or code, that throws errors.
    pub fn new() -> (r: Zome)
        ensures
            r.description@.len() == 0,
            r.config.error_handling == ErrorHandling::ThrowErrors,
            r.entry_types@.len() == 0,
            r.capabilities@.len() == 0,
            r.code.code@.len() == 0,
    {
        Zome {
            description: String::new(),
            config: ZomeConfig { error_handling: ErrorHandling::ThrowErrors },
            entry_types: Vec::new(),
            capabilities: Vec::new(),
            code: DnaWasm { code: Vec::new() },
        }
    }

    /// Defines (or redefines) an entry type of this zome.
    pub fn insert_entry_type(&mut self, t: EntryType, def: EntryTypeDef)
        requires
            types_distinct(old(self).entry_types@),
        ensures
            types_distinct(final(self).entry_types@),
            exists|i: int|
                0 <= i < final(self).entry_types@.len() && #[trigger] final(self).entry_types@[i]
                    == (t, def),
            forall|i: int|
                0 <= i < old(self).entry_types@.len() && old(self).entry_types@[i].0@ != t@
                    ==> final(self).entry_types@.contains(#[trigger] old(self).entry_types@[i]),
            forall|i: int|
                0 <= i < final(self).entry_types@.len() ==> (#[trigger] final(self).entry_types@[i]
                    == (t, def) || old(self).entry_types@.contains(final(self).entry_types@[i])),
            final(self).description == old(self).description,
            final(self).config == old(self).config,
            final(self).capabilities == old(self).capabilities,
            final(self).code == old(self).code,
    {
        let mut i: usize = 0;
        while i < self.entry_types.len()
            invariant
                0 <= i <= self.entry_types@.len(),
                self == old(self),
                types_distinct(old(self).entry_types@),
                forall|j: int| 0 <= j < i ==> #[trigger] self.entry_types@[j].0@ != t@,
            decreases self.entry_types@.len() - i,
        {
            if self.entry_types[i].0.same_type(&t) {
                let ghost before = self.entry_types@;
                self.entry_types.set(i, (t, def));
                proof {
                    assert(self.entry_types@ == before.update(i as int, (t, def)));
                    assert forall|a: int, b: int| 0 <= a < b < self.entry_types@.len() implies #[trigger] self.entry_types@[a].0@
                        != #[trigger] self.entry_types@[b].0@ by {
                        assert(before[a].0@ != before[b].0@);
                    }
                    assert forall|k: int| 0 <= k < before.len() && before[k].0@ != t@ implies
                        self.entry_types@.contains(#[trigger] before[k]) by {
                        assert(k != i);
                        assert(self.entry_types@[k] == before[k]);
                    }
                    assert forall|k: int| 0 <= k < self.entry_types@.len() implies (#[trigger] self.entry_types@[k]
                        == (t, def) || before.contains(self.entry_types@[k])) by {
                        if k != i {
                            assert(before[k] == self.entry_types@[k]);
                        }
                    }
                    assert(self.entry_types@[i as int] == (t, def));
                }
                return ;
            }
            i = i + 1;
        }
        let ghost before = self.entry_types@;
        self.entry_types.push((t, def));
        proof {
            assert(self.entry_types@[before.len() as int] == (t, def));
            assert forall|k: int| 0 <= k < before.len() && before[k].0@ != t@ implies
                self.entry_types@.contains(#[trigger] before[k]) by {
                assert(self.entry_types@[k] == before[k]);
            }
            assert forall|k: int| 0 <= k < self.entry_types@.len() implies (#[trigger] self.entry_types@[k]
                == (t, def) || before.contains(self.entry_types@[k])) by {
                if k < before.len() {
                    assert(before[k] == self.entry_types@[k]);
                }
            }
        }
    }
}

/// A lowercase hexadecimal digit.
pub open spec fn is_lower_hex(c: char) -> bool {
    ('0' <= c && c <= '9') || ('a' <= c && c <= 'f')
}

/// The hyphenated lowercase text of a random (version 4, RFC 4122 variant)
/// UUID: 36 characters, hyphens at 8, 13, 18 and 23, the version digit `4`
/// at 14, the variant digit `8`, `9`, `a` or `b` at 19, hex digits elsewhere.
pub open spec fn is_v4_uuid_text(s: Seq<char>) -> bool {
    &&& s.len() == 36
    &&& forall|i: int|
        0 <= i < 36 ==> if i == 8 || i == 13 || i == 18 || i == 23 {
            #[trigger] s[i] == '-'
        } else {
            is_lower_hex(s[i])
        }
    &&& s[14] == '4'
    &&& (s[19] == '8' || s[19] == '9' || s[19] == 'a' || s[19] == 'b')
}

/// Relies on `uuid::Uuid::new_v4` and the `Display` of `Uuid`: a fresh
/// random UUID whose version is set to 4 and variant to RFC 4122, written
/// hyphenated in lowercase hex.
#[verifier::external_body]
fn new_uuid() -> (r: String)
    ensures
        is_v4_uuid_text(r@),
{
    uuid::Uuid::new_v4().to_string()
}

/// Sets the value of key `k`, in place when `k` is a key already, else at the end.
pub fn insert_keyed<V>(m: &mut Vec<(String, V)>, k: String, v: V)
    requires
        keys_distinct(old(m)@),
    ensures
        keys_distinct(final(m)@),
        match find_key_spec(old(m)@, k@) {
            Some(i) => final(m)@ == old(m)@.update(i, (k, v)),
            None => final(m)@ == old(m)@.push((k, v)),
        },
{
    let mut i: usize = 0;
    while i < m.len()
        invariant
            0 <= i <= m@.len(),
            m == old(m),
            keys_distinct(old(m)@),
            forall|j: int| 0 <= j < i ==> #[trigger] m@[j].0@ != k@,
        decreases m@.len() - i,
    {
        if m[i].0.eq(&k) {
            proof {
                lemma_find_key_spec(old(m)@, k@, i as int);
            }
            let ghost before = m@;
            m.set(i, (k, v));
            proof {
                assert forall|a: int, b: int| 0 <= a < b < m@.len() implies #[trigger] m@[a].0@
                    != #[trigger] m@[b].0@ by {
                    assert(before[a].0@ != before[b].0@);
                }
            }
            return ;
        }
        i = i + 1;
    }
    proof {
        lemma_find_key_spec_none(old(m)@, k@);
    }
    m.push((k, v));
}

/// The first position of key `k` in `m`.
pub open spec fn find_key_spec<V>(m: Seq<(String, V)>, k: Seq<char>) -> Option<int> {
    if exists|i: int| first_key_at(m, k, i) {
        Some(choose|i: int| first_key_at(m, k, i))
    } else {
        None
    }
}

proof fn lemma_find_key_spec<V>(m: Seq<(String, V)>, k: Seq<char>, i: int)
    requires
        first_key_at(m, k, i),
    ensures
        find_key_spec(m, k) == Some(i),
{
    let c = choose|c: int| first_key_at(m, k, c);
    if c < i {
        assert(m[c].0@ != k);
    } else if c > i {
        assert(m[i].0@ != k);
    }
}

proof fn lemma_find_key_spec_none<V>(m: Seq<(String, V)>, k: Seq<char>)
    requires
        no_key(m, k),
    ensures
        find_key_spec(m, k) is None,
{
    if exists|i: int| first_key_at(m, k, i) {
        let c = choose|c: int| first_key_at(m, k, c);
        assert(m[c].0@ != k);
    }
}

/// The DNA is well formed: zome names, and the capability names and entry
/// types of each zome, are distinct.
pub open spec fn dna_wf(d: Dna) -> bool {
    &&& keys_distinct(d.zomes@)
    &&& forall|i: int| 0 <= i < d.zomes@.len() ==> {
        &&& keys_distinct(#[trigger] d.zomes@[i].1.capabilities@)
        &&& types_distinct(d.zomes@[i].1.entry_types@)
    }
}

impl Dna {
    /// An empty DNA with a fresh random uuid, empty JSON properties and
    /// specification version "2.0".
    pub fn new() -> (r: Dna)
        ensures
            r.name@.len() == 0,
            r.description@.len() == 0,
            r.version@.len() == 0,
            is_v4_uuid_text(r.uuid@),
            r.dna_spec_version@ == "2.0"@,
            r.properties@ == "{}"@,
            r.zomes@.len() == 0,
            dna_wf(r),
    {
        Dna {
            name: String::new(),
            description: String::new(),
            version: String::new(),
            uuid: new_uuid(),
            dna_spec_version: String::from_str("2.0"),
            properties: String::from_str("{}"),
            zomes: Vec::new(),
        }
    }

    /// Adds (or replaces) a zome.
    pub fn insert_zome(&mut self, name: String, zome: Zome)
        requires
            keys_distinct(old(self).zomes@),
        ensures
            keys_distinct(final(self).zomes@),
            match find_key_spec(old(self).zomes@, name@) {
                Some(i) => final(self).zomes@ == old(self).zomes@.update(i, (name, zome)),
                None => final(self).zomes@ == old(self).zomes@.push((name, zome)),
            },
            final(self).name == old(self).name,
            final(self).uuid == old(self).uuid,
            final(self).dna_spec_version == old(self).dna_spec_version,
    {
        insert_keyed(&mut self.zomes, name, zome);
    }

    /// The zome of the given name.
    pub fn get_zome(&self, zome_name: &str) -> (r: Option<&Zome>)
        ensures
            match r {
                Some(z) => exists|i: int| first_key_at(self.zomes@, zome_name@, i) && *z == self.zomes@[i].1,
                None => no_key(self.zomes@, zome_name@),
            },
    {
        match find_key(&self.zomes, zome_name) {
            Some(i) => Some(&self.zomes[i].1),
            None => None,
        }
    }

    /// The capability of the given name in a zome.
    pub fn get_capability<'a>(&'a self, zome: &'a Zome, capability_name: &str) -> (r: Option<&'a Capability>)
        ensures
            match r {
                Some(c) => exists|i: int|
                    first_key_at(zome.capabilities@, capability_name@, i) && *c == zome.capabilities@[i].1,
                None => no_key(zome.capabilities@, capability_name@),
            },
    {
        match find_key(&zome.capabilities, capability_name) {
            Some(i) => Some(&zome.capabilities[i].1),
            None => None,
        }
    }

    /// The code of the zome of the given name.
    pub fn get_wasm_from_zome_name(&self, zome_name: &str) -> (r: Option<&DnaWasm>)
        ensures
            match r {
                Some(w) => exists|i: int| first_key_at(self.zomes@, zome_name@, i) && *w == self.zomes@[i].1.code,
                None => no_key(self.zomes@, zome_name@),
            },
    {
        let zome = self.get_zome(zome_name)?;
        Some(&zome.code)
    }

    /// A zome's capability by zome name and capability name.
    pub fn get_capability_with_zome_name(&self, zome_name: &str, cap_name: &str) -> (r: Result<
        &Capability,
        DnaError,
    >)
        ensures
            match r {
                Ok(c) => exists|i: int, j: int|
                    first_key_at(self.zomes@, zome_name@, i) && first_key_at(
                        self.zomes@[i].1.capabilities@,
                        cap_name@,
                        j,
                    ) && *c == self.zomes@[i].1.capabilities@[j].1,
                Err(DnaError::ZomeNotFound(m)) => no_key(self.zomes@, zome_name@) && m@ == "Zome '"@
                    + zome_name@ + "' not found"@,
                Err(DnaError::CapabilityNotFound(m)) => exists|i: int|
                    first_key_at(self.zomes@, zome_name@, i) && no_key(self.zomes@[i].1.capabilities@, cap_name@)
                        && m@ == "Capability '"@ + cap_name@ + "' not found in Zome '"@ + zome_name@ + "'"@,
                Err(DnaError::TraitNotFound(_)) => false,
            },
    {
        let zome = match self.get_zome(zome_name) {
            Some(z) => z,
            None => {
                let m = String::from_str("Zome '").concat(zome_name).concat("' not found");
                return Err(DnaError::ZomeNotFound(m));
            },
        };
        match self.get_capability(zome, cap_name) {
            Some(c) => Ok(c),
            None => {
                let m = String::from_str("Capability '").concat(cap_name).concat(
                    "' not found in Zome '",
                ).concat(zome_name).concat("'");
                Err(DnaError::CapabilityNotFound(m))
            },
        }
    }

    /// The name of the first zome, in definition order, that declares the
    /// application entry type `app_entry_type`.
    pub fn get_zome_name_for_app_entry_type(&self, app_entry_type: &str) -> (r: Option<String>)
        ensures
            match r {
                Some(n) => exists|i: int|
                    first_zome_with_type(self.zomes@, app_entry_type@, i) && n@ == self.zomes@[i].0@,
                None => forall|i: int|
                    0 <= i < self.zomes@.len() ==> !zome_has_type(#[trigger] self.zomes@[i].1, app_entry_type@),
            },
    {
        match find_zome_with_type(&self.zomes, app_entry_type) {
            Some((i, _)) => Some(self.zomes[i].0.clone()),
            None => None,
        }
    }

    /// The definition of the application entry type `entry_type_name`, from
    /// the first zome, in definition order, that declares it.
    pub fn get_entry_type_def(&self, entry_type_name: &str) -> (r: Option<&EntryTypeDef>)
        ensures
            match r {
                Some(d) => exists|i: int, j: int|
                    first_zome_with_type(self.zomes@, entry_type_name@, i) && 0 <= j
                        < self.zomes@[i].1.entry_types@.len() && self.zomes@[i].1.entry_types@[j].0@
                        == EntryTypeModel::App(entry_type_name@) && *d == self.zomes@[i].1.entry_types@[j].1,
                None => forall|i: int|
                    0 <= i < self.zomes@.len() ==> !zome_has_type(#[trigger] self.zomes@[i].1, entry_type_name@),
            },
    {
        match find_zome_with_type(&self.zomes, entry_type_name) {
            Some((i, j)) => Some(&self.zomes[i].1.entry_types[j].1),
            None => None,
        }
    }
}

impl Zome {
    /// Adds (or replaces) a capability.
    pub fn insert_capability(&mut self, name: String, cap: Capability)
        requires
            keys_distinct(old(self).capabilities@),
        ensures
            keys_distinct(final(self).capabilities@),
            match find_key_spec(old(self).capabilities@, name@) {
                Some(i) => final(self).capabilities@ == old(self).capabilities@.update(i, (name, cap)),
                None => final(self).capabilities@ == old(self).capabilities@.push((name, cap)),
            },
            final(self).entry_types == old(self).entry_types,
            final(self).code == old(self).code,
    {
        insert_keyed(&mut self.capabilities, name, cap);
    }
}

} // verus!
