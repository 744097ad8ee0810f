//! The validation pipeline's decisions: which callback defines an entry's
//! validation package, how its answer is read, how the package is built
//! from the chain, which callback validates an entry, and what a
//! callback's result means.
use crate::address::bytes_equal;
use crate::agent::AgentState;
use crate::address::Address;
use crate::chain::{header_fields, links_hold, Chain, Header, Provenance};
use crate::dna::{first_zome_with_type, zome_has_type, Dna, EntryTypeDef};
use crate::entry::{entry_address, fields_concat, type_of, views, Entry, EntryModel, EntryType, EntryTypeModel};
use crate::error::HolochainError;
use crate::storage::{store_get, ContentStore};
use vstd::prelude::*;
use vstd::string::StringExecFns;
use vstd::utf8::encode_utf8;

verus! {

/// Where in its life an entry is validated.
#[derive(Debug, Clone, Copy, PartialEq, Eq)]
pub enum EntryLifecycle {
    Chain,
    Dht,
    Meta,
}

/// What is done to an entry.
#[derive(Debug, Clone, Copy, PartialEq, Eq)]
pub enum EntryAction {
    Commit,
    Modify,
    Delete,
}

/// What an application asks to receive with an entry for validation.
#[derive(Debug, Clone, PartialEq, Eq)]
pub enum ValidationPackageDefinition {
    Entry,
    ChainEntries,
    ChainHeaders,
    ChainFull,
    Custom(String),
}

/// Which side of a link an entry type declares it on.
#[derive(Debug, Clone, Copy, PartialEq, Eq)]
pub enum LinkDirection {
    To,
    From,
}

/// How the package definition of an entry is obtained.
#[derive(Debug, Clone, PartialEq, Eq)]
pub enum DefinitionPlan {
    /// Call `function` of zome `zome_name` with `parameters`.
    CallZome { zome_name: String, function: String, parameters: String },
    /// Fetch the link's base and target entries, then plan by their types.
    LinkLookup,
    /// Call `function` of zome `zome_name` for links of `entry_type` with
    /// this tag, in this direction.
    CallLinkZome {
        zome_name: String,
        function: String,
        entry_type: String,
        tag: String,
        direction: LinkDirection,
    },
    /// The definition is fixed.
    Fixed(ValidationPackageDefinition),
    /// No zome declares the entry type.
    NotImplemented,
}

pub open spec fn entry_type_callback() -> Seq<char> {
    "__hdk_get_validation_package_for_entry_type"@
}

/// The plan for application type `t`: call the first zome that declares
/// it, or none when no zome does.
pub open spec fn plan_for_app(
    zs: Seq<(String, crate::dna::Zome)>,
    t: Seq<char>,
    r: Result<DefinitionPlan, HolochainError>,
) -> bool {
    match r {
        Ok(DefinitionPlan::CallZome { zome_name, function, parameters }) => exists|i: int|
            first_zome_with_type(zs, t, i) && zome_name@ == zs[i].0@ && function@ == entry_type_callback()
                && parameters@ == t,
        Ok(DefinitionPlan::NotImplemented) => forall|i: int|
            0 <= i < zs.len() ==> !zome_has_type(#[trigger] zs[i].1, t),
        _ => false,
    }
}

/// Decides how to obtain the package definition for an entry of type
/// `entry_type`: application types ask the first zome that declares them,
/// deletions need the full chain, links are looked up by their ends, and
/// other system types have none.
pub fn get_validation_package_definition(dna: &Dna, entry_type: &EntryType) -> (r: Result<DefinitionPlan, HolochainError>)
    ensures
        entry_type@ is App ==> plan_for_app(dna.zomes@, entry_type@->App_0, r),
        entry_type@ is LinkAdd ==> r == Ok::<DefinitionPlan, HolochainError>(DefinitionPlan::LinkLookup),
        entry_type@ is Deletion ==> r == Ok::<DefinitionPlan, HolochainError>(
            DefinitionPlan::Fixed(ValidationPackageDefinition::ChainFull),
        ),
        (entry_type@ is LinkRemove || entry_type@ is AgentId || entry_type@ is Dna) ==> r == Err::<
            DefinitionPlan,
            HolochainError,
        >(HolochainError::NotImplemented),
{
    match entry_type {
        EntryType::App(t) => {
            let found = dna.get_zome_name_for_app_entry_type(t.as_str());
            match found {
                Some(zome_name) => {
                    let ghost zn = zome_name@;
                    let function = String::from_str("__hdk_get_validation_package_for_entry_type");
                    let parameters = t.clone();
                    assert(exists|i: int|
                        first_zome_with_type(dna.zomes@, t@, i) && zn == dna.zomes@[i].0@);
                    assert(function@ == entry_type_callback());
                    let r = Ok(DefinitionPlan::CallZome { zome_name, function, parameters });
                    assert(plan_for_app(dna.zomes@, t@, r));
                    r
                },
                None => Ok(DefinitionPlan::NotImplemented),
            }
        },
        EntryType::LinkAdd => Ok(DefinitionPlan::LinkLookup),
        EntryType::Deletion => Ok(DefinitionPlan::Fixed(ValidationPackageDefinition::ChainFull)),
        _ => Err(HolochainError::NotImplemented),
    }
}

/// A callback's JSON answer as a JSON reader found it.
#[derive(Debug, Clone, PartialEq, Eq)]
pub enum CallbackAnswer {
    /// The answer was JSON `null`.
    Null,
    /// The answer named a package definition.
    Definition(ValidationPackageDefinition),
    /// The answer was not JSON, or named no package definition.
    Unreadable,
}

pub open spec fn empty_result_message() -> Seq<char> {
    "__hdk_get_validation_package_for_entry_type returned empty result"@
}

pub open spec fn unreadable_result_message() -> Seq<char> {
    "validation_package result could not be deserialized as ValidationPackage"@
}

/// The package definition that a callback answered: `null` is an empty
/// result, and an answer that names no definition cannot be read.
pub fn definition_from_callback_answer(answer: CallbackAnswer) -> (r: Result<
    ValidationPackageDefinition,
    HolochainError,
>)
    ensures
        answer is Null ==> (r matches Err(HolochainError::SerializationError(m)) && m@
            == empty_result_message()),
        answer is Definition ==> r == Ok::<ValidationPackageDefinition, HolochainError>(
            answer->Definition_0,
        ),
        answer is Unreadable ==> (r matches Err(HolochainError::SerializationError(m)) && m@
            == unreadable_result_message()),
{
    match answer {
        CallbackAnswer::Null => Err(
            HolochainError::SerializationError(
                String::from_str("__hdk_get_validation_package_for_entry_type returned empty result"),
            ),
        ),
        CallbackAnswer::Definition(d) => Ok(d),
        CallbackAnswer::Unreadable => Err(
            HolochainError::SerializationError(
                String::from_str("validation_package result could not be deserialized as ValidationPackage"),
            ),
        ),
    }
}

/// The context an author ships so that any validator can check an entry.
#[derive(Debug, Clone, PartialEq)]
pub struct ValidationPackage {
    pub chain_header: Option<Header>,
    pub source_chain_entries: Option<Vec<Vec<u8>>>,
    pub source_chain_headers: Option<Vec<Header>>,
    pub custom: Option<String>,
}

/// The stored content of the chain's entries, oldest first; entries whose
/// content is not in the store are left out.
pub open spec fn chain_entries(hs: Seq<Header>, store: Seq<(Seq<u8>, Seq<u8>)>) -> Seq<Seq<u8>>
    decreases hs.len(),
{
    if hs.len() == 0 {
        Seq::empty()
    } else {
        let rest = chain_entries(hs.drop_last(), store);
        match store_get(store, hs.last().entry_address@) {
            Some(c) => rest.push(c),
            None => rest,
        }
    }
}

/// Two lists of headers with the same canonical fields, one by one.
pub open spec fn same_headers(a: Seq<Header>, b: Seq<Header>) -> bool {
    a.len() == b.len() && forall|i: int| 0 <= i < a.len() ==> header_fields(#[trigger] a[i]) == header_fields(b[i])
}

fn source_entries(chain: &Chain, store: &ContentStore) -> (r: Vec<Vec<u8>>)
    ensures
        views(r@) == chain_entries(chain.headers@, store@),
{
    let mut r: Vec<Vec<u8>> = Vec::new();
    let mut i: usize = 0;
    while i < chain.headers.len()
        invariant
            0 <= i <= chain.headers@.len(),
            views(r@) == chain_entries(chain.headers@.subrange(0, i as int), store@),
        decreases chain.headers@.len() - i,
    {
        let ghost pre = chain.headers@.subrange(0, i + 1);
        assert(pre.drop_last() == chain.headers@.subrange(0, i as int));
        assert(pre.last() == chain.headers@[i as int]);
        match store.fetch(&chain.headers[i].entry_address) {
            Some(c) => {
                let ghost before = views(r@);
                r.push(c.clone());
                assert(views(r@) == before.push(c@));
            },
            None => {},
        }
        i = i + 1;
    }
    assert(chain.headers@.subrange(0, chain.headers@.len() as int) == chain.headers@);
    r
}

fn source_headers(chain: &Chain) -> (r: Vec<Header>)
    ensures
        same_headers(r@, chain.headers@),
{
    let mut r: Vec<Header> = Vec::new();
    let mut i: usize = 0;
    while i < chain.headers.len()
        invariant
            0 <= i <= chain.headers@.len(),
            same_headers(r@, chain.headers@.subrange(0, i as int)),
        decreases chain.headers@.len() - i,
    {
        r.push(chain.headers[i].duplicate());
        i = i + 1;
    }
    assert(chain.headers@.subrange(0, chain.headers@.len() as int) == chain.headers@);
    r
}

/// Builds the package that `definition` asks for, for the entry whose
/// header is `header`, from the agent's chain and content store.
pub fn build_validation_package(
    definition: &ValidationPackageDefinition,
    header: &Header,
    agent: &AgentState,
) -> (r: ValidationPackage)
    ensures
        r.chain_header is Some && header_fields(r.chain_header->Some_0) == header_fields(*header),
        (r.source_chain_entries is Some) <==> (*definition is ChainEntries || *definition is ChainFull),
        r.source_chain_entries is Some ==> views(r.source_chain_entries->Some_0@)
            == chain_entries(agent.chain.headers@, agent.content@),
        (r.source_chain_headers is Some) <==> (*definition is ChainHeaders || *definition is ChainFull),
        r.source_chain_headers is Some ==> same_headers(r.source_chain_headers->Some_0@, agent.chain.headers@),
        (r.custom is Some) <==> *definition is Custom,
        r.custom is Some ==> r.custom->Some_0@ == definition->Custom_0@,
{
    let chain_header = Some(header.duplicate());
    match definition {
        ValidationPackageDefinition::Entry => ValidationPackage {
            chain_header,
            source_chain_entries: None,
            source_chain_headers: None,
            custom: None,
        },
        ValidationPackageDefinition::ChainEntries => ValidationPackage {
            chain_header,
            source_chain_entries: Some(source_entries(&agent.chain, &agent.content)),
            source_chain_headers: None,
            custom: None,
        },
        ValidationPackageDefinition::ChainHeaders => ValidationPackage {
            chain_header,
            source_chain_entries: None,
            source_chain_headers: Some(source_headers(&agent.chain)),
            custom: None,
        },
        ValidationPackageDefinition::ChainFull => ValidationPackage {
            chain_header,
            source_chain_entries: Some(source_entries(&agent.chain, &agent.content)),
            source_chain_headers: Some(source_headers(&agent.chain)),
            custom: None,
        },
        ValidationPackageDefinition::Custom(c) => ValidationPackage {
            chain_header,
            source_chain_entries: None,
            source_chain_headers: None,
            custom: Some(c.clone()),
        },
    }
}

/// What a validation callback receives besides the entry itself.
#[derive(Debug, Clone, PartialEq)]
pub struct ValidationData {
    pub package: ValidationPackage,
    pub sources: Vec<Address>,
    pub lifecycle: EntryLifecycle,
    pub action: EntryAction,
}

fn contains_bytes(v: &Vec<Vec<u8>>, b: &[u8]) -> (r: bool)
    ensures
        r == views(v@).contains(b@),
{
    let mut i: usize = 0;
    while i < v.len()
        invariant
            0 <= i <= v@.len(),
            forall|k: int| 0 <= k < i ==> #[trigger] views(v@)[k] != b@,
        decreases v@.len() - i,
    {
        if bytes_equal(v[i].as_slice(), b) {
            assert(views(v@)[i as int] == b@);
            return true;
        }
        i = i + 1;
    }
    false
}

pub open spec fn prior_missing_message() -> Seq<char> {
    "prior entry not found"@
}

/// The chain entries a definition asks for, followed by the prior entry
/// `prior` unless it is among them already.
pub open spec fn entries_with_prior(
    definition: ValidationPackageDefinition,
    hs: Seq<Header>,
    store: Seq<(Seq<u8>, Seq<u8>)>,
    prior: Seq<u8>,
) -> Seq<Seq<u8>> {
    let base = if definition is ChainEntries || definition is ChainFull {
        chain_entries(hs, store)
    } else {
        Seq::empty()
    };
    if base.contains(prior) {
        base
    } else {
        base.push(prior)
    }
}

/// The validation data for replacing the entry at `old_address` by
/// `new_entry`: the new entry is validated on the author's chain under the
/// modify action, with the package that `definition` asks for, built for
/// the header the new entry will get, and holding the prior entry among its
/// chain entries. Fails when the prior entry is not in the content store.
pub fn update_validation_data(
    agent: &AgentState,
    definition: &ValidationPackageDefinition,
    old_address: &Address,
    new_entry: &Entry,
    timestamp: u64,
    provenances: Vec<Provenance>,
    sources: Vec<Address>,
) -> (r: Result<ValidationData, HolochainError>)
    ensures
        store_get(agent.content@, old_address@) is None ==> (r matches Err(
            HolochainError::ValidationFailed(m),
        ) && m@ == prior_missing_message()),
        store_get(agent.content@, old_address@) is Some ==> {
            &&& r is Ok
            &&& r->Ok_0.lifecycle == EntryLifecycle::Chain
            &&& r->Ok_0.action == EntryAction::Modify
            &&& r->Ok_0.sources == sources
            &&& r->Ok_0.package.chain_header is Some
            &&& exists|h: Header|
                links_hold(agent.chain.headers@.push(h), agent.chain.headers@.len() as int)
                    && h.entry_address@ == entry_address(new_entry@) && h.entry_type@ == type_of(
                    new_entry@,
                ) && h.timestamp == timestamp && header_fields(#[trigger] r->Ok_0.package.chain_header->Some_0)
                    == header_fields(h)
            &&& r->Ok_0.package.source_chain_entries is Some
            &&& views(r->Ok_0.package.source_chain_entries->Some_0@) == entries_with_prior(
                *definition,
                agent.chain.headers@,
                agent.content@,
                store_get(agent.content@, old_address@)->Some_0,
            )
            &&& (r->Ok_0.package.source_chain_headers is Some) <==> (*definition is ChainHeaders
                || *definition is ChainFull)
            &&& r->Ok_0.package.source_chain_headers is Some ==> same_headers(
                r->Ok_0.package.source_chain_headers->Some_0@,
                agent.chain.headers@,
            )
            &&& (r->Ok_0.package.custom is Some) <==> *definition is Custom
        },
{
    let prior = match agent.content.fetch(old_address) {
        Some(c) => c,
        None => {
            return Err(HolochainError::ValidationFailed(String::from_str("prior entry not found")));
        },
    };
    let header = agent.chain.next_header(new_entry.entry_type(), new_entry.address(), timestamp, provenances);
    let package = build_validation_package(definition, &header, agent);
    let ValidationPackage { chain_header, source_chain_entries, source_chain_headers, custom } = package;
    let mut entries = match source_chain_entries {
        Some(v) => v,
        None => Vec::new(),
    };
    assert(views(entries@) == (if *definition is ChainEntries || *definition is ChainFull {
        chain_entries(agent.chain.headers@, agent.content@)
    } else {
        Seq::<Seq<u8>>::empty()
    }));
    if !contains_bytes(&entries, prior.as_slice()) {
        let ghost before = views(entries@);
        entries.push(prior.clone());
        assert(views(entries@) == before.push(prior@));
    }
    Ok(
        ValidationData {
            package: ValidationPackage {
                chain_header,
                source_chain_entries: Some(entries),
                source_chain_headers,
                custom,
            },
            sources,
            lifecycle: EntryLifecycle::Chain,
            action: EntryAction::Modify,
        },
    )
}

pub open spec fn mismatch_message() -> Seq<char> {
    "package mismatch"@
}

/// A package fetched from another agent must be the one for `header`:
/// its chain header must have the same canonical bytes.
pub fn check_package_header(header: &Header, package: &ValidationPackage) -> (r: Result<(), HolochainError>)
    ensures
        r is Ok <==> (package.chain_header is Some && fields_concat(
            header_fields(package.chain_header->Some_0),
        ) == fields_concat(header_fields(*header))),
        r is Err ==> (r matches Err(HolochainError::ValidationFailed(m)) && m@ == mismatch_message()),
{
    let same = match &package.chain_header {
        Some(h) => {
            let a = h.content();
            let b = header.content();
            bytes_equal(a.as_slice(), b.as_slice())
        },
        None => false,
    };
    if same {
        Ok(())
    } else {
        Err(HolochainError::ValidationFailed(String::from_str("package mismatch")))
    }
}

/// The application callbacks that validate entries.
#[derive(Debug, Clone, Copy, PartialEq, Eq)]
pub enum ValidationCallback {
    /// `__hdk_validate_app_entry` on the entry itself.
    ValidateAppEntry,
    /// `__hdk_validate_link` on the link entry.
    ValidateLink,
    /// `__hdk_validate_app_entry` on the entry that a deletion targets.
    ValidateDeletedTarget,
}

/// Which callback validates an entry of type `t`, in lifecycle `l`, under action `a`.
pub open spec fn callback_for(t: EntryTypeModel, l: EntryLifecycle, a: EntryAction) -> Option<
    ValidationCallback,
> {
    match t {
        EntryTypeModel::App(_) => if a == EntryAction::Modify || (a == EntryAction::Commit && (l
            == EntryLifecycle::Chain || l == EntryLifecycle::Dht)) {
            Some(ValidationCallback::ValidateAppEntry)
        } else {
            None
        },
        EntryTypeModel::LinkAdd | EntryTypeModel::LinkRemove => if a == EntryAction::Commit {
            Some(ValidationCallback::ValidateLink)
        } else {
            None
        },
        EntryTypeModel::Deletion => if l == EntryLifecycle::Chain && a == EntryAction::Delete {
            Some(ValidationCallback::ValidateDeletedTarget)
        } else {
            None
        },
        _ => None,
    }
}

impl ValidationCallback {
    /// The export that is called.
    pub fn function_name(&self) -> (r: String)
        ensures
            *self is ValidateLink ==> r@ == "__hdk_validate_link"@,
            !(*self is ValidateLink) ==> r@ == "__hdk_validate_app_entry"@,
    {
        match self {
            ValidationCallback::ValidateLink => String::from_str("__hdk_validate_link"),
            _ => String::from_str("__hdk_validate_app_entry"),
        }
    }
}

/// Which callback validates an entry of this type in this lifecycle under
/// this action; `None` when there is none to call.
pub fn validation_callback(entry_type: &EntryType, lifecycle: EntryLifecycle, action: EntryAction) -> (r:
    Option<ValidationCallback>)
    ensures
        r == callback_for(entry_type@, lifecycle, action),
{
    let commit = matches!(action, EntryAction::Commit);
    match entry_type {
        EntryType::App(_) => {
            if matches!(action, EntryAction::Modify) || (commit && (matches!(lifecycle, EntryLifecycle::Chain)
                || matches!(lifecycle, EntryLifecycle::Dht))) {
                Some(ValidationCallback::ValidateAppEntry)
            } else {
                None
            }
        },
        EntryType::LinkAdd | EntryType::LinkRemove => {
            if commit {
                Some(ValidationCallback::ValidateLink)
            } else {
                None
            }
        },
        EntryType::Deletion => {
            if matches!(lifecycle, EntryLifecycle::Chain) && matches!(action, EntryAction::Delete) {
                Some(ValidationCallback::ValidateDeletedTarget)
            } else {
                None
            }
        },
        _ => None,
    }
}

/// What a validation callback answered.
#[derive(Debug, Clone, PartialEq, Eq)]
pub enum CallbackOutcome {
    Valid,
    NotImplemented,
    Fail(String),
}

/// The verdict on an entry: a failure is a rejection with its reason, and a
/// missing callback rejects in the DHT and for application entries, but lets
/// system entries through on the author's side.
pub fn verdict(outcome: CallbackOutcome, lifecycle: EntryLifecycle, entry_type: &EntryType) -> (r: Result<
    (),
    HolochainError,
>)
    ensures
        outcome is Valid ==> r is Ok,
        outcome is Fail ==> r == Err::<(), HolochainError>(HolochainError::ValidationFailed(outcome->Fail_0)),
        outcome is NotImplemented ==> (if lifecycle != EntryLifecycle::Dht && !(entry_type@ is App) {
            r is Ok
        } else {
            r == Err::<(), HolochainError>(HolochainError::NotImplemented)
        }),
{
    match outcome {
        CallbackOutcome::Valid => Ok(()),
        CallbackOutcome::Fail(reason) => Err(HolochainError::ValidationFailed(reason)),
        CallbackOutcome::NotImplemented => {
            let system = !matches!(entry_type, EntryType::App(_));
            if system && !matches!(lifecycle, EntryLifecycle::Dht) {
                Ok(())
            } else {
                Err(HolochainError::NotImplemented)
            }
        },
    }
}

/// What a callback's 32-bit return value stands for.
#[derive(Debug, Clone, Copy, PartialEq, Eq)]
pub enum CallbackReturn {
    /// Zero: success, nothing to read.
    Success,
    /// A zero high half and a non-zero low half: an error code.
    ErrorCode(u32),
    /// A block of the module's memory: `offset` in the high half, `length` in the low half.
    Allocation { offset: u32, length: u32 },
}

/// The meaning of return value `v`.
pub open spec fn return_of(v: u32) -> CallbackReturn {
    if v == 0 {
        CallbackReturn::Success
    } else if v / 65536 == 0 {
        CallbackReturn::ErrorCode(v)
    } else {
        CallbackReturn::Allocation { offset: v / 65536, length: v % 65536 }
    }
}

pub fn decode_callback_return(v: u32) -> (r: CallbackReturn)
    ensures
        r == return_of(v),
{
    assert(v >> 16u32 == v / 65536 && v & 0xffffu32 == v % 65536) by (bit_vector);
    if v == 0 {
        CallbackReturn::Success
    } else if v >> 16u32 == 0 {
        CallbackReturn::ErrorCode(v)
    } else {
        CallbackReturn::Allocation { offset: v >> 16u32, length: v & 0xffffu32 }
    }
}

/// The return value for a block of `length` bytes at `offset`.
pub fn encode_allocation(offset: u16, length: u16) -> (r: u32)
    ensures
        r == (offset as u32) * 65536 + length as u32,
{
    let o = offset as u32;
    let l = length as u32;
    assert((o << 16u32) | l == o * 65536 + l) by (bit_vector)
        requires
            o < 65536,
            l < 65536,
    ;
    (o << 16u32) | l
}

/// A block written at a non-zero offset reads back as that block.
pub proof fn lemma_allocation_round_trip(offset: u16, length: u16)
    requires
        offset > 0,
    ensures
        return_of(((offset as u32) * 65536 + length as u32) as u32) == (CallbackReturn::Allocation {
            offset: offset as u32,
            length: length as u32,
        }),
{
    let v = ((offset as u32) * 65536 + length as u32) as u32;
    assert(v / 65536 == offset as u32 && v % 65536 == length as u32) by (nonlinear_arith)
        requires
            v == (offset as u32) * 65536 + length as u32,
            (offset as u32) < 65536,
            length < 65536,
            offset > 0,
    ;
}

/// Reads the outcome of a validation callback from its return value and,
/// for a block of memory, the failure reason that the block holds as a JSON
/// string (`None` when it holds none): zero is valid, a block holds the
/// reason of a failure, an error code is the runtime's error.
pub fn validation_outcome(ret: CallbackReturn, reason: Option<String>) -> (r: Result<CallbackOutcome, HolochainError>)
    ensures
        ret is Success ==> r == Ok::<CallbackOutcome, HolochainError>(CallbackOutcome::Valid),
        ret is ErrorCode ==> match crate::error::RibosomeErrorCode::spec_from_code(ret->ErrorCode_0) {
            Some(c) => r == Err::<CallbackOutcome, HolochainError>(HolochainError::Ribosome(c)),
            None => r matches Err(HolochainError::RibosomeFailed(_)),
        },
        ret is Allocation ==> match reason {
            Some(t) => r == Ok::<CallbackOutcome, HolochainError>(CallbackOutcome::Fail(t)),
            None => r matches Err(HolochainError::SerializationError(_)),
        },
{
    match ret {
        CallbackReturn::Success => Ok(CallbackOutcome::Valid),
        CallbackReturn::ErrorCode(c) => match crate::error::RibosomeErrorCode::from_code(c) {
            Some(code) => Err(HolochainError::Ribosome(code)),
            None => Err(HolochainError::RibosomeFailed(String::from_str("unknown error code"))),
        },
        CallbackReturn::Allocation { .. } => match reason {
            Some(t) => Ok(CallbackOutcome::Fail(t)),
            None => Err(HolochainError::SerializationError(String::from_str("unreadable callback result"))),
        },
    }
}


/// `j` is the first definition of application type `t` in zome `i`, the
/// first zome that declares `t`.
pub open spec fn type_def_at(zs: Seq<(String, crate::dna::Zome)>, t: Seq<char>, i: int, j: int) -> bool {
    &&& first_zome_with_type(zs, t, i)
    &&& 0 <= j < zs[i].1.entry_types@.len()
    &&& zs[i].1.entry_types@[j].0@ == EntryTypeModel::App(t)
    &&& forall|k: int| 0 <= k < j ==> #[trigger] zs[i].1.entry_types@[k].0@ != EntryTypeModel::App(t)
}

/// The definition links to `target` with `tag`.
pub open spec fn links_to_has(d: EntryTypeDef, target: Seq<char>, tag: Seq<char>) -> bool {
    exists|k: int| 0 <= k < d.links_to@.len() && #[trigger] d.links_to@[k].target_type@ == target && d.links_to@[k].tag@ == tag
}

/// The definition is linked from `base` with `tag`.
pub open spec fn linked_from_has(d: EntryTypeDef, base: Seq<char>, tag: Seq<char>) -> bool {
    exists|k: int| 0 <= k < d.linked_from@.len() && #[trigger] d.linked_from@[k].base_type@ == base && d.linked_from@[k].tag@ == tag
}

proof fn lemma_type_def_at_unique(zs: Seq<(String, crate::dna::Zome)>, t: Seq<char>, i: int, j: int, i2: int, j2: int)
    requires
        type_def_at(zs, t, i, j),
        type_def_at(zs, t, i2, j2),
    ensures
        i == i2 && j == j2,
{
    if i < i2 {
        assert(!zome_has_type(zs[i].1, t));
    } else if i2 < i {
        assert(!zome_has_type(zs[i2].1, t));
    }
    if j < j2 {
        assert(zs[i].1.entry_types@[j].0@ != EntryTypeModel::App(t));
    } else if j2 < j {
        assert(zs[i].1.entry_types@[j2].0@ != EntryTypeModel::App(t));
    }
}

pub open spec fn link_callback() -> Seq<char> {
    "__hdk_get_validation_package_for_link"@
}

fn has_links_to(d: &EntryTypeDef, target: &String, tag: &String) -> (r: bool)
    ensures
        r == links_to_has(*d, target@, tag@),
{
    let mut k: usize = 0;
    while k < d.links_to.len()
        invariant
            0 <= k <= d.links_to@.len(),
            forall|m: int| 0 <= m < k ==> !(#[trigger] d.links_to@[m].target_type@ == target@ && d.links_to@[m].tag@ == tag@),
        decreases d.links_to@.len() - k,
    {
        if d.links_to[k].target_type.eq(target) && d.links_to[k].tag.eq(tag) {
            return true;
        }
        k = k + 1;
    }
    false
}

fn has_linked_from(d: &EntryTypeDef, base: &String, tag: &String) -> (r: bool)
    ensures
        r == linked_from_has(*d, base@, tag@),
{
    let mut k: usize = 0;
    while k < d.linked_from.len()
        invariant
            0 <= k <= d.linked_from@.len(),
            forall|m: int| 0 <= m < k ==> !(#[trigger] d.linked_from@[m].base_type@ == base@ && d.linked_from@[m].tag@ == tag@),
        decreases d.linked_from@.len() - k,
    {
        if d.linked_from[k].base_type.eq(base) && d.linked_from[k].tag.eq(tag) {
            return true;
        }
        k = k + 1;
    }
    false
}

/// Decides how to obtain the package definition of a link from `base_type`
/// to `target_type` with `tag`: ask the zome whose definition of the base
/// type links to the target with that tag; else the zome whose definition of
/// the target type is linked from the base with that tag; else there is none.
pub fn link_validation_package_definition(dna: &Dna, base_type: &str, tag: &str, target_type: &str) -> (r:
    Result<DefinitionPlan, HolochainError>)
    ensures
        (exists|i: int, j: int|
            type_def_at(dna.zomes@, base_type@, i, j) && links_to_has(
                dna.zomes@[i].1.entry_types@[j].1,
                target_type@,
                tag@,
            )) ==> (r matches Ok(DefinitionPlan::CallLinkZome { zome_name, function, entry_type, tag: g, direction })
            && direction == LinkDirection::To && entry_type@ == base_type@ && g@ == tag@ && function@
            == link_callback() && exists|i: int, j: int|
            type_def_at(dna.zomes@, base_type@, i, j) && zome_name@ == dna.zomes@[i].0@),
        !(exists|i: int, j: int|
            type_def_at(dna.zomes@, base_type@, i, j) && links_to_has(
                dna.zomes@[i].1.entry_types@[j].1,
                target_type@,
                tag@,
            )) && (exists|i: int, j: int|
            type_def_at(dna.zomes@, target_type@, i, j) && linked_from_has(
                dna.zomes@[i].1.entry_types@[j].1,
                base_type@,
                tag@,
            )) ==> (r matches Ok(DefinitionPlan::CallLinkZome { zome_name, function, entry_type, tag: g, direction })
            && direction == LinkDirection::From && entry_type@ == target_type@ && g@ == tag@ && function@
            == link_callback() && exists|i: int, j: int|
            type_def_at(dna.zomes@, target_type@, i, j) && zome_name@ == dna.zomes@[i].0@),
        !(exists|i: int, j: int|
            type_def_at(dna.zomes@, base_type@, i, j) && links_to_has(
                dna.zomes@[i].1.entry_types@[j].1,
                target_type@,
                tag@,
            )) && !(exists|i: int, j: int|
            type_def_at(dna.zomes@, target_type@, i, j) && linked_from_has(
                dna.zomes@[i].1.entry_types@[j].1,
                base_type@,
                tag@,
            )) ==> r == Err::<DefinitionPlan, HolochainError>(HolochainError::NotImplemented),
{
    let tag_text = tag.to_owned();
    let base_text = base_type.to_owned();
    let target_text = target_type.to_owned();
    match crate::dna::find_zome_with_type(&dna.zomes, base_type) {
        Some((i, j)) => {
            proof {
                assert(type_def_at(dna.zomes@, base_type@, i as int, j as int));
                assert forall|i2: int, j2: int| type_def_at(dna.zomes@, base_type@, i2, j2) implies i2 == i
                    && j2 == j by {
                    lemma_type_def_at_unique(dna.zomes@, base_type@, i as int, j as int, i2, j2);
                }
            }
            if has_links_to(&dna.zomes[i].1.entry_types[j].1, &target_text, &tag_text) {
                return Ok(
                    DefinitionPlan::CallLinkZome {
                        zome_name: dna.zomes[i].0.clone(),
                        function: String::from_str("__hdk_get_validation_package_for_link"),
                        entry_type: base_text,
                        tag: tag_text,
                        direction: LinkDirection::To,
                    },
                );
            }
        },
        None => {
            proof {
                assert forall|i2: int, j2: int| !type_def_at(dna.zomes@, base_type@, i2, j2) by {
                    if 0 <= i2 < dna.zomes@.len() && 0 <= j2 < dna.zomes@[i2].1.entry_types@.len()
                        && dna.zomes@[i2].1.entry_types@[j2].0@ == EntryTypeModel::App(base_type@) {
                        assert(zome_has_type(dna.zomes@[i2].1, base_type@));
                    }
                }
            }
        },
    }
    match crate::dna::find_zome_with_type(&dna.zomes, target_type) {
        Some((i, j)) => {
            proof {
                assert(type_def_at(dna.zomes@, target_type@, i as int, j as int));
                assert forall|i2: int, j2: int| type_def_at(dna.zomes@, target_type@, i2, j2) implies i2 == i
                    && j2 == j by {
                    lemma_type_def_at_unique(dna.zomes@, target_type@, i as int, j as int, i2, j2);
                }
            }
            if has_linked_from(&dna.zomes[i].1.entry_types[j].1, &base_text, &tag_text) {
                return Ok(
                    DefinitionPlan::CallLinkZome {
                        zome_name: dna.zomes[i].0.clone(),
                        function: String::from_str("__hdk_get_validation_package_for_link"),
                        entry_type: target_text,
                        tag: tag_text,
                        direction: LinkDirection::From,
                    },
                );
            }
        },
        None => {
            proof {
                assert forall|i2: int, j2: int| !type_def_at(dna.zomes@, target_type@, i2, j2) by {
                    if 0 <= i2 < dna.zomes@.len() && 0 <= j2 < dna.zomes@[i2].1.entry_types@.len()
                        && dna.zomes@[i2].1.entry_types@[j2].0@ == EntryTypeModel::App(target_type@) {
                        assert(zome_has_type(dna.zomes@[i2].1, target_type@));
                    }
                }
            }
        },
    }
    Err(HolochainError::NotImplemented)
}

} // verus!
