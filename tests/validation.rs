use holochain_core::agent::AgentState;
use holochain_core::dna::{LinkedFrom, LinksTo};
use holochain_core::validation::{link_validation_package_definition, LinkDirection};
use holochain_core::crud::CrudStatus;
use holochain_core::dna::{Dna, EntryTypeDef, Zome};
use holochain_core::entry::{Entry, EntryType};
use holochain_core::error::{HolochainError, RibosomeErrorCode};
use holochain_core::validation::{
    build_validation_package, check_package_header, decode_callback_return,
    definition_from_callback_answer, encode_allocation, get_validation_package_definition,
    update_validation_data, CallbackAnswer,
    validation_callback, validation_outcome, verdict, CallbackOutcome, CallbackReturn,
    DefinitionPlan, EntryAction, EntryLifecycle, ValidationCallback, ValidationPackageDefinition,
};

fn dna_with_type(zome: &str, t: &str) -> Dna {
    let mut dna = Dna::new();
    let mut z = Zome::new();
    z.insert_entry_type(EntryType::App(String::from(t)), EntryTypeDef::new());
    dna.insert_zome(String::from(zome), z);
    dna
}

#[test]
fn package_definition_plans() {
    let dna = dna_with_type("test_zome", "testEntryType");
    assert_eq!(
        get_validation_package_definition(&dna, &EntryType::App(String::from("testEntryType"))),
        Ok(DefinitionPlan::CallZome {
            zome_name: String::from("test_zome"),
            function: String::from("__hdk_get_validation_package_for_entry_type"),
            parameters: String::from("testEntryType"),
        })
    );
    assert_eq!(
        get_validation_package_definition(&dna, &EntryType::App(String::from("unknown"))),
        Ok(DefinitionPlan::NotImplemented)
    );
    assert_eq!(
        get_validation_package_definition(&dna, &EntryType::Deletion),
        Ok(DefinitionPlan::Fixed(ValidationPackageDefinition::ChainFull))
    );
    assert_eq!(
        get_validation_package_definition(&dna, &EntryType::LinkAdd),
        Ok(DefinitionPlan::LinkLookup)
    );
    assert_eq!(
        get_validation_package_definition(&dna, &EntryType::AgentId),
        Err(HolochainError::NotImplemented)
    );
}

#[test]
fn reading_callback_answers() {
    assert_eq!(
        definition_from_callback_answer(CallbackAnswer::Definition(ValidationPackageDefinition::ChainFull)),
        Ok(ValidationPackageDefinition::ChainFull)
    );
    assert_eq!(
        definition_from_callback_answer(CallbackAnswer::Definition(ValidationPackageDefinition::Custom(
            String::from("abc")
        ))),
        Ok(ValidationPackageDefinition::Custom(String::from("abc")))
    );
    assert_eq!(
        definition_from_callback_answer(CallbackAnswer::Null),
        Err(HolochainError::SerializationError(String::from(
            "__hdk_get_validation_package_for_entry_type returned empty result"
        )))
    );
    assert_eq!(
        definition_from_callback_answer(CallbackAnswer::Unreadable),
        Err(HolochainError::SerializationError(String::from(
            "validation_package result could not be deserialized as ValidationPackage"
        )))
    );
}

#[test]
fn update_validation_data_holds_prior_entry() {
    let mut agent = AgentState::new();
    let e1 = Entry::App(String::from("t"), vec![1]);
    let e2 = Entry::App(String::from("t"), vec![2]);
    let a1 = agent.commit(&e1, 1, vec![]);

    let d = update_validation_data(&agent, &ValidationPackageDefinition::Entry, &a1, &e2, 2, vec![], vec![])
        .unwrap();
    assert_eq!(d.lifecycle, EntryLifecycle::Chain);
    assert_eq!(d.action, EntryAction::Modify);
    assert_eq!(d.package.source_chain_entries, Some(vec![e1.content()]));
    let h = d.package.chain_header.unwrap();
    assert_eq!(h.entry_address, e2.address());
    assert_eq!(h.prev_header_address, Some(agent.chain.headers[0].address()));
    assert_eq!(
        validation_callback(&e2.entry_type(), d.lifecycle, d.action),
        Some(ValidationCallback::ValidateAppEntry)
    );

    // with the chain's entries already in the package, the prior entry is not repeated
    let d = update_validation_data(&agent, &ValidationPackageDefinition::ChainFull, &a1, &e2, 2, vec![], vec![])
        .unwrap();
    assert_eq!(d.package.source_chain_entries, Some(vec![e1.content()]));
    assert!(d.package.source_chain_headers.is_some());

    let missing = update_validation_data(
        &agent,
        &ValidationPackageDefinition::Entry,
        &e2.address(),
        &e2,
        2,
        vec![],
        vec![],
    );
    assert_eq!(missing, Err(HolochainError::ValidationFailed(String::from("prior entry not found"))));
}

#[test]
fn packages_follow_their_definition() {
    let mut agent = AgentState::new();
    let e1 = Entry::App(String::from("t"), vec![1]);
    let e2 = Entry::App(String::from("t"), vec![2]);
    agent.commit(&e1, 1, vec![]);
    agent.commit(&e2, 2, vec![]);
    let header = agent.chain.top().unwrap().clone();

    let p = build_validation_package(&ValidationPackageDefinition::Entry, &header, &agent);
    assert!(p.source_chain_entries.is_none() && p.source_chain_headers.is_none());

    let p = build_validation_package(&ValidationPackageDefinition::ChainEntries, &header, &agent);
    assert_eq!(p.source_chain_entries, Some(vec![e1.content(), e2.content()]));
    assert!(p.source_chain_headers.is_none());

    let p = build_validation_package(&ValidationPackageDefinition::ChainHeaders, &header, &agent);
    assert_eq!(p.source_chain_headers, Some(agent.chain.headers.clone()));
    assert!(p.source_chain_entries.is_none());

    let p = build_validation_package(&ValidationPackageDefinition::ChainFull, &header, &agent);
    assert!(p.source_chain_entries.is_some() && p.source_chain_headers.is_some());

    let p = build_validation_package(
        &ValidationPackageDefinition::Custom(String::from("x")),
        &header,
        &agent,
    );
    assert_eq!(p.custom, Some(String::from("x")));
    assert_eq!(p.chain_header, Some(header.clone()));

    let other = agent.chain.headers[0].clone();
    assert_eq!(
        check_package_header(&other, &p),
        Err(HolochainError::ValidationFailed(String::from("package mismatch")))
    );
}

#[test]
fn which_callback_validates() {
    let app = EntryType::App(String::from("t"));
    assert_eq!(
        validation_callback(&app, EntryLifecycle::Chain, EntryAction::Commit),
        Some(ValidationCallback::ValidateAppEntry)
    );
    assert_eq!(
        validation_callback(&app, EntryLifecycle::Dht, EntryAction::Commit),
        Some(ValidationCallback::ValidateAppEntry)
    );
    assert_eq!(
        validation_callback(&app, EntryLifecycle::Meta, EntryAction::Modify),
        Some(ValidationCallback::ValidateAppEntry)
    );
    assert_eq!(validation_callback(&app, EntryLifecycle::Meta, EntryAction::Commit), None);
    assert_eq!(
        validation_callback(&EntryType::LinkRemove, EntryLifecycle::Dht, EntryAction::Commit),
        Some(ValidationCallback::ValidateLink)
    );
    assert_eq!(
        validation_callback(&EntryType::Deletion, EntryLifecycle::Chain, EntryAction::Delete),
        Some(ValidationCallback::ValidateDeletedTarget)
    );
    assert_eq!(validation_callback(&EntryType::Deletion, EntryLifecycle::Dht, EntryAction::Delete), None);
    assert_eq!(ValidationCallback::ValidateLink.function_name(), "__hdk_validate_link");
    assert_eq!(ValidationCallback::ValidateDeletedTarget.function_name(), "__hdk_validate_app_entry");
}

#[test]
fn verdict_policy() {
    let app = EntryType::App(String::from("t"));
    assert_eq!(verdict(CallbackOutcome::Valid, EntryLifecycle::Dht, &app), Ok(()));
    assert_eq!(
        verdict(CallbackOutcome::NotImplemented, EntryLifecycle::Dht, &EntryType::Deletion),
        Err(HolochainError::NotImplemented)
    );
    assert_eq!(verdict(CallbackOutcome::NotImplemented, EntryLifecycle::Chain, &EntryType::Deletion), Ok(()));
    assert_eq!(
        verdict(CallbackOutcome::NotImplemented, EntryLifecycle::Chain, &app),
        Err(HolochainError::NotImplemented)
    );
}

#[test]
fn callback_return_values() {
    assert_eq!(decode_callback_return(0), CallbackReturn::Success);
    assert_eq!(decode_callback_return(4), CallbackReturn::ErrorCode(4));
    assert_eq!(encode_allocation(3, 7), 196615);
    assert_eq!(decode_callback_return(196615), CallbackReturn::Allocation { offset: 3, length: 7 });
    assert_eq!(validation_outcome(CallbackReturn::Success, None), Ok(CallbackOutcome::Valid));
    assert_eq!(
        validation_outcome(CallbackReturn::ErrorCode(4), None),
        Err(HolochainError::Ribosome(RibosomeErrorCode::CallbackFailed))
    );
    assert!(matches!(
        validation_outcome(CallbackReturn::ErrorCode(77), None),
        Err(HolochainError::RibosomeFailed(_))
    ));
    assert_eq!(
        validation_outcome(CallbackReturn::Allocation { offset: 1, length: 3 }, Some(String::from("bad"))),
        Ok(CallbackOutcome::Fail(String::from("bad")))
    );
    assert!(matches!(
        validation_outcome(CallbackReturn::Allocation { offset: 1, length: 3 }, None),
        Err(HolochainError::SerializationError(_))
    ));
}

#[test]
fn status_and_error_numbers() {
    assert_eq!(CrudStatus::Live.number(), 1);
    assert_eq!(CrudStatus::Rejected.number(), 2);
    assert_eq!(CrudStatus::Modified.number(), 3);
    assert_eq!(CrudStatus::Deleted.number(), 4);
    assert_eq!(CrudStatus::Locked.number(), 5);
    assert_eq!(CrudStatus::Deleted.to_value(), b"4".to_vec());
    assert_eq!(CrudStatus::from_value(b"3"), Some(CrudStatus::Modified));
    assert_eq!(CrudStatus::from_value(b"9"), None);
    assert_eq!(RibosomeErrorCode::ArgumentDeserializationFailed.code(), 1);
    assert_eq!(RibosomeErrorCode::UnknownEntryType.code(), 9);
    assert_eq!(RibosomeErrorCode::from_code(6), Some(RibosomeErrorCode::ResponseSerializationFailed));
    assert_eq!(RibosomeErrorCode::from_code(0), None);
}

#[test]
fn link_package_definition_plans() {
    let mut dna = Dna::new();
    let mut z = Zome::new();
    let mut post = EntryTypeDef::new();
    post.links_to.push(LinksTo { target_type: String::from("comment"), tag: String::from("has") });
    let mut comment = EntryTypeDef::new();
    comment.linked_from.push(LinkedFrom { base_type: String::from("author"), tag: String::from("wrote") });
    z.insert_entry_type(EntryType::App(String::from("post")), post);
    z.insert_entry_type(EntryType::App(String::from("comment")), comment);
    dna.insert_zome(String::from("blog"), z);

    assert_eq!(
        link_validation_package_definition(&dna, "post", "has", "comment"),
        Ok(DefinitionPlan::CallLinkZome {
            zome_name: String::from("blog"),
            function: String::from("__hdk_get_validation_package_for_link"),
            entry_type: String::from("post"),
            tag: String::from("has"),
            direction: LinkDirection::To,
        })
    );
    assert_eq!(
        link_validation_package_definition(&dna, "author", "wrote", "comment"),
        Ok(DefinitionPlan::CallLinkZome {
            zome_name: String::from("blog"),
            function: String::from("__hdk_get_validation_package_for_link"),
            entry_type: String::from("comment"),
            tag: String::from("wrote"),
            direction: LinkDirection::From,
        })
    );
    assert_eq!(
        link_validation_package_definition(&dna, "post", "other", "comment"),
        Err(HolochainError::NotImplemented)
    );
}
