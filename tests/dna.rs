use holochain_core::dna::{
    Capability, Dna, EntryTypeDef, FnDeclaration, Membrane, Sharing, Zome, ErrorHandling,
};
use holochain_core::entry::EntryType;
use holochain_core::error::DnaError;

fn test_zome() -> Zome {
    Zome::new()
}

#[test]
fn get_entry_type_def_test() {
    let mut dna = Dna::new();
    let mut zome = test_zome();
    let entry_type = EntryType::App(String::from("bar"));
    let entry_type_def = EntryTypeDef::new();

    zome.insert_entry_type(entry_type, entry_type_def.clone());
    dna.insert_zome("zome".to_string(), zome);

    assert_eq!(None, dna.get_entry_type_def("foo"));
    assert_eq!(Some(&entry_type_def), dna.get_entry_type_def("bar"));
}

fn test_capability() -> Capability {
    Capability {
        membrane: Membrane::Public,
        fn_declarations: vec![FnDeclaration {
            name: String::from("test"),
            inputs: vec![],
            outputs: vec![],
        }],
    }
}

#[test]
fn get_wasm_from_zome_name() {
    let mut dna = Dna::new();
    dna.name = String::from("test");
    dna.description = String::from("test");
    dna.version = String::from("test");
    dna.uuid = String::from("00000000-0000-0000-0000-000000000000");
    dna.properties = String::from("{\"test\":\"test\"}");
    let mut zome = Zome::new();
    zome.description = String::from("test");
    zome.insert_capability(String::from("test capability"), test_capability());
    zome.code.code = vec![0, 1, 2, 3];
    dna.insert_zome(String::from("test zome"), zome);

    let wasm = dna.get_wasm_from_zome_name("test zome");
    assert_eq!("AAECAw==", base64::encode(&wasm.unwrap().code));

    let fail = dna.get_wasm_from_zome_name("non existant zome");
    assert_eq!(None, fail);
}

#[test]
fn test_get_zome_name_for_entry_type() {
    let mut dna = Dna::new();
    dna.uuid = String::from("00000000-0000-0000-0000-000000000000");
    let mut zome = Zome::new();
    zome.description = String::from("test");
    zome.insert_capability(
        String::from("test capability"),
        Capability { membrane: Membrane::Public, fn_declarations: vec![] },
    );
    let mut def = EntryTypeDef::new();
    def.sharing = Sharing::Public;
    zome.insert_entry_type(EntryType::App(String::from("test type")), def);
    dna.insert_zome(String::from("test zome"), zome);

    assert_eq!(
        dna.get_zome_name_for_app_entry_type("test type").unwrap(),
        "test zome".to_string()
    );
    assert!(dna.get_zome_name_for_app_entry_type("non existant entry type").is_none());
}

#[test]
fn new_dna_defaults() {
    let dna = Dna::new();
    assert_eq!("", dna.name);
    assert_eq!("2.0", dna.dna_spec_version);
    assert_eq!("{}", dna.properties);
    assert_eq!(36, dna.uuid.len());
    for (i, c) in dna.uuid.chars().enumerate() {
        if i == 8 || i == 13 || i == 18 || i == 23 {
            assert_eq!(c, '-');
        } else {
            assert!(c.is_ascii_digit() || ('a'..='f').contains(&c));
        }
    }
    assert_eq!(dna.uuid.as_bytes()[14], b'4');
    assert!(b"89ab".contains(&dna.uuid.as_bytes()[19]));
    assert!(dna.zomes.is_empty());
    assert_ne!(Dna::new().uuid, dna.uuid);
}

#[test]
fn new_zome_defaults() {
    let z = Zome::new();
    assert_eq!(z.config.error_handling, ErrorHandling::ThrowErrors);
    assert_eq!(EntryTypeDef::new().sharing, Sharing::Public);
}

#[test]
fn first_zome_in_definition_order_wins() {
    let mut dna = Dna::new();
    let mut z1 = Zome::new();
    let mut d1 = EntryTypeDef::new();
    d1.description = String::from("first");
    z1.insert_entry_type(EntryType::App(String::from("t")), d1.clone());
    let mut z2 = Zome::new();
    let mut d2 = EntryTypeDef::new();
    d2.description = String::from("second");
    z2.insert_entry_type(EntryType::App(String::from("t")), d2);
    dna.insert_zome(String::from("b"), z1);
    dna.insert_zome(String::from("a"), z2);
    assert_eq!(dna.get_zome_name_for_app_entry_type("t"), Some(String::from("b")));
    assert_eq!(dna.get_entry_type_def("t"), Some(&d1));
}

#[test]
fn insert_replaces_same_key() {
    let mut dna = Dna::new();
    dna.insert_zome(String::from("z"), Zome::new());
    let mut z = Zome::new();
    z.description = String::from("again");
    dna.insert_zome(String::from("z"), z);
    assert_eq!(dna.zomes.len(), 1);
    assert_eq!(dna.get_zome("z").unwrap().description, "again");
}

#[test]
fn capability_lookup_errors() {
    let mut dna = Dna::new();
    let mut zome = Zome::new();
    zome.insert_capability(String::from("cap"), test_capability());
    dna.insert_zome(String::from("zome"), zome);

    assert_eq!(dna.get_capability_with_zome_name("zome", "cap"), Ok(&test_capability()));
    assert_eq!(
        dna.get_capability_with_zome_name("nope", "cap"),
        Err(DnaError::ZomeNotFound(String::from("Zome 'nope' not found")))
    );
    assert_eq!(
        dna.get_capability_with_zome_name("zome", "nope"),
        Err(DnaError::CapabilityNotFound(String::from(
            "Capability 'nope' not found in Zome 'zome'"
        )))
    );
    let zome = dna.get_zome("zome").unwrap();
    assert!(dna.get_capability(zome, "cap").is_some());
    assert!(dna.get_capability(zome, "other").is_none());
}
