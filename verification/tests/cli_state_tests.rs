use routing_core::cli_state::{
    CredentialConfig, CredentialState, CredentialsState, Identity, ProjectState, ProjectsState,
};

fn identity(history: &[u8]) -> Identity {
    Identity { history: history.to_vec() }
}

fn config(history: &[u8], encoded: &str) -> CredentialConfig {
    CredentialConfig::new(identity(history), encoded.to_string()).unwrap()
}

#[test]
fn credential_decodes_valid_hex() {
    let c = config(b"h1", "6b697769");
    let cred = c.credential().expect("valid hex decodes");
    assert_eq!(cred.data, b"kiwi".to_vec());
    // upper case and mixed case digits are accepted too
    let c = config(b"h1", "6B697769");
    assert_eq!(c.credential().unwrap().data, b"kiwi".to_vec());
    // the empty encoding decodes to no bytes
    let c = config(b"h1", "");
    assert_eq!(c.credential().unwrap().data, Vec::<u8>::new());
}

#[test]
fn credential_refuses_invalid_hex() {
    // odd length
    assert!(config(b"h1", "6b6").credential().is_err());
    // a byte that is no hex digit
    assert!(config(b"h1", "6g").credential().is_err());
}

#[test]
fn credential_configs_compare_by_encoding_and_issuer_history() {
    let a = config(b"h1", "ff");
    let b = config(b"h1", "ff");
    let c = config(b"h2", "ff");
    let d = config(b"h1", "fe");
    assert!(a == b);
    assert!(a != c);
    assert!(a != d);
}

#[test]
fn state_items_take_their_name_from_the_path_stem() {
    let st = CredentialState::new(b"/root/credentials/team.json".to_vec(), config(b"h", "00"))
        .expect("a path with a stem");
    assert_eq!(st.name(), &b"team".to_vec());
    assert_eq!(st.path(), &b"/root/credentials/team.json".to_vec());

    let p = ProjectState::load(b"/root/projects/p1.json".to_vec()).expect("a path with a stem");
    assert_eq!(p.name(), &b"p1".to_vec());

    // a name without an extension is its own stem
    let p = ProjectState::new(b"/root/projects/bare".to_vec()).unwrap();
    assert_eq!(p.name(), &b"bare".to_vec());

    // a hidden-style name with no later dot keeps its leading dot
    let p = ProjectState::new(b"/root/.hidden".to_vec()).unwrap();
    assert_eq!(p.name(), &b".hidden".to_vec());

    // a path that ends in the separator has no stem
    assert!(ProjectState::new(b"/root/projects/".to_vec()).is_err());
}

#[test]
fn state_dirs_are_built_under_the_root() {
    assert_eq!(
        CredentialsState::build_dir(&b"/root".to_vec()),
        b"/root/credentials".to_vec()
    );
    assert_eq!(
        ProjectsState::build_dir(&b"/root".to_vec()),
        b"/root/projects".to_vec()
    );
    assert_eq!(CredentialsState::default_filename(), "credential");
    assert_eq!(ProjectsState::default_filename(), "project");
    assert!(!CredentialsState::has_data_dir());
    assert!(!ProjectsState::has_data_dir());
    let cs = CredentialsState::new(b"/root/credentials".to_vec());
    assert_eq!(cs.dir(), &b"/root/credentials".to_vec());
    let ps = ProjectsState::new(b"/root/projects".to_vec());
    assert_eq!(ps.dir(), &b"/root/projects".to_vec());
}
