use firaw_ssh::profile::{migrate_legacy_profiles, validate_profile, Profile};

fn valid_profile() -> Profile {
    Profile {
        host: "server.example".into(),
        username: "deploy".into(),
        ..Profile::default()
    }
}

#[test]
fn rejects_missing_host() {
    let error = validate_profile(&Profile::default()).unwrap_err();
    assert_eq!(error.code, "validation");
    assert!(error.message.contains("servidor"));
}

#[test]
fn accepts_password_profile() {
    assert!(validate_profile(&valid_profile()).is_ok());
}

#[test]
fn key_auth_requires_private_key_path() {
    let mut profile = valid_profile();
    profile.auth_method = "key".into();
    let error = validate_profile(&profile).unwrap_err();
    assert!(error.message.contains("chave privada"));
}

#[test]
fn legacy_key_profile_marked_as_password_is_recovered() {
    let mut profile = valid_profile();
    profile.auth_method = "password".into();
    profile.key_path = "C:\\keys\\server".into();
    profile.has_password = true;
    profile.has_passphrase = true;
    profile.key_passphrase_enabled = false;
    profile.account_password_enabled = false;

    migrate_legacy_profiles(std::slice::from_mut(&mut profile));

    assert_eq!(profile.auth_method, "key");
    assert!(profile.key_passphrase_enabled);
    assert!(profile.account_password_enabled);
}

use firaw_ssh::profile::{
    duplicate_profile, prepare_profile_for_save, profile_by_id, remove_profile,
    secrets_to_keep, upsert_profile, TunnelRule,
};

#[test]
fn defaults_match_a_new_profile() {
    let p = Profile::default();
    assert_eq!(p.port, 22);
    assert_eq!(p.name, "Novo servidor");
    assert!(p.key_passphrase_enabled && p.account_password_enabled);
    let r = TunnelRule::default();
    assert_eq!((r.kind.as_str(), r.listen_port, r.target_port), ("local", 8080, 80));
}

#[test]
fn saving_then_finding_gives_back_the_profile() {
    let mut list = vec![valid_profile_with("a", "Um"), valid_profile_with("b", "Dois")];
    upsert_profile(&mut list, valid_profile_with("b", "Dois editado"));
    assert_eq!(list.len(), 2);
    assert_eq!(profile_by_id(&list, "b").unwrap().name, "Dois editado");
    upsert_profile(&mut list, valid_profile_with("c", "Três"));
    assert_eq!(list.len(), 3);
    assert_eq!(profile_by_id(&list, "a").unwrap().name, "Um");
    remove_profile(&mut list, "a");
    assert_eq!(list.len(), 2);
    assert_eq!(profile_by_id(&list, "a").unwrap_err().message, "Perfil não encontrado.");
}

fn valid_profile_with(id: &str, name: &str) -> Profile {
    Profile { id: id.into(), name: name.into(), ..valid_profile() }
}

#[test]
fn duplicate_is_a_copy_without_secrets() {
    let mut p = valid_profile_with("a", "Web");
    p.has_password = true;
    let d = duplicate_profile(&p, "new-id");
    assert_eq!((d.id.as_str(), d.name.as_str(), d.has_password, d.host.as_str()), ("new-id", "Web (cópia)", false, "server.example"));
}

#[test]
fn prepared_profile_is_trimmed_and_gets_an_id() {
    let mut p = valid_profile();
    p.name = "  Web  ".into();
    p.host = " server.example ".into();
    p.auth_method = "key".into();
    p.key_path = "C:\\k\\id.pub".into();
    let r = prepare_profile_for_save(&p, "fresh", "C:\\k\\id").unwrap();
    assert_eq!((r.id.as_str(), r.name.as_str(), r.host.as_str(), r.key_path.as_str()), ("fresh", "Web", "server.example", "C:\\k\\id"));
    p.host = "   ".into();
    assert_eq!(prepare_profile_for_save(&p, "fresh", "x").unwrap_err().code, "validation");
}

#[test]
fn secrets_kept_follow_the_method() {
    let mut p = valid_profile();
    assert_eq!(secrets_to_keep(&p, true, true), (true, false));
    p.auth_method = "key".into();
    p.key_passphrase_enabled = true;
    p.account_password_enabled = false;
    assert_eq!(secrets_to_keep(&p, true, true), (false, true));
    p.auth_method = "agent".into();
    assert_eq!(secrets_to_keep(&p, true, true), (false, false));
}
