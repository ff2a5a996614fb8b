use firaw_ssh::backup::{
    backup_export_name, check_backup_format, check_export_count, derive_backup_key, export_backup,
    open_backup, plan_import, seal_backup, PortableProfile,
};
use firaw_ssh::profile::Profile;

#[test]
fn backup_key_is_deterministic_and_password_specific() {
    let salt = b"0123456789abcdef";
    let first = derive_backup_key("senha-segura", salt).unwrap();
    let repeated = derive_backup_key("senha-segura", salt).unwrap();
    let different = derive_backup_key("outra-senha", salt).unwrap();
    assert_eq!(first, repeated);
    assert_ne!(first, different);
    assert_eq!(
        derive_backup_key("curta", salt).unwrap_err().code,
        "backup_password"
    );
}

#[test]
fn backup_key_is_32_bytes_and_not_the_password() {
    let key = derive_backup_key("senha-segura", b"0123456789abcdef").unwrap();
    assert_eq!(key.len(), 32);
    assert_ne!(key, b"senha-segura".to_vec());
}

#[test]
fn backup_key_rejects_a_short_salt() {
    let error = derive_backup_key("senha-segura", b"abc").unwrap_err();
    assert_eq!(error.code, "backup_crypto");
    assert!(error.message.starts_with("Não foi possível proteger o backup: "));
}

#[test]
fn sealed_backup_opens_with_its_password() {
    let payload = b"{\"format\":1}".to_vec();
    let file = seal_backup(&payload, "senha-segura", b"0123456789abcdef", b"abcdefghijkl").unwrap();
    assert_eq!(&file[..8], b"FIRAWBK1");
    assert_eq!(&file[8..24], b"0123456789abcdef");
    assert_eq!(&file[24..36], b"abcdefghijkl");
    assert_ne!(&file[36..], &payload[..]);
    assert_eq!(file.len(), 36 + payload.len() + 16);
    assert_eq!(open_backup(&file, "senha-segura").unwrap(), payload);
}

#[test]
fn wrong_password_is_refused() {
    let file = seal_backup(b"dados", "senha-segura", b"0123456789abcdef", b"abcdefghijkl").unwrap();
    let error = open_backup(&file, "outra-senha").unwrap_err();
    assert_eq!(error.code, "backup_password");
    assert_eq!(error.message, "Senha incorreta ou arquivo de backup danificado.");
}

#[test]
fn damaged_backup_is_refused() {
    let mut file = seal_backup(b"dados", "senha-segura", b"0123456789abcdef", b"abcdefghijkl").unwrap();
    let last = file.len() - 1;
    file[last] ^= 1;
    assert_eq!(open_backup(&file, "senha-segura").unwrap_err().code, "backup_password");
}

#[test]
fn foreign_file_is_not_a_backup() {
    let error = open_backup(b"not a backup at all, really not one", "senha-segura").unwrap_err();
    assert_eq!(error.code, "backup_format");
    let mut file = seal_backup(b"dados", "senha-segura", b"0123456789abcdef", b"abcdefghijkl").unwrap();
    file[0] = b'X';
    assert_eq!(open_backup(&file, "senha-segura").unwrap_err().code, "backup_format");
}

#[test]
fn short_password_is_refused_when_opening() {
    let file = seal_backup(b"dados", "senha-segura", b"0123456789abcdef", b"abcdefghijkl").unwrap();
    assert_eq!(open_backup(&file, "curta").unwrap_err().code, "backup_password");
}

#[test]
fn exported_backup_opens_and_uses_fresh_salt() {
    let a = export_backup(b"perfis", "senha-segura").unwrap();
    let b = export_backup(b"perfis", "senha-segura").unwrap();
    assert_ne!(a, b);
    assert_eq!(open_backup(&a, "senha-segura").unwrap(), b"perfis".to_vec());
    assert_eq!(open_backup(&b, "senha-segura").unwrap(), b"perfis".to_vec());
    assert_eq!(export_backup(b"perfis", "curta").unwrap_err().code, "backup_password");
}

#[test]
fn format_and_count_checks() {
    assert!(check_backup_format(1).is_ok());
    let error = check_backup_format(2).unwrap_err();
    assert_eq!(error.message, "Versão de backup ainda não suportada.");
    assert!(check_export_count(3).is_ok());
    assert_eq!(check_export_count(0).unwrap_err().message, "Não há perfis para exportar.");
}

#[test]
fn export_name_carries_the_time() {
    assert_eq!(backup_export_name(1700000000), "Firaw-SSH-backup-1700000000.firawssh");
}

fn profile(id: &str, name: &str) -> Profile {
    Profile {
        id: id.into(),
        name: name.into(),
        host: "server.example".into(),
        username: "deploy".into(),
        ..Profile::default()
    }
}

#[test]
fn import_replaces_same_id_and_appends_new_ones() {
    let current = vec![profile("a", "Antigo"), profile("b", "Outro")];
    let items = vec![
        PortableProfile { profile: profile("a", "Novo"), password: Some("s1".into()), passphrase: None },
        PortableProfile { profile: profile("c", "Terceiro"), password: None, passphrase: Some("p".into()) },
    ];
    let plan = plan_import(current, items);
    let (list, count) = plan.outcome.unwrap();
    assert_eq!(count, 2);
    let names: Vec<&str> = list.iter().map(|p| p.name.as_str()).collect();
    assert_eq!(names, vec!["Novo", "Outro", "Terceiro"]);
    assert_eq!(plan.secrets.len(), 2);
    assert_eq!(plan.secrets[0].profile_id, "a");
    assert_eq!(plan.secrets[0].kind, "password");
    assert_eq!(plan.secrets[0].value, "s1");
    assert_eq!(plan.secrets[1].profile_id, "c");
    assert_eq!(plan.secrets[1].kind, "passphrase");
}

#[test]
fn import_stops_at_an_invalid_profile() {
    let mut bad = profile("x", "Sem servidor");
    bad.host = String::new();
    let items = vec![
        PortableProfile { profile: profile("a", "Bom"), password: Some("s".into()), passphrase: None },
        PortableProfile { profile: bad, password: Some("t".into()), passphrase: None },
    ];
    let plan = plan_import(Vec::new(), items);
    let error = plan.outcome.unwrap_err();
    assert_eq!(error.code, "validation");
    assert_eq!(plan.secrets.len(), 1);
    assert_eq!(plan.secrets[0].profile_id, "a");
}
