use firaw_ssh::clock::{seconds_or_zero, unix_now};
use firaw_ssh::encoding::{ipv4_text, new_id, uuid_text};
use firaw_ssh::error::AppError;
use firaw_ssh::pump::{Pump, SideRead};
use firaw_ssh::vault::{
    credential_account, secret_action, secret_deleted, secret_probed, secret_read,
    secret_stored, vault_unavailable, SecretAction, VaultError,
};

#[test]
fn errors_carry_code_message_and_detail() {
    let e = AppError::new("validation", "Falta o servidor.");
    assert_eq!((e.code.as_str(), e.message.as_str(), e.detail.clone()), ("validation", "Falta o servidor.", None));
    let d = AppError::detail("host_unknown", "Confirme.", "SHA256:x");
    assert_eq!(d.detail, Some("SHA256:x".to_string()));
}

#[test]
fn clock_is_past_2023() {
    assert!(unix_now() > 1_700_000_000);
}

#[test]
fn identifiers_and_addresses() {
    let a = new_id();
    let b = new_id();
    assert_eq!(a.len(), 36);
    assert_ne!(a, b);
    assert_eq!(a.as_bytes()[8], b'-');
    assert_eq!(ipv4_text([192, 168, 0, 10]), "192.168.0.10");
    let bytes: [u8; 16] = [0x12, 0x34, 0x56, 0x78, 0x9a, 0xbc, 0xde, 0xf0, 0x01, 0x23, 0x45, 0x67, 0x89, 0xab, 0xcd, 0xef];
    assert_eq!(uuid_text(&bytes), "12345678-9abc-def0-0123-456789abcdef");
}

#[test]
fn vault_accounts_and_actions() {
    assert_eq!(credential_account("p1", "password"), "p1:password");
    assert!(matches!(secret_action(Some("s".into()), true), SecretAction::Store(ref v) if v == "s"));
    assert!(matches!(secret_action(Some(String::new()), true), SecretAction::Probe));
    assert!(matches!(secret_action(None, true), SecretAction::Probe));
    assert!(matches!(secret_action(Some("s".into()), false), SecretAction::Delete));
}

#[test]
fn vault_answers() {
    let missing = || VaultError { no_entry: true, text: "no entry".into() };
    let broken = || VaultError { no_entry: false, text: "locked".into() };
    assert_eq!(secret_read(Ok("v".into())).unwrap(), Some("v".to_string()));
    assert_eq!(secret_read(Err(missing())).unwrap(), None);
    assert_eq!(secret_read(Err(broken())).unwrap_err().message, "Não foi possível ler o cofre: locked");
    assert_eq!(secret_stored(Ok(())).unwrap(), true);
    assert_eq!(secret_stored(Err(broken())).unwrap_err().message, "Não foi possível proteger a credencial: locked");
    assert!(secret_probed(&Ok("v".into())));
    assert!(!secret_probed(&Err(missing())));
    assert_eq!(secret_deleted(Ok(())).unwrap(), false);
    assert_eq!(secret_deleted(Err(missing())).unwrap(), false);
    assert_eq!(secret_deleted(Err(broken())).unwrap_err().message, "Não foi possível remover a credencial: locked");
    assert_eq!(vault_unavailable(&broken()).message, "Cofre seguro do sistema indisponível: locked");
}

#[test]
fn relay_keeps_order_and_ends_when_both_sides_end() {
    let mut p = Pump::new();
    assert!(p.reads_local() && p.reads_remote());
    assert_eq!(p.on_local_read(SideRead::Data(b"hello ".to_vec())).unwrap(), false);
    assert_eq!(p.on_local_read(SideRead::WouldBlock).unwrap(), false);
    assert_eq!(p.on_local_read(SideRead::Data(b"world".to_vec())).unwrap(), false);
    assert_eq!(p.pending_remote(), b"hello world");
    p.on_remote_written(3);
    assert_eq!(p.pending_remote(), b"lo world");
    p.on_remote_read(SideRead::Data(b"ok".to_vec())).unwrap();
    assert_eq!(p.pending_local(), b"ok");
    assert_eq!(p.on_local_read(SideRead::Eof).unwrap(), true);
    assert!(!p.reads_local());
    p.on_remote_read(SideRead::Eof).unwrap();
    assert!(!p.finished());
    p.on_remote_written(8);
    p.on_local_written(2);
    assert!(p.finished());
    let e = Pump::new().on_remote_read(SideRead::Failed("reset".into())).unwrap_err();
    assert_eq!((e.code.as_str(), e.message.as_str()), ("tunnel", "reset"));
}

#[test]
fn clock_readings_before_the_epoch_count_as_zero() {
    assert_eq!(seconds_or_zero(Some(1_700_000_123)), 1_700_000_123);
    assert_eq!(seconds_or_zero(None), 0);
}

#[test]
fn identifiers_carry_the_random_uuid_marks() {
    for _ in 0..20 {
        let id = new_id();
        let c: Vec<char> = id.chars().collect();
        assert_eq!(c[14], '4');
        assert!(matches!(c[19], '8' | '9' | 'a' | 'b'));
    }
}
