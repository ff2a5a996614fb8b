use firaw_ssh::hostkey::same_fingerprint;
use firaw_ssh::release::{installer_release_version, parse_release_version};

#[test]
fn fingerprint_comparison_accepts_legacy_base64_padding() {
    assert!(same_fingerprint("SHA256:abc=", "SHA256:abc"));
    assert!(!same_fingerprint("SHA256:abc", "SHA256:def"));
}

#[test]
fn updater_accepts_only_newer_semantic_release() {
    assert_eq!(
        installer_release_version("firaw ssh_1.4.2_x64-setup.exe"),
        Some((1, 4, 2))
    );
    assert_eq!(installer_release_version("outro-programa.exe"), None);
    assert!(parse_release_version("0.3.1").unwrap() > parse_release_version("0.3.0").unwrap());
}

use firaw_ssh::hostkey::{fingerprint_of, host_trusted, trust_host, verify_host};
use firaw_ssh::profile::Profile;
use firaw_ssh::release::check_update_installer;

#[test]
fn fingerprint_is_unpadded_base64_of_sha256() {
    assert_eq!(fingerprint_of(b"abc"), "SHA256:ungWv48Bz+pBQUDeXa4iI7ADYaOWF3qctBD/YfIAFa0");
}

#[test]
fn first_connection_asks_and_change_blocks() {
    let mut p = Profile { id: "p1".into(), ..Profile::default() };
    let e = verify_host(&p, "SHA256:abc").unwrap_err();
    assert_eq!(e.code, "host_unknown");
    assert_eq!(e.detail, Some("SHA256:abc".to_string()));
    p.host_key_sha256 = "SHA256:abc=".into();
    assert_eq!(verify_host(&p, "SHA256:abc").unwrap(), "SHA256:abc");
    assert!(host_trusted(&p, "SHA256:abc"));
    let e = verify_host(&p, "SHA256:xyz").unwrap_err();
    assert_eq!(e.code, "host_mismatch");
    assert_eq!(e.message, "A identidade do servidor mudou. A conexão foi bloqueada.");
}

#[test]
fn trusting_a_host_records_its_fingerprint() {
    let mut profiles = vec![Profile { id: "a".into(), ..Profile::default() }, Profile { id: "b".into(), ..Profile::default() }];
    let saved = trust_host(&mut profiles, "b", "SHA256:k").unwrap();
    assert_eq!(saved.host_key_sha256, "SHA256:k");
    assert_eq!(profiles[1].host_key_sha256, "SHA256:k");
    assert_eq!(profiles[0].host_key_sha256, "");
    assert!(verify_host(&profiles[1], "SHA256:k").is_ok());
    assert_eq!(trust_host(&mut profiles, "b", "MD5:k").unwrap_err().message, "Impressão digital inválida.");
    assert_eq!(trust_host(&mut profiles, "zz", "SHA256:k").unwrap_err().message, "Perfil não encontrado.");
}

#[test]
fn update_installer_checks() {
    assert_eq!(check_update_installer("firaw ssh_1.4.2_x64-setup.exe", true, "1.4.1").unwrap(), (1, 4, 2));
    let e = check_update_installer("firaw ssh_1.4.2_x64-setup.exe", true, "1.4.2").unwrap_err();
    assert_eq!(e.message, "Escolha uma versão mais nova que 1.4.2.");
    assert_eq!(check_update_installer("firaw ssh_1.4.2_x64-setup.exe", false, "1.0.0").unwrap_err().message, "Escolha um instalador válido do Firaw SSH.");
    assert_eq!(check_update_installer("firaw ssh_1.4.2_x64-setup.msi", true, "1.0.0").unwrap_err().code, "update");
    assert_eq!(check_update_installer("outro.exe", true, "1.0.0").unwrap_err().message, "Escolha um instalador válido do Firaw SSH.");
    assert_eq!(check_update_installer("firaw ssh_2.0.0_x64-setup.exe", true, "x").unwrap_err().message, "A versão atual é inválida.");
    assert_eq!(parse_release_version("1.2"), None);
    assert_eq!(parse_release_version("1.2.3.4"), None);
    assert_eq!(parse_release_version("1.2.x"), None);
    assert_eq!(parse_release_version("10.20.30"), Some((10, 20, 30)));
}

#[test]
fn installer_name_is_read_without_case() {
    assert_eq!(check_update_installer("Firaw SSH_1.4.2_x64-setup.EXE", true, "1.0.0").unwrap(), (1, 4, 2));
}

#[test]
fn printed_versions_read_back() {
    for (a, b, c) in [(0u64, 10u64, 0u64), (0, 9, 9), (7, 0, 123), (u64::MAX, 1, u64::MAX)] {
        assert_eq!(parse_release_version(&format!("{a}.{b}.{c}")), Some((a, b, c)));
    }
    assert!(parse_release_version("0.10.0").unwrap() > parse_release_version("0.9.9").unwrap());
}
