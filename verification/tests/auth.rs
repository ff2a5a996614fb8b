use firaw_ssh::auth::{
    after_key_attempt, agent_failure, answer_prompts, auth_start, check_key_passphrase,
    connection_secrets, list_has_exec, not_authenticated, password_factor_failure,
    password_factor_plan, AfterKey, AuthStart,
};
use firaw_ssh::profile::Profile;

fn profile(method: &str) -> Profile {
    Profile {
        host: "server.example".into(),
        username: "deploy".into(),
        auth_method: method.into(),
        key_path: "/keys/id".into(),
        ..Profile::default()
    }
}

#[test]
fn typed_secret_wins_unless_empty() {
    let p = profile("password");
    let (pw, pp) = connection_secrets(&p, &Some("typed".into()), &Some("x".into()), &Some("stored".into()), &None);
    assert_eq!(pw, Some("typed".to_string()));
    assert_eq!(pp, None);
    let (pw, _) = connection_secrets(&p, &Some(String::new()), &None, &Some("stored".into()), &None);
    assert_eq!(pw, Some("stored".to_string()));
}

#[test]
fn key_profile_uses_passphrase_and_optional_password() {
    let mut p = profile("key");
    p.key_passphrase_enabled = true;
    p.account_password_enabled = false;
    let (pw, pp) = connection_secrets(&p, &Some("a".into()), &None, &None, &Some("frase".into()));
    assert_eq!(pw, None);
    assert_eq!(pp, Some("frase".to_string()));
    p.account_password_enabled = true;
    p.key_passphrase_enabled = false;
    let (pw, pp) = connection_secrets(&p, &Some("a".into()), &Some("b".into()), &None, &None);
    assert_eq!(pw, Some("a".to_string()));
    assert_eq!(pp, None);
}

#[test]
fn start_follows_the_method() {
    assert!(matches!(auth_start(&profile("password"), &Some("s".into())), AuthStart::Password { ref password } if password == "s"));
    match auth_start(&profile("password"), &None) {
        AuthStart::Fail(e) => assert_eq!(e.code, "password_required"),
        _ => panic!("expected a failure"),
    }
    assert!(matches!(auth_start(&profile("key"), &None), AuthStart::Key));
    assert!(matches!(auth_start(&profile("agent"), &None), AuthStart::Agent));
    match auth_start(&profile("kerberos"), &None) {
        AuthStart::Fail(e) => assert_eq!(e.message, "Método de autenticação desconhecido."),
        _ => panic!("expected a failure"),
    }
}

#[test]
fn protected_key_needs_passphrase() {
    let mut p = profile("key");
    p.key_passphrase_enabled = true;
    assert_eq!(check_key_passphrase(&p, false).unwrap_err().code, "key_passphrase_required");
    assert!(check_key_passphrase(&p, true).is_ok());
    p.key_passphrase_enabled = false;
    assert!(check_key_passphrase(&p, false).is_ok());
}

#[test]
fn method_lists_are_comma_separated() {
    assert!(list_has_exec("publickey,password", "password"));
    assert!(!list_has_exec("publickey,passwords", "password"));
    assert!(!list_has_exec("", "password"));
    assert_eq!(password_factor_plan("publickey,keyboard-interactive"), (false, true));
    assert_eq!(password_factor_plan(""), (true, true));
    assert_eq!(password_factor_plan("password"), (true, false));
}

#[test]
fn password_refusal_lists_errors_or_methods() {
    let e = password_factor_failure("root", "publickey", &Vec::new());
    assert_eq!(e.message, "A senha do usuário root foi recusada. métodos oferecidos pelo servidor: publickey");
    let e = password_factor_failure("root", "password", &vec!["a".to_string(), "b".to_string()]);
    assert_eq!(e.message, "A senha do usuário root foi recusada. a; b");
    assert_eq!(e.code, "authentication");
}

#[test]
fn after_key_decisions() {
    let mut p = profile("key");
    p.account_password_enabled = true;
    match after_key_attempt(&p, "/keys/id", &Some("bad".into()), "publickey,password", &None) {
        AfterKey::Fail(e) => assert!(e.message.starts_with("Não foi possível assinar com a chave privada. /keys/id")),
        _ => panic!("expected a failure"),
    }
    match after_key_attempt(&p, "/keys/id", &None, "password", &Some("pw".into())) {
        AfterKey::SecondFactor { password, offered } => {
            assert_eq!(password, "pw");
            assert_eq!(offered, "password");
        }
        _ => panic!("expected a second factor"),
    }
    match after_key_attempt(&p, "/keys/id", &None, "keyboard-interactive", &None) {
        AfterKey::Fail(e) => assert_eq!(e.code, "root_password_required"),
        _ => panic!("expected a failure"),
    }
    p.account_password_enabled = false;
    match after_key_attempt(&p, "/keys/id", &None, "password", &Some("pw".into())) {
        AfterKey::Fail(e) => assert_eq!(e.code, "account_password_disabled"),
        _ => panic!("expected a failure"),
    }
    match after_key_attempt(&p, "/keys/id", &None, "hostbased", &None) {
        AfterKey::Fail(e) => assert!(e.message.ends_with("Detalhe: o servidor não ofereceu a próxima etapa")),
        _ => panic!("expected a failure"),
    }
}

#[test]
fn other_authentication_errors() {
    assert_eq!(agent_failure("sem chaves").message, "Nenhuma chave aceita no agente SSH: sem chaves");
    assert_eq!(not_authenticated().message, "O servidor não autenticou este usuário.");
    assert_eq!(answer_prompts("pw", 2), vec!["pw".to_string(), "pw".to_string()]);
    assert!(answer_prompts("pw", 0).is_empty());
}
