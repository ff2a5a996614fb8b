use firaw_ssh::profile::{Profile, TunnelRule};
use firaw_ssh::tunnel::{
    active_tunnel_rules, listen_failure, rdp_client_argument, rdp_tunnel_key, rdp_tunnel_rule,
    remote_listen_host, tunnel_error_text, tunnel_kind, tunnel_started, TunnelKind,
};

fn rule(name: &str, kind: &str, enabled: bool) -> TunnelRule {
    TunnelRule {
        name: name.into(),
        kind: kind.into(),
        listen_host: "127.0.0.1".into(),
        listen_port: 8080,
        target_host: "10.0.0.5".into(),
        target_port: 80,
        enabled,
    }
}

#[test]
fn only_enabled_rules_start() {
    let mut p = Profile::default();
    p.tunnels = vec![rule("a", "local", false), rule("b", "remote", true)];
    let active = active_tunnel_rules(&p).unwrap();
    assert_eq!(active.len(), 1);
    assert_eq!(active[0].name, "b");
}

#[test]
fn no_active_rule_is_an_error() {
    let mut p = Profile::default();
    p.tunnels = vec![rule("a", "local", false)];
    assert_eq!(active_tunnel_rules(&p).unwrap_err().message, "Este perfil não tem encaminhamentos ativos.");
}

#[test]
fn first_unusable_rule_is_reported() {
    let mut p = Profile::default();
    let mut bad = rule("sem destino", "local", true);
    bad.target_port = 0;
    let mut dynamic = rule("socks", "dynamic", true);
    dynamic.target_host = String::new();
    dynamic.target_port = 0;
    let mut worse = rule("sem escuta", "local", true);
    worse.listen_host = "  ".into();
    p.tunnels = vec![dynamic, bad, worse];
    let e = active_tunnel_rules(&p).unwrap_err();
    assert_eq!(e.code, "tunnel");
    assert_eq!(e.message, "Revise os endereços e a porta de destino da regra “sem destino”.");
}

#[test]
fn kinds() {
    assert!(matches!(tunnel_kind("local"), Ok(TunnelKind::Local)));
    assert!(matches!(tunnel_kind("dynamic"), Ok(TunnelKind::Dynamic)));
    assert!(matches!(tunnel_kind("remote"), Ok(TunnelKind::Remote)));
    assert_eq!(tunnel_kind("LOCAL").unwrap_err().message, "Tipo de encaminhamento desconhecido.");
}

#[test]
fn started_tunnels_are_announced() {
    let r = rule("web", "local", true);
    let s = tunnel_started(&r, &TunnelKind::Local, 49152);
    assert_eq!((s.name.as_str(), s.listen_host.as_str(), s.listen_port, s.target.as_str()), ("web", "127.0.0.1", 49152, "10.0.0.5:80"));
    assert_eq!(tunnel_started(&r, &TunnelKind::Dynamic, 1080).target, "SOCKS5 dinâmico");
    assert_eq!(tunnel_started(&r, &TunnelKind::Remote, 9000).target, "10.0.0.5:80 (neste PC)");
}

#[test]
fn tunnel_errors() {
    let r = rule("web", "local", true);
    assert_eq!(listen_failure(&r, false, "em uso").message, "Não foi possível abrir 127.0.0.1:8080: em uso");
    assert_eq!(listen_failure(&r, true, "em uso").message, "Não foi possível abrir o SOCKS 127.0.0.1:8080: em uso");
    assert_eq!(tunnel_error_text("web", "recusado"), "web: recusado");
    let mut blank = r.clone();
    blank.listen_host = " ".into();
    assert_eq!(remote_listen_host(&blank), None);
    assert_eq!(remote_listen_host(&r), Some("127.0.0.1".to_string()));
}

#[test]
fn remote_desktop_tunnel() {
    let mut p = Profile::default();
    assert_eq!(rdp_tunnel_rule(&p).unwrap_err().message, "Ative a Área de trabalho remota neste perfil.");
    p.rdp_enabled = true;
    p.rdp_host = " ".into();
    assert_eq!(rdp_tunnel_rule(&p).unwrap_err().message, "Informe o computador e a porta RDP.");
    p.rdp_host = "pc.local".into();
    p.rdp_port = 3389;
    let r = rdp_tunnel_rule(&p).unwrap();
    assert_eq!((r.kind.as_str(), r.listen_host.as_str(), r.listen_port, r.target_host.as_str(), r.target_port), ("local", "127.0.0.1", 0, "pc.local", 3389));
    assert_eq!(rdp_tunnel_key("abc"), "rdp:abc");
    assert_eq!(rdp_client_argument(50000), "/v:127.0.0.1:50000");
}
