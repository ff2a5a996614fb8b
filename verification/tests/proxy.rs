use firaw_ssh::profile::Profile;
use firaw_ssh::proxy::{
    check_jump_choice, check_jump_profile, check_socks5_choice, first_line_text,
    http_connect_request, http_connect_status, http_response_complete, http_status_check,
    proxy_route, socks5_connect_request, socks5_destination_name, socks5_greeting,
    socks5_method_count, socks5_method_reply, socks5_ipv4_host, socks5_port, socks5_reply_address,
    socks5_request_destination, socks5_success_reply, ProxyRoute, Socks5AddressLength,
    Socks5Destination,
};

fn profile() -> Profile {
    Profile { id: "p1".into(), host: "server.example".into(), port: 2222, ..Profile::default() }
}

#[test]
fn routes() {
    assert!(matches!(proxy_route("none"), Ok(ProxyRoute::Direct)));
    assert!(matches!(proxy_route(""), Ok(ProxyRoute::Direct)));
    assert!(matches!(proxy_route("http"), Ok(ProxyRoute::Http)));
    assert!(matches!(proxy_route("socks5"), Ok(ProxyRoute::Socks5)));
    assert!(matches!(proxy_route("ssh"), Ok(ProxyRoute::SshJump)));
    let e = proxy_route("socks4").unwrap_err();
    assert_eq!((e.code.as_str(), e.message.as_str()), ("proxy", "Tipo de proxy desconhecido."));
}

#[test]
fn http_connect() {
    assert_eq!(
        http_connect_request(&profile()),
        "CONNECT server.example:2222 HTTP/1.1\r\nHost: server.example:2222\r\nProxy-Connection: Keep-Alive\r\n\r\n"
    );
    assert!(!http_response_complete(b"HTTP/1.1 200 OK\r\n"));
    assert!(http_response_complete(b"HTTP/1.1 200 OK\r\n\r\n"));
    assert!(http_response_complete(&vec![b'a'; 16384]));
    assert!(!http_response_complete(b""));
}

#[test]
fn http_status() {
    assert!(http_connect_status(b"HTTP/1.1 200 Connection established\r\n\r\n").is_ok());
    let e = http_connect_status(b"HTTP/1.1 407 Proxy Authentication Required\r\n\r\n").unwrap_err();
    assert_eq!(e.message, "O proxy HTTP recusou a conexão: HTTP/1.1 407 Proxy Authentication Required");
    let e = http_connect_status(b"").unwrap_err();
    assert_eq!(e.message, "O proxy HTTP recusou a conexão: resposta inválida");
    let e = http_connect_status(&[0xff, b' ', b'5', b'0', b'0', b'\n']).unwrap_err();
    assert_eq!(e.message, "O proxy HTTP recusou a conexão: \u{fffd} 500");
    assert!(http_status_check("HTTP/1.0 200 OK").is_ok());
    assert_eq!(first_line_text("a\r\nb"), Some("a".to_string()));
    assert_eq!(first_line_text("a\rb"), Some("a\rb".to_string()));
    assert_eq!(first_line_text("\n"), Some(String::new()));
    assert_eq!(first_line_text(""), None);
}

#[test]
fn socks5_client() {
    assert_eq!(socks5_greeting(), vec![5, 1, 0]);
    assert!(check_socks5_choice(&[5, 0]).is_ok());
    assert_eq!(check_socks5_choice(&[5, 2]).unwrap_err().message, "O proxy SOCKS5 exige autenticação não configurada.");
    let req = socks5_connect_request(&profile()).unwrap();
    let mut expected = vec![5, 1, 0, 3, 14];
    expected.extend_from_slice(b"server.example");
    expected.extend_from_slice(&[0x08, 0xae]);
    assert_eq!(req, expected);
    let long = Profile { host: "a".repeat(256), ..profile() };
    assert_eq!(socks5_connect_request(&long).unwrap_err().message, "Nome do servidor longo demais para SOCKS5.");
    assert!(matches!(socks5_reply_address(&[5, 0, 0, 1]), Ok(Socks5AddressLength::Fixed(4))));
    assert!(matches!(socks5_reply_address(&[5, 0, 0, 4]), Ok(Socks5AddressLength::Fixed(16))));
    assert!(matches!(socks5_reply_address(&[5, 0, 0, 3]), Ok(Socks5AddressLength::Counted)));
    assert_eq!(socks5_reply_address(&[5, 0, 0, 9]).unwrap_err().message, "Resposta SOCKS5 inválida.");
    assert_eq!(socks5_reply_address(&[5, 5, 0, 1]).unwrap_err().message, "O proxy SOCKS5 recusou o destino (código 5).");
}

#[test]
fn socks5_server() {
    assert_eq!(socks5_method_count(&[5, 2]).unwrap(), 2);
    assert_eq!(socks5_method_count(&[4, 1]).unwrap_err().message, "Somente SOCKS5 é aceito.");
    let ok = socks5_method_reply(&[2, 0]);
    assert_eq!(ok.reply, vec![5, 0]);
    assert!(ok.outcome.is_ok());
    let refused = socks5_method_reply(&[2]);
    assert_eq!(refused.reply, vec![5, 255]);
    assert_eq!(refused.outcome.unwrap_err().code, "socks");
    assert!(matches!(socks5_request_destination(&[5, 1, 0, 1]), Ok(Socks5Destination::Ipv4)));
    assert!(matches!(socks5_request_destination(&[5, 1, 0, 4]), Ok(Socks5Destination::Ipv6)));
    assert!(matches!(socks5_request_destination(&[5, 1, 0, 3]), Ok(Socks5Destination::Name)));
    assert_eq!(socks5_request_destination(&[5, 2, 0, 1]).unwrap_err().message, "O túnel SOCKS aceita somente conexões TCP.");
    assert_eq!(socks5_request_destination(&[5, 1, 0, 7]).unwrap_err().message, "Tipo de endereço SOCKS inválido.");
    assert_eq!(socks5_destination_name(b"example.com".to_vec()).unwrap(), "example.com");
    assert_eq!(socks5_destination_name(vec![0xc3, 0x28]).unwrap_err().message, "Destino SOCKS inválido.");
    assert_eq!(socks5_port(&[0x1f, 0x90]), 8080);
    assert_eq!(socks5_success_reply(), vec![5, 0, 0, 1, 127, 0, 0, 1, 0, 0]);
}

#[test]
fn jump_hosts() {
    let mut p = profile();
    p.proxy_profile_id = String::new();
    assert_eq!(check_jump_choice(&p).unwrap_err().message, "Escolha outro perfil como servidor intermediário SSH.");
    p.proxy_profile_id = "p1".into();
    assert!(check_jump_choice(&p).is_err());
    p.proxy_profile_id = "p2".into();
    assert!(check_jump_choice(&p).is_ok());
    let mut jump = profile();
    jump.proxy_type = "ssh".into();
    assert_eq!(check_jump_profile(&jump).unwrap_err().message, "O perfil intermediário não pode depender de outro salto SSH.");
    jump.proxy_type = "http".into();
    assert!(check_jump_profile(&jump).is_ok());
}

#[test]
fn socks5_ipv4_destination_text() {
    assert_eq!(socks5_ipv4_host([10, 0, 0, 2]), "10.0.0.2");
    assert_eq!(socks5_ipv4_host([255, 0, 100, 1]), "255.0.100.1");
}
