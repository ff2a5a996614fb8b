//! How a connection reaches the server: directly, through an HTTP or SOCKS5
//! proxy, or through another profile used as an SSH jump host; and the
//! SOCKS5 server side of a dynamic tunnel.
use vstd::prelude::*;

use crate::encoding::{ipv4_notation, ipv4_text, utf8_lossy, utf8_lossy_text, utf8_text};
use crate::error::{fails_with, AppError};
use crate::profile::Profile;
use crate::text::{
    chars_of, contains_chars, decimal, decimal_text, endpoint, endpoint_text, find_char,
    find_char_exec, has_infix, join2, join3, same_text, string_of, string_of_range,
};
use vstd::utf8::{decode_utf8, encode_utf8, valid_utf8};

verus! {

/// The ways to reach a server.
#[derive(Debug)]
pub enum ProxyRoute {
    Direct,
    Http,
    Socks5,
    SshJump,
}

/// The route a profile's proxy type names: `none` or nothing for a direct
/// connection, `http`, `socks5` or `ssh`.
pub fn proxy_route(proxy_type: &str) -> (r: Result<ProxyRoute, AppError>)
    ensures
        (proxy_type@ == "none"@ || proxy_type@ == ""@) ==> r matches Ok(ProxyRoute::Direct),
        proxy_type@ == "http"@ ==> r matches Ok(ProxyRoute::Http),
        proxy_type@ == "socks5"@ ==> r matches Ok(ProxyRoute::Socks5),
        proxy_type@ == "ssh"@ ==> r matches Ok(ProxyRoute::SshJump),
        !(proxy_type@ == "none"@ || proxy_type@ == ""@ || proxy_type@ == "http"@ || proxy_type@
            == "socks5"@ || proxy_type@ == "ssh"@) ==> fails_with(
            r,
            "proxy"@,
            "Tipo de proxy desconhecido."@,
        ),
{
    proof {
        reveal_strlit("none");
        reveal_strlit("");
        reveal_strlit("http");
        reveal_strlit("socks5");
        reveal_strlit("ssh");
        assert("none"@[0] != "http"@[0] && "none"@[0] != "socks5"@[0] && "none"@[0] != "ssh"@[0]);
        assert("http"@[0] != "socks5"@[0] && "http"@[0] != "ssh"@[0]);
        assert("socks5"@[1] != "ssh"@[1]);
        assert(""@.len() == 0 && "http"@.len() == 4 && "socks5"@.len() == 6 && "ssh"@.len() == 3);
    }
    if same_text(proxy_type, "none") || same_text(proxy_type, "") {
        Ok(ProxyRoute::Direct)
    } else if same_text(proxy_type, "http") {
        Ok(ProxyRoute::Http)
    } else if same_text(proxy_type, "socks5") {
        Ok(ProxyRoute::Socks5)
    } else if same_text(proxy_type, "ssh") {
        Ok(ProxyRoute::SshJump)
    } else {
        Err(AppError::new("proxy", "Tipo de proxy desconhecido."))
    }
}

// ---------------------------------------------------------------------------
// HTTP CONNECT
// ---------------------------------------------------------------------------

/// The request that asks an HTTP proxy for a tunnel to `host:port`.
pub open spec fn connect_request(host: Seq<char>, port: u16) -> Seq<char> {
    "CONNECT "@ + endpoint(host, port) + " HTTP/1.1\r\nHost: "@ + endpoint(host, port)
        + "\r\nProxy-Connection: Keep-Alive\r\n\r\n"@
}

/// The CONNECT request for the server of `profile`.
pub fn http_connect_request(profile: &Profile) -> (r: String)
    ensures
        r@ == connect_request(profile@.host, profile@.port),
{
    let e = endpoint_text(&profile.host, profile.port);
    let a = join3("CONNECT ", e.as_str(), " HTTP/1.1\r\nHost: ");
    let b = join3(a.as_str(), e.as_str(), "\r\nProxy-Connection: Keep-Alive\r\n\r\n");
    b
}

/// The most bytes of a proxy's answer that are read before it is judged.
pub const HTTP_HEAD_LIMIT: usize = 16384;

/// Reading a proxy's answer stops at the blank line that ends its head, or
/// once the limit is reached.
pub open spec fn http_head_done(response: Seq<u8>) -> bool {
    response.len() >= HTTP_HEAD_LIMIT || (response.len() >= 4 && response.subrange(
        response.len() - 4,
        response.len() as int,
    ) == seq![13u8, 10u8, 13u8, 10u8])
}

/// Whether the answer read so far is complete.
pub fn http_response_complete(response: &[u8]) -> (r: bool)
    ensures
        r == http_head_done(response@),
{
    let n = response.len();
    if n >= HTTP_HEAD_LIMIT {
        return true;
    }
    if n < 4 {
        return false;
    }
    let r = response[n - 4] == 13 && response[n - 3] == 10 && response[n - 2] == 13 && response[n
        - 1] == 10;
    proof {
        let tail = response@.subrange(n - 4, n as int);
        if r {
            assert(tail =~= seq![13u8, 10u8, 13u8, 10u8]);
        } else {
            if tail == seq![13u8, 10u8, 13u8, 10u8] {
                assert(tail[0] == response@[n - 4]);
                assert(tail[1] == response@[n - 3]);
                assert(tail[2] == response@[n - 2]);
                assert(tail[3] == response@[n - 1]);
            }
        }
    }
    r
}

/// The first line of a text (`str::lines`): nothing for an empty text, else
/// what comes before the first line feed, without a carriage return that
/// stands just before it.
pub open spec fn first_line(s: Seq<char>) -> Option<Seq<char>> {
    if s.len() == 0 {
        None
    } else {
        match find_char(s, '\n') {
            Some(i) => if i > 0 && s[i - 1] == '\r' {
                Some(s.take(i - 1))
            } else {
                Some(s.take(i as int))
            },
            None => Some(s),
        }
    }
}

/// What a proxy's answer (as text) decides: the tunnel is open when its first
/// line holds ` 200 `; otherwise the refusal quotes that line, or says that
/// the answer is invalid when there is none.
pub open spec fn http_verdict(status: Seq<char>, r: Result<(), AppError>) -> bool {
    match first_line(status) {
        Some(line) => if has_infix(line, " 200 "@) {
            r is Ok
        } else {
            fails_with(r, "proxy"@, "O proxy HTTP recusou a conexão: "@ + line)
        },
        None => fails_with(r, "proxy"@, "O proxy HTTP recusou a conexão: resposta inválida"@),
    }
}

/// The first line of `s`.
pub fn first_line_text(s: &str) -> (r: Option<String>)
    ensures
        match first_line(s@) {
            Some(l) => r matches Some(x) && x@ == l,
            None => r is None,
        },
{
    let v = chars_of(s);
    if v.len() == 0 {
        return None;
    }
    match find_char_exec(v.as_slice(), '\n') {
        Some(i) => {
            proof {
                crate::text::lemma_find_char_bound(s@, '\n');
            }
            if i > 0 && v[i - 1] == '\r' {
                Some(string_of_range(v.as_slice(), 0, i - 1))
            } else {
                Some(string_of_range(v.as_slice(), 0, i))
            }
        },
        None => Some(string_of(v.as_slice())),
    }
}

/// Judges a proxy's answer given as text.
pub fn http_status_check(status: &str) -> (r: Result<(), AppError>)
    ensures
        http_verdict(status@, r),
{
    match first_line_text(status) {
        Some(line) => {
            let lv = chars_of(line.as_str());
            let p = chars_of(" 200 ");
            if contains_chars(lv.as_slice(), p.as_slice()) {
                Ok(())
            } else {
                let m = join2("O proxy HTTP recusou a conexão: ", line.as_str());
                Err(AppError::new("proxy", m.as_str()))
            }
        },
        None => Err(AppError::new("proxy", "O proxy HTTP recusou a conexão: resposta inválida")),
    }
}

/// Judges a proxy's answer as read, its bytes taken as UTF-8 with invalid
/// sequences replaced.
pub fn http_connect_status(response: &[u8]) -> (r: Result<(), AppError>)
    ensures
        http_verdict(utf8_lossy(response@), r),
{
    let status = utf8_lossy_text(response);
    http_status_check(status.as_str())
}

// ---------------------------------------------------------------------------
// SOCKS5 client
// ---------------------------------------------------------------------------

/// The greeting sent to a SOCKS5 proxy: version 5, one method, no
/// authentication.
pub fn socks5_greeting() -> (r: Vec<u8>)
    ensures
        r@ == seq![5u8, 1u8, 0u8],
{
    let r: Vec<u8> = vec![5, 1, 0];
    assert(r@ =~= seq![5u8, 1u8, 0u8]);
    r
}

/// The proxy's answer to the greeting must choose no authentication.
pub fn check_socks5_choice(reply: &[u8; 2]) -> (r: Result<(), AppError>)
    ensures
        reply@ == seq![5u8, 0u8] ==> r is Ok,
        reply@ != seq![5u8, 0u8] ==> fails_with(
            r,
            "proxy"@,
            "O proxy SOCKS5 exige autenticação não configurada."@,
        ),
{
    if reply[0] == 5 && reply[1] == 0 {
        assert(reply@ =~= seq![5u8, 0u8]);
        Ok(())
    } else {
        proof {
            if reply@ == seq![5u8, 0u8] {
                assert(reply@[0] == 5u8 && reply@[1] == 0u8);
            }
        }
        Err(AppError::new("proxy", "O proxy SOCKS5 exige autenticação não configurada."))
    }
}

/// The two bytes of a port, most significant first.
pub open spec fn port_bytes(port: u16) -> Seq<u8> {
    seq![(port / 256) as u8, (port % 256) as u8]
}

/// The request to connect to a host given by name.
pub open spec fn socks5_connect_bytes(host: Seq<u8>, port: u16) -> Seq<u8> {
    seq![5u8, 1u8, 0u8, 3u8, host.len() as u8] + host + port_bytes(port)
}

/// The SOCKS5 request for the server of `profile`; its name, in UTF-8, may
/// hold at most 255 bytes.
pub fn socks5_connect_request(profile: &Profile) -> (r: Result<Vec<u8>, AppError>)
    ensures
        encode_len(profile) > 255 ==> fails_with(
            r,
            "proxy"@,
            "Nome do servidor longo demais para SOCKS5."@,
        ),
        encode_len(profile) <= 255 ==> (r matches Ok(v) && v@ == socks5_connect_bytes(
            encode_utf8(profile@.host),
            profile.port,
        )),
{
    let host = profile.host.as_str().as_bytes();
    if host.len() > 255 {
        return Err(AppError::new("proxy", "Nome do servidor longo demais para SOCKS5."));
    }
    let mut request: Vec<u8> = vec![5, 1, 0, 3, host.len() as u8];
    let ghost head = request@;
    assert(head =~= seq![5u8, 1u8, 0u8, 3u8, host@.len() as u8]);
    let mut i: usize = 0;
    while i < host.len()
        invariant
            i <= host@.len(),
            request@ == head + host@.take(i as int),
        decreases host@.len() - i,
    {
        request.push(host[i]);
        i = i + 1;
        assert(request@ =~= head + host@.take(i as int));
    }
    assert(host@.take(host@.len() as int) =~= host@);
    request.push((profile.port / 256) as u8);
    request.push((profile.port % 256) as u8);
    assert(request@ =~= socks5_connect_bytes(host@, profile.port));
    Ok(request)
}

/// The length in bytes of a profile's server name in UTF-8.
pub open spec fn encode_len(profile: &Profile) -> nat {
    encode_utf8(profile@.host).len()
}

/// How the bound address of a SOCKS5 reply is told: by a fixed number of
/// bytes, or by a length byte that comes first.
#[derive(Debug)]
pub enum Socks5AddressLength {
    Fixed(usize),
    Counted,
}

/// The message for a destination that the proxy refused.
pub open spec fn socks5_refusal(code: u8) -> Seq<char> {
    "O proxy SOCKS5 recusou o destino (código "@ + decimal(code as nat) + ")."@
}

/// Judges the first four bytes of a SOCKS5 reply: the second must be 0
/// (success); the fourth says how the bound address follows (1: 4 bytes,
/// 4: 16 bytes, 3: a length byte first).
pub fn socks5_reply_address(head: &[u8; 4]) -> (r: Result<Socks5AddressLength, AppError>)
    ensures
        head[1] != 0 ==> fails_with(r, "proxy"@, socks5_refusal(head[1])),
        head[1] == 0 && head[3] == 1 ==> (r matches Ok(Socks5AddressLength::Fixed(n)) && n == 4),
        head[1] == 0 && head[3] == 4 ==> (r matches Ok(Socks5AddressLength::Fixed(n)) && n == 16),
        head[1] == 0 && head[3] == 3 ==> r matches Ok(Socks5AddressLength::Counted),
        head[1] == 0 && head[3] != 1 && head[3] != 4 && head[3] != 3 ==> fails_with(
            r,
            "proxy"@,
            "Resposta SOCKS5 inválida."@,
        ),
{
    if head[1] != 0 {
        let c = decimal_text(head[1] as u64);
        let m = join3("O proxy SOCKS5 recusou o destino (código ", c.as_str(), ").");
        return Err(AppError::new("proxy", m.as_str()));
    }
    if head[3] == 1 {
        Ok(Socks5AddressLength::Fixed(4))
    } else if head[3] == 4 {
        Ok(Socks5AddressLength::Fixed(16))
    } else if head[3] == 3 {
        Ok(Socks5AddressLength::Counted)
    } else {
        Err(AppError::new("proxy", "Resposta SOCKS5 inválida."))
    }
}

// ---------------------------------------------------------------------------
// SOCKS5 server of a dynamic tunnel
// ---------------------------------------------------------------------------

/// The client's first two bytes: version 5, then how many methods follow.
pub fn socks5_method_count(head: &[u8; 2]) -> (r: Result<usize, AppError>)
    ensures
        head[0] != 5 ==> fails_with(r, "socks"@, "Somente SOCKS5 é aceito."@),
        head[0] == 5 ==> r == Ok::<usize, AppError>(head[1] as usize),
{
    if head[0] != 5 {
        Err(AppError::new("socks", "Somente SOCKS5 é aceito."))
    } else {
        Ok(head[1] as usize)
    }
}

/// What the server answers to the client's methods, and whether it goes on.
#[derive(Debug)]
pub struct Socks5MethodReply {
    pub reply: Vec<u8>,
    pub outcome: Result<(), AppError>,
}

/// The methods must offer "no authentication" (0): the answer then chooses
/// it; otherwise the answer refuses every method and the exchange ends.
pub fn socks5_method_reply(methods: &[u8]) -> (r: Socks5MethodReply)
    ensures
        methods@.contains(0u8) ==> r.reply@ == seq![5u8, 0u8] && r.outcome is Ok,
        !methods@.contains(0u8) ==> r.reply@ == seq![5u8, 255u8] && fails_with(
            r.outcome,
            "socks"@,
            "O cliente exige autenticação SOCKS não suportada."@,
        ),
{
    let mut i: usize = 0;
    while i < methods.len()
        invariant
            i <= methods@.len(),
            forall|j: int| 0 <= j < i ==> methods@[j] != 0u8,
        decreases methods@.len() - i,
    {
        if methods[i] == 0 {
            let reply: Vec<u8> = vec![5, 0];
            assert(reply@ =~= seq![5u8, 0u8]);
            assert(methods@[i as int] == 0u8);
            return Socks5MethodReply { reply, outcome: Ok(()) };
        }
        i = i + 1;
    }
    let reply: Vec<u8> = vec![5, 255];
    assert(reply@ =~= seq![5u8, 255u8]);
    Socks5MethodReply {
        reply,
        outcome: Err(AppError::new("socks", "O cliente exige autenticação SOCKS não suportada.")),
    }
}

/// How the client names the destination.
#[derive(Debug)]
pub enum Socks5Destination {
    /// Four bytes of an IPv4 address follow.
    Ipv4,
    /// Sixteen bytes of an IPv6 address follow.
    Ipv6,
    /// A length byte and a host name follow.
    Name,
}

/// Judges the first four bytes of the client's request: version 5 and the
/// CONNECT command, then the kind of address (1, 4 or 3).
pub fn socks5_request_destination(req: &[u8; 4]) -> (r: Result<Socks5Destination, AppError>)
    ensures
        (req[0] != 5 || req[1] != 1) ==> fails_with(
            r,
            "socks"@,
            "O túnel SOCKS aceita somente conexões TCP."@,
        ),
        req[0] == 5 && req[1] == 1 && req[3] == 1 ==> r matches Ok(Socks5Destination::Ipv4),
        req[0] == 5 && req[1] == 1 && req[3] == 4 ==> r matches Ok(Socks5Destination::Ipv6),
        req[0] == 5 && req[1] == 1 && req[3] == 3 ==> r matches Ok(Socks5Destination::Name),
        req[0] == 5 && req[1] == 1 && req[3] != 1 && req[3] != 4 && req[3] != 3 ==> fails_with(
            r,
            "socks"@,
            "Tipo de endereço SOCKS inválido."@,
        ),
{
    if req[0] != 5 || req[1] != 1 {
        return Err(AppError::new("socks", "O túnel SOCKS aceita somente conexões TCP."));
    }
    if req[3] == 1 {
        Ok(Socks5Destination::Ipv4)
    } else if req[3] == 4 {
        Ok(Socks5Destination::Ipv6)
    } else if req[3] == 3 {
        Ok(Socks5Destination::Name)
    } else {
        Err(AppError::new("socks", "Tipo de endereço SOCKS inválido."))
    }
}

/// A destination IPv4 address as sent, in dotted-decimal notation.
pub fn socks5_ipv4_host(bytes: [u8; 4]) -> (r: String)
    ensures
        r@ == ipv4_notation(bytes@),
{
    ipv4_text(bytes)
}

/// A destination host name as sent: it must be valid UTF-8.
pub fn socks5_destination_name(bytes: Vec<u8>) -> (r: Result<String, AppError>)
    ensures
        valid_utf8(bytes@) ==> (r matches Ok(s) && s@ == decode_utf8(bytes@)),
        !valid_utf8(bytes@) ==> fails_with(r, "socks"@, "Destino SOCKS inválido."@),
{
    match utf8_text(bytes) {
        Some(s) => Ok(s),
        None => Err(AppError::new("socks", "Destino SOCKS inválido.")),
    }
}

/// A port sent as two bytes, most significant first.
pub fn socks5_port(bytes: &[u8; 2]) -> (p: u16)
    ensures
        p == bytes[0] as int * 256 + bytes[1] as int,
        port_bytes(p) == bytes@,
{
    let p = (bytes[0] as u16) * 256 + (bytes[1] as u16);
    assert(port_bytes(p) =~= bytes@);
    p
}

/// The final answer to a client: success, bound to `127.0.0.1` port 0.
pub fn socks5_success_reply() -> (r: Vec<u8>)
    ensures
        r@ == seq![5u8, 0u8, 0u8, 1u8, 127u8, 0u8, 0u8, 1u8, 0u8, 0u8],
{
    let r: Vec<u8> = vec![5, 0, 0, 1, 127, 0, 0, 1, 0, 0];
    assert(r@ =~= seq![5u8, 0u8, 0u8, 1u8, 127u8, 0u8, 0u8, 1u8, 0u8, 0u8]);
    r
}

// ---------------------------------------------------------------------------
// SSH jump host
// ---------------------------------------------------------------------------

/// A profile that goes through a jump host must name another profile.
pub fn check_jump_choice(profile: &Profile) -> (r: Result<(), AppError>)
    ensures
        (profile@.proxy_profile_id.len() == 0 || profile@.proxy_profile_id == profile@.id)
            ==> fails_with(r, "proxy"@, "Escolha outro perfil como servidor intermediário SSH."@),
        !(profile@.proxy_profile_id.len() == 0 || profile@.proxy_profile_id == profile@.id)
            ==> r is Ok,
{
    if profile.proxy_profile_id.as_str().is_empty() || same_text(&profile.proxy_profile_id, &profile.id) {
        Err(AppError::new("proxy", "Escolha outro perfil como servidor intermediário SSH."))
    } else {
        Ok(())
    }
}

/// The jump host's own profile must not go through a jump host in turn.
pub fn check_jump_profile(jump: &Profile) -> (r: Result<(), AppError>)
    ensures
        jump@.proxy_type == "ssh"@ ==> fails_with(
            r,
            "proxy"@,
            "O perfil intermediário não pode depender de outro salto SSH."@,
        ),
        jump@.proxy_type != "ssh"@ ==> r is Ok,
{
    if same_text(&jump.proxy_type, "ssh") {
        Err(AppError::new("proxy", "O perfil intermediário não pode depender de outro salto SSH."))
    } else {
        Ok(())
    }
}

} // verus!
