//! Port forwarding: which rules of a profile start, how each kind is
//! announced, and the remote-desktop tunnel.
use vstd::prelude::*;

use crate::error::{fails_with, AppError};
use crate::profile::{Profile, TunnelRule, TunnelRuleView};
use crate::text::{
    blank, decimal, decimal_text, endpoint, endpoint_text, is_blank, join2, join3, same_text, text,
};

verus! {

/// A rule is unusable when it has no listening address, or (except for a
/// dynamic SOCKS rule) no target address or target port.
pub open spec fn rule_unusable(r: TunnelRuleView) -> bool {
    blank(r.listen_host) || (r.kind != "dynamic"@ && (blank(r.target_host) || r.target_port == 0))
}

/// The enabled rules of a profile, in order.
pub open spec fn enabled_rules(s: Seq<TunnelRuleView>) -> Seq<TunnelRuleView> {
    s.filter(|r: TunnelRuleView| r.enabled)
}

/// The message for an unusable rule.
pub open spec fn rule_problem_message(name: Seq<char>) -> Seq<char> {
    "Revise os endereços e a porta de destino da regra “"@ + name + "”."@
}

/// A rule needs a listening address; a local or remote forward also needs a
/// target address and a target port, which a dynamic (SOCKS) rule does
/// without.
pub proof fn law_forward_needs_its_addresses(r: TunnelRuleView)
    ensures
        blank(r.listen_host) ==> rule_unusable(r),
        r.kind != "dynamic"@ && blank(r.target_host) ==> rule_unusable(r),
        r.kind != "dynamic"@ && r.target_port == 0 ==> rule_unusable(r),
        !blank(r.listen_host) && r.kind == "dynamic"@ ==> !rule_unusable(r),
        !blank(r.listen_host) && !blank(r.target_host) && r.target_port != 0 ==> !rule_unusable(r),
{
}

/// An enabled local or remote forward without a target address is among
/// the rules to start and is unusable, so the profile's tunnels are refused
/// (see [`active_tunnel_rules`]).
pub proof fn law_enabled_forward_without_target_refused(s: Seq<TunnelRuleView>, i: int)
    ensures
        0 <= i < s.len() && s[i].enabled && s[i].kind != "dynamic"@ && blank(s[i].target_host)
            ==> exists|j: int|
            0 <= j < enabled_rules(s).len() && enabled_rules(s)[j] == s[i] && rule_unusable(
                #[trigger] enabled_rules(s)[j],
            ),
{
    if 0 <= i < s.len() && s[i].enabled && s[i].kind != "dynamic"@ && blank(s[i].target_host) {
        s.lemma_filter_contains(|r: TunnelRuleView| r.enabled, i);
        assert(enabled_rules(s).contains(s[i]));
        let j = choose|j: int| 0 <= j < enabled_rules(s).len() && enabled_rules(s)[j] == s[i];
        assert(rule_unusable(enabled_rules(s)[j]));
    }
}

/// The rules to start for a profile: its enabled rules, of which there must
/// be at least one, each of them usable (the first unusable one is reported).
pub fn active_tunnel_rules(profile: &Profile) -> (r: Result<Vec<TunnelRule>, AppError>)
    ensures
        ({
            let active = enabled_rules(profile@.tunnels);
            if active.len() == 0 {
                fails_with(r, "tunnel"@, "Este perfil não tem encaminhamentos ativos."@)
            } else if exists|i: int| 0 <= i < active.len() && rule_unusable(active[i]) {
                r matches Err(e) && exists|i: int|
                    0 <= i < active.len() && rule_unusable(active[i]) && (forall|j: int|
                        0 <= j < i ==> !rule_unusable(active[j])) && e.is(
                        "tunnel"@,
                        rule_problem_message(active[i].name),
                    )
            } else {
                r matches Ok(rules) && rules@.map_values(|x: TunnelRule| x@) == active
            }
        }),
{
    let ghost all = profile@.tunnels;
    let mut active: Vec<TunnelRule> = Vec::new();
    let mut i: usize = 0;
    while i < profile.tunnels.len()
        invariant
            all == profile@.tunnels,
            all.len() == profile.tunnels@.len(),
            i <= profile.tunnels@.len(),
            active@.map_values(|x: TunnelRule| x@) == enabled_rules(all.take(i as int)),
        decreases profile.tunnels@.len() - i,
    {
        if profile.tunnels[i].enabled {
            active.push(profile.tunnels[i].copy_of());
        }
        proof {
            let t = all.take(i + 1);
            assert(t.drop_last() =~= all.take(i as int));
            assert(t.last() == profile.tunnels@[i as int]@);
            reveal(Seq::filter);
            assert(active@.map_values(|x: TunnelRule| x@) =~= enabled_rules(t));
        }
        i = i + 1;
    }
    assert(all.take(all.len() as int) =~= all);
    let ghost act = enabled_rules(all);
    if active.len() == 0 {
        return Err(AppError::new("tunnel", "Este perfil não tem encaminhamentos ativos."));
    }
    let mut k: usize = 0;
    while k < active.len()
        invariant
            k <= active@.len(),
            active@.map_values(|x: TunnelRule| x@) == act,
            act == enabled_rules(profile@.tunnels),
            forall|j: int| 0 <= j < k ==> !rule_unusable(act[j]),
        decreases active@.len() - k,
    {
        let rule = &active[k];
        assert(act[k as int] == rule@);
        let dynamic = same_text(&rule.kind, "dynamic");
        if is_blank(&rule.listen_host) || (!dynamic && (is_blank(&rule.target_host)
            || rule.target_port == 0)) {
            let m = join3(
                "Revise os endereços e a porta de destino da regra “",
                rule.name.as_str(),
                "”.",
            );
            let e = AppError::new("tunnel", m.as_str());
            proof {
                assert(rule_unusable(act[k as int]));
                assert(m@ == rule_problem_message(act[k as int].name));
                assert(e.is("tunnel"@, rule_problem_message(act[k as int].name)));
            }
            return Err(e);
        }
        k = k + 1;
    }
    Ok(active)
}

/// The kinds of forwarding.
#[derive(Debug)]
pub enum TunnelKind {
    /// A local port forwarded through the server to a target.
    Local,
    /// A local SOCKS5 server whose connections go through the server.
    Dynamic,
    /// A port of the server forwarded to a target reachable from this computer.
    Remote,
}

/// The kind a rule names: `local`, `dynamic` or `remote`.
pub fn tunnel_kind(kind: &str) -> (r: Result<TunnelKind, AppError>)
    ensures
        kind@ == "local"@ ==> r matches Ok(TunnelKind::Local),
        kind@ == "dynamic"@ ==> r matches Ok(TunnelKind::Dynamic),
        kind@ == "remote"@ ==> r matches Ok(TunnelKind::Remote),
        kind@ != "local"@ && kind@ != "dynamic"@ && kind@ != "remote"@ ==> fails_with(
            r,
            "tunnel"@,
            "Tipo de encaminhamento desconhecido."@,
        ),
{
    proof {
        reveal_strlit("local");
        reveal_strlit("dynamic");
        reveal_strlit("remote");
        assert("local"@[0] != "dynamic"@[0] && "local"@[0] != "remote"@[0] && "dynamic"@[0]
            != "remote"@[0]);
    }
    if same_text(kind, "local") {
        Ok(TunnelKind::Local)
    } else if same_text(kind, "dynamic") {
        Ok(TunnelKind::Dynamic)
    } else if same_text(kind, "remote") {
        Ok(TunnelKind::Remote)
    } else {
        Err(AppError::new("tunnel", "Tipo de encaminhamento desconhecido."))
    }
}

/// How a started tunnel is announced.
#[derive(Debug)]
pub struct TunnelStarted {
    pub name: String,
    pub listen_host: String,
    pub listen_port: u16,
    pub target: String,
}

/// The announcement of a rule started as `kind`, listening on `bound_port`:
/// a local tunnel shows its target, a dynamic one `SOCKS5 dinâmico`, a
/// remote one its target on this computer.
pub fn tunnel_started(rule: &TunnelRule, kind: &TunnelKind, bound_port: u16) -> (r: TunnelStarted)
    ensures
        r.name@ == rule@.name,
        r.listen_host@ == rule@.listen_host,
        r.listen_port == bound_port,
        r.target@ == match kind {
            TunnelKind::Local => endpoint(rule@.target_host, rule@.target_port),
            TunnelKind::Dynamic => "SOCKS5 dinâmico"@,
            TunnelKind::Remote => endpoint(rule@.target_host, rule@.target_port) + " (neste PC)"@,
        },
{
    let target = match kind {
        TunnelKind::Local => endpoint_text(&rule.target_host, rule.target_port),
        TunnelKind::Dynamic => text("SOCKS5 dinâmico"),
        TunnelKind::Remote => {
            let e = endpoint_text(&rule.target_host, rule.target_port);
            join2(e.as_str(), " (neste PC)")
        },
    };
    TunnelStarted {
        name: rule.name.clone(),
        listen_host: rule.listen_host.clone(),
        listen_port: bound_port,
        target,
    }
}

/// The error when the local listener of a rule cannot be opened.
pub fn listen_failure(rule: &TunnelRule, dynamic: bool, detail: &str) -> (e: AppError)
    ensures
        e.is(
            "tunnel"@,
            (if dynamic {
                "Não foi possível abrir o SOCKS "@
            } else {
                "Não foi possível abrir "@
            }) + endpoint(rule@.listen_host, rule@.listen_port) + ": "@ + detail@,
        ),
{
    let head = if dynamic {
        text("Não foi possível abrir o SOCKS ")
    } else {
        text("Não foi possível abrir ")
    };
    let e = endpoint_text(&rule.listen_host, rule.listen_port);
    let a = join3(head.as_str(), e.as_str(), ": ");
    let m = join2(a.as_str(), detail);
    AppError::new("tunnel", m.as_str())
}

/// The address a remote forward listens on at the server: any address when
/// the rule's listening address is blank.
pub fn remote_listen_host(rule: &TunnelRule) -> (r: Option<String>)
    ensures
        blank(rule@.listen_host) <==> r is None,
        r matches Some(h) ==> h@ == rule@.listen_host,
{
    if is_blank(&rule.listen_host) {
        None
    } else {
        Some(rule.listen_host.clone())
    }
}

/// A tunnel error as reported: the rule's name and the message.
pub fn tunnel_error_text(rule_name: &str, message: &str) -> (r: String)
    ensures
        r@ == rule_name@ + ": "@ + message@,
{
    join3(rule_name, ": ", message)
}

/// The local tunnel to a profile's remote desktop: on `127.0.0.1`, a port
/// chosen by the system, towards the profile's RDP computer and port. The
/// profile must have remote desktop on and name that computer and port.
pub fn rdp_tunnel_rule(profile: &Profile) -> (r: Result<TunnelRule, AppError>)
    ensures
        !profile@.rdp_enabled ==> fails_with(
            r,
            "rdp"@,
            "Ative a Área de trabalho remota neste perfil."@,
        ),
        profile@.rdp_enabled && (blank(profile@.rdp_host) || profile@.rdp_port == 0) ==> fails_with(
            r,
            "rdp"@,
            "Informe o computador e a porta RDP."@,
        ),
        profile@.rdp_enabled && !blank(profile@.rdp_host) && profile@.rdp_port != 0 ==> (r matches Ok(rule) && rule@ == TunnelRuleView {
            name: "Área de trabalho remota"@,
            kind: "local"@,
            listen_host: "127.0.0.1"@,
            listen_port: 0,
            target_host: profile@.rdp_host,
            target_port: profile@.rdp_port,
            enabled: true,
        }),
{
    if !profile.rdp_enabled {
        return Err(AppError::new("rdp", "Ative a Área de trabalho remota neste perfil."));
    }
    if is_blank(&profile.rdp_host) || profile.rdp_port == 0 {
        return Err(AppError::new("rdp", "Informe o computador e a porta RDP."));
    }
    Ok(
        TunnelRule {
            name: text("Área de trabalho remota"),
            kind: text("local"),
            listen_host: text("127.0.0.1"),
            listen_port: 0,
            target_host: profile.rdp_host.clone(),
            target_port: profile.rdp_port,
            enabled: true,
        },
    )
}

/// The key under which a profile's remote-desktop tunnel is kept.
pub fn rdp_tunnel_key(profile_id: &str) -> (r: String)
    ensures
        r@ == "rdp:"@ + profile_id@,
{
    join2("rdp:", profile_id)
}

/// The argument that points the remote-desktop client at the tunnel.
pub fn rdp_client_argument(port: u16) -> (r: String)
    ensures
        r@ == "/v:127.0.0.1:"@ + decimal(port as nat),
{
    let p = decimal_text(port as u64);
    join2("/v:127.0.0.1:", p.as_str())
}

} // verus!
