//! Connection profiles: their fields, defaults, validation and the
//! operations on a list of stored profiles.
use vstd::prelude::*;
use crate::error::{fails_with, AppError};
use crate::text::{blank, is_blank, join2, same_text, text, trim, trimmed};

verus! {

/// A port-forwarding rule of a profile.
#[derive(Clone, Debug)]
pub struct TunnelRule {
    pub name: String,
    pub kind: String,
    pub listen_host: String,
    pub listen_port: u16,
    pub target_host: String,
    pub target_port: u16,
    pub enabled: bool,
}

/// The value a [`TunnelRule`] stands for.
pub struct TunnelRuleView {
    pub name: Seq<char>,
    pub kind: Seq<char>,
    pub listen_host: Seq<char>,
    pub listen_port: u16,
    pub target_host: Seq<char>,
    pub target_port: u16,
    pub enabled: bool,
}

impl View for TunnelRule {
    type V = TunnelRuleView;

    open spec fn view(&self) -> TunnelRuleView {
        TunnelRuleView {
            name: self.name@,
            kind: self.kind@,
            listen_host: self.listen_host@,
            listen_port: self.listen_port,
            target_host: self.target_host@,
            target_port: self.target_port,
            enabled: self.enabled,
        }
    }
}

impl TunnelRule {
    /// A field-by-field copy.
    pub fn copy_of(&self) -> (r: TunnelRule)
        ensures
            r@ == self@,
    {
        TunnelRule {
            name: self.name.clone(),
            kind: self.kind.clone(),
            listen_host: self.listen_host.clone(),
            listen_port: self.listen_port,
            target_host: self.target_host.clone(),
            target_port: self.target_port,
            enabled: self.enabled,
        }
    }
}

/// A copy of every rule of `rules`.
pub fn copy_rules(rules: &Vec<TunnelRule>) -> (r: Vec<TunnelRule>)
    ensures
        r@.map_values(|x: TunnelRule| x@) == rules@.map_values(|x: TunnelRule| x@),
{
    let mut r: Vec<TunnelRule> = Vec::new();
    let mut i: usize = 0;
    while i < rules.len()
        invariant
            i <= rules@.len(),
            r@.len() == i,
            forall|j: int| 0 <= j < i ==> (#[trigger] r@[j])@ == rules@[j]@,
        decreases rules@.len() - i,
    {
        r.push(rules[i].copy_of());
        i = i + 1;
    }
    assert(r@.map_values(|x: TunnelRule| x@) =~= rules@.map_values(|x: TunnelRule| x@));
    r
}

impl Default for TunnelRule {
    fn default() -> (r: TunnelRule)
        ensures
            r@.name == "Novo túnel"@,
            r@.kind == "local"@,
            r@.listen_host == "127.0.0.1"@,
            r@.listen_port == 8080,
            r@.target_host == "127.0.0.1"@,
            r@.target_port == 80,
            r@.enabled,
    {
        TunnelRule {
            name: text("Novo túnel"),
            kind: text("local"),
            listen_host: text("127.0.0.1"),
            listen_port: 8080,
            target_host: text("127.0.0.1"),
            target_port: 80,
            enabled: true,
        }
    }
}

/// A stored connection profile: where and how to connect, and which features
/// (SFTP, terminal, remote desktop, tunnels, external editor, local bridge) it
/// allows. Secrets are never part of it; `has_password` and `has_passphrase`
/// only record whether the system vault holds them.
#[derive(Clone, Debug)]
pub struct Profile {
    pub id: String,
    pub name: String,
    pub host: String,
    pub port: u16,
    pub username: String,
    pub auth_method: String,
    pub key_path: String,
    pub host_key_sha256: String,
    pub terminal_type: String,
    pub initial_directory: String,
    pub keep_alive: u64,
    pub auto_reconnect: bool,
    pub favorite: bool,
    pub color: String,
    pub notes: String,
    pub proxy_type: String,
    pub proxy_host: String,
    pub proxy_port: u16,
    pub proxy_profile_id: String,
    pub compression: bool,
    pub sftp_enabled: bool,
    pub terminal_enabled: bool,
    pub rdp_enabled: bool,
    pub rdp_host: String,
    pub rdp_port: u16,
    pub tunnels: Vec<TunnelRule>,
    pub key_passphrase_enabled: bool,
    pub account_password_enabled: bool,
    pub external_editor_enabled: bool,
    pub external_editor_path: String,
    pub bridge_enabled: bool,
    pub bridge_allow_command: bool,
    pub bridge_allow_sftp: bool,
    pub has_password: bool,
    pub has_passphrase: bool,
}

/// The value a [`Profile`] stands for.
pub struct ProfileView {
    pub id: Seq<char>,
    pub name: Seq<char>,
    pub host: Seq<char>,
    pub port: u16,
    pub username: Seq<char>,
    pub auth_method: Seq<char>,
    pub key_path: Seq<char>,
    pub host_key_sha256: Seq<char>,
    pub terminal_type: Seq<char>,
    pub initial_directory: Seq<char>,
    pub keep_alive: u64,
    pub auto_reconnect: bool,
    pub favorite: bool,
    pub color: Seq<char>,
    pub notes: Seq<char>,
    pub proxy_type: Seq<char>,
    pub proxy_host: Seq<char>,
    pub proxy_port: u16,
    pub proxy_profile_id: Seq<char>,
    pub compression: bool,
    pub sftp_enabled: bool,
    pub terminal_enabled: bool,
    pub rdp_enabled: bool,
    pub rdp_host: Seq<char>,
    pub rdp_port: u16,
    pub tunnels: Seq<TunnelRuleView>,
    pub key_passphrase_enabled: bool,
    pub account_password_enabled: bool,
    pub external_editor_enabled: bool,
    pub external_editor_path: Seq<char>,
    pub bridge_enabled: bool,
    pub bridge_allow_command: bool,
    pub bridge_allow_sftp: bool,
    pub has_password: bool,
    pub has_passphrase: bool,
}

impl View for Profile {
    type V = ProfileView;

    open spec fn view(&self) -> ProfileView {
        ProfileView {
            id: self.id@,
            name: self.name@,
            host: self.host@,
            port: self.port,
            username: self.username@,
            auth_method: self.auth_method@,
            key_path: self.key_path@,
            host_key_sha256: self.host_key_sha256@,
            terminal_type: self.terminal_type@,
            initial_directory: self.initial_directory@,
            keep_alive: self.keep_alive,
            auto_reconnect: self.auto_reconnect,
            favorite: self.favorite,
            color: self.color@,
            notes: self.notes@,
            proxy_type: self.proxy_type@,
            proxy_host: self.proxy_host@,
            proxy_port: self.proxy_port,
            proxy_profile_id: self.proxy_profile_id@,
            compression: self.compression,
            sftp_enabled: self.sftp_enabled,
            terminal_enabled: self.terminal_enabled,
            rdp_enabled: self.rdp_enabled,
            rdp_host: self.rdp_host@,
            rdp_port: self.rdp_port,
            tunnels: self.tunnels@.map_values(|r: TunnelRule| r@),
            key_passphrase_enabled: self.key_passphrase_enabled,
            account_password_enabled: self.account_password_enabled,
            external_editor_enabled: self.external_editor_enabled,
            external_editor_path: self.external_editor_path@,
            bridge_enabled: self.bridge_enabled,
            bridge_allow_command: self.bridge_allow_command,
            bridge_allow_sftp: self.bridge_allow_sftp,
            has_password: self.has_password,
            has_passphrase: self.has_passphrase,
        }
    }
}

impl Profile {
    /// A field-by-field copy.
    pub fn copy_of(&self) -> (r: Profile)
        ensures
            r@ == self@,
    {
        let tunnels = copy_rules(&self.tunnels);
        Profile {
            id: self.id.clone(),
            name: self.name.clone(),
            host: self.host.clone(),
            port: self.port,
            username: self.username.clone(),
            auth_method: self.auth_method.clone(),
            key_path: self.key_path.clone(),
            host_key_sha256: self.host_key_sha256.clone(),
            terminal_type: self.terminal_type.clone(),
            initial_directory: self.initial_directory.clone(),
            keep_alive: self.keep_alive,
            auto_reconnect: self.auto_reconnect,
            favorite: self.favorite,
            color: self.color.clone(),
            notes: self.notes.clone(),
            proxy_type: self.proxy_type.clone(),
            proxy_host: self.proxy_host.clone(),
            proxy_port: self.proxy_port,
            proxy_profile_id: self.proxy_profile_id.clone(),
            compression: self.compression,
            sftp_enabled: self.sftp_enabled,
            terminal_enabled: self.terminal_enabled,
            rdp_enabled: self.rdp_enabled,
            rdp_host: self.rdp_host.clone(),
            rdp_port: self.rdp_port,
            tunnels: tunnels,
            key_passphrase_enabled: self.key_passphrase_enabled,
            account_password_enabled: self.account_password_enabled,
            external_editor_enabled: self.external_editor_enabled,
            external_editor_path: self.external_editor_path.clone(),
            bridge_enabled: self.bridge_enabled,
            bridge_allow_command: self.bridge_allow_command,
            bridge_allow_sftp: self.bridge_allow_sftp,
            has_password: self.has_password,
            has_passphrase: self.has_passphrase,
        }
    }
}
/// The values a new profile starts with.
pub open spec fn default_profile_view(p: ProfileView) -> bool {
    &&& p.id == Seq::<char>::empty()
    &&& p.name == "Novo servidor"@
    &&& p.host == Seq::<char>::empty()
    &&& p.port == 22
    &&& p.username == Seq::<char>::empty()
    &&& p.auth_method == "password"@
    &&& p.key_path == Seq::<char>::empty()
    &&& p.host_key_sha256 == Seq::<char>::empty()
    &&& p.terminal_type == "xterm-256color"@
    &&& p.initial_directory == Seq::<char>::empty()
    &&& p.keep_alive == 30
    &&& p.auto_reconnect
    &&& !p.favorite
    &&& p.color == "#22d3ee"@
    &&& p.notes == Seq::<char>::empty()
    &&& p.proxy_type == "none"@
    &&& p.proxy_host == Seq::<char>::empty()
    &&& p.proxy_port == 1080
    &&& p.proxy_profile_id == Seq::<char>::empty()
    &&& !p.compression
    &&& p.sftp_enabled
    &&& p.terminal_enabled
    &&& !p.rdp_enabled
    &&& p.rdp_host == "127.0.0.1"@
    &&& p.rdp_port == 3389
    &&& p.tunnels == Seq::<TunnelRuleView>::empty()
    &&& p.key_passphrase_enabled
    &&& p.account_password_enabled
    &&& !p.external_editor_enabled
    &&& p.external_editor_path == Seq::<char>::empty()
    &&& !p.bridge_enabled
    &&& !p.bridge_allow_command
    &&& !p.bridge_allow_sftp
    &&& !p.has_password
    &&& !p.has_passphrase
}

impl Default for Profile {
    fn default() -> (p: Profile)
        ensures
            default_profile_view(p@),
    {
        let p = Profile {
            id: String::new(),
            name: text("Novo servidor"),
            host: String::new(),
            port: 22,
            username: String::new(),
            auth_method: text("password"),
            key_path: String::new(),
            host_key_sha256: String::new(),
            terminal_type: text("xterm-256color"),
            initial_directory: String::new(),
            keep_alive: 30,
            auto_reconnect: true,
            favorite: false,
            color: text("#22d3ee"),
            notes: String::new(),
            proxy_type: text("none"),
            proxy_host: String::new(),
            proxy_port: 1080,
            proxy_profile_id: String::new(),
            compression: false,
            sftp_enabled: true,
            terminal_enabled: true,
            rdp_enabled: false,
            rdp_host: text("127.0.0.1"),
            rdp_port: 3389,
            tunnels: Vec::new(),
            key_passphrase_enabled: true,
            account_password_enabled: true,
            external_editor_enabled: false,
            external_editor_path: String::new(),
            bridge_enabled: false,
            bridge_allow_command: false,
            bridge_allow_sftp: false,
            has_password: false,
            has_passphrase: false,
        };
        assert(p@.tunnels =~= Seq::<TunnelRuleView>::empty());
        p
    }
}

/// The message of the first check that `p` fails, if any: a name, a server
/// and a user are required, the port must not be 0, key authentication needs a
/// key file, an HTTP or SOCKS5 proxy needs a server and a port, and an SSH jump
/// needs the intermediate profile.
pub open spec fn profile_problem(p: ProfileView) -> Option<Seq<char>> {
    if blank(p.name) {
        Some("Dê um nome ao perfil."@)
    } else if blank(p.host) {
        Some("Informe o servidor."@)
    } else if blank(p.username) {
        Some("Informe o usuário."@)
    } else if p.port == 0 {
        Some("A porta deve estar entre 1 e 65535."@)
    } else if p.auth_method == "key"@ && blank(p.key_path) {
        Some("Escolha o arquivo da chave privada."@)
    } else if (p.proxy_type == "http"@ || p.proxy_type == "socks5"@) && (blank(p.proxy_host)
        || p.proxy_port == 0) {
        Some("Informe o servidor e a porta do proxy."@)
    } else if p.proxy_type == "ssh"@ && blank(p.proxy_profile_id) {
        Some("Escolha o perfil intermediário SSH."@)
    } else {
        None
    }
}

/// An HTTP or SOCKS5 proxy without a server or without a port is refused;
/// when nothing checked before it is wrong, the refusal asks for the proxy
/// server and port.
pub proof fn law_proxy_needs_server_and_port(p: ProfileView)
    ensures
        (p.proxy_type == "http"@ || p.proxy_type == "socks5"@) && (blank(p.proxy_host)
            || p.proxy_port == 0) ==> profile_problem(p) is Some,
        (p.proxy_type == "http"@ || p.proxy_type == "socks5"@) && (blank(p.proxy_host)
            || p.proxy_port == 0) && !blank(p.name) && !blank(p.host) && !blank(p.username)
            && p.port != 0 && !(p.auth_method == "key"@ && blank(p.key_path)) ==> profile_problem(p)
            == Some("Informe o servidor e a porta do proxy."@),
{
}

/// A profile is accepted exactly when it names itself, its server and its
/// user, has a nonzero port, a key file for key authentication, a server and
/// port for an HTTP or SOCKS5 proxy, and an intermediate profile for an SSH
/// jump.
pub proof fn law_profile_accepted_exactly_when_complete(p: ProfileView)
    ensures
        profile_problem(p) is None <==> {
            &&& !blank(p.name)
            &&& !blank(p.host)
            &&& !blank(p.username)
            &&& p.port != 0
            &&& p.auth_method == "key"@ ==> !blank(p.key_path)
            &&& p.proxy_type == "http"@ ==> !blank(p.proxy_host) && p.proxy_port != 0
            &&& p.proxy_type == "socks5"@ ==> !blank(p.proxy_host) && p.proxy_port != 0
            &&& p.proxy_type == "ssh"@ ==> !blank(p.proxy_profile_id)
        },
{
}

/// Checks that a profile can be saved and used.
pub fn validate_profile(profile: &Profile) -> (r: Result<(), AppError>)
    ensures
        r is Ok <==> profile_problem(profile@) is None,
        profile_problem(profile@) matches Some(m) ==> fails_with(r, "validation"@, m),
{
    if is_blank(&profile.name) {
        return Err(AppError::new("validation", "Dê um nome ao perfil."));
    }
    if is_blank(&profile.host) {
        return Err(AppError::new("validation", "Informe o servidor."));
    }
    if is_blank(&profile.username) {
        return Err(AppError::new("validation", "Informe o usuário."));
    }
    if profile.port == 0 {
        return Err(AppError::new("validation", "A porta deve estar entre 1 e 65535."));
    }
    if same_text(&profile.auth_method, "key") && is_blank(&profile.key_path) {
        return Err(AppError::new("validation", "Escolha o arquivo da chave privada."));
    }
    if (same_text(&profile.proxy_type, "http") || same_text(&profile.proxy_type, "socks5")) && (
    is_blank(&profile.proxy_host) || profile.proxy_port == 0) {
        return Err(AppError::new("validation", "Informe o servidor e a porta do proxy."));
    }
    if same_text(&profile.proxy_type, "ssh") && is_blank(&profile.proxy_profile_id) {
        return Err(AppError::new("validation", "Escolha o perfil intermediário SSH."));
    }
    Ok(())
}

/// A profile saved by older versions as password-based while it holds a key
/// path and a stored key passphrase is really a key profile: it becomes one,
/// with the key passphrase step on and the account password step on exactly
/// when a password is stored. Every other profile is left as it is.
pub open spec fn migrated(p: ProfileView) -> ProfileView {
    if p.auth_method == "password"@ && !blank(p.key_path) && p.has_passphrase {
        ProfileView {
            auth_method: "key"@,
            key_passphrase_enabled: true,
            account_password_enabled: p.has_password,
            ..p
        }
    } else {
        p
    }
}

/// Applies [`migrated`] to every profile read from storage.
pub fn migrate_legacy_profiles(profiles: &mut [Profile])
    ensures
        final(profiles)@.len() == old(profiles)@.len(),
        forall|i: int|
            0 <= i < old(profiles)@.len() ==> (#[trigger] final(profiles)@[i])@ == migrated(
                old(profiles)@[i]@,
            ),
{
    let mut i: usize = 0;
    while i < profiles.len()
        invariant
            i <= profiles@.len(),
            profiles@.len() == old(profiles)@.len(),
            forall|j: int| 0 <= j < i ==> (#[trigger] profiles@[j])@ == migrated(old(profiles)@[j]@),
            forall|j: int| i <= j < profiles@.len() ==> #[trigger] profiles@[j] == old(profiles)@[j],
        decreases profiles@.len() - i,
    {
        if same_text(&profiles[i].auth_method, "password") && !is_blank(&profiles[i].key_path)
            && profiles[i].has_passphrase {
            let mut p = profiles[i].copy_of();
            p.auth_method = text("key");
            p.key_passphrase_enabled = true;
            p.account_password_enabled = p.has_password;
            profiles[i] = p;
        }
        i = i + 1;
    }
}


/// Migrating twice changes nothing more than migrating once: profiles are
/// migrated every time they are read, and a migrated profile stays as it is.
pub proof fn law_migration_idempotent(p: ProfileView)
    ensures
        migrated(migrated(p)) == migrated(p),
{
    reveal_strlit("password");
    reveal_strlit("key");
    assert("password"@[0] != "key"@[0]);
}

// ---------------------------------------------------------------------------
// The stored list of profiles
// ---------------------------------------------------------------------------

/// The values of a list of profiles.
pub open spec fn views(s: Seq<Profile>) -> Seq<ProfileView> {
    s.map_values(|p: Profile| p@)
}

/// Replacing one profile replaces its value.
pub proof fn lemma_views_update(s: Seq<Profile>, i: int, p: Profile)
    requires
        0 <= i < s.len(),
    ensures
        views(s.update(i, p)) == views(s).update(i, p@),
{
    assert(views(s.update(i, p)) =~= views(s).update(i, p@));
}

/// Appending one profile appends its value.
pub proof fn lemma_views_push(s: Seq<Profile>, p: Profile)
    ensures
        views(s.push(p)) == views(s).push(p@),
{
    assert(views(s.push(p)) =~= views(s).push(p@));
}

/// The position of the first profile with this id.
pub open spec fn position_of(s: Seq<ProfileView>, id: Seq<char>) -> Option<nat>
    decreases s.len(),
{
    if s.len() == 0 {
        None
    } else if s[0].id == id {
        Some(0)
    } else {
        match position_of(s.drop_first(), id) {
            Some(i) => Some(i + 1),
            None => None,
        }
    }
}

/// What `position_of` finds.
pub proof fn lemma_position_of(s: Seq<ProfileView>, id: Seq<char>)
    ensures
        position_of(s, id) matches Some(i) ==> i < s.len() && s[i as int].id == id && forall|j: int|
            0 <= j < i ==> s[j].id != id,
        position_of(s, id) is None ==> forall|j: int| 0 <= j < s.len() ==> s[j].id != id,
    decreases s.len(),
{
    if s.len() > 0 && s[0].id != id {
        let t = s.drop_first();
        lemma_position_of(t, id);
        assert forall|j: int| 0 < j < s.len() implies s[j] == t[j - 1] by {}
    }
}

proof fn lemma_position_first(s: Seq<ProfileView>, id: Seq<char>, i: int)
    requires
        0 <= i < s.len(),
        s[i].id == id,
        forall|j: int| 0 <= j < i ==> s[j].id != id,
    ensures
        position_of(s, id) == Some(i as nat),
    decreases i,
{
    if i > 0 {
        let t = s.drop_first();
        assert forall|j: int| 0 <= j < i - 1 implies t[j].id != id by {
            assert(t[j] == s[j + 1]);
        }
        lemma_position_first(t, id, i - 1);
    }
}

proof fn lemma_position_none(s: Seq<ProfileView>, id: Seq<char>)
    requires
        forall|j: int| 0 <= j < s.len() ==> s[j].id != id,
    ensures
        position_of(s, id) is None,
    decreases s.len(),
{
    if s.len() > 0 {
        let t = s.drop_first();
        assert forall|j: int| 0 <= j < t.len() implies t[j].id != id by {
            assert(t[j] == s[j + 1]);
        }
        lemma_position_none(t, id);
    }
}

/// The index of the first profile with this id.
pub fn index_of_id(profiles: &Vec<Profile>, id: &str) -> (r: Option<usize>)
    ensures
        r matches Some(i) ==> i < profiles@.len() && profiles@[i as int]@.id == id@,
        match r {
            Some(i) => position_of(views(profiles@), id@) == Some(i as nat),
            None => position_of(views(profiles@), id@) is None,
        },
{
    let ghost s = views(profiles@);
    let mut i: usize = 0;
    while i < profiles.len()
        invariant
            s == views(profiles@),
            i <= profiles@.len(),
            forall|j: int| 0 <= j < i ==> s[j].id != id@,
        decreases profiles@.len() - i,
    {
        if same_text(&profiles[i].id, id) {
            proof {
                lemma_position_first(s, id@, i as int);
                assert(s[i as int] == profiles@[i as int]@);
            }
            return Some(i);
        }
        i = i + 1;
    }
    proof {
        lemma_position_none(s, id@);
    }
    None
}

/// The stored profile with this id.
pub fn profile_by_id(profiles: &Vec<Profile>, id: &str) -> (r: Result<Profile, AppError>)
    ensures
        match position_of(views(profiles@), id@) {
            Some(i) => r matches Ok(p) && p@ == profiles@[i as int]@,
            None => fails_with(r, "profile"@, "Perfil não encontrado."@),
        },
{
    proof {
        lemma_position_of(views(profiles@), id@);
    }
    match index_of_id(profiles, id) {
        Some(i) => Ok(profiles[i].copy_of()),
        None => Err(AppError::new("profile", "Perfil não encontrado.")),
    }
}

/// The list after saving `p`: it replaces the first profile with its id, or
/// is appended when there is none.
pub open spec fn upserted(s: Seq<ProfileView>, p: ProfileView) -> Seq<ProfileView> {
    match position_of(s, p.id) {
        Some(i) => s.update(i as int, p),
        None => s.push(p),
    }
}

/// Saves `profile` into the list: it replaces the stored profile with the same
/// id, or is added at the end.
pub fn upsert_profile(profiles: &mut Vec<Profile>, profile: Profile)
    ensures
        views(final(profiles)@) == upserted(views(old(profiles)@), profile@),
{
    let ghost pv = profile@;
    match index_of_id(profiles, &profile.id) {
        Some(i) => {
            proof {
                lemma_views_update(profiles@, i as int, profile);
            }
            profiles[i] = profile;
        },
        None => {
            proof {
                lemma_views_push(profiles@, profile);
            }
            profiles.push(profile);
        },
    }
}

/// The list without any profile with this id.
pub open spec fn without_id(s: Seq<ProfileView>, id: Seq<char>) -> Seq<ProfileView> {
    s.filter(|p: ProfileView| p.id != id)
}

/// Removes every profile with this id, keeping the others in order.
pub fn remove_profile(profiles: &mut Vec<Profile>, id: &str)
    ensures
        views(final(profiles)@) == without_id(views(old(profiles)@), id@),
{
    let ghost s = views(profiles@);
    let mut kept: Vec<Profile> = Vec::new();
    let mut i: usize = 0;
    while i < profiles.len()
        invariant
            s == views(profiles@),
            i <= profiles@.len(),
            views(kept@) == without_id(s.take(i as int), id@),
        decreases profiles@.len() - i,
    {
        if !same_text(&profiles[i].id, id) {
            kept.push(profiles[i].copy_of());
        }
        proof {
            let t = s.take(i + 1);
            assert(t.drop_last() =~= s.take(i as int));
            reveal(Seq::filter);
            assert(views(kept@) =~= without_id(t, id@));
        }
        i = i + 1;
    }
    assert(s.take(profiles@.len() as int) =~= s);
    *profiles = kept;
}

/// A copy of `p` under a new id: the name gets ` (cópia)` and no secret is
/// recorded for it.
pub open spec fn duplicated(p: ProfileView, new_id: Seq<char>) -> ProfileView {
    ProfileView {
        id: new_id,
        name: p.name + " (cópia)"@,
        has_password: false,
        has_passphrase: false,
        ..p
    }
}

/// A copy of `source` under `new_id` (see [`duplicated`]).
pub fn duplicate_profile(source: &Profile, new_id: &str) -> (r: Profile)
    ensures
        r@ == duplicated(source@, new_id@),
{
    let mut p = source.copy_of();
    p.id = new_id.to_owned();
    p.name = join2(&source.name, " (cópia)");
    p.has_password = false;
    p.has_passphrase = false;
    p
}

/// The profile as it is saved: an empty id is replaced by `fresh_id`; name,
/// server and user are trimmed; for key authentication with a key path, the
/// path is `key_path` (the key path as chosen by the caller, see
/// `normalize_selected_key_path`).
pub open spec fn prepared(p: ProfileView, fresh_id: Seq<char>, key_path: Seq<char>) -> ProfileView {
    ProfileView {
        id: if p.id.len() == 0 {
            fresh_id
        } else {
            p.id
        },
        name: trim(p.name),
        host: trim(p.host),
        username: trim(p.username),
        key_path: if p.auth_method == "key"@ && !blank(p.key_path) {
            key_path
        } else {
            p.key_path
        },
        ..p
    }
}

/// Prepares a profile for saving (see [`prepared`]) and validates it.
#[verifier::rlimit(40)]
pub fn prepare_profile_for_save(profile: &Profile, fresh_id: &str, key_path: &str) -> (r: Result<
    Profile,
    AppError,
>)
    ensures
        match profile_problem(prepared(profile@, fresh_id@, key_path@)) {
            None => r matches Ok(p) && p@ == prepared(profile@, fresh_id@, key_path@),
            Some(m) => fails_with(r, "validation"@, m),
        },
{
    let ghost target = prepared(profile@, fresh_id@, key_path@);
    let id = if profile.id.as_str().is_empty() {
        fresh_id.to_owned()
    } else {
        profile.id.clone()
    };
    let key = if same_text(&profile.auth_method, "key") && !is_blank(&profile.key_path) {
        key_path.to_owned()
    } else {
        profile.key_path.clone()
    };
    let mut p = profile.copy_of();
    p.id = id;
    p.name = trimmed(&profile.name);
    p.host = trimmed(&profile.host);
    p.username = trimmed(&profile.username);
    p.key_path = key;
    assert(p@ == target);
    match validate_profile(&p) {
        Ok(()) => Ok(p),
        Err(e) => Err(e),
    }
}

/// Which secrets a save keeps in the vault: the account password when asked
/// to and the profile uses one (password authentication, or key
/// authentication with the account password step); the key passphrase when
/// asked to and the profile uses a protected key.
pub open spec fn keeps_secrets(p: ProfileView, save_password: bool, save_passphrase: bool) -> (bool, bool) {
    (
        save_password && (p.auth_method == "password"@ || (p.auth_method == "key"@
            && p.account_password_enabled)),
        save_passphrase && p.auth_method == "key"@ && p.key_passphrase_enabled,
    )
}

/// See [`keeps_secrets`].
pub fn secrets_to_keep(profile: &Profile, save_password: bool, save_passphrase: bool) -> (r: (
    bool,
    bool,
))
    ensures
        r == keeps_secrets(profile@, save_password, save_passphrase),
{
    let is_key = same_text(&profile.auth_method, "key");
    let keep_password = save_password && (same_text(&profile.auth_method, "password") || (is_key
        && profile.account_password_enabled));
    let keep_passphrase = save_passphrase && is_key && profile.key_passphrase_enabled;
    (keep_password, keep_passphrase)
}

/// After saving, the list holds the saved profile under its id: looking the
/// id up finds exactly what was saved.
pub proof fn law_save_then_find(s: Seq<ProfileView>, p: ProfileView)
    ensures
        position_of(upserted(s, p), p.id) matches Some(i) && upserted(s, p)[i as int] == p,
{
    lemma_position_of(s, p.id);
    let u = upserted(s, p);
    match position_of(s, p.id) {
        Some(i) => {
            lemma_position_first(u, p.id, i as int);
        },
        None => {
            lemma_position_first(u, p.id, s.len() as int);
        },
    }
}

/// Saving never changes the other profiles of the list.
pub proof fn law_save_keeps_others(s: Seq<ProfileView>, p: ProfileView, id: Seq<char>)
    requires
        id != p.id,
    ensures
        position_of(upserted(s, p), id) == position_of(s, id),
        forall|i: int| 0 <= i < s.len() && s[i].id != p.id ==> upserted(s, p)[i] == s[i],
{
    lemma_position_of(s, p.id);
    lemma_position_of(s, id);
    let u = upserted(s, p);
    match position_of(s, id) {
        Some(k) => {
            lemma_position_first(u, id, k as int);
        },
        None => {
            assert forall|j: int| 0 <= j < u.len() implies u[j].id != id by {}
            lemma_position_none(u, id);
        },
    }
}

/// After removing an id, no profile with it remains, and every other profile
/// is kept.
pub proof fn law_remove_then_absent(s: Seq<ProfileView>, id: Seq<char>)
    ensures
        position_of(without_id(s, id), id) is None,
        forall|p: ProfileView| s.contains(p) && p.id != id ==> #[trigger] without_id(s, id).contains(p),
{
    let w = without_id(s, id);
    let pred = |p: ProfileView| p.id != id;
    assert forall|j: int| 0 <= j < w.len() implies w[j].id != id by {
        s.lemma_filter_pred(pred, j);
    }
    lemma_position_none(w, id);
    assert forall|p: ProfileView| s.contains(p) && p.id != id implies #[trigger] w.contains(p) by {
        let k = choose|k: int| 0 <= k < s.len() && s[k] == p;
        s.lemma_filter_contains(pred, k);
    }
}

} // verus!
