//! Authentication decisions: which secrets a connection uses, which method
//! a profile asks for, and what follows each answer of the server.
//!
//! The exchanges with the server are made by the caller; these functions say
//! what to try next and which error to report.
use vstd::prelude::*;

use crate::error::AppError;
use crate::profile::{keeps_secrets, Profile, ProfileView};
use crate::text::{
    chars_of, chars_range, find_char_exec, join2, join3, lemma_find_char_bound, list_has,
    same_chars, same_text, split_char, text, };

verus! {

/// The text an optional `String` holds.
pub open spec fn opt_text(o: Option<String>) -> Option<Seq<char>> {
    match o {
        Some(s) => Some(s@),
        None => None,
    }
}

/// A transient secret typed for this connection wins over the stored one,
/// unless it is empty.
pub open spec fn pick_secret(transient: Option<Seq<char>>, stored: Option<Seq<char>>) -> Option<
    Seq<char>,
> {
    match transient {
        Some(t) => if t.len() > 0 {
            Some(t)
        } else {
            stored
        },
        None => stored,
    }
}

/// The profile authenticates with the account password: password
/// authentication, or key authentication with the account password step.
pub open spec fn uses_password(p: ProfileView) -> bool {
    p.auth_method == "password"@ || (p.auth_method == "key"@ && p.account_password_enabled)
}

/// The profile authenticates with a protected key.
pub open spec fn uses_passphrase(p: ProfileView) -> bool {
    p.auth_method == "key"@ && p.key_passphrase_enabled
}

/// A save keeps in the vault exactly the secrets a connection with the
/// profile uses, among those the user asked to save: the account password
/// for password authentication and for key authentication with the account
/// password step, the passphrase for a protected key.
pub proof fn law_vault_keeps_the_secrets_connections_use(
    p: ProfileView,
    save_password: bool,
    save_passphrase: bool,
)
    ensures
        keeps_secrets(p, save_password, save_passphrase).0 <==> save_password && uses_password(p),
        keeps_secrets(p, save_password, save_passphrase).1 <==> save_passphrase && uses_passphrase(p),
        save_password && p.auth_method == "key"@ && p.account_password_enabled ==> keeps_secrets(
            p,
            save_password,
            save_passphrase,
        ).0,
        save_password && p.auth_method == "password"@ ==> keeps_secrets(
            p,
            save_password,
            save_passphrase,
        ).0,
        p.auth_method == "key"@ && !p.account_password_enabled ==> !keeps_secrets(
            p,
            save_password,
            save_passphrase,
        ).0,
{
    reveal_strlit("key");
    reveal_strlit("password");
    assert("key"@.len() != "password"@.len());
    assert("key"@ != "password"@);
}

fn opt_view(o: &Option<String>) -> (r: Option<String>)
    ensures
        match r {
            Some(s) => o matches Some(t) && s@ == t@,
            None => o is None,
        },
{
    match o {
        Some(s) => Some(s.clone()),
        None => None,
    }
}

fn pick(transient: &Option<String>, stored: &Option<String>) -> (r: Option<String>)
    ensures
        opt_text(r) == pick_secret(opt_text(*transient), opt_text(*stored)),
{
    match transient {
        Some(t) => if !t.as_str().is_empty() {
            Some(t.clone())
        } else {
            opt_view(stored)
        },
        None => opt_view(stored),
    }
}

/// The account password and key passphrase a connection uses: each one only
/// if the profile uses it (see [`uses_password`], [`uses_passphrase`]), the
/// typed one before the stored one (see [`pick_secret`]).
pub fn connection_secrets(
    profile: &Profile,
    transient_password: &Option<String>,
    transient_passphrase: &Option<String>,
    stored_password: &Option<String>,
    stored_passphrase: &Option<String>,
) -> (r: (Option<String>, Option<String>))
    ensures
        opt_text(r.0) == (if uses_password(profile@) {
            pick_secret(
                opt_text(*transient_password),
                opt_text(*stored_password),
            )
        } else {
            None
        }),
        opt_text(r.1) == (if uses_passphrase(profile@) {
            pick_secret(
                opt_text(*transient_passphrase),
                opt_text(*stored_passphrase),
            )
        } else {
            None
        }),
{
    let is_key = same_text(&profile.auth_method, "key");
    let password_enabled = same_text(&profile.auth_method, "password") || (is_key
        && profile.account_password_enabled);
    let password = if password_enabled {
        pick(transient_password, stored_password)
    } else {
        None
    };
    let passphrase = if is_key && profile.key_passphrase_enabled {
        pick(transient_passphrase, stored_passphrase)
    } else {
        None
    };
    (password, passphrase)
}

/// The first step of authentication.
#[derive(Debug)]
pub enum AuthStart {
    /// Authenticate with the account password (see [`password_factor_plan`]).
    Password { password: String },
    /// Authenticate with the key file of the profile.
    Key,
    /// Authenticate with the SSH agent.
    Agent,
    /// Stop with this error.
    Fail(AppError),
}

/// How a profile starts authenticating: password authentication needs a
/// password; key and agent authentication go on; any other method is
/// unknown.
pub fn auth_start(profile: &Profile, password: &Option<String>) -> (r: AuthStart)
    ensures
        profile@.auth_method == "password"@ ==> match password {
            Some(p) => r matches AuthStart::Password { password: q } && q@ == p@,
            None => r matches AuthStart::Fail(e) && e.is(
                "password_required"@,
                "Digite ou salve a senha deste perfil."@,
            ),
        },
        profile@.auth_method == "key"@ ==> r is Key,
        profile@.auth_method == "agent"@ ==> r is Agent,
        profile@.auth_method != "password"@ && profile@.auth_method != "key"@
            && profile@.auth_method != "agent"@ ==> (r matches AuthStart::Fail(e) && e.is(
            "authentication"@,
            "Método de autenticação desconhecido."@,
        )),
{
    proof {
        reveal_strlit("password");
        reveal_strlit("key");
        reveal_strlit("agent");
        assert("key"@ != "password"@) by {
            assert("key"@[0] != "password"@[0]);
        }
        assert("agent"@ != "password"@) by {
            assert("agent"@[0] != "password"@[0]);
        }
        assert("agent"@ != "key"@) by {
            assert("agent"@[0] != "key"@[0]);
        }
    }
    if same_text(&profile.auth_method, "password") {
        match password {
            Some(p) => AuthStart::Password { password: p.clone() },
            None => AuthStart::Fail(
                AppError::new("password_required", "Digite ou salve a senha deste perfil."),
            ),
        }
    } else if same_text(&profile.auth_method, "key") {
        AuthStart::Key
    } else if same_text(&profile.auth_method, "agent") {
        AuthStart::Agent
    } else {
        AuthStart::Fail(AppError::new("authentication", "Método de autenticação desconhecido."))
    }
}

/// A protected key needs its passphrase before it is tried.
pub fn check_key_passphrase(profile: &Profile, has_passphrase: bool) -> (r: Result<(), AppError>)
    ensures
        r is Ok <==> !profile@.key_passphrase_enabled || has_passphrase,
        r matches Err(e) ==> e.is(
            "key_passphrase_required"@,
            "Esta chave está marcada como protegida. Digite ou salve a senha da chave."@,
        ),
{
    if profile.key_passphrase_enabled && !has_passphrase {
        return Err(
            AppError::new(
                "key_passphrase_required",
                "Esta chave está marcada como protegida. Digite ou salve a senha da chave.",
            ),
        );
    }
    Ok(())
}

/// `item` is one of the comma-separated entries of `list`.
pub fn list_has_exec(list: &str, item: &str) -> (r: bool)
    ensures
        r == list_has(list@, item@),
{
    let l = chars_of(list);
    let it = chars_of(item);
    let mut rest = chars_range(&l, 0, l.len());
    assert(rest@ =~= l@);
    let ghost mut seen: Seq<Seq<char>> = Seq::empty();
    loop
        invariant
            split_char(l@, ',') == seen + split_char(rest@, ','),
            !seen.contains(it@),
            it@ == item@,
            l@ == list@,
        decreases rest@.len(),
    {
        proof {
            lemma_find_char_bound(rest@, ',');
        }
        match find_char_exec(&rest, ',') {
            Some(i) => {
                let piece = chars_range(&rest, 0, i);
                let tail = chars_range(&rest, i + 1, rest.len());
                assert(tail@ =~= rest@.skip(i as int + 1));
                assert(piece@ =~= rest@.take(i as int));
                assert(split_char(rest@, ',') == seq![piece@] + split_char(tail@, ','));
                if same_chars(&piece, &it) {
                    assert((seen + split_char(rest@, ','))[seen.len() as int] == piece@);
                    return true;
                }
                proof {
                    assert(seen + split_char(rest@, ',') =~= seen.push(piece@) + split_char(
                        tail@,
                        ',',
                    ));
                    assert(!seen.push(piece@).contains(it@)) by {
                        if seen.push(piece@).contains(it@) {
                            let k = choose|k: int|
                                0 <= k < seen.push(piece@).len() && seen.push(piece@)[k] == it@;
                            if k < seen.len() {
                                assert(seen[k] == it@);
                            }
                        }
                    }
                    seen = seen.push(piece@);
                }
                rest = tail;
            },
            None => {
                assert(split_char(rest@, ',') == seq![rest@]);
                let found = same_chars(&rest, &it);
                proof {
                    let all = seen + seq![rest@];
                    if found {
                        assert(all[seen.len() as int] == it@);
                    } else {
                        if all.contains(it@) {
                            let k = choose|k: int| 0 <= k < all.len() && all[k] == it@;
                            if k < seen.len() {
                                assert(seen[k] == it@);
                            }
                        }
                    }
                }
                return found;
            },
        }
    }
}

/// A password step may try a method when the server named no method at all
/// or names it.
pub open spec fn method_allowed(available: Seq<char>, method: Seq<char>) -> bool {
    available.len() == 0 || list_has(available, method)
}

/// Which password methods to try with the methods `available` on the server:
/// `password`, then (if still not authenticated) `keyboard-interactive`.
pub fn password_factor_plan(available: &str) -> (r: (bool, bool))
    ensures
        r.0 == method_allowed(available@, "password"@),
        r.1 == method_allowed(available@, "keyboard-interactive"@),
{
    let empty = available.is_empty();
    (empty || list_has_exec(available, "password"), empty || list_has_exec(
        available,
        "keyboard-interactive",
    ))
}

/// The errors of a password step, joined by `; `.
pub open spec fn joined(errors: Seq<Seq<char>>) -> Seq<char>
    decreases errors.len(),
{
    if errors.len() == 0 {
        Seq::empty()
    } else if errors.len() == 1 {
        errors[0]
    } else {
        joined(errors.drop_last()) + "; "@ + errors.last()
    }
}

/// The refusal of a password step for `username`: the errors the server gave,
/// or the methods it offered when it gave none.
pub open spec fn password_refusal(
    username: Seq<char>,
    available: Seq<char>,
    errors: Seq<Seq<char>>,
) -> Seq<char> {
    "A senha do usuário "@ + username + " foi recusada. "@ + (if errors.len() == 0 {
        "métodos oferecidos pelo servidor: "@ + available
    } else {
        joined(errors)
    })
}

/// The error of a password step that did not authenticate.
pub fn password_factor_failure(username: &str, available: &str, errors: &Vec<String>) -> (e:
    AppError)
    ensures
        e.is(
            "authentication"@,
            password_refusal(username@, available@, errors@.map_values(|s: String| s@)),
        ),
{
    let ghost es = errors@.map_values(|s: String| s@);
    let detail = if errors.len() == 0 {
        join2("métodos oferecidos pelo servidor: ", available)
    } else {
        let mut d = errors[0].clone();
        let mut i: usize = 1;
        while i < errors.len()
            invariant
                1 <= i <= errors@.len(),
                es == errors@.map_values(|s: String| s@),
                d@ == joined(es.take(i as int)),
            decreases errors@.len() - i,
        {
            d.append("; ");
            d.append(errors[i].as_str());
            proof {
                reveal_strlit("; ");
                let t = es.take(i + 1);
                assert(t.drop_last() =~= es.take(i as int));
            }
            i = i + 1;
        }
        assert(es.take(errors@.len() as int) =~= es);
        proof {
            assert(es.take(1) =~= seq![es[0]]);
        }
        d
    };
    let message = join3("A senha do usuário ", username, " foi recusada. ");
    let full = join2(message.as_str(), detail.as_str());
    AppError::new("authentication", full.as_str())
}

/// What follows a key attempt that did not authenticate.
#[derive(Debug)]
pub enum AfterKey {
    /// Go on with the account password, offering the methods the server named.
    SecondFactor { password: String, offered: String },
    /// Stop with this error.
    Fail(AppError),
}

/// The refusal when the key could not be used while the server still offers
/// public keys.
pub open spec fn key_sign_message(private_key: Seq<char>, detail: Seq<char>) -> Seq<char> {
    "Não foi possível assinar com a chave privada. "@ + private_key
        + " Confirme a opção “Esta chave possui senha” e a senha informada. Detalhe: "@ + detail
}

/// The refusal when the key was refused and no second step is offered.
pub open spec fn key_refused_message(private_key: Seq<char>, detail: Seq<char>) -> Seq<char> {
    "A chave privada foi recusada. Confirme a senha da chave e se “"@ + private_key
        + "” corresponde ao arquivo .pub instalado no servidor. Detalhe: "@ + detail
}

/// Decides what follows a key attempt that left the user unauthenticated,
/// given the methods the server still offers (`remaining`), the key
/// attempt's error text (if it failed) and the account password (if any):
/// - the key failed and the server still offers `publickey`: the key could not
///   sign;
/// - the server offers `password` or `keyboard-interactive` and the profile has
///   the account password step: go on with the password, which is required;
/// - the server offers a password method but the step is off: report it;
/// - otherwise the key was refused.
pub fn after_key_attempt(
    profile: &Profile,
    private_key: &str,
    key_error: &Option<String>,
    remaining: &str,
    password: &Option<String>,
) -> (r: AfterKey)
    ensures
        ({
            let second = list_has(remaining@, "password"@) || list_has(
                remaining@,
                "keyboard-interactive"@,
            );
            let key_offered = list_has(remaining@, "publickey"@);
            if key_error is Some && key_offered {
                r matches AfterKey::Fail(e) && e.is(
                    "authentication"@,
                    key_sign_message(private_key@, key_error->0@),
                )
            } else if second && profile@.account_password_enabled {
                match password {
                    Some(p) => r matches AfterKey::SecondFactor { password: q, offered } && q@
                        == p@ && offered@ == remaining@,
                    None => r matches AfterKey::Fail(e) && e.is(
                        "root_password_required"@,
                        "A chave foi processada, mas o servidor também exige a senha do usuário "@
                            + profile@.username
                            + ". Digite-a ou salve-a no cofre seguro do sistema."@,
                    ),
                }
            } else if second {
                r matches AfterKey::Fail(e) && e.is(
                    "account_password_disabled"@,
                    "O servidor exige a senha do usuário "@ + profile@.username
                        + " depois da chave. Volte ao perfil e ative essa etapa."@,
                )
            } else {
                r matches AfterKey::Fail(e) && e.is(
                    "authentication"@,
                    key_refused_message(
                        private_key@,
                        match key_error {
                            Some(d) => d@,
                            None => "o servidor não ofereceu a próxima etapa"@,
                        },
                    ),
                )
            }
        }),
{
    let second = list_has_exec(remaining, "password") || list_has_exec(
        remaining,
        "keyboard-interactive",
    );
    let key_offered = list_has_exec(remaining, "publickey");
    if key_error.is_some() && key_offered {
        let detail = match key_error {
            Some(d) => d.clone(),
            None => String::new(),
        };
        let a = join3("Não foi possível assinar com a chave privada. ", private_key,
            " Confirme a opção “Esta chave possui senha” e a senha informada. Detalhe: ");
        let m = join2(a.as_str(), detail.as_str());
        return AfterKey::Fail(AppError::new("authentication", m.as_str()));
    }
    if second && profile.account_password_enabled {
        return match password {
            Some(p) => AfterKey::SecondFactor { password: p.clone(), offered: remaining.to_owned() },
            None => {
                let m = join3(
                    "A chave foi processada, mas o servidor também exige a senha do usuário ",
                    profile.username.as_str(),
                    ". Digite-a ou salve-a no cofre seguro do sistema.",
                );
                AfterKey::Fail(AppError::new("root_password_required", m.as_str()))
            },
        };
    }
    if second {
        let m = join3(
            "O servidor exige a senha do usuário ",
            profile.username.as_str(),
            " depois da chave. Volte ao perfil e ative essa etapa.",
        );
        return AfterKey::Fail(AppError::new("account_password_disabled", m.as_str()));
    }
    let detail = match key_error {
        Some(d) => d.clone(),
        None => text("o servidor não ofereceu a próxima etapa"),
    };
    let a = join3("A chave privada foi recusada. Confirme a senha da chave e se “", private_key,
        "” corresponde ao arquivo .pub instalado no servidor. Detalhe: ");
    let m = join2(a.as_str(), detail.as_str());
    AfterKey::Fail(AppError::new("authentication", m.as_str()))
}

/// The refusal of the SSH agent, with the agent's error text.
pub fn agent_failure(detail: &str) -> (e: AppError)
    ensures
        e.is("authentication"@, "Nenhuma chave aceita no agente SSH: "@ + detail@),
{
    let m = join2("Nenhuma chave aceita no agente SSH: ", detail);
    AppError::new("authentication", m.as_str())
}

/// The error when every step ran and the server still did not authenticate.
pub fn not_authenticated() -> (e: AppError)
    ensures
        e.is("authentication"@, "O servidor não autenticou este usuário."@),
{
    AppError::new("authentication", "O servidor não autenticou este usuário.")
}

/// The answers to a keyboard-interactive challenge: the password for every
/// prompt.
pub fn answer_prompts(password: &str, prompts: usize) -> (r: Vec<String>)
    ensures
        r@.len() == prompts,
        forall|i: int| 0 <= i < prompts ==> (#[trigger] r@[i])@ == password@,
{
    let mut r: Vec<String> = Vec::new();
    let mut i: usize = 0;
    while i < prompts
        invariant
            i <= prompts,
            r@.len() == i,
            forall|j: int| 0 <= j < i ==> (#[trigger] r@[j])@ == password@,
        decreases prompts - i,
    {
        r.push(password.to_owned());
        i = i + 1;
    }
    r
}

} // verus!
