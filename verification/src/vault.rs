//! Secrets in the system's credential vault: under which account each is
//! kept, what saving a profile does to them, and how the vault's answers
//! become the library's results. The vault itself is reached by the caller.
use vstd::prelude::*;

use crate::error::{fails_with, AppError};
use crate::text::{join2, join3};

verus! {

/// The account under which a secret of a profile is kept: the profile's id,
/// `:` and the kind of secret (`password` or `passphrase`).
pub fn credential_account(profile_id: &str, kind: &str) -> (r: String)
    ensures
        r@ == profile_id@ + ":"@ + kind@,
{
    join3(profile_id, ":", kind)
}

/// What to do with a stored secret when a profile is saved.
#[derive(Debug)]
pub enum SecretAction {
    /// Store this new value.
    Store(String),
    /// Keep what is stored; report whether anything is.
    Probe,
    /// Remove the secret.
    Delete,
}

/// A secret that is to be kept is stored when a non-empty value is given,
/// else the stored one stays; a secret that is not to be kept is removed.
pub fn secret_action(value: Option<String>, keep: bool) -> (r: SecretAction)
    ensures
        keep && (value matches Some(v) && v@.len() > 0) ==> (r matches SecretAction::Store(s) && s@
            == value->0@),
        keep && !(value matches Some(v) && v@.len() > 0) ==> r is Probe,
        !keep ==> r is Delete,
{
    if keep {
        match value {
            Some(v) => {
                if v.as_str().is_empty() {
                    SecretAction::Probe
                } else {
                    SecretAction::Store(v)
                }
            },
            None => SecretAction::Probe,
        }
    } else {
        SecretAction::Delete
    }
}

/// A failure of the vault: whether it only says that no secret is stored,
/// and its text.
#[derive(Debug)]
pub struct VaultError {
    pub no_entry: bool,
    pub text: String,
}

/// The vault could not be opened.
pub fn vault_unavailable(e: &VaultError) -> (r: AppError)
    ensures
        r.is("credential"@, "Cofre seguro do sistema indisponível: "@ + e.text@),
{
    let m = join2("Cofre seguro do sistema indisponível: ", e.text.as_str());
    AppError::new("credential", m.as_str())
}

/// A read of a secret: its value, nothing when none is stored, or an error.
pub fn secret_read(read: Result<String, VaultError>) -> (r: Result<Option<String>, AppError>)
    ensures
        match read {
            Ok(v) => r matches Ok(Some(s)) && s@ == v@,
            Err(e) => if e.no_entry {
                r matches Ok(None)
            } else {
                fails_with(r, "credential"@, "Não foi possível ler o cofre: "@ + e.text@)
            },
        },
{
    match read {
        Ok(v) => Ok(Some(v)),
        Err(e) => {
            if e.no_entry {
                Ok(None)
            } else {
                let m = join2("Não foi possível ler o cofre: ", e.text.as_str());
                Err(AppError::new("credential", m.as_str()))
            }
        },
    }
}

/// After a store: whether a secret is now kept (always, when the store
/// succeeded).
pub fn secret_stored(write: Result<(), VaultError>) -> (r: Result<bool, AppError>)
    ensures
        match write {
            Ok(_) => r == Ok::<bool, AppError>(true),
            Err(e) => fails_with(
                r,
                "credential"@,
                "Não foi possível proteger a credencial: "@ + e.text@,
            ),
        },
{
    match write {
        Ok(()) => Ok(true),
        Err(e) => {
            let m = join2("Não foi possível proteger a credencial: ", e.text.as_str());
            Err(AppError::new("credential", m.as_str()))
        },
    }
}

/// After a probe: a secret is kept when the vault could read one.
pub fn secret_probed(read: &Result<String, VaultError>) -> (r: bool)
    ensures
        r == read is Ok,
{
    read.is_ok()
}

/// After a removal: no secret is kept; a secret that was not there counts
/// as removed.
pub fn secret_deleted(delete: Result<(), VaultError>) -> (r: Result<bool, AppError>)
    ensures
        match delete {
            Ok(_) => r == Ok::<bool, AppError>(false),
            Err(e) => if e.no_entry {
                r == Ok::<bool, AppError>(false)
            } else {
                fails_with(r, "credential"@, "Não foi possível remover a credencial: "@ + e.text@)
            },
        },
{
    match delete {
        Ok(()) => Ok(false),
        Err(e) => {
            if e.no_entry {
                Ok(false)
            } else {
                let m = join2("Não foi possível remover a credencial: ", e.text.as_str());
                Err(AppError::new("credential", m.as_str()))
            }
        },
    }
}

} // verus!
