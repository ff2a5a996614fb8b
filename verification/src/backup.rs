//! Encrypted, portable backups of the profiles and their secrets.
//!
//! A backup file is the 8 bytes `FIRAWBK1`, a 16-byte salt, a 12-byte nonce
//! and the AES-256-GCM encryption of the payload under the Argon2id key that
//! the backup password and the salt derive.
use vstd::prelude::*;

use crate::crypto::{
    aes256gcm_decrypt, aes256gcm_encrypt, aes256gcm_open, aes256gcm_seal, aes_gcm_max_plain,
    argon2_error_text, argon2id_default_key, argon2id_derive,
};
use crate::error::{fails_with, AppError};
use crate::profile::{
    profile_problem, upserted, upsert_profile, validate_profile, views, Profile, ProfileView,
};
use crate::text::{chars_of, has_prefix, join2, text};

verus! {

/// The bytes `FIRAWBK1` that open every backup file.
pub open spec fn backup_magic() -> Seq<u8> {
    seq![70u8, 73u8, 82u8, 65u8, 87u8, 66u8, 75u8, 49u8]
}

/// The key the backup password and salt derive, when the password has at
/// least 8 characters and Argon2 accepts the lengths.
pub open spec fn backup_key(password: Seq<char>, salt: Seq<u8>) -> Option<Seq<u8>> {
    let bytes = vstd::utf8::encode_utf8(password);
    if password.len() >= 8 && bytes.len() <= 0xFFFF_FFFF && 8 <= salt.len() <= 0xFFFF_FFFF {
        Some(argon2id_default_key(bytes, salt))
    } else {
        None
    }
}

/// The backup file written for `payload`, or `None` when the password or the
/// size is refused.
pub open spec fn backup_file(
    payload: Seq<u8>,
    password: Seq<char>,
    salt: Seq<u8>,
    nonce: Seq<u8>,
) -> Option<Seq<u8>> {
    match backup_key(password, salt) {
        Some(k) => if payload.len() <= aes_gcm_max_plain() {
            Some(backup_magic() + salt + nonce + aes256gcm_seal(k, nonce, payload))
        } else {
            None
        },
        None => None,
    }
}

/// The payload that a backup file holds for this password: `None` when the
/// file is not a backup, the password is refused, or the file does not
/// decrypt under it.
pub open spec fn backup_contents(file: Seq<u8>, password: Seq<char>) -> Option<Seq<u8>> {
    if file.len() < 37 || file.take(8) != backup_magic() {
        None
    } else {
        match backup_key(password, file.subrange(8, 24)) {
            Some(k) => aes256gcm_open(k, file.subrange(24, 36), file.skip(36)),
            None => None,
        }
    }
}

/// Derives the backup key from the password and the salt. The password must
/// have at least 8 characters.
pub fn derive_backup_key(password: &str, salt: &[u8]) -> (r: Result<Vec<u8>, AppError>)
    ensures
        password@.len() < 8 ==> fails_with(
            r,
            "backup_password"@,
            "Use uma senha de backup com pelo menos 8 caracteres."@,
        ),
        password@.len() >= 8 ==> match backup_key(password@, salt@) {
            Some(k) => r matches Ok(key) && key@ == k,
            None => r matches Err(e) && e.code@ == "backup_crypto"@ && has_prefix(
                e.message@,
                "Não foi possível proteger o backup: "@,
            ),
        },
        r matches Ok(key) ==> key@.len() == 32,
{
    let count = chars_of(password).len();
    if count < 8 {
        return Err(
            AppError::new("backup_password", "Use uma senha de backup com pelo menos 8 caracteres."),
        );
    }
    let bytes = password.as_bytes();
    match argon2id_derive(bytes, salt) {
        Ok(key) => Ok(key),
        Err(e) => {
            let detail = argon2_error_text(&e);
            let message = join2("Não foi possível proteger o backup: ", detail.as_str());
            proof {
                assert(message@.take("Não foi possível proteger o backup: "@.len() as int)
                    =~= "Não foi possível proteger o backup: "@);
            }
            Err(AppError::new("backup_crypto", message.as_str()))
        },
    }
}

/// The magic bytes of a backup file.
fn magic_bytes() -> (m: Vec<u8>)
    ensures
        m@ == backup_magic(),
{
    let mut m: Vec<u8> = Vec::new();
    m.push(70);
    m.push(73);
    m.push(82);
    m.push(65);
    m.push(87);
    m.push(66);
    m.push(75);
    m.push(49);
    assert(m@ =~= backup_magic());
    m
}

/// Appends `b` to `v`.
fn append_bytes(v: &mut Vec<u8>, b: &[u8])
    ensures
        final(v)@ == old(v)@ + b@,
{
    let mut i: usize = 0;
    while i < b.len()
        invariant
            i <= b@.len(),
            v@ == old(v)@ + b@.take(i as int),
        decreases b@.len() - i,
    {
        v.push(b[i]);
        i = i + 1;
        assert(v@ =~= old(v)@ + b@.take(i as int));
    }
    assert(b@.take(b@.len() as int) =~= b@);
}

/// The bytes `b[from..to]`.
fn byte_range(b: &[u8], from: usize, to: usize) -> (r: Vec<u8>)
    requires
        from <= to <= b@.len(),
    ensures
        r@ == b@.subrange(from as int, to as int),
{
    let mut r: Vec<u8> = Vec::new();
    let mut i: usize = from;
    while i < to
        invariant
            from <= i <= to <= b@.len(),
            r@ == b@.subrange(from as int, i as int),
        decreases to - i,
    {
        r.push(b[i]);
        i = i + 1;
        assert(r@ =~= b@.subrange(from as int, i as int));
    }
    r
}

/// Writes a backup file for `payload` (see [`backup_file`]). The file opens
/// with the same password to the same payload.
pub fn seal_backup(payload: &[u8], password: &str, salt: &[u8], nonce: &[u8]) -> (r: Result<
    Vec<u8>,
    AppError,
>)
    requires
        salt@.len() == 16,
        nonce@.len() == 12,
    ensures
        password@.len() < 8 ==> fails_with(
            r,
            "backup_password"@,
            "Use uma senha de backup com pelo menos 8 caracteres."@,
        ),
        backup_key(password@, salt@) is Some && payload@.len() > aes_gcm_max_plain() ==> fails_with(
            r,
            "backup_crypto"@,
            "Não foi possível criptografar o backup."@,
        ),
        match backup_file(payload@, password@, salt@, nonce@) {
            Some(f) => r matches Ok(out) && out@ == f,
            None => r is Err,
        },
        r matches Ok(out) ==> backup_contents(out@, password@) == Some(payload@),
{
    let key = match derive_backup_key(password, salt) {
        Ok(k) => k,
        Err(e) => {
            return Err(e);
        },
    };
    let sealed = match aes256gcm_encrypt(key.as_slice(), nonce, payload) {
        Ok(c) => c,
        Err(_) => {
            return Err(AppError::new("backup_crypto", "Não foi possível criptografar o backup."));
        },
    };
    let mut out = magic_bytes();
    append_bytes(&mut out, salt);
    append_bytes(&mut out, nonce);
    append_bytes(&mut out, sealed.as_slice());
    proof {
        let f = out@;
        assert(f.take(8) =~= backup_magic());
        assert(f.subrange(8, 24) =~= salt@);
        assert(f.subrange(24, 36) =~= nonce@);
        assert(f.skip(36) =~= sealed@);
    }
    Ok(out)
}

/// Reads a backup file: the payload it holds for this password. A file too
/// short or without the `FIRAWBK1` mark is not a backup; a file that does not
/// decrypt means a wrong password or a damaged file.
pub fn open_backup(file: &[u8], password: &str) -> (r: Result<Vec<u8>, AppError>)
    ensures
        file@.len() < 37 || file@.take(8) != backup_magic() ==> fails_with(
            r,
            "backup_format"@,
            "Este arquivo não é um backup válido do Firaw SSH."@,
        ),
        file@.len() >= 37 && file@.take(8) == backup_magic() && password@.len() < 8 ==> fails_with(
            r,
            "backup_password"@,
            "Use uma senha de backup com pelo menos 8 caracteres."@,
        ),
        file@.len() >= 37 && file@.take(8) == backup_magic() && backup_key(
            password@,
            file@.subrange(8, 24),
        ) is Some ==> match backup_contents(file@, password@) {
            Some(p) => r matches Ok(out) && out@ == p,
            None => fails_with(
                r,
                "backup_password"@,
                "Senha incorreta ou arquivo de backup danificado."@,
            ),
        },
        r matches Ok(out) ==> backup_contents(file@, password@) == Some(out@),
{
    let magic = magic_bytes();
    if file.len() < 37 || !crate::text::bytes_at(file, magic.as_slice(), 0) {
        proof {
            if file@.len() >= 37 {
                assert(file@.subrange(0, 8) =~= file@.take(8));
            }
        }
        return Err(AppError::new("backup_format", "Este arquivo não é um backup válido do Firaw SSH."));
    }
    assert(file@.subrange(0, 8) =~= file@.take(8));
    let salt = byte_range(file, 8, 24);
    let nonce = byte_range(file, 24, 36);
    let sealed = byte_range(file, 36, file.len());
    assert(sealed@ =~= file@.skip(36));
    let key = match derive_backup_key(password, salt.as_slice()) {
        Ok(k) => k,
        Err(e) => {
            return Err(e);
        },
    };
    match aes256gcm_decrypt(key.as_slice(), nonce.as_slice(), sealed.as_slice()) {
        Ok(p) => Ok(p),
        Err(_) => Err(
            AppError::new("backup_password", "Senha incorreta ou arquivo de backup danificado."),
        ),
    }
}

/// A backup format version this release reads: only version 1.
pub fn check_backup_format(format: u8) -> (r: Result<(), AppError>)
    ensures
        format == 1 <==> r is Ok,
        format != 1 ==> fails_with(r, "backup_format"@, "Versão de backup ainda não suportada."@),
{
    if format != 1 {
        return Err(AppError::new("backup_format", "Versão de backup ainda não suportada."));
    }
    Ok(())
}

/// Exporting needs at least one profile.
pub fn check_export_count(count: usize) -> (r: Result<(), AppError>)
    ensures
        count > 0 <==> r is Ok,
        count == 0 ==> fails_with(r, "backup"@, "Não há perfis para exportar."@),
{
    if count == 0 {
        return Err(AppError::new("backup", "Não há perfis para exportar."));
    }
    Ok(())
}

/// A profile restored from a backup, with the secrets saved beside it.
#[derive(Debug)]
pub struct PortableProfile {
    pub profile: Profile,
    pub password: Option<String>,
    pub passphrase: Option<String>,
}

/// A secret to put into the system vault: profile id, kind (`password` or
/// `passphrase`) and value.
#[derive(Debug)]
pub struct SecretWrite {
    pub profile_id: String,
    pub kind: String,
    pub value: String,
}

/// What importing a backup does: the vault writes to make, in order, and
/// then either the profile list to store and the number of imported
/// profiles, or the error that stops the import once the writes before it
/// are made.
#[derive(Debug)]
pub struct ImportPlan {
    pub secrets: Vec<SecretWrite>,
    pub outcome: Result<(Vec<Profile>, usize), AppError>,
}

/// The list after importing the first `n` items of a backup into `current`.
pub open spec fn imported(current: Seq<ProfileView>, items: Seq<PortableProfile>, n: int) -> Seq<
    ProfileView,
>
    decreases n,
{
    if n <= 0 {
        current
    } else {
        upserted(imported(current, items, n - 1), items[n - 1].profile@)
    }
}

/// The first item of a backup whose profile fails validation, if any.
pub open spec fn first_invalid(items: Seq<PortableProfile>) -> Option<int> {
    if exists|i: int| 0 <= i < items.len() && profile_problem(items[i].profile@) is Some {
        Some(
            choose|i: int|
                0 <= i < items.len() && profile_problem(items[i].profile@) is Some && forall|j: int|
                    0 <= j < i ==> profile_problem(items[j].profile@) is None,
        )
    } else {
        None
    }
}

/// The secret writes the first `n` items of a backup ask for.
pub open spec fn secret_writes(items: Seq<PortableProfile>, n: int) -> Seq<(Seq<char>, Seq<char>, Seq<char>)>
    decreases n,
{
    if n <= 0 {
        Seq::empty()
    } else {
        let item = items[n - 1];
        let id = item.profile@.id;
        secret_writes(items, n - 1) + (match item.password {
            Some(v) => seq![(id, "password"@, v@)],
            None => Seq::empty(),
        }) + (match item.passphrase {
            Some(v) => seq![(id, "passphrase"@, v@)],
            None => Seq::empty(),
        })
    }
}

/// The values of a list of secret writes.
pub open spec fn write_views(s: Seq<SecretWrite>) -> Seq<(Seq<char>, Seq<char>, Seq<char>)> {
    s.map_values(|w: SecretWrite| (w.profile_id@, w.kind@, w.value@))
}

/// Plans the import of the items of a backup into the stored list `current`:
/// each item is validated, then saved over the profile with its id (or
/// appended), and its secrets are written to the vault. The first invalid item
/// stops the import after the writes of the items before it.
pub fn plan_import(current: Vec<Profile>, items: Vec<PortableProfile>) -> (plan: ImportPlan)
    ensures
        match first_invalid(items@) {
            None => plan.outcome matches Ok((list, n)) && n == items@.len() && views(list@)
                == imported(views(current@), items@, items@.len() as int) && write_views(
                plan.secrets@,
            ) == secret_writes(items@, items@.len() as int),
            Some(k) => plan.outcome matches Err(e) && profile_problem(items@[k].profile@) matches Some(
                m,
            ) && e.is("validation"@, m) && write_views(plan.secrets@) == secret_writes(items@, k),
        },
{
    let ghost start = views(current@);
    let ghost all = items@;
    let count = items.len();
    let mut list = current;
    let mut secrets: Vec<SecretWrite> = Vec::new();
    let mut i: usize = 0;
    while i < items.len()
        invariant
            all == items@,
            count == items@.len(),
            i <= items@.len(),
            views(list@) == imported(start, all, i as int),
            write_views(secrets@) == secret_writes(all, i as int),
            forall|j: int| 0 <= j < i ==> profile_problem(#[trigger] all[j].profile@) is None,
        decreases items@.len() - i,
    {
        let item = &items[i];
        match validate_profile(&item.profile) {
            Ok(()) => {},
            Err(e) => {
                proof {
                    assert(first_invalid(all) == Some(i as int)) by {
                        assert(profile_problem(all[i as int].profile@) is Some);
                        let k = choose|k: int|
                            0 <= k < all.len() && profile_problem(all[k].profile@) is Some
                                && forall|j: int|
                                0 <= j < k ==> profile_problem(all[j].profile@) is None;
                        if k < i {
                        } else if k > i {
                        }
                    }
                }
                return ImportPlan { secrets, outcome: Err(e) };
            },
        }
        let ghost before = write_views(secrets@);
        let id = item.profile.id.clone();
        upsert_profile(&mut list, item.profile.copy_of());
        match &item.password {
            Some(v) => {
                secrets.push(SecretWrite { profile_id: id.clone(), kind: text("password"), value: v.clone() });
            },
            None => {},
        }
        match &item.passphrase {
            Some(v) => {
                secrets.push(SecretWrite { profile_id: id.clone(), kind: text("passphrase"), value: v.clone() });
            },
            None => {},
        }
        proof {
            assert(write_views(secrets@) =~= secret_writes(all, i + 1));
        }
        i = i + 1;
    }
    proof {
        assert(!(exists|k: int| 0 <= k < all.len() && profile_problem(all[k].profile@) is Some));
    }
    ImportPlan { secrets, outcome: Ok((list, count)) }
}


/// The payload `bytes[..n]` of a 16-byte random value, as a slice copy.
fn first_bytes(b: &[u8; 16], n: usize) -> (r: Vec<u8>)
    requires
        n <= 16,
    ensures
        r@ == b@.take(n as int),
{
    let mut r: Vec<u8> = Vec::new();
    let mut i: usize = 0;
    while i < n
        invariant
            i <= n <= 16,
            b@.len() == 16,
            r@ == b@.take(i as int),
        decreases n - i,
    {
        r.push(b[i]);
        i = i + 1;
        assert(r@ =~= b@.take(i as int));
    }
    r
}

/// Writes a backup file for `payload` under a fresh random salt and nonce.
/// It always opens with the same password to the same payload; it is
/// written whenever the password has at least 8 characters (and at most
/// `0xFFFF_FFFF` bytes) and the payload fits AES-GCM.
pub fn export_backup(payload: &[u8], password: &str) -> (r: Result<Vec<u8>, AppError>)
    ensures
        password@.len() < 8 ==> fails_with(
            r,
            "backup_password"@,
            "Use uma senha de backup com pelo menos 8 caracteres."@,
        ),
        password@.len() >= 8 && vstd::utf8::encode_utf8(password@).len() <= 0xFFFF_FFFF
            && payload@.len() <= aes_gcm_max_plain() ==> r is Ok,
        r matches Ok(out) ==> backup_contents(out@, password@) == Some(payload@),
{
    let salt = crate::crypto::random_uuid_bytes();
    let nonce_source = crate::crypto::random_uuid_bytes();
    let nonce = first_bytes(&nonce_source, 12);
    let salt_bytes = first_bytes(&salt, 16);
    assert(salt@.take(16) =~= salt@);
    seal_backup(payload, password, salt_bytes.as_slice(), nonce.as_slice())
}

/// The suggested name of an exported backup made at `now`.
pub fn backup_export_name(now: u64) -> (r: String)
    ensures
        r@ == "Firaw-SSH-backup-"@ + crate::text::decimal(now as nat) + ".firawssh"@,
{
    let t = crate::text::decimal_text(now);
    crate::text::join3("Firaw-SSH-backup-", t.as_str(), ".firawssh")
}

} // verus!
