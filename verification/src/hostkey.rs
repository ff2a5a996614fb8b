//! Server identity: the SHA-256 fingerprint of a host key, its comparison
//! with the fingerprint a profile trusts, and trusting a new one.
use vstd::prelude::*;

use crate::crypto::{sha256, sha256_digest};
use crate::encoding::{base64_encode_unpadded, base64_standard_unpadded};
use crate::error::{fails_with, fails_with_detail, AppError};
use crate::profile::{lemma_views_update, position_of, views, Profile, ProfileView};
use crate::text::{text, has_prefix, join2, starts_with_chars, chars_of, trim_end_char, trimmed_end_char, same_chars};

verus! {

/// `SHA256:` followed by the unpadded Base64 of the SHA-256 digest of the key.
pub open spec fn fingerprint_notation(host_key: Seq<u8>) -> Seq<char> {
    "SHA256:"@ + base64_standard_unpadded(sha256_digest(host_key))
}

/// The fingerprint of the host key a server presented.
pub fn fingerprint_of(host_key: &[u8]) -> (f: String)
    ensures
        f@ == fingerprint_notation(host_key@),
{
    let digest = sha256(host_key);
    let encoded = base64_encode_unpadded(digest.as_slice());
    join2("SHA256:", encoded.as_str())
}

/// The fingerprint of the key a server presented during the handshake; a
/// server that presented none cannot be identified.
pub fn host_fingerprint(host_key: Option<Vec<u8>>) -> (r: Result<String, AppError>)
    ensures
        match host_key {
            Some(k) => r matches Ok(f) && f@ == fingerprint_notation(k@),
            None => fails_with(
                r,
                "host_key"@,
                "O servidor não apresentou uma chave de identidade."@,
            ),
        },
{
    match host_key {
        Some(k) => Ok(fingerprint_of(k.as_slice())),
        None => Err(AppError::new("host_key", "O servidor não apresentou uma chave de identidade.")),
    }
}

/// Two fingerprints name the same key when they are equal once trailing `=`
/// (Base64 padding that older versions stored) is removed from both.
pub open spec fn same_fingerprint_spec(left: Seq<char>, right: Seq<char>) -> bool {
    trim_end_char(left, '=') == trim_end_char(right, '=')
}

/// Compares two fingerprints, ignoring trailing Base64 padding.
pub fn same_fingerprint(left: &str, right: &str) -> (r: bool)
    ensures
        r == same_fingerprint_spec(left@, right@),
{
    let l = trimmed_end_char(left, '=');
    let r = trimmed_end_char(right, '=');
    same_chars(&l, &r)
}

/// The server is trusted: the profile holds a fingerprint and it names the
/// presented key.
pub open spec fn host_trusted_spec(stored: Seq<char>, current: Seq<char>) -> bool {
    stored.len() > 0 && same_fingerprint_spec(stored, current)
}

/// Whether the profile trusts the server whose fingerprint is `current`.
pub fn host_trusted(profile: &Profile, current: &str) -> (r: bool)
    ensures
        r == host_trusted_spec(profile@.host_key_sha256, current@),
{
    !profile.host_key_sha256.as_str().is_empty() && same_fingerprint(&profile.host_key_sha256, current)
}

/// Admits a server before authentication: a profile that trusts no key yet
/// asks for a first confirmation, a different key blocks the connection, and
/// the trusted key gives back its fingerprint. Both refusals carry the
/// presented fingerprint as detail.
pub fn verify_host(profile: &Profile, current: &str) -> (r: Result<String, AppError>)
    ensures
        profile@.host_key_sha256.len() == 0 ==> fails_with_detail(
            r,
            "host_unknown"@,
            "Primeira conexão: confirme a identidade do servidor."@,
            current@,
        ),
        profile@.host_key_sha256.len() > 0 && !same_fingerprint_spec(
            profile@.host_key_sha256,
            current@,
        ) ==> fails_with_detail(
            r,
            "host_mismatch"@,
            "A identidade do servidor mudou. A conexão foi bloqueada."@,
            current@,
        ),
        host_trusted_spec(profile@.host_key_sha256, current@) ==> (r matches Ok(f) && f@
            == current@),
{
    if profile.host_key_sha256.as_str().is_empty() {
        return Err(
            AppError::detail(
                "host_unknown",
                "Primeira conexão: confirme a identidade do servidor.",
                current,
            ),
        );
    }
    if !same_fingerprint(&profile.host_key_sha256, current) {
        return Err(
            AppError::detail(
                "host_mismatch",
                "A identidade do servidor mudou. A conexão foi bloqueada.",
                current,
            ),
        );
    }
    Ok(current.to_owned())
}

/// The profile list after trusting `fingerprint` for the first profile with
/// this id.
pub open spec fn trusted_list(
    profiles: Seq<ProfileView>,
    i: int,
    fingerprint: Seq<char>,
) -> Seq<ProfileView> {
    profiles.update(i, ProfileView { host_key_sha256: fingerprint, ..profiles[i] })
}

/// Records `fingerprint` as the trusted identity of the profile `profile_id`
/// and gives back the updated profile. A fingerprint must begin with
/// `SHA256:`; the profile must exist.
#[verifier::rlimit(40)]
pub fn trust_host(profiles: &mut Vec<Profile>, profile_id: &str, fingerprint: &str) -> (r: Result<
    Profile,
    AppError,
>)
    ensures
        !has_prefix(fingerprint@, "SHA256:"@) ==> fails_with(
            r,
            "host_key"@,
            "Impressão digital inválida."@,
        ) && views(final(profiles)@) == views(old(profiles)@),
        has_prefix(fingerprint@, "SHA256:"@) && position_of(views(old(profiles)@), profile_id@)
            is None ==> fails_with(r, "profile"@, "Perfil não encontrado."@) && views(
            final(profiles)@,
        ) == views(old(profiles)@),
        has_prefix(fingerprint@, "SHA256:"@) ==> match position_of(
            views(old(profiles)@),
            profile_id@,
        ) {
            Some(i) => (r matches Ok(p) && p@ == trusted_list(
                views(old(profiles)@),
                i as int,
                fingerprint@,
            )[i as int]) && views(final(profiles)@) == trusted_list(
                views(old(profiles)@),
                i as int,
                fingerprint@,
            ),
            None => true,
        },
{
    let f = chars_of(fingerprint);
    let prefix = chars_of("SHA256:");
    if !starts_with_chars(&f, &prefix) {
        return Err(AppError::new("host_key", "Impressão digital inválida."));
    }
    let ghost before = views(profiles@);
    match crate::profile::index_of_id(profiles, profile_id) {
        None => Err(AppError::new("profile", "Perfil não encontrado.")),
        Some(i) => {
            let mut p = profiles[i].copy_of();
            p.host_key_sha256 = fingerprint.to_owned();
            let ghost pv = p@;
            assert(before[i as int] == profiles@[i as int]@);
            assert(pv == trusted_list(before, i as int, fingerprint@)[i as int]);
            let saved = p.copy_of();
            proof {
                lemma_views_update(profiles@, i as int, p);
            }
            profiles[i] = p;
            Ok(saved)
        },
    }
}

/// Trusting a fingerprint makes the profile trust exactly that server: the
/// next host check with the same fingerprint admits it, and a check with any
/// other fingerprint is blocked.
pub proof fn law_trust_then_verify(profiles: Seq<ProfileView>, i: int, fingerprint: Seq<char>)
    requires
        0 <= i < profiles.len(),
        has_prefix(fingerprint, "SHA256:"@),
    ensures
        host_trusted_spec(trusted_list(profiles, i, fingerprint)[i].host_key_sha256, fingerprint),
        forall|current: Seq<char>|
            !same_fingerprint_spec(fingerprint, current) ==> !host_trusted_spec(
                #[trigger] trusted_list(profiles, i, fingerprint)[i].host_key_sha256,
                current,
            ),
{
    reveal_strlit("SHA256:");
    assert(fingerprint.len() >= 7);
}


/// The host key algorithms offered in the handshake, most preferred first.
pub fn host_key_methods() -> (r: String)
    ensures
        r@ == "rsa-sha2-512,rsa-sha2-256,ssh-ed25519,ecdsa-sha2-nistp256,ecdsa-sha2-nistp384,ecdsa-sha2-nistp521"@,
{
    text("rsa-sha2-512,rsa-sha2-256,ssh-ed25519,ecdsa-sha2-nistp256,ecdsa-sha2-nistp384,ecdsa-sha2-nistp521")
}

} // verus!
