use firaw_ssh::keys::{
    display_local_path, file_name_text, key_files, key_private_path, key_public_path,
    normalize_selected_key_path, PathStyle,
};

#[test]
fn public_key_selection_uses_matching_private_key() {
    let private = "/tmp/firaw-key-3f2a".to_string();
    let public = format!("{private}.pub");

    assert_eq!(normalize_selected_key_path(PathStyle::Unix, &public, true), private);
    let (resolved_private, resolved_public) = key_files(PathStyle::Unix, &public, true, true).unwrap();
    assert_eq!(resolved_private, private);
    assert_eq!(resolved_public, Some(public.clone()));
}

#[test]
fn public_key_without_private_pair_has_actionable_error() {
    let private = "/tmp/firaw-key-9b1c".to_string();
    let public = format!("{private}.pub");

    let error = key_files(PathStyle::Unix, &public, false, true).unwrap_err();
    assert_eq!(error.code, "private_key_missing");
    assert!(error.message.contains("somente a chave pública"));
}

#[test]
fn selection_of_private_key_is_kept() {
    let w = PathStyle::Windows;
    assert_eq!(normalize_selected_key_path(w, "C:\\keys\\id_ed25519", true), "C:\\keys\\id_ed25519");
    let (private, public) = key_files(w, "C:\\keys\\id_ed25519", true, true).unwrap();
    assert_eq!(private, "C:\\keys\\id_ed25519");
    assert_eq!(public, Some("C:\\keys\\id_ed25519.pub".to_string()));
    let (_, public) = key_files(w, "C:\\keys\\id_ed25519", true, false).unwrap();
    assert_eq!(public, None);
}

#[test]
fn public_key_extension_ignores_case_and_needs_a_stem() {
    let u = PathStyle::Unix;
    assert_eq!(normalize_selected_key_path(u, "/home/u/.ssh/id_rsa.PUB", true), "/home/u/.ssh/id_rsa");
    assert_eq!(normalize_selected_key_path(u, "/home/u/.ssh/id_rsa.pub", false), "/home/u/.ssh/id_rsa.pub");
    assert_eq!(normalize_selected_key_path(u, "/home/u/.ssh/.pub", true), "/home/u/.ssh/.pub");
}

#[test]
fn missing_private_key_names_the_path() {
    let error = key_files(PathStyle::Unix, "/keys/server", false, false).unwrap_err();
    assert_eq!(error.code, "private_key_missing");
    assert_eq!(error.message, "A chave privada não foi encontrada em “/keys/server”.");
}

#[test]
fn backslash_is_part_of_a_unix_file_name() {
    let u = PathStyle::Unix;
    assert_eq!(normalize_selected_key_path(u, "k\\.pub", true), "k\\");
    let (private, public) = key_files(u, "k\\.pub", true, true).unwrap();
    assert_eq!(private, "k\\");
    assert_eq!(public, Some("k\\.pub".to_string()));
    let error = key_files(u, "k\\.pub", false, true).unwrap_err();
    assert!(error.message.contains("somente a chave pública"));
    assert_eq!(file_name_text(u, "dir\\file.txt"), Some("dir\\file.txt".to_string()));
}

#[test]
fn backslash_separates_on_windows() {
    let w = PathStyle::Windows;
    assert_eq!(normalize_selected_key_path(w, "C:\\keys\\.pub", true), "C:\\keys\\.pub");
    assert_eq!(key_private_path(w, "C:\\keys\\id.pub"), "C:\\keys\\id");
    assert_eq!(key_public_path(w, "C:\\keys\\id"), "C:\\keys\\id.pub");
    assert_eq!(file_name_text(w, "C:"), None);
    assert_eq!(file_name_text(w, "C:id"), Some("id".to_string()));
    assert_eq!(file_name_text(w, "C:\\"), None);
}

#[test]
fn trailing_separators_and_dots_are_skipped() {
    let u = PathStyle::Unix;
    assert_eq!(key_private_path(u, "/keys/id.pub/"), "/keys/id");
    assert_eq!(key_private_path(u, "/keys/id.pub/./"), "/keys/id");
    assert_eq!(key_public_path(u, "/keys/id.pub/"), "/keys/id.pub/");
    assert_eq!(file_name_text(u, "/keys/id/"), Some("id".to_string()));
    assert_eq!(file_name_text(u, "/"), None);
    assert_eq!(file_name_text(u, "a/.."), None);
    assert_eq!(file_name_text(u, "."), None);
    assert_eq!(file_name_text(u, ""), None);
}

#[test]
fn verbatim_prefix_is_hidden() {
    assert_eq!(display_local_path("\\\\?\\C:\\Users\\ana"), "C:\\Users\\ana");
    assert_eq!(display_local_path("C:\\Users\\ana"), "C:\\Users\\ana");
}

#[test]
fn file_name_follows_last_separator() {
    assert_eq!(file_name_text(PathStyle::Unix, "/var/log/app.log"), Some("app.log".to_string()));
    assert_eq!(file_name_text(PathStyle::Windows, "C:\\Tools\\Notepad++.exe"), Some("Notepad++.exe".to_string()));
    assert_eq!(file_name_text(PathStyle::Unix, "plain"), Some("plain".to_string()));
}
