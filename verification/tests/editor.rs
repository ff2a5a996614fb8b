use firaw_ssh::editor::{
    backup_file_name, backups_to_remove, check_editable, check_editor_present,
    check_editor_request, check_unchanged, edit_event_path, editor_arguments, editor_backup_key,
    latest_backup, restored_message, restored_notice, saved_notice, EditWatch, RemoteRevision,
};
use firaw_ssh::error::AppError;
use firaw_ssh::keys::PathStyle;
use firaw_ssh::profile::Profile;

#[test]
fn editing_needs_the_option_and_a_path() {
    let mut p = Profile::default();
    assert_eq!(check_editor_request(&p, "/etc/hosts").unwrap_err().code, "editor_disabled");
    p.external_editor_enabled = true;
    let e = check_editor_request(&p, "  ").unwrap_err();
    assert_eq!((e.code.as_str(), e.message.as_str()), ("validation", "Informe o arquivo remoto para editar."));
    assert!(check_editor_request(&p, "/etc/hosts").is_ok());
    assert_eq!(check_editor_present(false).unwrap_err().code, "editor_missing");
    assert!(check_editor_present(true).is_ok());
    assert_eq!(check_editable(Some(0o040755)).unwrap_err().message, "Selecione um arquivo remoto, não uma pasta.");
    assert!(check_editable(Some(0o100644)).is_ok());
    assert!(check_editable(None).is_ok());
}

#[test]
fn notepad_plus_plus_gets_its_own_instance() {
    assert_eq!(
        editor_arguments(PathStyle::Windows, "C:\\Program Files\\Notepad++\\NOTEPAD++.EXE", "C:\\tmp\\a.txt"),
        vec!["-multiInst".to_string(), "-nosession".to_string(), "C:\\tmp\\a.txt".to_string()]
    );
    assert_eq!(editor_arguments(PathStyle::Windows, "C:\\Notepad++\\code.exe", "a.txt"), vec!["a.txt".to_string()]);
}

#[test]
fn changed_remote_file_is_a_conflict() {
    let base = RemoteRevision { size: Some(10), mtime: Some(100) };
    assert!(check_unchanged(&RemoteRevision { size: Some(10), mtime: Some(100) }, &base).is_ok());
    let e = check_unchanged(&RemoteRevision { size: Some(11), mtime: Some(100) }, &base).unwrap_err();
    assert_eq!((e.code.as_str(), e.message.as_str()), ("editor_conflict", "O arquivo foi alterado no servidor durante a edição."));
    assert!(check_unchanged(&RemoteRevision { size: Some(10), mtime: None }, &base).is_err());
}

#[test]
fn watch_sends_each_save_once_and_stops_on_conflict() {
    let w = EditWatch::start(100);
    assert!(!w.needs_sync(Some(100)));
    assert!(!w.needs_sync(None));
    assert!(w.needs_sync(Some(150)));
    let (w, report) = w.after_sync(150, &Ok(()));
    assert!(report.is_none());
    assert_eq!(w.seen, 150);
    assert!(!w.needs_sync(Some(150)));
    let (w, report) = w.after_sync(200, &Err(AppError::new("editor", "rede")));
    assert_eq!(report, Some("rede".to_string()));
    assert_eq!(w.seen, 150);
    assert!(w.needs_sync(Some(200)));
    let (w, report) = w.after_sync(200, &Err(AppError::new("editor_conflict", "x")));
    assert!(report.is_none());
    assert!(w.conflict);
    assert!(!w.needs_sync(Some(300)));
    let (w, _) = w.after_sync(300, &Ok(()));
    assert!(w.conflict);
}

#[test]
fn backup_directory_key_is_the_path_digest() {
    assert_eq!(editor_backup_key("abc"), "ba7816bf8f01cfea414140de5dae2223b00361a396177a9cb410ff61f20015ad");
    assert_eq!(backup_file_name(1700000000, "u-1", "app.conf"), "1700000000-u-1-app.conf");
}

#[test]
fn retention_keeps_the_newest_twenty() {
    let times: Vec<i128> = (0..25).map(|i| (25 - i) as i128).collect();
    let removed = backups_to_remove(&times);
    let count = removed.iter().filter(|r| **r).count();
    assert_eq!(count, 5);
    for i in 0..25 {
        assert_eq!(removed[i], times[i] <= 5, "index {i}");
    }
    let few: Vec<i128> = vec![3, 1, 2];
    assert_eq!(backups_to_remove(&few), vec![false, false, false]);
    let ties: Vec<i128> = vec![7; 21];
    let removed = backups_to_remove(&ties);
    assert!(removed[0]);
    assert!(removed[1..].iter().all(|r| !*r));
}

#[test]
fn latest_backup_is_the_newest_last_listed() {
    assert_eq!(latest_backup(&[5, 9, 2]).unwrap(), 1);
    assert_eq!(latest_backup(&[9, 9, 2]).unwrap(), 1);
    let e = latest_backup(&[]).unwrap_err();
    assert_eq!((e.code.as_str(), e.message.as_str()), ("editor_backup", "Ainda não existe cópia de segurança deste arquivo."));
}

#[test]
fn edit_messages() {
    assert_eq!(edit_event_path("C:\\a\\b.txt"), "C:/a/b.txt");
    assert_eq!(restored_message(" /etc/hosts "), "Versão anterior restaurada em /etc/hosts.");
    assert_eq!(restored_notice("/etc/hosts"), "/etc/hosts voltou para a versão anterior.");
    let p = Profile { name: "Web".into(), ..Profile::default() };
    assert_eq!(saved_notice("/etc/hosts", &p), "/etc/hosts foi salvo em Web");
}
