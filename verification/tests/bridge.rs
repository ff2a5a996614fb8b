use firaw_ssh::bridge::{
    audit_entry, bridge_finish, bridge_list, bridge_ping_reply, bridge_profile,
    bridge_request_summary, check_download_job, check_upload_job, frame_reply,
    last_audit_entries, plan_bridge_request, request_line_failure, BridgeData, BridgeJob,
    BridgeNext, BridgeRequest, BridgeResponse, BridgeStep, RequestLine,
};
use firaw_ssh::error::AppError;
use firaw_ssh::profile::Profile;

fn profile(id: &str, enabled: bool, command: bool, sftp: bool) -> Profile {
    Profile {
        id: id.into(),
        name: format!("Perfil {id}"),
        host: "server.example".into(),
        username: "deploy".into(),
        bridge_enabled: enabled,
        bridge_allow_command: command,
        bridge_allow_sftp: sftp,
        ..Profile::default()
    }
}

fn request(action: &str, profile_id: &str) -> BridgeRequest {
    BridgeRequest {
        action: action.into(),
        profile_id: profile_id.into(),
        command: String::new(),
        remote_paths: Vec::new(),
        local_paths: Vec::new(),
        local_directory: String::new(),
        remote_directory: ".".into(),
    }
}

fn failure_of(step: BridgeStep) -> (String, String) {
    match step {
        BridgeStep::Reply(BridgeResponse::Failure { code, message }) => (code, message),
        BridgeStep::Start { next: BridgeNext::Reply(BridgeResponse::Failure { code, message }), .. } => {
            (code, message)
        }
        _ => panic!("expected a failure"),
    }
}

#[test]
fn ping_is_answered_before_anything_else() {
    assert!(matches!(bridge_ping_reply(&request("ping", "")), Some(BridgeResponse::Pong)));
    assert!(bridge_ping_reply(&request("list", "")).is_none());
}

#[test]
fn list_shows_only_enabled_profiles() {
    let profiles = vec![profile("a", true, true, false), profile("b", false, true, true), profile("c", true, false, true)];
    let entries = bridge_list(&profiles);
    assert_eq!(entries.len(), 2);
    assert_eq!(entries[0].id, "a");
    assert!(entries[0].allow_command && !entries[0].allow_sftp);
    assert_eq!(entries[1].id, "c");
    match plan_bridge_request(&request("list", ""), &profiles) {
        BridgeStep::Reply(BridgeResponse::Profiles(e)) => assert_eq!(e.len(), 2),
        _ => panic!("expected the list"),
    }
}

#[test]
fn disabled_or_unknown_profile_is_forbidden() {
    let profiles = vec![profile("a", false, true, true)];
    let (code, message) = failure_of(plan_bridge_request(&request("exec", "a"), &profiles));
    assert_eq!(code, "forbidden");
    assert_eq!(message, "Perfil inexistente ou não autorizado para automação local.");
    let (code, _) = failure_of(plan_bridge_request(&request("exec", "zz"), &profiles));
    assert_eq!(code, "forbidden");
    assert!(bridge_profile(&profiles, "a").is_err());
}

#[test]
fn exec_needs_the_command_scope_and_a_command() {
    let profiles = vec![profile("a", true, false, true), profile("b", true, true, false)];
    let mut r = request("exec", "a");
    r.command = "uname -a".into();
    let (code, message) = failure_of(plan_bridge_request(&r, &profiles));
    assert_eq!(code, "forbidden");
    assert_eq!(message, "Comandos não estão autorizados neste perfil.");

    let mut r = request("exec", "b");
    r.command = "   ".into();
    let (code, _) = failure_of(plan_bridge_request(&r, &profiles));
    assert_eq!(code, "validation");

    r.command = "  uname -a  ".into();
    match plan_bridge_request(&r, &profiles) {
        BridgeStep::Start { profile, summary, next: BridgeNext::Run(BridgeJob::Exec { command }) } => {
            assert_eq!(profile.id, "b");
            assert_eq!(command, "uname -a");
            assert!(summary.starts_with("uname · referência "));
            assert_eq!(summary.len(), "uname · referência ".len() + 12);
        }
        _ => panic!("expected an exec job"),
    }
}

#[test]
fn too_long_command_is_refused() {
    let profiles = vec![profile("b", true, true, false)];
    let mut r = request("exec", "b");
    r.command = "x".repeat(8193);
    let (code, message) = failure_of(plan_bridge_request(&r, &profiles));
    assert_eq!(code, "validation");
    assert_eq!(message, "Informe um comando entre 1 e 8192 caracteres.");
}

#[test]
fn transfers_need_the_sftp_scope() {
    let profiles = vec![profile("a", true, true, false), profile("b", true, false, true)];
    let (code, message) = failure_of(plan_bridge_request(&request("download", "a"), &profiles));
    assert_eq!(code, "forbidden");
    assert_eq!(message, "SFTP não está autorizado neste perfil.");

    let mut r = request("download", "b");
    r.remote_paths = vec![Some("/var/log/app.log".into()), None, Some("/etc/hosts".into())];
    r.local_directory = "C:\\Temp".into();
    match plan_bridge_request(&r, &profiles) {
        BridgeStep::Start { summary, next: BridgeNext::Run(BridgeJob::Download { remote_paths, local_directory }), .. } => {
            assert_eq!(remote_paths, vec!["/var/log/app.log".to_string(), "/etc/hosts".to_string()]);
            assert_eq!(local_directory, "C:\\Temp");
            assert_eq!(summary, "3 item(ns) baixado(s)");
        }
        _ => panic!("expected a download job"),
    }
    let mut r = request("upload", "b");
    r.local_paths = vec![Some("C:\\a.txt".into())];
    match plan_bridge_request(&r, &profiles) {
        BridgeStep::Start { summary, next: BridgeNext::Run(BridgeJob::Upload { local_paths, remote_directory }), .. } => {
            assert_eq!(local_paths, vec!["C:\\a.txt".to_string()]);
            assert_eq!(remote_directory, ".");
            assert_eq!(summary, "1 item(ns) enviado(s)");
        }
        _ => panic!("expected an upload job"),
    }
}

#[test]
fn unknown_action_is_reported_after_audit() {
    let profiles = vec![profile("a", true, true, true)];
    match plan_bridge_request(&request("reboot", "a"), &profiles) {
        BridgeStep::Start { summary, next: BridgeNext::Reply(BridgeResponse::Failure { code, message }), .. } => {
            assert_eq!(summary, "reboot");
            assert_eq!(code, "unknown_action");
            assert_eq!(message, "Ação desconhecida.");
        }
        _ => panic!("expected an audited failure"),
    }
}

#[test]
fn exec_summary_hashes_the_command() {
    let mut r = request("exec", "a");
    r.command = "abc".into();
    assert_eq!(bridge_request_summary("exec", &r), "abc · referência ba7816bf8f01");
    r.command = String::new();
    assert!(bridge_request_summary("exec", &r).starts_with("comando · referência e3b0c44298fc"));
}

#[test]
fn job_checks() {
    assert!(check_download_job(1, true).is_ok());
    assert_eq!(check_download_job(0, true).unwrap_err().code, "validation");
    assert_eq!(check_download_job(2, false).unwrap_err().message, "Informe caminhos remotos e uma pasta local válida.");
    assert!(check_upload_job(1).is_ok());
    assert_eq!(check_upload_job(0).unwrap_err().message, "Informe ao menos um caminho local.");
}

#[test]
fn finished_jobs_are_reported() {
    let p = profile("a", true, true, true);
    let ok = bridge_finish(&p, "resumo", Ok(BridgeData::Exec { exit_code: 0, output: "x".into() }));
    assert_eq!(ok.audit_status, "completed");
    assert_eq!(ok.notice_body, "Automação concluída em Perfil a");
    assert!(matches!(ok.response, BridgeResponse::Done(BridgeData::Exec { exit_code: 0, .. })));
    let failed = bridge_finish(&p, "resumo", Err(AppError::new("ssh", "caiu")));
    assert_eq!(failed.audit_status, "failed");
    assert_eq!(failed.audit_summary, "resumo · caiu");
    assert_eq!(failed.notice_title, "Firaw SSH — automação falhou");
    assert!(matches!(failed.response, BridgeResponse::Failure { ref code, .. } if code == "ssh"));
}

#[test]
fn audit_keeps_last_300_entries() {
    let p = profile("a", true, true, true);
    let entries: Vec<_> = (0..305u64).map(|t| audit_entry(t, &p, "exec", "started", "s")).collect();
    let kept = last_audit_entries(entries);
    assert_eq!(kept.len(), 300);
    assert_eq!(kept[0].timestamp, 5);
    assert_eq!(kept[299].timestamp, 304);
    assert_eq!(kept[0].profile_name, "Perfil a");
    let few: Vec<_> = (0..3u64).map(|t| audit_entry(t, &p, "exec", "started", "s")).collect();
    assert_eq!(last_audit_entries(few).len(), 3);
}

#[test]
fn replies_are_framed_and_bad_lines_answered() {
    assert_eq!(frame_reply(b"{}"), b"{}\n".to_vec());
    assert_eq!(request_line_failure(RequestLine::Empty), ("empty_request".to_string(), None));
    assert_eq!(
        request_line_failure(RequestLine::InvalidJson("eof".into())),
        ("invalid_json".to_string(), Some("eof".to_string()))
    );
    assert_eq!(
        request_line_failure(RequestLine::ReadFailed("x".into())).0,
        "read_failed"
    );
}

#[test]
fn finished_job_answers_with_its_data() {
    let p = profile("a", true, true, true);
    let exec = bridge_finish(&p, "s", Ok(BridgeData::Exec { exit_code: 3, output: "saida".into() }));
    match exec.response {
        BridgeResponse::Done(BridgeData::Exec { exit_code, output }) => {
            assert_eq!(exit_code, 3);
            assert_eq!(output, "saida");
        }
        _ => panic!("expected the command data"),
    }
    let transfer = bridge_finish(&p, "s", Ok(BridgeData::Transfer { transfer_id: "t-9".into() }));
    match transfer.response {
        BridgeResponse::Done(BridgeData::Transfer { transfer_id }) => assert_eq!(transfer_id, "t-9"),
        _ => panic!("expected the transfer id"),
    }
}
