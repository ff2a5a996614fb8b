use firaw_ssh::error::AppError;
use firaw_ssh::profile::Profile;
use firaw_ssh::transfer::{
    check_download_paths, check_upload_paths, is_directory_mode, progress_after, resume_plan,
    transfer_phase_event, transfer_report, ControlOp, FileCopy, ResumePlan, TransferControl,
    TransferGate, TransferPhase, TransferRegistry,
};

#[test]
fn control_pauses_resumes_and_cancels() {
    let mut c = TransferControl::new();
    assert!(matches!(c.gate(), TransferGate::Proceed));
    c.pause();
    assert!(matches!(c.gate(), TransferGate::Wait));
    c.resume();
    assert!(matches!(c.gate(), TransferGate::Proceed));
    c.pause();
    c.cancel();
    assert!(!c.paused);
    match c.gate() {
        TransferGate::Stop(e) => {
            assert_eq!(e.code, "transfer_cancelled");
            assert_eq!(e.message, "Transferência cancelada; o arquivo parcial foi mantido para retomar depois.");
        }
        _ => panic!("expected a stop"),
    }
    c.resume();
    assert!(matches!(c.gate(), TransferGate::Stop(_)));
}

#[test]
fn registry_controls_running_transfers_only() {
    let mut r = TransferRegistry::new();
    assert!(r.gate("t1").is_none());
    assert_eq!(r.apply("t1", ControlOp::Pause).unwrap_err().message, "A transferência já terminou.");
    r.register("t1");
    r.register("t2");
    assert!(r.apply("t1", ControlOp::Pause).is_ok());
    assert!(matches!(r.gate("t1"), Some(TransferGate::Wait)));
    assert!(matches!(r.gate("t2"), Some(TransferGate::Proceed)));
    assert!(r.apply("t2", ControlOp::Cancel).is_ok());
    assert!(matches!(r.gate("t2"), Some(TransferGate::Stop(_))));
    r.finish("t1");
    assert!(r.gate("t1").is_none());
    assert_eq!(r.apply("t1", ControlOp::Resume).unwrap_err().code, "transfer");
    assert!(matches!(r.gate("t2"), Some(TransferGate::Stop(_))));
    r.register("t2");
    assert!(matches!(r.gate("t2"), Some(TransferGate::Proceed)));
}

#[test]
fn resume_plans() {
    assert!(matches!(resume_plan(Some(100), 100), ResumePlan::AlreadyComplete));
    assert!(matches!(resume_plan(Some(40), 100), ResumePlan::CopyFrom { offset: 40 }));
    assert!(matches!(resume_plan(Some(140), 100), ResumePlan::CopyFrom { offset: 0 }));
    assert!(matches!(resume_plan(None, 100), ResumePlan::CopyFrom { offset: 0 }));
    assert!(matches!(resume_plan(Some(0), 0), ResumePlan::AlreadyComplete));
}

#[test]
fn file_copy_reports_progress() {
    let mut c = FileCopy::start(true, 100);
    let e = c.event(TransferPhase::Started);
    assert_eq!((e.completed, e.total, e.status.as_str(), e.message.as_str()), (0, 100, "started", "Enviando…"));
    assert!(matches!(c.plan(Some(30)), ResumePlan::CopyFrom { offset: 30 }));
    c.advance(20);
    let e = c.event(TransferPhase::Progress);
    assert_eq!((e.completed, e.status.as_str()), (50, "progress"));
    let e = c.event(TransferPhase::Completed);
    assert_eq!((e.completed, e.total, e.message.as_str()), (100, 100, "Enviado"));

    let mut d = FileCopy::start(false, 10);
    assert!(matches!(d.plan(Some(10)), ResumePlan::AlreadyComplete));
    assert_eq!(d.completed, 10);
    let e = d.event(TransferPhase::AlreadyComplete);
    assert_eq!((e.completed, e.message.as_str()), (10, "Arquivo já estava completo"));
    assert_eq!(d.event(TransferPhase::Progress).message, "Baixando…");
}

#[test]
fn progress_saturates() {
    assert_eq!(progress_after(10, 5), 15);
    assert_eq!(progress_after(u64::MAX - 1, 5), u64::MAX);
}

#[test]
fn directory_modes() {
    assert!(is_directory_mode(Some(0o040755)));
    assert!(!is_directory_mode(Some(0o100644)));
    assert!(!is_directory_mode(None));
    assert!(!is_directory_mode(Some(0o120777)));
}

#[test]
fn phase_events() {
    assert_eq!(transfer_phase_event(false, TransferPhase::Completed), ("completed".to_string(), "Baixado".to_string()));
    assert_eq!(transfer_phase_event(true, TransferPhase::Progress), ("progress".to_string(), "Enviando…".to_string()));
}

#[test]
fn end_of_transfer_reports() {
    let p = Profile { name: "Web".into(), ..Profile::default() };
    let ok = transfer_report(&p, &Ok(()));
    assert_eq!((ok.completed, ok.total, ok.status.as_str()), (1, 1, "completed"));
    assert_eq!(ok.notice, Some(("Firaw SSH".to_string(), "Transferência concluída em Web".to_string())));
    let cancelled = transfer_report(&p, &Err(AppError::new("transfer_cancelled", "parado")));
    assert_eq!(cancelled.status, "cancelled");
    assert!(cancelled.notice.is_none());
    let failed = transfer_report(&p, &Err(AppError::new("sftp", "falhou")));
    assert_eq!(failed.status, "failed");
    assert_eq!(failed.notice, Some(("Firaw SSH — transferência falhou".to_string(), "falhou".to_string())));
}

#[test]
fn transfer_requests_need_items() {
    assert_eq!(check_upload_paths(0).unwrap_err().message, "Selecione ao menos um item local.");
    assert!(check_upload_paths(2).is_ok());
    assert_eq!(check_download_paths(0, true).unwrap_err().message, "Selecione ao menos um item remoto.");
    assert_eq!(check_download_paths(1, false).unwrap_err().code, "local_files");
    assert!(check_download_paths(1, true).is_ok());
}
