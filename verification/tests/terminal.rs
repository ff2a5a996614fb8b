use firaw_ssh::error::AppError;
use firaw_ssh::terminal::{
    after_terminal_run, connected_message, connecting_message, initial_cd_command,
    keepalive_due, keepalive_interval, keepalive_lost, pty_size, session_ended,
    terminal_input_bytes, terminal_read_step, CommandAction, ReadOutcome, ReadStep,
    TerminalCommand, TerminalEnd, TerminalNext, TerminalSize,
};

#[test]
fn pty_has_a_minimum_size() {
    assert_eq!(pty_size(10, 2), (20, 5));
    assert_eq!(pty_size(120, 40), (120, 40));
}

#[test]
fn keepalive_settings() {
    assert_eq!(keepalive_interval(0), None);
    assert_eq!(keepalive_interval(30), Some(30));
    assert_eq!(keepalive_interval(u64::MAX), Some(u32::MAX));
    assert!(keepalive_due(30, 30));
    assert!(!keepalive_due(30, 29));
    assert!(!keepalive_due(0, 1000));
}

#[test]
fn initial_directory_is_quoted() {
    assert_eq!(initial_cd_command("   "), None);
    assert_eq!(initial_cd_command("/srv/app"), Some("cd -- '/srv/app'\n".to_string()));
    assert_eq!(initial_cd_command("/srv/o'brien"), Some("cd -- '/srv/o'\"'\"'brien'\n".to_string()));
}

#[test]
fn status_messages() {
    assert_eq!(connected_message("deploy"), "Conectado como deploy");
    assert_eq!(connecting_message("h.example", 2222), "Conectando a h.example:2222…");
}

#[test]
fn reads_become_output_or_end() {
    match terminal_read_step(ReadOutcome::Data(vec![1, 2, 3])) {
        ReadStep::Output(t) => assert_eq!(t, "AQID"),
        _ => panic!("expected output"),
    }
    match terminal_read_step(ReadOutcome::Data(b"hello".to_vec())) {
        ReadStep::Output(t) => assert_eq!(t, "aGVsbG8="),
        _ => panic!("expected output"),
    }
    assert!(matches!(terminal_read_step(ReadOutcome::Nothing { eof: false }), ReadStep::Idle));
    assert!(matches!(terminal_read_step(ReadOutcome::WouldBlock), ReadStep::Idle));
    match terminal_read_step(ReadOutcome::Nothing { eof: true }) {
        ReadStep::End(TerminalEnd::Lost(m)) => assert_eq!(m, "O servidor encerrou a sessão."),
        _ => panic!("expected the end"),
    }
    match terminal_read_step(ReadOutcome::Failed("reset".into())) {
        ReadStep::End(TerminalEnd::Lost(m)) => assert_eq!(m, "A conexão foi interrompida: reset"),
        _ => panic!("expected the end"),
    }
    match keepalive_lost("timeout") {
        TerminalEnd::Lost(m) => assert_eq!(m, "Keep-alive falhou: timeout"),
        _ => panic!("expected lost"),
    }
}

#[test]
fn reconnection_waits_grow_to_thirty_seconds() {
    match after_terminal_run(true, 0, Ok(TerminalEnd::Lost("Caiu.".into()))) {
        TerminalNext::Reconnect { attempt, wait_secs, message } => {
            assert_eq!((attempt, wait_secs), (1, 2));
            assert_eq!(message, "Caiu. Reconectando em 2s…");
        }
        _ => panic!("expected a reconnection"),
    }
    match after_terminal_run(true, 20, Ok(TerminalEnd::Lost("Caiu.".into()))) {
        TerminalNext::Reconnect { attempt, wait_secs, .. } => assert_eq!((attempt, wait_secs), (21, 30)),
        _ => panic!("expected a reconnection"),
    }
    match after_terminal_run(false, 0, Ok(TerminalEnd::Lost("Caiu.".into()))) {
        TerminalNext::Fail(e) => assert_eq!((e.code.as_str(), e.message.as_str()), ("terminal", "Caiu.")),
        _ => panic!("expected a failure"),
    }
    match after_terminal_run(true, 3, Ok(TerminalEnd::Closed)) {
        TerminalNext::Finish { status, message } => {
            assert_eq!(status, "disconnected");
            assert_eq!(message, "Sessão encerrada.");
        }
        _ => panic!("expected the end"),
    }
    match after_terminal_run(true, 3, Err(AppError::new("ssh", "x"))) {
        TerminalNext::Fail(e) => assert_eq!(e.code, "ssh"),
        _ => panic!("expected a failure"),
    }
}

#[test]
fn input_arrives_in_base64() {
    assert_eq!(terminal_input_bytes("AQID").unwrap(), vec![1, 2, 3]);
    assert_eq!(terminal_input_bytes("!!").unwrap_err().code, "terminal");
    assert_eq!(session_ended().message, "A sessão já terminou.");
}

#[test]
fn commands_update_the_window_size() {
    let mut size = TerminalSize { cols: 80, rows: 24 };
    match size.on_command(TerminalCommand::Resize(10, 3)) {
        CommandAction::ResizePty(c, r) => assert_eq!((c, r), (20, 5)),
        _ => panic!("expected a resize"),
    }
    assert_eq!((size.cols, size.rows), (10, 3));
    assert!(matches!(size.on_command(TerminalCommand::Data(vec![65])), CommandAction::Write(ref b) if b == &vec![65u8]));
    assert!(matches!(size.on_command(TerminalCommand::Close), CommandAction::Close));
    assert!(!size.on_wait_command(TerminalCommand::Resize(100, 30)));
    assert_eq!((size.cols, size.rows), (100, 30));
    assert!(!size.on_wait_command(TerminalCommand::Data(vec![1])));
    assert!(size.on_wait_command(TerminalCommand::Close));
}
