//! Interactive terminal sessions: the pseudo-terminal they ask for, the
//! shell command that enters the initial directory, how they read the
//! server's output, keep the connection alive and reconnect.
use vstd::prelude::*;

use crate::encoding::{base64_encode, base64_standard};
use crate::error::AppError;
use crate::text::{
    blank, chars_of, decimal, decimal_text, is_blank, join2, join3, push_char, text,
};

verus! {

/// The smallest terminal the session asks the server for: 20 columns by 5 rows.
pub open spec fn pty_size_of(cols: u32, rows: u32) -> (u32, u32) {
    (if cols < 20 {
        20
    } else {
        cols
    }, if rows < 5 {
        5
    } else {
        rows
    })
}

/// The terminal asked for is the window raised to at least 20 columns and 5
/// rows: each dimension is the larger of the window's and its floor, and the
/// columns depend on the window's columns alone, the rows on its rows alone.
pub proof fn law_pty_size_is_window_with_floors(cols: u32, rows: u32, other_cols: u32, other_rows: u32)
    ensures
        pty_size_of(cols, rows).0 >= cols,
        pty_size_of(cols, rows).0 >= 20,
        pty_size_of(cols, rows).0 == cols || pty_size_of(cols, rows).0 == 20,
        pty_size_of(cols, rows).1 >= rows,
        pty_size_of(cols, rows).1 >= 5,
        pty_size_of(cols, rows).1 == rows || pty_size_of(cols, rows).1 == 5,
        pty_size_of(cols, rows).0 == pty_size_of(cols, other_rows).0,
        pty_size_of(cols, rows).1 == pty_size_of(other_cols, rows).1,
{
}

/// The terminal size asked for a window of `cols` by `rows`.
pub fn pty_size(cols: u32, rows: u32) -> (r: (u32, u32))
    ensures
        r == pty_size_of(cols, rows),
{
    (if cols < 20 {
        20
    } else {
        cols
    }, if rows < 5 {
        5
    } else {
        rows
    })
}

/// The keep-alive interval in seconds handed to SSH: none when keep-alive is
/// off (0), otherwise the profile's value, capped to 32 bits.
pub fn keepalive_interval(keep_alive: u64) -> (r: Option<u32>)
    ensures
        keep_alive == 0 <==> r is None,
        r matches Some(s) ==> s == (if keep_alive <= u32::MAX {
            keep_alive
        } else {
            u32::MAX as u64
        }),
{
    if keep_alive == 0 {
        None
    } else if keep_alive <= u32::MAX as u64 {
        Some(keep_alive as u32)
    } else {
        Some(u32::MAX)
    }
}

/// A keep-alive message is due once `elapsed_secs` whole seconds have passed
/// since the last one, when keep-alive is on.
pub fn keepalive_due(keep_alive: u64, elapsed_secs: u64) -> (r: bool)
    ensures
        r == (keep_alive > 0 && elapsed_secs >= keep_alive),
{
    keep_alive > 0 && elapsed_secs >= keep_alive
}

/// `s` with every single quote written as `'"'"'`, so that it can stand
/// inside a single-quoted shell word.
pub open spec fn shell_quote_body(s: Seq<char>) -> Seq<char>
    decreases s.len(),
{
    if s.len() == 0 {
        Seq::empty()
    } else {
        shell_quote_body(s.drop_last()) + if s.last() == '\'' {
            "'\"'\"'"@
        } else {
            seq![s.last()]
        }
    }
}

/// The command that enters the profile's initial directory, when it has one:
/// `cd -- '<directory>'` and a newline.
pub open spec fn initial_cd(dir: Seq<char>) -> Option<Seq<char>> {
    if blank(dir) {
        None
    } else {
        Some("cd -- '"@ + shell_quote_body(dir) + "'\n"@)
    }
}

/// See [`initial_cd`].
pub fn initial_cd_command(dir: &str) -> (r: Option<String>)
    ensures
        match r {
            Some(c) => initial_cd(dir@) == Some(c@),
            None => initial_cd(dir@) is None,
        },
{
    if is_blank(dir) {
        return None;
    }
    let v = chars_of(dir);
    let mut body = String::new();
    let mut i: usize = 0;
    while i < v.len()
        invariant
            i <= v@.len(),
            v@ == dir@,
            body@ == shell_quote_body(v@.take(i as int)),
        decreases v@.len() - i,
    {
        let c = v[i];
        if c == '\'' {
            body.append("'\"'\"'");
        } else {
            push_char(&mut body, c);
        }
        proof {
            let t = v@.take(i + 1);
            assert(t.drop_last() =~= v@.take(i as int));
        }
        i = i + 1;
    }
    assert(v@.take(v@.len() as int) =~= v@);
    Some(join3("cd -- '", body.as_str(), "'\n"))
}

/// The status shown once the shell is open.
pub fn connected_message(username: &str) -> (r: String)
    ensures
        r@ == "Conectado como "@ + username@,
{
    join2("Conectado como ", username)
}

/// The status shown while connecting to `host` on `port`.
pub fn connecting_message(host: &str, port: u16) -> (r: String)
    ensures
        r@ == "Conectando a "@ + host@ + ":"@ + decimal(port as nat) + "…"@,
{
    let p = decimal_text(port as u64);
    let a = join3("Conectando a ", host, ":");
    join3(a.as_str(), p.as_str(), "…")
}

/// How a terminal session ended.
#[derive(Debug)]
pub enum TerminalEnd {
    /// The user closed it.
    Closed,
    /// The connection was lost, for this reason.
    Lost(String),
}

/// The outcome of one read from the shell channel.
#[derive(Debug)]
pub enum ReadOutcome {
    /// These bytes (at least one) arrived.
    Data(Vec<u8>),
    /// Nothing arrived; `eof` tells whether the server closed the channel.
    Nothing { eof: bool },
    /// Nothing is available yet.
    WouldBlock,
    /// Reading failed with this error text.
    Failed(String),
}

/// What the session does after a read.
#[derive(Debug)]
pub enum ReadStep {
    /// Send this Base64 text to the terminal view.
    Output(String),
    /// Wait a little and read again.
    Idle,
    /// The session ends.
    End(TerminalEnd),
}

/// Decides what follows a read: output is passed on in Base64, an empty
/// read at end of stream or a read error ends the session, anything else
/// waits.
pub fn terminal_read_step(read: ReadOutcome) -> (r: ReadStep)
    requires
        read matches ReadOutcome::Data(b) ==> b@.len() <= isize::MAX,
    ensures
        match read {
            ReadOutcome::Data(b) => r matches ReadStep::Output(t) && t@ == base64_standard(b@),
            ReadOutcome::Nothing { eof } => if eof {
                r matches ReadStep::End(TerminalEnd::Lost(m)) && m@
                    == "O servidor encerrou a sessão."@
            } else {
                r is Idle
            },
            ReadOutcome::WouldBlock => r is Idle,
            ReadOutcome::Failed(d) => r matches ReadStep::End(TerminalEnd::Lost(m)) && m@
                == "A conexão foi interrompida: "@ + d@,
        },
{
    match read {
        ReadOutcome::Data(b) => ReadStep::Output(base64_encode(b.as_slice())),
        ReadOutcome::Nothing { eof } => if eof {
            ReadStep::End(TerminalEnd::Lost(text("O servidor encerrou a sessão.")))
        } else {
            ReadStep::Idle
        },
        ReadOutcome::WouldBlock => ReadStep::Idle,
        ReadOutcome::Failed(d) => ReadStep::End(
            TerminalEnd::Lost(join2("A conexão foi interrompida: ", d.as_str())),
        ),
    }
}

/// The end of a session whose keep-alive failed with this error text.
pub fn keepalive_lost(detail: &str) -> (r: TerminalEnd)
    ensures
        r matches TerminalEnd::Lost(m) && m@ == "Keep-alive falhou: "@ + detail@,
{
    TerminalEnd::Lost(join2("Keep-alive falhou: ", detail))
}

/// The wait before reconnection attempt `attempt`: 2 seconds per attempt, at
/// most 30.
pub open spec fn reconnect_delay_of(attempt: u32) -> u32 {
    if 2 * attempt >= 30 {
        30
    } else {
        (2 * attempt) as u32
    }
}

/// What follows the end of one run of a session.
#[derive(Debug)]
pub enum TerminalNext {
    /// Stop with this status and message.
    Finish { status: String, message: String },
    /// Stop with this error, reported with the `error` status.
    Fail(AppError),
    /// Wait `wait_secs` (unless the user closes the session meanwhile), then
    /// run again; `attempt` counts the reconnections, `message` is shown with
    /// the `connecting` status.
    Reconnect { attempt: u32, wait_secs: u32, message: String },
}

/// Decides what follows a run of a session: a closed session ends; a lost
/// connection is retried when the profile reconnects automatically and
/// reported as a terminal error otherwise; a failure to connect is reported
/// as it is.
pub fn after_terminal_run(auto_reconnect: bool, attempt: u32, run: Result<TerminalEnd, AppError>) -> (r:
    TerminalNext)
    ensures
        match run {
            Ok(TerminalEnd::Closed) => r matches TerminalNext::Finish { status, message } && status@
                == "disconnected"@ && message@ == "Sessão encerrada."@,
            Ok(TerminalEnd::Lost(reason)) => if auto_reconnect {
                r matches TerminalNext::Reconnect { attempt: a, wait_secs, message } && a == (if attempt
                    < u32::MAX {
                    attempt + 1
                } else {
                    attempt as int
                }) && wait_secs == reconnect_delay_of(a) && message@ == reason@ + " Reconectando em "@
                    + decimal(wait_secs as nat) + "s…"@
            } else {
                r matches TerminalNext::Fail(e) && e.is("terminal"@, reason@)
            },
            Err(e) => r matches TerminalNext::Fail(f) && f == e,
        },
{
    match run {
        Ok(TerminalEnd::Closed) => TerminalNext::Finish {
            status: text("disconnected"),
            message: text("Sessão encerrada."),
        },
        Ok(TerminalEnd::Lost(reason)) => {
            if auto_reconnect {
                let a = attempt.saturating_add(1);
                let wait = if a >= 15 {
                    30
                } else {
                    a * 2
                };
                let w = decimal_text(wait as u64);
                let head = join2(reason.as_str(), " Reconectando em ");
                let message = join3(head.as_str(), w.as_str(), "s…");
                TerminalNext::Reconnect { attempt: a, wait_secs: wait, message }
            } else {
                TerminalNext::Fail(AppError::new("terminal", reason.as_str()))
            }
        },
        Err(e) => TerminalNext::Fail(e),
    }
}

/// A command from the user to a running session.
#[derive(Debug)]
pub enum TerminalCommand {
    /// Bytes typed by the user.
    Data(Vec<u8>),
    /// The window now has this many columns and rows.
    Resize(u32, u32),
    /// The user closed the session.
    Close,
}

/// Input typed in the terminal view arrives in Base64.
pub fn terminal_input_bytes(data: &str) -> (r: Result<Vec<u8>, AppError>)
    ensures
        match crate::encoding::base64_standard_decoded(data@) {
            Some(b) => r matches Ok(v) && v@ == b,
            None => r matches Err(e) && e.code@ == "terminal"@,
        },
{
    match crate::encoding::base64_decode(data) {
        Ok(b) => Ok(b),
        Err(e) => {
            let m = crate::encoding::base64_error_text(&e);
            Err(AppError::new("terminal", m.as_str()))
        },
    }
}

/// The error for a command sent to a session that already ended.
pub fn session_ended() -> (e: AppError)
    ensures
        e.is("session"@, "A sessão já terminou."@),
{
    AppError::new("session", "A sessão já terminou.")
}


/// The size of the user's terminal window, kept across reconnections.
#[derive(Debug)]
pub struct TerminalSize {
    pub cols: u32,
    pub rows: u32,
}

/// What a running session does with a command from the user.
#[derive(Debug)]
pub enum CommandAction {
    /// Send these bytes to the shell.
    Write(Vec<u8>),
    /// Ask the server for a terminal of this size.
    ResizePty(u32, u32),
    /// Close the channel; the session ends as closed.
    Close,
}

impl TerminalSize {
    /// Takes a command while the session runs: input goes to the shell, a
    /// resize is remembered and asked of the server (at least 20 by 5), a
    /// close ends the session.
    pub fn on_command(&mut self, cmd: TerminalCommand) -> (r: CommandAction)
        ensures
            match cmd {
                TerminalCommand::Data(b) => (r matches CommandAction::Write(w) && w@ == b@)
                    && *final(self) == *old(self),
                TerminalCommand::Resize(c, rw) => (r matches CommandAction::ResizePty(pc, pr)
                    && (pc, pr) == pty_size_of(c, rw)) && *final(self) == (TerminalSize {
                    cols: c,
                    rows: rw,
                }),
                TerminalCommand::Close => r is Close && *final(self) == *old(self),
            },
    {
        match cmd {
            TerminalCommand::Data(b) => CommandAction::Write(b),
            TerminalCommand::Resize(c, rw) => {
                self.cols = c;
                self.rows = rw;
                let (pc, pr) = pty_size(c, rw);
                CommandAction::ResizePty(pc, pr)
            },
            TerminalCommand::Close => CommandAction::Close,
        }
    }

    /// Takes a command while waiting to reconnect: a close ends the wait and
    /// the session (`true`), a resize is remembered, input is dropped.
    pub fn on_wait_command(&mut self, cmd: TerminalCommand) -> (closed: bool)
        ensures
            closed == cmd is Close,
            match cmd {
                TerminalCommand::Resize(c, rw) => *final(self) == (TerminalSize { cols: c, rows: rw }),
                _ => *final(self) == *old(self),
            },
    {
        match cmd {
            TerminalCommand::Data(_) => false,
            TerminalCommand::Resize(c, rw) => {
                self.cols = c;
                self.rows = rw;
                false
            },
            TerminalCommand::Close => true,
        }
    }
}

} // verus!
