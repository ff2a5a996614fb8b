//! The local automation bridge: requests that local tools send over a
//! named socket, the permission checks they pass, the audit trail they leave
//! and the replies they get.
//!
//! Only profiles with the bridge enabled can be used; commands need the
//! command scope and transfers the SFTP scope. Secrets never appear in a reply
//! or in the audit trail: a command is recorded by its program name and the
//! first 12 hexadecimal digits of its SHA-256.
use vstd::prelude::*;

use crate::crypto::{sha256, sha256_digest};
use crate::error::AppError;
use crate::profile::{position_of, views, Profile, ProfileView};
use crate::text::{
    chars_of, decimal, decimal_text, first_word, hex_lower, hex_text, is_white_char, join2, join3,
    same_text, string_of_range, text, trim, trim_start, trimmed, word_prefix,
};

verus! {

/// A bridge request, with the fields the bridge reads from its JSON object.
/// Absent or non-text fields are empty texts, except `remote_directory`,
/// which is `.` when absent. A path list holds one entry per element of the
/// JSON array, `None` for an element that is not a text; it is empty when the
/// field is absent or not an array.
#[derive(Debug)]
pub struct BridgeRequest {
    pub action: String,
    pub profile_id: String,
    pub command: String,
    pub remote_paths: Vec<Option<String>>,
    pub local_paths: Vec<Option<String>>,
    pub local_directory: String,
    pub remote_directory: String,
}

/// A profile as the `list` action shows it.
#[derive(Debug)]
pub struct BridgeProfileEntry {
    pub id: String,
    pub name: String,
    pub host: String,
    pub port: u16,
    pub username: String,
    pub allow_command: bool,
    pub allow_sftp: bool,
}

/// What a finished job gives back.
#[derive(Debug)]
pub enum BridgeData {
    Exec { exit_code: i32, output: String },
    Transfer { transfer_id: String },
}

/// A reply of the bridge.
#[derive(Debug)]
pub enum BridgeResponse {
    /// `{"ok": true, "service": "Firaw SSH Bridge", "version": 1}`.
    Pong,
    /// `{"ok": true, "profiles": [...]}`.
    Profiles(Vec<BridgeProfileEntry>),
    /// `{"ok": false, "error": code, "message": message}`.
    Failure { code: String, message: String },
    /// `{"ok": true, "data": ...}`.
    Done(BridgeData),
}

/// A job that needs a connection to the server.
#[derive(Debug)]
pub enum BridgeJob {
    /// Run `command` (already trimmed) and collect its output.
    Exec { command: String },
    /// Download the remote paths into the local directory.
    Download { remote_paths: Vec<String>, local_directory: String },
    /// Upload the local paths into the remote directory.
    Upload { local_paths: Vec<String>, remote_directory: String },
}

/// What follows the start of an audited request.
#[derive(Debug)]
pub enum BridgeNext {
    /// Answer at once; no further audit entry is written.
    Reply(BridgeResponse),
    /// Run the job, then report through [`bridge_finish`].
    Run(BridgeJob),
}

/// How the bridge handles a request.
#[derive(Debug)]
pub enum BridgeStep {
    /// Answer at once, without auditing.
    Reply(BridgeResponse),
    /// Write the `started` audit entry and event for `profile` with this
    /// summary, then go on with `next`.
    Start { profile: Profile, summary: String, next: BridgeNext },
}

/// `r` is a failure reply with this code and message.
pub open spec fn is_failure(r: BridgeResponse, code: Seq<char>, message: Seq<char>) -> bool {
    match r {
        BridgeResponse::Failure { code: c, message: m } => c@ == code && m@ == message,
        _ => false,
    }
}

/// The failure reply for an error.
pub fn bridge_failure(error: &AppError) -> (r: BridgeResponse)
    ensures
        is_failure(r, error.code@, error.message@),
{
    BridgeResponse::Failure { code: error.code.clone(), message: error.message.clone() }
}

fn failure(code: &str, message: &str) -> (r: BridgeResponse)
    ensures
        is_failure(r, code@, message@),
{
    BridgeResponse::Failure { code: code.to_owned(), message: message.to_owned() }
}

/// The answer to `ping`, which needs no stored data.
pub fn bridge_ping_reply(request: &BridgeRequest) -> (r: Option<BridgeResponse>)
    ensures
        request.action@ == "ping"@ <==> r is Some,
        r matches Some(x) ==> x is Pong,
{
    if same_text(&request.action, "ping") {
        Some(BridgeResponse::Pong)
    } else {
        None
    }
}

/// The bridge may act on the first profile with this id only if that profile
/// has the bridge enabled.
pub open spec fn bridge_target(s: Seq<ProfileView>, id: Seq<char>) -> Option<nat> {
    match position_of(s, id) {
        Some(i) => if s[i as int].bridge_enabled {
            Some(i)
        } else {
            None
        },
        None => None,
    }
}

/// The message for a profile the bridge may not use.
pub open spec fn forbidden_profile_message() -> Seq<char> {
    "Perfil inexistente ou não autorizado para automação local."@
}

/// The profile a request names, if the bridge may use it.
pub fn bridge_profile<'a>(profiles: &'a Vec<Profile>, profile_id: &str) -> (r: Result<
    &'a Profile,
    BridgeResponse,
>)
    ensures
        match bridge_target(views(profiles@), profile_id@) {
            Some(i) => r matches Ok(p) && p@ == profiles@[i as int]@,
            None => r matches Err(x) && is_failure(x, "forbidden"@, forbidden_profile_message()),
        },
{
    proof {
        crate::profile::lemma_position_of(views(profiles@), profile_id@);
    }
    match crate::profile::index_of_id(profiles, profile_id) {
        Some(i) => if profiles[i].bridge_enabled {
            Ok(&profiles[i])
        } else {
            Err(failure("forbidden", "Perfil inexistente ou não autorizado para automação local."))
        },
        None => Err(
            failure("forbidden", "Perfil inexistente ou não autorizado para automação local."),
        ),
    }
}

/// A list entry shows the profile's id, name, server, port, user and scopes.
pub open spec fn entry_of(e: BridgeProfileEntry, p: ProfileView) -> bool {
    &&& e.id@ == p.id
    &&& e.name@ == p.name
    &&& e.host@ == p.host
    &&& e.port == p.port
    &&& e.username@ == p.username
    &&& e.allow_command == p.bridge_allow_command
    &&& e.allow_sftp == p.bridge_allow_sftp
}

/// The profiles the bridge may use, in stored order.
pub open spec fn bridge_profiles(s: Seq<ProfileView>) -> Seq<ProfileView> {
    s.filter(|p: ProfileView| p.bridge_enabled)
}

/// The entries of the `list` action: one per profile with the bridge enabled.
pub fn bridge_list(profiles: &Vec<Profile>) -> (r: Vec<BridgeProfileEntry>)
    ensures
        r@.len() == bridge_profiles(views(profiles@)).len(),
        forall|i: int|
            0 <= i < r@.len() ==> entry_of(#[trigger] r@[i], bridge_profiles(views(profiles@))[i]),
{
    let ghost s = views(profiles@);
    let mut r: Vec<BridgeProfileEntry> = Vec::new();
    let mut i: usize = 0;
    while i < profiles.len()
        invariant
            s == views(profiles@),
            i <= profiles@.len(),
            r@.len() == bridge_profiles(s.take(i as int)).len(),
            forall|k: int|
                0 <= k < r@.len() ==> entry_of(#[trigger] r@[k], bridge_profiles(s.take(i as int))[k]),
        decreases profiles@.len() - i,
    {
        let p = &profiles[i];
        proof {
            let t = s.take(i + 1);
            assert(t.drop_last() =~= s.take(i as int));
            reveal(Seq::filter);
        }
        if p.bridge_enabled {
            r.push(
                BridgeProfileEntry {
                    id: p.id.clone(),
                    name: p.name.clone(),
                    host: p.host.clone(),
                    port: p.port,
                    username: p.username.clone(),
                    allow_command: p.bridge_allow_command,
                    allow_sftp: p.bridge_allow_sftp,
                },
            );
        }
        proof {
            let t = s.take(i + 1);
            assert(t.last() == profiles@[i as int]@);
            assert forall|k: int| 0 <= k < r@.len() implies entry_of(
                #[trigger] r@[k],
                bridge_profiles(t)[k],
            ) by {
                assert(bridge_profiles(t) == (if t.last().bridge_enabled {
                    bridge_profiles(t.drop_last()).push(t.last())
                } else {
                    bridge_profiles(t.drop_last())
                }));
            }
        }
        i = i + 1;
    }
    assert(s.take(profiles@.len() as int) =~= s);
    r
}

/// The audit summary of a request: for `exec`, the command's program (its
/// first word, or `comando`) and the first 12 hexadecimal digits of the
/// SHA-256 of the command; for `upload` and `download`, the number of items
/// asked for; otherwise the action itself.
pub open spec fn request_summary(action: Seq<char>, request: BridgeRequest) -> Seq<char> {
    if action == "exec"@ {
        let program = match first_word(request.command@) {
            Some(w) => w,
            None => "comando"@,
        };
        program + " · referência "@ + hex_lower(
            sha256_digest(vstd::utf8::encode_utf8(request.command@)),
        ).take(12)
    } else if action == "upload"@ {
        decimal(request.local_paths@.len()) + " item(ns) enviado(s)"@
    } else if action == "download"@ {
        decimal(request.remote_paths@.len()) + " item(ns) baixado(s)"@
    } else {
        action
    }
}

/// The first word of `s` (see [`first_word`]).
pub fn first_word_exec(s: &str) -> (r: Option<String>)
    ensures
        match r {
            Some(w) => first_word(s@) == Some(w@),
            None => first_word(s@) is None,
        },
{
    let v = chars_of(s);
    let mut a: usize = 0;
    assert(v@.skip(0) =~= v@);
    while a < v.len() && is_white_char(v[a])
        invariant
            a <= v@.len(),
            v@ == s@,
            trim_start(v@.skip(a as int)) == trim_start(v@),
        decreases v@.len() - a,
    {
        assert(v@.skip(a as int).drop_first() =~= v@.skip(a + 1));
        a = a + 1;
    }
    assert(trim_start(v@.skip(a as int)) == v@.skip(a as int));
    if a == v.len() {
        return None;
    }
    let mut b: usize = a;
    while b < v.len() && !is_white_char(v[b])
        invariant
            a <= b <= v@.len(),
            word_prefix(v@.skip(a as int)) == v@.subrange(a as int, b as int) + word_prefix(
                v@.skip(b as int),
            ),
        decreases v@.len() - b,
    {
        assert(v@.skip(b as int).drop_first() =~= v@.skip(b + 1));
        assert(v@.subrange(a as int, b + 1) =~= v@.subrange(a as int, b as int) + seq![v@[b as int]]);
        b = b + 1;
    }
    assert(word_prefix(v@.skip(b as int)) =~= Seq::<char>::empty());
    assert(v@.subrange(a as int, b as int) + Seq::<char>::empty() =~= v@.subrange(
        a as int,
        b as int,
    ));
    Some(string_of_range(&v, a, b))
}

proof fn lemma_hex_take(b: Seq<u8>)
    ensures
        crate::text::hex_lower(b).len() == 2 * b.len(),
{
    crate::encoding::lemma_hex_len(b);
}

/// The audit summary of a request (see [`request_summary`]).
pub fn bridge_request_summary(action: &str, request: &BridgeRequest) -> (r: String)
    ensures
        r@ == request_summary(action@, *request),
{
    if same_text(action, "exec") {
        let program = match first_word_exec(&request.command) {
            Some(w) => w,
            None => text("comando"),
        };
        let digest = sha256(request.command.as_str().as_bytes());
        let hex = hex_text(digest.as_slice());
        proof {
            lemma_hex_take(digest@);
        }
        let short = string_of_range(&hex, 0, 12);
        join3(program.as_str(), " · referência ", short.as_str())
    } else if same_text(action, "upload") {
        let n = decimal_text(request.local_paths.len() as u64);
        join2(n.as_str(), " item(ns) enviado(s)")
    } else if same_text(action, "download") {
        let n = decimal_text(request.remote_paths.len() as u64);
        join2(n.as_str(), " item(ns) baixado(s)")
    } else {
        action.to_owned()
    }
}

/// The text entries of a path list, in order.
pub open spec fn text_paths(s: Seq<Option<String>>) -> Seq<Seq<char>>
    decreases s.len(),
{
    if s.len() == 0 {
        Seq::empty()
    } else {
        text_paths(s.drop_last()) + match s.last() {
            Some(t) => seq![t@],
            None => Seq::empty(),
        }
    }
}

/// The text entries of a path list.
pub fn text_entries(s: &Vec<Option<String>>) -> (r: Vec<String>)
    ensures
        r@.map_values(|x: String| x@) == text_paths(s@),
{
    let mut r: Vec<String> = Vec::new();
    let mut i: usize = 0;
    while i < s.len()
        invariant
            i <= s@.len(),
            r@.map_values(|x: String| x@) == text_paths(s@.take(i as int)),
        decreases s@.len() - i,
    {
        let ghost before = r@;
        match &s[i] {
            Some(t) => {
                r.push(t.clone());
            },
            None => {},
        }
        proof {
            let t = s@.take(i + 1);
            assert(t.drop_last() =~= s@.take(i as int));
            assert(r@.map_values(|x: String| x@) =~= text_paths(t));
        }
        i = i + 1;
    }
    assert(s@.take(s@.len() as int) =~= s@);
    r
}

/// The step the bridge takes for a request on the stored `profiles` (the
/// answer to `ping` comes before any profile is read, see
/// [`bridge_ping_reply`]):
/// - `list` answers with the profiles the bridge may use;
/// - any other action needs a profile the bridge may use, or is refused
///   (`forbidden`) without an audit entry;
/// - then the request is audited as started, and: `exec` needs the command
///   scope and a trimmed command of 1 to 8192 bytes; `download` and
///   `upload` need the SFTP scope; any other action is unknown.
pub fn plan_bridge_request(request: &BridgeRequest, profiles: &Vec<Profile>) -> (step: BridgeStep)
    ensures
        request.action@ == "list"@ ==> (step matches BridgeStep::Reply(BridgeResponse::Profiles(
            entries,
        )) && entries@.len() == bridge_profiles(views(profiles@)).len() && forall|i: int|
            0 <= i < entries@.len() ==> entry_of(
                #[trigger] entries@[i],
                bridge_profiles(views(profiles@))[i],
            )),
        request.action@ != "list"@ ==> match bridge_target(views(profiles@), request.profile_id@) {
            None => step matches BridgeStep::Reply(x) && is_failure(
                x,
                "forbidden"@,
                forbidden_profile_message(),
            ),
            Some(i) => step matches BridgeStep::Start { profile, summary, next } && profile@
                == profiles@[i as int]@ && summary@ == request_summary(request.action@, *request)
                && planned_next(request.action@, *request, profile@, next),
        },
{
    if same_text(&request.action, "list") {
        return BridgeStep::Reply(BridgeResponse::Profiles(bridge_list(profiles)));
    }
    let profile = match bridge_profile(profiles, &request.profile_id) {
        Ok(p) => p.copy_of(),
        Err(e) => {
            return BridgeStep::Reply(e);
        },
    };
    let summary = bridge_request_summary(&request.action, request);
    let next = plan_job(request, &profile);
    BridgeStep::Start { profile, summary, next }
}

/// What an audited request goes on with (see [`plan_bridge_request`]).
pub open spec fn planned_next(
    action: Seq<char>,
    request: BridgeRequest,
    p: ProfileView,
    next: BridgeNext,
) -> bool {
    if action == "exec"@ {
        if !p.bridge_allow_command {
            next matches BridgeNext::Reply(x) && is_failure(
                x,
                "forbidden"@,
                "Comandos não estão autorizados neste perfil."@,
            )
        } else if trim(request.command@).len() == 0 || vstd::utf8::encode_utf8(
            trim(request.command@),
        ).len() > 8192 {
            next matches BridgeNext::Reply(x) && is_failure(
                x,
                "validation"@,
                "Informe um comando entre 1 e 8192 caracteres."@,
            )
        } else {
            next matches BridgeNext::Run(BridgeJob::Exec { command }) && command@ == trim(
                request.command@,
            )
        }
    } else if action == "download"@ || action == "upload"@ {
        if !p.bridge_allow_sftp {
            next matches BridgeNext::Reply(x) && is_failure(
                x,
                "forbidden"@,
                "SFTP não está autorizado neste perfil."@,
            )
        } else if action == "download"@ {
            next matches BridgeNext::Run(BridgeJob::Download { remote_paths, local_directory })
                && remote_paths@.map_values(|x: String| x@) == text_paths(request.remote_paths@)
                && local_directory@ == request.local_directory@
        } else {
            next matches BridgeNext::Run(BridgeJob::Upload { local_paths, remote_directory })
                && local_paths@.map_values(|x: String| x@) == text_paths(request.local_paths@)
                && remote_directory@ == request.remote_directory@
        }
    } else {
        next matches BridgeNext::Reply(x) && is_failure(x, "unknown_action"@, "Ação desconhecida."@)
    }
}

fn plan_job(request: &BridgeRequest, profile: &Profile) -> (next: BridgeNext)
    ensures
        planned_next(request.action@, *request, profile@, next),
{
    if same_text(&request.action, "exec") {
        if !profile.bridge_allow_command {
            return BridgeNext::Reply(
                failure("forbidden", "Comandos não estão autorizados neste perfil."),
            );
        }
        let command = trimmed(&request.command);
        if command.as_str().is_empty() || command.as_str().as_bytes().len() > 8192 {
            return BridgeNext::Reply(
                failure("validation", "Informe um comando entre 1 e 8192 caracteres."),
            );
        }
        let next = BridgeNext::Run(BridgeJob::Exec { command });
        assert(planned_next(request.action@, *request, profile@, next));
        next
    } else if same_text(&request.action, "download") || same_text(&request.action, "upload") {
        if !profile.bridge_allow_sftp {
            return BridgeNext::Reply(failure("forbidden", "SFTP não está autorizado neste perfil."));
        }
        if same_text(&request.action, "download") {
            let remote_paths = text_entries(&request.remote_paths);
            let local_directory = request.local_directory.clone();
            let next = BridgeNext::Run(BridgeJob::Download { remote_paths, local_directory });
            assert(planned_next(request.action@, *request, profile@, next));
            next
        } else {
            let local_paths = text_entries(&request.local_paths);
            let remote_directory = request.remote_directory.clone();
            let next = BridgeNext::Run(BridgeJob::Upload { local_paths, remote_directory });
            assert(planned_next(request.action@, *request, profile@, next));
            next
        }
    } else {
        let next = BridgeNext::Reply(failure("unknown_action", "Ação desconhecida."));
        assert(planned_next(request.action@, *request, profile@, next));
        next
    }
}

/// Before a download runs: it needs remote paths and an existing local
/// directory (`local_is_dir`).
pub fn check_download_job(remote_path_count: usize, local_is_dir: bool) -> (r: Result<
    (),
    AppError,
>)
    ensures
        r is Ok <==> remote_path_count > 0 && local_is_dir,
        r matches Err(e) ==> e.is(
            "validation"@,
            "Informe caminhos remotos e uma pasta local válida."@,
        ),
{
    if remote_path_count == 0 || !local_is_dir {
        return Err(
            AppError::new("validation", "Informe caminhos remotos e uma pasta local válida."),
        );
    }
    Ok(())
}

/// Before an upload runs: it needs at least one local path.
pub fn check_upload_job(local_path_count: usize) -> (r: Result<(), AppError>)
    ensures
        r is Ok <==> local_path_count > 0,
        r matches Err(e) ==> e.is("validation"@, "Informe ao menos um caminho local."@),
{
    if local_path_count == 0 {
        return Err(AppError::new("validation", "Informe ao menos um caminho local."));
    }
    Ok(())
}

/// How a finished job is reported: the audit entry's status and summary, the
/// event's status and message, the notification, and the reply.
#[derive(Debug)]
pub struct BridgeReport {
    pub audit_status: String,
    pub audit_summary: String,
    pub event_status: String,
    pub event_message: String,
    pub notice_title: String,
    pub notice_body: String,
    pub response: BridgeResponse,
}

/// Reports the end of a job on `profile`: a success is audited and announced
/// as completed and answered with its data; a failure is audited with the
/// summary and the error message, announced as failed and answered with the
/// error.
pub fn bridge_finish(profile: &Profile, summary: &str, result: Result<BridgeData, AppError>) -> (r:
    BridgeReport)
    ensures
        match result {
            Ok(d) => {
                &&& r.audit_status@ == "completed"@
                &&& r.audit_summary@ == summary@
                &&& r.event_status@ == "completed"@
                &&& r.event_message@ == "Automação local concluída."@
                &&& r.notice_title@ == "Firaw SSH"@
                &&& r.notice_body@ == "Automação concluída em "@ + profile@.name
                &&& r.response == BridgeResponse::Done(d)
            },
            Err(e) => {
                &&& r.audit_status@ == "failed"@
                &&& r.audit_summary@ == summary@ + " · "@ + e.message@
                &&& r.event_status@ == "failed"@
                &&& r.event_message@ == e.message@
                &&& r.notice_title@ == "Firaw SSH — automação falhou"@
                &&& r.notice_body@ == e.message@
                &&& is_failure(r.response, e.code@, e.message@)
            },
        },
{
    match result {
        Ok(data) => BridgeReport {
            audit_status: text("completed"),
            audit_summary: summary.to_owned(),
            event_status: text("completed"),
            event_message: text("Automação local concluída."),
            notice_title: text("Firaw SSH"),
            notice_body: join2("Automação concluída em ", profile.name.as_str()),
            response: BridgeResponse::Done(data),
        },
        Err(e) => BridgeReport {
            audit_status: text("failed"),
            audit_summary: join3(summary, " · ", e.message.as_str()),
            event_status: text("failed"),
            event_message: e.message.clone(),
            notice_title: text("Firaw SSH — automação falhou"),
            notice_body: e.message.clone(),
            response: bridge_failure(&e),
        },
    }
}

/// An entry of the bridge audit trail.
#[derive(Debug)]
pub struct BridgeAuditEntry {
    pub timestamp: u64,
    pub profile_id: String,
    pub profile_name: String,
    pub action: String,
    pub status: String,
    pub summary: String,
}

/// The audit entry for a request on `profile`.
pub fn audit_entry(timestamp: u64, profile: &Profile, action: &str, status: &str, summary: &str) -> (e:
    BridgeAuditEntry)
    ensures
        e.timestamp == timestamp,
        e.profile_id@ == profile@.id,
        e.profile_name@ == profile@.name,
        e.action@ == action@,
        e.status@ == status@,
        e.summary@ == summary@,
{
    BridgeAuditEntry {
        timestamp,
        profile_id: profile.id.clone(),
        profile_name: profile.name.clone(),
        action: action.to_owned(),
        status: status.to_owned(),
        summary: summary.to_owned(),
    }
}

/// The audit trail as shown: its last 300 entries, oldest first.
pub fn last_audit_entries(entries: Vec<BridgeAuditEntry>) -> (r: Vec<BridgeAuditEntry>)
    ensures
        r@ == (if entries@.len() > 300 {
            entries@.skip(entries@.len() - 300)
        } else {
            entries@
        }),
{
    if entries.len() <= 300 {
        return entries;
    }
    let skip = entries.len() - 300;
    let mut all = entries;
    let ghost whole = all@;
    let kept = all.split_off(skip);
    assert(kept@ =~= whole.skip(whole.len() - 300));
    kept
}

/// Every reply is framed as one line: the serialized reply and a newline.
pub fn frame_reply(serialized: &[u8]) -> (r: Vec<u8>)
    ensures
        r@ == serialized@.push(10u8),
{
    let mut r: Vec<u8> = Vec::new();
    let mut i: usize = 0;
    while i < serialized.len()
        invariant
            i <= serialized@.len(),
            r@ == serialized@.take(i as int),
        decreases serialized@.len() - i,
    {
        r.push(serialized[i]);
        i = i + 1;
        assert(r@ =~= serialized@.take(i as int));
    }
    r.push(10);
    assert(r@ =~= serialized@.push(10u8));
    r
}

/// The reply to a request line that could not be used: nothing was read, the
/// line is not JSON (with the parser's message), or reading failed (with the
/// reader's message).
#[derive(Debug)]
pub enum RequestLine {
    Empty,
    InvalidJson(String),
    ReadFailed(String),
}

/// `{"ok": false, "error": ..., "message": ...}` for an unusable request line;
/// an empty request carries no message.
pub fn request_line_failure(line: RequestLine) -> (r: (String, Option<String>))
    ensures
        match line {
            RequestLine::Empty => r.0@ == "empty_request"@ && r.1 is None,
            RequestLine::InvalidJson(m) => r.0@ == "invalid_json"@ && (r.1 matches Some(x) && x@
                == m@),
            RequestLine::ReadFailed(m) => r.0@ == "read_failed"@ && (r.1 matches Some(x) && x@
                == m@),
        },
{
    match line {
        RequestLine::Empty => (text("empty_request"), None),
        RequestLine::InvalidJson(m) => (text("invalid_json"), Some(m)),
        RequestLine::ReadFailed(m) => (text("read_failed"), Some(m)),
    }
}


/// The bridge acts only on a profile that exists under the requested id and
/// has the bridge enabled; a profile with the bridge off is never a target.
pub proof fn law_bridge_target_enabled(s: Seq<ProfileView>, id: Seq<char>)
    ensures
        bridge_target(s, id) matches Some(i) ==> i < s.len() && s[i as int].id == id
            && s[i as int].bridge_enabled,
        (forall|j: int| 0 <= j < s.len() && s[j].id == id ==> !s[j].bridge_enabled) ==> bridge_target(
            s,
            id,
        ) is None,
{
    crate::profile::lemma_position_of(s, id);
}

/// A job runs only with its scope: a command only on a profile that allows
/// commands, a transfer only on one that allows SFTP.
pub proof fn law_bridge_jobs_need_scopes(
    action: Seq<char>,
    request: BridgeRequest,
    p: ProfileView,
    next: BridgeNext,
)
    requires
        planned_next(action, request, p, next),
    ensures
        next matches BridgeNext::Run(BridgeJob::Exec { .. }) ==> p.bridge_allow_command,
        next matches BridgeNext::Run(BridgeJob::Download { .. }) ==> p.bridge_allow_sftp,
        next matches BridgeNext::Run(BridgeJob::Upload { .. }) ==> p.bridge_allow_sftp,
{
}

} // verus!
