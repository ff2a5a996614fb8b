//! SFTP transfers: pausing and cancelling, resuming a partial file, and the
//! progress events and notifications a transfer produces.
use vstd::prelude::*;

use crate::error::{fails_with, AppError};
use crate::profile::Profile;
use crate::text::{join2, same_text, text};

verus! {

/// The pause and cancel switches of a running transfer.
#[derive(Debug, Clone, Copy)]
pub struct TransferControl {
    pub paused: bool,
    pub cancelled: bool,
}

/// What a transfer does at its next checkpoint.
#[derive(Debug)]
pub enum TransferGate {
    /// Go on.
    Proceed,
    /// Paused: wait and look again.
    Wait,
    /// Cancelled: stop with this error; the partial file is kept.
    Stop(AppError),
}

/// The message of a cancelled transfer.
pub open spec fn cancelled_message() -> Seq<char> {
    "Transferência cancelada; o arquivo parcial foi mantido para retomar depois."@
}

/// What a transfer does at a checkpoint: a cancelled transfer stops (paused or not),
/// a paused one waits, any other goes on.
pub open spec fn gate_of(c: TransferControl, g: TransferGate) -> bool {
    if c.cancelled {
        g matches TransferGate::Stop(e) && e.is("transfer_cancelled"@, cancelled_message())
    } else if c.paused {
        g is Wait
    } else {
        g is Proceed
    }
}

/// An operation on the control of a transfer.
#[derive(Debug)]
pub enum ControlOp {
    Pause,
    Resume,
    Cancel,
}

/// The control state after `op`.
pub open spec fn control_after(c: TransferControl, op: ControlOp) -> TransferControl {
    match op {
        ControlOp::Pause => TransferControl { paused: true, ..c },
        ControlOp::Resume => TransferControl { paused: false, ..c },
        ControlOp::Cancel => TransferControl { paused: false, cancelled: true },
    }
}

/// The control state after a sequence of operations.
pub open spec fn control_after_all(c: TransferControl, ops: Seq<ControlOp>) -> TransferControl
    decreases ops.len(),
{
    if ops.len() == 0 {
        c
    } else {
        control_after(control_after_all(c, ops.drop_last()), ops.last())
    }
}

impl TransferControl {
    /// A transfer starts neither paused nor cancelled.
    pub fn new() -> (c: TransferControl)
        ensures
            !c.paused,
            !c.cancelled,
    {
        TransferControl { paused: false, cancelled: false }
    }

    /// Pauses the transfer at its next checkpoint.
    pub fn pause(&mut self)
        ensures
            *final(self) == control_after(*old(self), ControlOp::Pause),
    {
        self.paused = true;
    }

    /// Lets a paused transfer go on.
    pub fn resume(&mut self)
        ensures
            *final(self) == control_after(*old(self), ControlOp::Resume),
    {
        self.paused = false;
    }

    /// Cancels the transfer; a paused transfer is released so that it stops.
    pub fn cancel(&mut self)
        ensures
            *final(self) == control_after(*old(self), ControlOp::Cancel),
    {
        self.cancelled = true;
        self.paused = false;
    }

    /// What the transfer does at a checkpoint (see [`gate_of`]).
    pub fn gate(&self) -> (g: TransferGate)
        ensures
            gate_of(*self, g),
    {
        if self.cancelled {
            TransferGate::Stop(
                AppError::new(
                    "transfer_cancelled",
                    "Transferência cancelada; o arquivo parcial foi mantido para retomar depois.",
                ),
            )
        } else if self.paused {
            TransferGate::Wait
        } else {
            TransferGate::Proceed
        }
    }
}

/// Once cancelled, a transfer stays cancelled under every later operation.
pub proof fn law_cancel_is_final(c: TransferControl, ops: Seq<ControlOp>)
    requires
        c.cancelled,
    ensures
        control_after_all(c, ops).cancelled,
    decreases ops.len(),
{
    if ops.len() > 0 {
        law_cancel_is_final(c, ops.drop_last());
    }
}

/// A cancel always releases a paused transfer: right after it, the transfer
/// stops at its next checkpoint instead of waiting.
pub proof fn law_cancel_releases(c: TransferControl)
    ensures
        !control_after(c, ControlOp::Cancel).paused,
        control_after(c, ControlOp::Cancel).cancelled,
{
}

/// How to transfer one file of `total` bytes when the target already holds
/// `existing` bytes (or nothing).
#[derive(Debug)]
pub enum ResumePlan {
    /// The target is already complete.
    AlreadyComplete,
    /// Copy from `offset`: a shorter target is continued, anything else is
    /// rewritten from the start (`offset` 0).
    CopyFrom { offset: u64 },
}

/// See [`ResumePlan`].
pub open spec fn resume_plan_of(existing: Option<u64>, total: u64) -> ResumePlan {
    match existing {
        Some(n) => if n == total {
            ResumePlan::AlreadyComplete
        } else if n < total {
            ResumePlan::CopyFrom { offset: n }
        } else {
            ResumePlan::CopyFrom { offset: 0 }
        },
        None => ResumePlan::CopyFrom { offset: 0 },
    }
}

/// Plans a file transfer that resumes a partial target (see [`ResumePlan`]).
pub fn resume_plan(existing: Option<u64>, total: u64) -> (r: ResumePlan)
    ensures
        r == resume_plan_of(existing, total),
{
    match existing {
        Some(n) => if n == total {
            ResumePlan::AlreadyComplete
        } else if n < total {
            ResumePlan::CopyFrom { offset: n }
        } else {
            ResumePlan::CopyFrom { offset: 0 }
        },
        None => ResumePlan::CopyFrom { offset: 0 },
    }
}

/// Resuming never skips data: the copy starts where the target ends only
/// when the target is a strict prefix in size, and from the start otherwise.
pub proof fn law_resume_offset_within(existing: Option<u64>, total: u64)
    ensures
        resume_plan_of(existing, total) matches ResumePlan::CopyFrom { offset } ==> offset < total
            || offset == 0,
        resume_plan_of(existing, total) matches ResumePlan::CopyFrom { offset } ==> offset > 0
            ==> existing == Some(offset),
{
}

/// The bytes transferred after another `read` bytes (never past `u64::MAX`).
pub fn progress_after(completed: u64, read: usize) -> (r: u64)
    ensures
        r == (if completed + read <= u64::MAX {
            (completed + read) as u64
        } else {
            u64::MAX
        }),
{
    completed.saturating_add(read as u64)
}

/// A file mode describes a directory (`S_IFDIR`); an absent mode counts as 0.
pub open spec fn is_directory_mode_spec(perm: Option<u32>) -> bool {
    let p: u32 = match perm {
        Some(v) => v,
        None => 0,
    };
    p & 0o170000u32 == 0o040000u32
}

/// See [`is_directory_mode_spec`].
pub fn is_directory_mode(perm: Option<u32>) -> (r: bool)
    ensures
        r == is_directory_mode_spec(perm),
{
    let p: u32 = match perm {
        Some(v) => v,
        None => 0,
    };
    p & 0o170000u32 == 0o040000u32
}

/// A point in the transfer of one file.
#[derive(Debug)]
pub enum TransferPhase {
    Started,
    Progress,
    AlreadyComplete,
    Completed,
}

/// The status and message of a progress event for one file; `upload` tells
/// the direction.
pub open spec fn phase_event(upload: bool, phase: TransferPhase) -> (Seq<char>, Seq<char>) {
    match phase {
        TransferPhase::Started => ("started"@, if upload {
            "Enviando…"@
        } else {
            "Baixando…"@
        }),
        TransferPhase::Progress => ("progress"@, if upload {
            "Enviando…"@
        } else {
            "Baixando…"@
        }),
        TransferPhase::AlreadyComplete => ("completed"@, "Arquivo já estava completo"@),
        TransferPhase::Completed => ("completed"@, if upload {
            "Enviado"@
        } else {
            "Baixado"@
        }),
    }
}

/// See [`phase_event`].
pub fn transfer_phase_event(upload: bool, phase: TransferPhase) -> (r: (String, String))
    ensures
        (r.0@, r.1@) == phase_event(upload, phase),
{
    match phase {
        TransferPhase::Started => (text("started"), if upload {
            text("Enviando…")
        } else {
            text("Baixando…")
        }),
        TransferPhase::Progress => (text("progress"), if upload {
            text("Enviando…")
        } else {
            text("Baixando…")
        }),
        TransferPhase::AlreadyComplete => (text("completed"), text("Arquivo já estava completo")),
        TransferPhase::Completed => (text("completed"), if upload {
            text("Enviado")
        } else {
            text("Baixado")
        }),
    }
}

/// How the end of a whole transfer is reported: the final event (completed
/// and total counts, status, message) and the notification, if any.
#[derive(Debug)]
pub struct TransferReport {
    pub completed: u64,
    pub total: u64,
    pub status: String,
    pub message: String,
    pub notice: Option<(String, String)>,
}

/// Reports the end of a transfer for `profile`: a success is announced as
/// completed (1 of 1) with a notification; a cancellation as cancelled (0 of
/// 0) without notification; any other failure as failed (0 of 0) with a
/// notification carrying the error.
pub fn transfer_report(profile: &Profile, result: &Result<(), AppError>) -> (r: TransferReport)
    ensures
        match result {
            Ok(()) => r.completed == 1 && r.total == 1 && r.status@ == "completed"@ && r.message@
                == "Transferência concluída."@ && (r.notice matches Some(n) && n.0@ == "Firaw SSH"@
                && n.1@ == "Transferência concluída em "@ + profile@.name),
            Err(e) => r.completed == 0 && r.total == 0 && r.message@ == e.message@ && if e.code@
                == "transfer_cancelled"@ {
                r.status@ == "cancelled"@ && r.notice is None
            } else {
                r.status@ == "failed"@ && (r.notice matches Some(n) && n.0@
                    == "Firaw SSH — transferência falhou"@ && n.1@ == e.message@)
            },
        },
{
    match result {
        Ok(()) => TransferReport {
            completed: 1,
            total: 1,
            status: text("completed"),
            message: text("Transferência concluída."),
            notice: Some(
                (text("Firaw SSH"), join2("Transferência concluída em ", profile.name.as_str())),
            ),
        },
        Err(e) => {
            if same_text(&e.code, "transfer_cancelled") {
                TransferReport {
                    completed: 0,
                    total: 0,
                    status: text("cancelled"),
                    message: e.message.clone(),
                    notice: None,
                }
            } else {
                TransferReport {
                    completed: 0,
                    total: 0,
                    status: text("failed"),
                    message: e.message.clone(),
                    notice: Some((text("Firaw SSH — transferência falhou"), e.message.clone())),
                }
            }
        },
    }
}

/// An upload needs at least one local item.
pub fn check_upload_paths(count: usize) -> (r: Result<(), AppError>)
    ensures
        r is Ok <==> count > 0,
        count == 0 ==> fails_with(r, "validation"@, "Selecione ao menos um item local."@),
{
    if count == 0 {
        return Err(AppError::new("validation", "Selecione ao menos um item local."));
    }
    Ok(())
}

/// A download needs at least one remote item and an existing local folder
/// (`local_is_dir`).
pub fn check_download_paths(count: usize, local_is_dir: bool) -> (r: Result<(), AppError>)
    ensures
        r is Ok <==> count > 0 && local_is_dir,
        count == 0 ==> fails_with(r, "validation"@, "Selecione ao menos um item remoto."@),
        count > 0 && !local_is_dir ==> fails_with(
            r,
            "local_files"@,
            "Escolha uma pasta local válida."@,
        ),
{
    if count == 0 {
        return Err(AppError::new("validation", "Selecione ao menos um item remoto."));
    }
    if !local_is_dir {
        return Err(AppError::new("local_files", "Escolha uma pasta local válida."));
    }
    Ok(())
}


// ---------------------------------------------------------------------------
// The running transfers
// ---------------------------------------------------------------------------

/// The running transfers, each under its id with its control.
#[derive(Debug)]
pub struct TransferRegistry {
    entries: Vec<(String, TransferControl)>,
}

/// The transfers of a registry as plain values.
pub open spec fn registry_view(entries: Seq<(String, TransferControl)>) -> Seq<(Seq<char>, TransferControl)> {
    entries.map_values(|e: (String, TransferControl)| (e.0@, e.1))
}

/// No id occurs twice.
pub open spec fn ids_distinct(s: Seq<(Seq<char>, TransferControl)>) -> bool {
    forall|i: int, j: int| 0 <= i < j < s.len() ==> s[i].0 != s[j].0
}

/// The control registered under `id`.
pub open spec fn control_of(s: Seq<(Seq<char>, TransferControl)>, id: Seq<char>) -> Option<TransferControl>
    decreases s.len(),
{
    if s.len() == 0 {
        None
    } else if s[0].0 == id {
        Some(s[0].1)
    } else {
        control_of(s.drop_first(), id)
    }
}

proof fn lemma_control_at(s: Seq<(Seq<char>, TransferControl)>, i: int)
    requires
        ids_distinct(s),
        0 <= i < s.len(),
    ensures
        control_of(s, s[i].0) == Some(s[i].1),
    decreases s.len(),
{
    if i > 0 {
        let t = s.drop_first();
        assert(s[0].0 != s[i].0);
        assert(t[i - 1] == s[i]);
        lemma_control_at(t, i - 1);
    }
}

proof fn lemma_control_absent(s: Seq<(Seq<char>, TransferControl)>, id: Seq<char>)
    requires
        forall|i: int| 0 <= i < s.len() ==> s[i].0 != id,
    ensures
        control_of(s, id) is None,
    decreases s.len(),
{
    if s.len() > 0 {
        let t = s.drop_first();
        assert forall|i: int| 0 <= i < t.len() implies t[i].0 != id by {
            assert(t[i] == s[i + 1]);
        }
        lemma_control_absent(t, id);
    }
}

/// The controls of `s` agree with `t` on every id but `id`.
pub open spec fn same_others(
    s: Seq<(Seq<char>, TransferControl)>,
    t: Seq<(Seq<char>, TransferControl)>,
    id: Seq<char>,
) -> bool {
    forall|k: Seq<char>| k != id ==> #[trigger] control_of(s, k) == control_of(t, k)
}

proof fn lemma_same_others(
    s: Seq<(Seq<char>, TransferControl)>,
    t: Seq<(Seq<char>, TransferControl)>,
    id: Seq<char>,
)
    requires
        ids_distinct(s),
        ids_distinct(t),
        forall|i: int| 0 <= i < s.len() && s[i].0 != id ==> exists|j: int| 0 <= j < t.len() && t[j] == s[i],
        forall|j: int| 0 <= j < t.len() && t[j].0 != id ==> exists|i: int| 0 <= i < s.len() && s[i] == t[j],
    ensures
        same_others(s, t, id),
{
    assert forall|k: Seq<char>| k != id implies #[trigger] control_of(s, k) == control_of(t, k) by {
        if exists|i: int| 0 <= i < s.len() && s[i].0 == k {
            let i = choose|i: int| 0 <= i < s.len() && s[i].0 == k;
            let j = choose|j: int| 0 <= j < t.len() && t[j] == s[i];
            lemma_control_at(s, i);
            lemma_control_at(t, j);
        } else if exists|j: int| 0 <= j < t.len() && t[j].0 == k {
            let j = choose|j: int| 0 <= j < t.len() && t[j].0 == k;
            let i = choose|i: int| 0 <= i < s.len() && s[i] == t[j];
            assert(s[i].0 == k);
        } else {
            lemma_control_absent(s, k);
            lemma_control_absent(t, k);
        }
    }
}

/// The message when a transfer that is no longer running is controlled.
pub open spec fn transfer_over_message() -> Seq<char> {
    "A transferência já terminou."@
}

impl TransferRegistry {
    /// The transfers as plain values.
    pub closed spec fn view_entries(&self) -> Seq<(Seq<char>, TransferControl)> {
        registry_view(self.entries@)
    }

    /// The registry's invariant: no id occurs twice.
    pub open spec fn wf(&self) -> bool {
        ids_distinct(self.view_entries())
    }

    /// The control of transfer `id`, if it is running.
    pub open spec fn control(&self, id: Seq<char>) -> Option<TransferControl> {
        control_of(self.view_entries(), id)
    }

    /// No transfer runs.
    pub fn new() -> (r: TransferRegistry)
        ensures
            r.wf(),
            forall|id: Seq<char>| #[trigger] r.control(id) is None,
    {
        let r = TransferRegistry { entries: Vec::new() };
        assert forall|id: Seq<char>| #[trigger] r.control(id) is None by {
            lemma_control_absent(r.view_entries(), id);
        }
        r
    }

    fn position(&self, id: &str) -> (r: Option<usize>)
        requires
            self.wf(),
        ensures
            match r {
                Some(i) => i < self.entries@.len() && self.view_entries()[i as int].0 == id@,
                None => forall|i: int| 0 <= i < self.entries@.len() ==> self.view_entries()[i].0 != id@,
            },
    {
        let mut i: usize = 0;
        while i < self.entries.len()
            invariant
                i <= self.entries@.len(),
                forall|j: int| 0 <= j < i ==> self.view_entries()[j].0 != id@,
            decreases self.entries@.len() - i,
        {
            if same_text(self.entries[i].0.as_str(), id) {
                return Some(i);
            }
            i = i + 1;
        }
        None
    }

    /// Registers transfer `id` with a fresh control (replacing any earlier
    /// one under that id).
    pub fn register(&mut self, id: &str)
        requires
            old(self).wf(),
        ensures
            final(self).wf(),
            final(self).control(id@) == Some(TransferControl { paused: false, cancelled: false }),
            same_others(old(self).view_entries(), final(self).view_entries(), id@),
    {
        let fresh = TransferControl::new();
        let ghost before = self.view_entries();
        match self.position(id) {
            Some(i) => {
                self.entries.set(i, (text(id), fresh));
                proof {
                    let after = self.view_entries();
                    assert(after =~= before.update(i as int, (id@, fresh)));
                    lemma_control_at(after, i as int);
                    assert forall|a: int| 0 <= a < before.len() && before[a].0 != id@ implies exists|b: int|
                        0 <= b < after.len() && after[b] == before[a] by {
                        assert(after[a] == before[a]);
                    }
                    assert forall|b: int| 0 <= b < after.len() && after[b].0 != id@ implies exists|a: int|
                        0 <= a < before.len() && before[a] == after[b] by {
                        assert(after[b] == before[b]);
                    }
                    lemma_same_others(before, after, id@);
                }
            },
            None => {
                self.entries.push((text(id), fresh));
                proof {
                    let after = self.view_entries();
                    assert(after =~= before.push((id@, fresh)));
                    lemma_control_at(after, before.len() as int);
                    assert forall|a: int| 0 <= a < before.len() && before[a].0 != id@ implies exists|b: int|
                        0 <= b < after.len() && after[b] == before[a] by {
                        assert(after[a] == before[a]);
                    }
                    assert forall|b: int| 0 <= b < after.len() && after[b].0 != id@ implies exists|a: int|
                        0 <= a < before.len() && before[a] == after[b] by {
                        assert(after[b] == before[b]);
                    }
                    lemma_same_others(before, after, id@);
                }
            },
        }
    }

    /// Applies `op` to transfer `id`; a transfer that is not running cannot
    /// be controlled.
    pub fn apply(&mut self, id: &str, op: ControlOp) -> (r: Result<(), AppError>)
        requires
            old(self).wf(),
        ensures
            final(self).wf(),
            match old(self).control(id@) {
                Some(c) => r is Ok && final(self).control(id@) == Some(control_after(c, op)),
                None => fails_with(r, "transfer"@, transfer_over_message()) && final(self).view_entries()
                    == old(self).view_entries(),
            },
            same_others(old(self).view_entries(), final(self).view_entries(), id@),
    {
        let ghost before = self.view_entries();
        match self.position(id) {
            Some(i) => {
                proof {
                    lemma_control_at(before, i as int);
                }
                let mut c = self.entries[i].1;
                match op {
                    ControlOp::Pause => c.pause(),
                    ControlOp::Resume => c.resume(),
                    ControlOp::Cancel => c.cancel(),
                }
                self.entries.set(i, (text(id), c));
                proof {
                    let after = self.view_entries();
                    assert(after =~= before.update(i as int, (id@, c)));
                    lemma_control_at(after, i as int);
                    assert forall|a: int| 0 <= a < before.len() && before[a].0 != id@ implies exists|b: int|
                        0 <= b < after.len() && after[b] == before[a] by {
                        assert(after[a] == before[a]);
                    }
                    assert forall|b: int| 0 <= b < after.len() && after[b].0 != id@ implies exists|a: int|
                        0 <= a < before.len() && before[a] == after[b] by {
                        assert(after[b] == before[b]);
                    }
                    lemma_same_others(before, after, id@);
                }
                Ok(())
            },
            None => {
                proof {
                    lemma_control_absent(before, id@);
                }
                Err(AppError::new("transfer", "A transferência já terminou."))
            },
        }
    }

    /// What transfer `id` does at its next checkpoint, if it is running.
    pub fn gate(&self, id: &str) -> (r: Option<TransferGate>)
        requires
            self.wf(),
        ensures
            match self.control(id@) {
                Some(c) => r matches Some(g) && gate_of(c, g),
                None => r is None,
            },
    {
        match self.position(id) {
            Some(i) => {
                proof {
                    lemma_control_at(self.view_entries(), i as int);
                }
                Some(self.entries[i].1.gate())
            },
            None => {
                proof {
                    lemma_control_absent(self.view_entries(), id@);
                }
                None
            },
        }
    }

    /// Transfer `id` has ended: it is no longer running.
    pub fn finish(&mut self, id: &str)
        requires
            old(self).wf(),
        ensures
            final(self).wf(),
            final(self).control(id@) is None,
            same_others(old(self).view_entries(), final(self).view_entries(), id@),
    {
        let ghost before = self.view_entries();
        match self.position(id) {
            Some(i) => {
                self.entries.remove(i);
                proof {
                    let after = self.view_entries();
                    assert(after =~= before.remove(i as int));
                    assert forall|a: int| 0 <= a < after.len() implies after[a].0 != id@ by {
                        if a < i {
                            assert(after[a] == before[a]);
                        } else {
                            assert(after[a] == before[a + 1]);
                        }
                    }
                    lemma_control_absent(after, id@);
                    assert forall|a: int| 0 <= a < before.len() && before[a].0 != id@ implies exists|b: int|
                        0 <= b < after.len() && after[b] == before[a] by {
                        if a < i {
                            assert(after[a] == before[a]);
                        } else {
                            assert(after[a - 1] == before[a]);
                        }
                    }
                    assert forall|b: int| 0 <= b < after.len() && after[b].0 != id@ implies exists|a: int|
                        0 <= a < before.len() && before[a] == after[b] by {
                        if b < i {
                            assert(after[b] == before[b]);
                        } else {
                            assert(after[b] == before[b + 1]);
                        }
                    }
                    lemma_same_others(before, after, id@);
                }
            },
            None => {
                proof {
                    lemma_control_absent(before, id@);
                }
            },
        }
    }
}

// ---------------------------------------------------------------------------
// Copying one file
// ---------------------------------------------------------------------------

/// A progress event of one file: bytes done, bytes in all, status, message.
#[derive(Debug)]
pub struct TransferEvent {
    pub completed: u64,
    pub total: u64,
    pub status: String,
    pub message: String,
}

/// The copy of one file of `total` bytes, `completed` of them done.
#[derive(Debug)]
pub struct FileCopy {
    pub upload: bool,
    pub total: u64,
    pub completed: u64,
}

impl FileCopy {
    /// A copy that has not begun.
    pub fn start(upload: bool, total: u64) -> (c: FileCopy)
        ensures
            c == (FileCopy { upload, total, completed: 0 }),
    {
        FileCopy { upload, total, completed: 0 }
    }

    /// Plans the copy against a target that already holds `existing` bytes
    /// (see [`resume_plan_of`]): an already complete target counts as done;
    /// otherwise the copy counts from where it starts.
    pub fn plan(&mut self, existing: Option<u64>) -> (r: ResumePlan)
        ensures
            r == resume_plan_of(existing, old(self).total),
            final(self).upload == old(self).upload,
            final(self).total == old(self).total,
            final(self).completed == match r {
                ResumePlan::AlreadyComplete => old(self).total,
                ResumePlan::CopyFrom { offset } => offset,
            },
    {
        let r = resume_plan(existing, self.total);
        self.completed = match r {
            ResumePlan::AlreadyComplete => self.total,
            ResumePlan::CopyFrom { offset } => offset,
        };
        r
    }

    /// Another `read` bytes were copied.
    pub fn advance(&mut self, read: usize)
        ensures
            final(self).upload == old(self).upload,
            final(self).total == old(self).total,
            final(self).completed == (if old(self).completed + read <= u64::MAX {
                (old(self).completed + read) as u64
            } else {
                u64::MAX
            }),
    {
        self.completed = progress_after(self.completed, read);
    }

    /// The event for `phase`: a start reports nothing done yet, progress
    /// reports the bytes done, a completion reports the whole file.
    pub fn event(&self, phase: TransferPhase) -> (e: TransferEvent)
        ensures
            (e.status@, e.message@) == phase_event(self.upload, phase),
            e.total == self.total,
            e.completed == match phase {
                TransferPhase::Started => 0,
                TransferPhase::Progress => self.completed,
                _ => self.total,
            },
    {
        let completed = match phase {
            TransferPhase::Started => 0,
            TransferPhase::Progress => self.completed,
            _ => self.total,
        };
        let (status, message) = transfer_phase_event(self.upload, phase);
        TransferEvent { completed, total: self.total, status, message }
    }
}

/// Progress never goes back while a file is copied.
pub proof fn law_progress_monotone(completed: u64, read: nat)
    ensures
        completed <= (if completed + read <= u64::MAX {
            (completed + read) as u64
        } else {
            u64::MAX
        }),
{
}

} // verus!
