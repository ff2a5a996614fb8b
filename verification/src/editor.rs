//! Editing a remote file in a local editor: what may be opened, how the
//! editor is started, when a saved copy is sent back, conflicts with changes
//! on the server, and the safety copies kept before each upload.
use vstd::prelude::*;

use crate::crypto::{sha256, sha256_digest};
use crate::error::{fails_with, AppError};
use crate::keys::{file_name_or_empty, file_name_text, PathStyle};
use crate::profile::Profile;
use crate::text::{
    blank, chars_of, contains_chars, decimal, decimal_text, has_infix, hex_lower, hex_text,
    is_blank, join2, join3, lowercase_text, replace_char, replaced_char, same_text, string_of,
    text, trim, trimmed, unicode_lowercase,
};
use crate::transfer::{is_directory_mode, is_directory_mode_spec};
use vstd::utf8::encode_utf8;

verus! {

/// A remote file can be opened for editing when the profile allows the
/// external editor and a path is given.
pub fn check_editor_request(profile: &Profile, remote_path: &str) -> (r: Result<(), AppError>)
    ensures
        !profile@.external_editor_enabled ==> fails_with(
            r,
            "editor_disabled"@,
            "Habilite o editor externo neste perfil."@,
        ),
        profile@.external_editor_enabled && blank(remote_path@) ==> fails_with(
            r,
            "validation"@,
            "Informe o arquivo remoto para editar."@,
        ),
        profile@.external_editor_enabled && !blank(remote_path@) ==> r is Ok,
{
    if !profile.external_editor_enabled {
        return Err(AppError::new("editor_disabled", "Habilite o editor externo neste perfil."));
    }
    if is_blank(remote_path) {
        return Err(AppError::new("validation", "Informe o arquivo remoto para editar."));
    }
    Ok(())
}

/// The configured editor must be an existing file.
pub fn check_editor_present(editor_is_file: bool) -> (r: Result<(), AppError>)
    ensures
        editor_is_file ==> r is Ok,
        !editor_is_file ==> fails_with(
            r,
            "editor_missing"@,
            "O editor configurado não foi encontrado. Escolha novamente o executável no perfil."@,
        ),
{
    if editor_is_file {
        Ok(())
    } else {
        Err(
            AppError::new(
                "editor_missing",
                "O editor configurado não foi encontrado. Escolha novamente o executável no perfil.",
            ),
        )
    }
}

/// A directory cannot be edited (its mode, absent counting as 0).
pub fn check_editable(perm: Option<u32>) -> (r: Result<(), AppError>)
    ensures
        is_directory_mode_spec(perm) ==> fails_with(
            r,
            "editor"@,
            "Selecione um arquivo remoto, não uma pasta."@,
        ),
        !is_directory_mode_spec(perm) ==> r is Ok,
{
    if is_directory_mode(perm) {
        Err(AppError::new("editor", "Selecione um arquivo remoto, não uma pasta."))
    } else {
        Ok(())
    }
}

/// The arguments the editor is started with: Notepad++ (recognised by its
/// file name, without regard to case) gets its own instance and no session;
/// every editor gets the local copy. The editor's path is read by the path
/// rules of `style`.
pub open spec fn editor_args(style: PathStyle, editor: Seq<char>, local: Seq<char>) -> Seq<Seq<char>> {
    if has_infix(unicode_lowercase(file_name_or_empty(style, editor)), "notepad++"@) {
        seq!["-multiInst"@, "-nosession"@, local]
    } else {
        seq![local]
    }
}

/// See [`editor_args`].
pub fn editor_arguments(style: PathStyle, editor: &str, local: &str) -> (r: Vec<String>)
    ensures
        r@.map_values(|a: String| a@) == editor_args(style, editor@, local@),
{
    let name = match file_name_text(style, editor) {
        Some(n) => n,
        None => String::new(),
    };
    let lower = lowercase_text(name.as_str());
    let lv = chars_of(lower.as_str());
    let pat = chars_of("notepad++");
    let mut r: Vec<String> = Vec::new();
    if contains_chars(lv.as_slice(), pat.as_slice()) {
        r.push(text("-multiInst"));
        r.push(text("-nosession"));
    }
    r.push(text(local));
    assert(r@.map_values(|a: String| a@) =~= editor_args(style, editor@, local@));
    r
}

/// What tells whether a remote file changed: its size and modification time.
#[derive(Debug)]
pub struct RemoteRevision {
    pub size: Option<u64>,
    pub mtime: Option<u64>,
}

/// A local copy is sent back only while the remote file is as it was when
/// the edit began (or was last saved).
pub fn check_unchanged(current: &RemoteRevision, baseline: &RemoteRevision) -> (r: Result<
    (),
    AppError,
>)
    ensures
        (current.size == baseline.size && current.mtime == baseline.mtime) ==> r is Ok,
        !(current.size == baseline.size && current.mtime == baseline.mtime) ==> fails_with(
            r,
            "editor_conflict"@,
            "O arquivo foi alterado no servidor durante a edição."@,
        ),
{
    let same_size = match (current.size, baseline.size) {
        (Some(a), Some(b)) => a == b,
        (None, None) => true,
        _ => false,
    };
    let same_time = match (current.mtime, baseline.mtime) {
        (Some(a), Some(b)) => a == b,
        (None, None) => true,
        _ => false,
    };
    if same_size && same_time {
        Ok(())
    } else {
        Err(AppError::new("editor_conflict", "O arquivo foi alterado no servidor durante a edição."))
    }
}

/// The watch over the local copy while the editor is open: the modification
/// time last sent (in nanoseconds from the Unix epoch), and whether a
/// conflict stopped the uploads.
#[derive(Debug)]
pub struct EditWatch {
    pub seen: i128,
    pub conflict: bool,
}

/// A local copy modified at `modified` (absent when it could not be read)
/// is sent back when it is newer than the last one sent and no conflict
/// has occurred.
pub open spec fn sync_due(w: EditWatch, modified: Option<i128>) -> bool {
    !w.conflict && (modified matches Some(m) && m > w.seen)
}

/// The watch after an upload of the copy modified at `modified`: a success
/// records that time; a conflict stops further uploads; another failure
/// leaves the watch as it was and is reported.
pub open spec fn watch_after(w: EditWatch, modified: i128, result: Result<(), AppError>) -> (
    EditWatch,
    Option<Seq<char>>,
) {
    match result {
        Ok(_) => (EditWatch { seen: modified, conflict: w.conflict }, None),
        Err(e) => if e.code@ == "editor_conflict"@ {
            (EditWatch { seen: w.seen, conflict: true }, None)
        } else {
            (w, Some(e.message@))
        },
    }
}

impl EditWatch {
    /// The watch when the editor starts, the copy last modified at `seen`.
    pub fn start(seen: i128) -> (w: EditWatch)
        ensures
            w == (EditWatch { seen, conflict: false }),
    {
        EditWatch { seen, conflict: false }
    }

    /// See [`sync_due`].
    pub fn needs_sync(&self, modified: Option<i128>) -> (r: bool)
        ensures
            r == sync_due(*self, modified),
    {
        if self.conflict {
            return false;
        }
        match modified {
            Some(m) => m > self.seen,
            None => false,
        }
    }

    /// See [`watch_after`]; the message returned is the failure to report.
    pub fn after_sync(&self, modified: i128, result: &Result<(), AppError>) -> (r: (
        EditWatch,
        Option<String>,
    ))
        ensures
            r.0 == watch_after(*self, modified, *result).0,
            match watch_after(*self, modified, *result).1 {
                Some(m) => r.1 matches Some(s) && s@ == m,
                None => r.1 is None,
            },
    {
        match result {
            Ok(()) => (EditWatch { seen: modified, conflict: self.conflict }, None),
            Err(e) => {
                if same_text(&e.code, "editor_conflict") {
                    (EditWatch { seen: self.seen, conflict: true }, None)
                } else {
                    (EditWatch { seen: self.seen, conflict: self.conflict }, Some(e.message.clone()))
                }
            },
        }
    }
}

/// Once a conflict has stopped the uploads, no later save is sent back and
/// no later outcome lifts the stop.
pub proof fn law_conflict_is_final(
    w: EditWatch,
    modified: Option<i128>,
    at: i128,
    result: Result<(), AppError>,
)
    requires
        w.conflict,
    ensures
        !sync_due(w, modified),
        watch_after(w, at, result).0.conflict,
{
}

/// A save newer than the last one sent, with no conflict, is sent; and a
/// successful upload makes that same save no longer due.
pub proof fn law_saved_copy_sent_once(w: EditWatch, modified: i128)
    requires
        !w.conflict,
        modified > w.seen,
    ensures
        sync_due(w, Some(modified)),
        !sync_due(watch_after(w, modified, Ok(())).0, Some(modified)),
{
}

// ---------------------------------------------------------------------------
// Safety copies
// ---------------------------------------------------------------------------

/// The directory key of a remote file's safety copies: the hexadecimal
/// SHA-256 digest of its path.
pub open spec fn backup_dir_key(remote_path: Seq<char>) -> Seq<char> {
    hex_lower(sha256_digest(encode_utf8(remote_path)))
}

/// See [`backup_dir_key`].
pub fn editor_backup_key(remote_path: &str) -> (r: String)
    ensures
        r@ == backup_dir_key(remote_path@),
{
    let d = sha256(remote_path.as_bytes());
    let h = hex_text(d.as_slice());
    string_of(h.as_slice())
}

/// The name of a safety copy: the time, a unique id and the file's name.
pub fn backup_file_name(now: u64, id: &str, file_name: &str) -> (r: String)
    ensures
        r@ == decimal(now as nat) + "-"@ + id@ + "-"@ + file_name@,
{
    let t = decimal_text(now);
    let a = join3(t.as_str(), "-", id);
    join3(a.as_str(), "-", file_name)
}

/// How many safety copies of a file are kept.
pub const KEPT_BACKUPS: usize = 20;

/// In the order of modification time, copies with equal times keeping their
/// listed order, copy `j` comes before copy `i`.
pub open spec fn sorts_before(times: Seq<i128>, j: int, i: int) -> bool {
    times[j] < times[i] || (times[j] == times[i] && j < i)
}

/// How many of the first `n` copies come before copy `i`.
pub open spec fn rank_below(times: Seq<i128>, i: int, n: int) -> nat
    decreases n,
{
    if n <= 0 {
        0
    } else {
        rank_below(times, i, n - 1) + if sorts_before(times, n - 1, i) {
            1nat
        } else {
            0nat
        }
    }
}

/// The position of copy `i` in that order.
pub open spec fn rank(times: Seq<i128>, i: int) -> nat {
    rank_below(times, i, times.len() as int)
}

/// A copy is removed when more than the kept number come after it.
pub open spec fn backup_removed(times: Seq<i128>, i: int) -> bool {
    rank(times, i) + KEPT_BACKUPS < times.len()
}

/// Which of the listed copies (given by modification time) to remove so
/// that the newest ones are kept.
pub fn backups_to_remove(times: &[i128]) -> (r: Vec<bool>)
    ensures
        r@.len() == times@.len(),
        forall|i: int| 0 <= i < times@.len() ==> r@[i] == backup_removed(times@, i),
{
    let n = times.len();
    let mut r: Vec<bool> = Vec::new();
    let mut i: usize = 0;
    while i < n
        invariant
            n == times@.len(),
            i <= n,
            r@.len() == i,
            forall|k: int| 0 <= k < i ==> r@[k] == backup_removed(times@, k),
        decreases n - i,
    {
        let mut count: usize = 0;
        let mut j: usize = 0;
        while j < n
            invariant
                n == times@.len(),
                i < n,
                j <= n,
                count == rank_below(times@, i as int, j as int),
                count <= j,
            decreases n - j,
        {
            if times[j] < times[i] || (times[j] == times[i] && j < i) {
                count = count + 1;
            }
            j = j + 1;
        }
        r.push(n > KEPT_BACKUPS && count < n - KEPT_BACKUPS);
        i = i + 1;
    }
    r
}

/// Copy `i` is the newest: every other copy comes before it.
pub open spec fn is_latest(times: Seq<i128>, i: int) -> bool {
    0 <= i < times.len() && forall|j: int| 0 <= j < times.len() && j != i ==> sorts_before(times, j, i)
}

/// The newest copy, the last in order of modification time.
pub fn latest_backup(times: &[i128]) -> (r: Result<usize, AppError>)
    ensures
        times@.len() == 0 ==> fails_with(
            r,
            "editor_backup"@,
            "Ainda não existe cópia de segurança deste arquivo."@,
        ),
        times@.len() > 0 ==> (r matches Ok(i) && is_latest(times@, i as int)),
{
    if times.len() == 0 {
        return Err(AppError::new("editor_backup", "Ainda não existe cópia de segurança deste arquivo."));
    }
    let mut best: usize = 0;
    let mut j: usize = 1;
    while j < times.len()
        invariant
            0 < times@.len(),
            best < j <= times@.len(),
            forall|k: int| 0 <= k < j && k != best ==> sorts_before(times@, k, best as int),
        decreases times@.len() - j,
    {
        if times[j] >= times[best] {
            let ghost old_best = best as int;
            best = j;
            assert forall|k: int| 0 <= k < j + 1 && k != best implies sorts_before(
                times@,
                k,
                best as int,
            ) by {
                if k != old_best {
                    assert(sorts_before(times@, k, old_best));
                }
            }
        }
        j = j + 1;
    }
    Ok(best)
}

proof fn lemma_rank_of_latest(times: Seq<i128>, i: int, n: int)
    requires
        is_latest(times, i),
        0 <= n <= times.len(),
    ensures
        rank_below(times, i, n) == if i < n { n - 1 } else { n },
    decreases n,
{
    if n > 0 {
        lemma_rank_of_latest(times, i, n - 1);
    }
}

proof fn lemma_rank_below_monotone(times: Seq<i128>, j: int, i: int, n: int)
    requires
        0 <= j < times.len(),
        0 <= i < times.len(),
        sorts_before(times, j, i),
        0 <= n <= times.len(),
    ensures
        rank_below(times, j, n) <= rank_below(times, i, n),
        j < n ==> rank_below(times, j, n) < rank_below(times, i, n),
    decreases n,
{
    if n > 0 {
        lemma_rank_below_monotone(times, j, i, n - 1);
    }
}

/// Only the oldest copies are removed: every removed copy comes, in order of
/// modification time, before every kept one.
pub proof fn law_oldest_backups_removed(times: Seq<i128>, i: int, j: int)
    requires
        0 <= i < times.len(),
        0 <= j < times.len(),
        backup_removed(times, i),
        !backup_removed(times, j),
    ensures
        sorts_before(times, i, j),
{
    if !sorts_before(times, i, j) {
        assert(sorts_before(times, j, i));
        lemma_rank_below_monotone(times, j, i, times.len() as int);
    }
}

proof fn lemma_rank_bound(times: Seq<i128>, i: int, m: int)
    requires
        0 <= i < times.len(),
        0 <= m <= times.len(),
    ensures
        rank_below(times, i, m) <= m,
        i < m ==> rank_below(times, i, m) < m,
    decreases m,
{
    if m > 0 {
        lemma_rank_bound(times, i, m - 1);
    }
}

proof fn lemma_ranks_distinct(times: Seq<i128>, i: int, j: int)
    requires
        0 <= i < times.len(),
        0 <= j < times.len(),
        i != j,
    ensures
        rank(times, i) != rank(times, j),
{
    if sorts_before(times, i, j) {
        lemma_rank_below_monotone(times, i, j, times.len() as int);
    } else {
        lemma_rank_below_monotone(times, j, i, times.len() as int);
    }
}

/// The positions of the copies with a rank below `m`.
spec fn ranked_below(times: Seq<i128>, m: int) -> Set<int> {
    Set::new(|i: int| 0 <= i < times.len() && rank(times, i) < m)
}

proof fn lemma_ranked_below_len(times: Seq<i128>, m: int)
    requires
        0 <= m <= times.len(),
    ensures
        ranked_below(times, m).finite(),
        ranked_below(times, m).len() == m,
{
    let n = times.len() as int;
    let f = |i: int| rank(times, i) as int;
    let all = vstd::set_lib::set_int_range(0, n);
    vstd::set_lib::lemma_int_range(0, n);
    assert(vstd::relations::injective_on(f, all)) by {
        assert forall|a: int, b: int| all.contains(a) && all.contains(b) && #[trigger] f(a) == #[trigger] f(
            b,
        ) implies a == b by {
            if a != b {
                lemma_ranks_distinct(times, a, b);
            }
        }
    }
    let image = all.map(f);
    vstd::set_lib::lemma_map_size(all, image, f);
    assert(image.subset_of(all)) by {
        assert forall|v: int| image.contains(v) implies all.contains(v) by {
            let i = choose|i: int| all.contains(i) && v == f(i);
            lemma_rank_bound(times, i, n);
        }
    }
    vstd::set_lib::lemma_subset_equality(image, all);
    let below = ranked_below(times, m);
    let target = vstd::set_lib::set_int_range(0, m);
    vstd::set_lib::lemma_int_range(0, m);
    assert(below.subset_of(all));
    vstd::set_lib::lemma_len_subset(below, all);
    assert(vstd::relations::injective_on(f, below));
    assert(below.map(f) =~= target) by {
        assert forall|v: int| below.map(f).contains(v) implies target.contains(v) by {
            let i = choose|i: int| below.contains(i) && v == f(i);
        }
        assert forall|v: int| target.contains(v) implies below.map(f).contains(v) by {
            assert(image.contains(v));
            let i = choose|i: int| all.contains(i) && v == f(i);
            assert(below.contains(i));
        }
    }
    vstd::set_lib::lemma_map_size(below, target, f);
}

/// The copies removed from a listing of safety copies.
pub open spec fn removed_backups(times: Seq<i128>) -> Set<int> {
    Set::new(|i: int| 0 <= i < times.len() && backup_removed(times, i))
}

/// Exactly the kept number of copies remains: with more copies than that,
/// all but that many are removed; otherwise none is.
pub proof fn law_backups_kept_count(times: Seq<i128>)
    ensures
        removed_backups(times).finite(),
        times.len() > KEPT_BACKUPS ==> removed_backups(times).len() == times.len() - KEPT_BACKUPS,
        times.len() <= KEPT_BACKUPS ==> removed_backups(times).len() == 0,
{
    let n = times.len() as int;
    if n > KEPT_BACKUPS {
        let m = n - KEPT_BACKUPS;
        assert(removed_backups(times) =~= ranked_below(times, m));
        lemma_ranked_below_len(times, m);
    } else {
        assert(removed_backups(times) =~= Set::<int>::empty());
    }
}

/// The newest safety copy is never among those removed.
pub proof fn law_latest_backup_kept(times: Seq<i128>, i: int)
    requires
        is_latest(times, i),
    ensures
        !backup_removed(times, i),
{
    lemma_rank_of_latest(times, i, times.len() as int);
}

// ---------------------------------------------------------------------------
// Messages
// ---------------------------------------------------------------------------

/// A remote path as shown in edit events: `\` written as `/`.
pub fn edit_event_path(path: &str) -> (r: String)
    ensures
        r@ == replace_char(path@, '\\', '/'),
{
    replaced_char(path, '\\', '/')
}

/// The answer after a restore of the file at `remote_path` (trimmed).
pub fn restored_message(remote_path: &str) -> (r: String)
    ensures
        r@ == "Versão anterior restaurada em "@ + trim(remote_path@) + "."@,
{
    let t = trimmed(remote_path);
    join3("Versão anterior restaurada em ", t.as_str(), ".")
}

/// The notice after a restore.
pub fn restored_notice(remote_path: &str) -> (r: String)
    ensures
        r@ == trim(remote_path@) + " voltou para a versão anterior."@,
{
    let t = trimmed(remote_path);
    join2(t.as_str(), " voltou para a versão anterior.")
}

/// The notice after a save was sent to the server of `profile`.
pub fn saved_notice(remote_path: &str, profile: &Profile) -> (r: String)
    ensures
        r@ == remote_path@ + " foi salvo em "@ + profile@.name,
{
    join3(remote_path, " foi salvo em ", profile.name.as_str())
}

} // verus!
