use vstd::prelude::*;

use crate::paths::normalize_spec;
use crate::strutil::{contains_seq, str_contains};

verus! {

/// Why a single download task failed.
pub enum DownloadError {
    /// The server reported no content length for the item.
    MissingContentLength { item: String },
    /// The request failed or the body stream broke off.
    Transfer { item: String },
    /// The staging file could not be created or written.
    FileIo { path: String },
}

/// Why the installation step failed.
pub enum InstallError {
    /// The staged archive could not be read or unpacked.
    Extract { path: String },
    /// The rebuild subprocess exited with a non-zero code.
    RebuildExit { code: i32 },
    /// The rebuild subprocess was killed before reporting a status.
    RebuildNoStatus,
    /// A destination file could not be replaced or copied.
    File { path: String },
}

/// Content root chosen when the reachability probe succeeds.
pub const ROOT_PRIMARY: &'static str = "https://cli.moonbitlang.com";

/// Content root chosen on any probe failure.
pub const ROOT_FALLBACK: &'static str = "https://cli.moonbitlang.cn";

/// Chooses the content-distribution root from the outcome of the bounded
/// reachability probe: success selects the primary root, any failure the
/// fallback. The probe says nothing about the chosen root itself.
pub fn select_root(probe_ok: bool) -> (r: &'static str)
    ensures
        probe_ok ==> r@ == ROOT_PRIMARY@,
        !probe_ok ==> r@ == ROOT_FALLBACK@,
{
    if probe_ok {
        ROOT_PRIMARY
    } else {
        ROOT_FALLBACK
    }
}

/// The download page to point users at, matching the region of the chosen
/// root.
pub fn download_page(root: &str) -> (r: &'static str)
    ensures
        contains_seq(root@, "moonbitlang.cn"@) ==> r@ == "https://www.moonbitlang.cn/download"@,
        !contains_seq(root@, "moonbitlang.cn"@) ==> r@ == "https://www.moonbitlang.com/download"@,
{
    if str_contains(root, "moonbitlang.cn") {
        "https://www.moonbitlang.cn/download"
    } else {
        "https://www.moonbitlang.com/download"
    }
}

/// Index of the first failed task in completion order, or `results.len()`.
pub open spec fn first_failure(results: Seq<Option<DownloadError>>) -> int
    decreases results.len(),
{
    if results.len() == 0 {
        0
    } else if results[0] is Some {
        0
    } else {
        1 + first_failure(results.skip(1))
    }
}

/// How the guarded download batch ended.
pub enum BatchOutcome {
    /// The interrupt won the race: nothing is installed.
    Interrupted,
    /// A task failed: its error is the batch's result and nothing is
    /// installed, whatever the other tasks did.
    Failed(DownloadError),
    /// Every task succeeded: installation may begin.
    ReadyToInstall,
}

/// Folds the per-task results and the interrupt race into the outcome of the
/// batch: an interrupt that fired first wins, otherwise the first failure in
/// completion order is the batch's error, and only a fully successful batch
/// reaches installation.
pub fn batch_outcome(interrupted_first: bool, results: &Vec<Option<DownloadError>>) -> (r:
    BatchOutcome)
    ensures
        interrupted_first ==> r is Interrupted,
        !interrupted_first && (forall|i: int| 0 <= i < results@.len() ==> results@[i] is None)
            ==> r is ReadyToInstall,
        !interrupted_first && (exists|i: int| 0 <= i < results@.len() && results@[i] is Some)
            ==> r == BatchOutcome::Failed(results@[first_failure(results@)]->Some_0),
{
    if interrupted_first {
        return BatchOutcome::Interrupted;
    }
    let mut i: usize = 0;
    while i < results.len()
        invariant
            0 <= i <= results@.len(),
            !interrupted_first,
            forall|j: int| 0 <= j < i ==> results@[j] is None,
        decreases results@.len() - i,
    {
        match &results[i] {
            Some(err) => {
                proof {
                    lemma_first_failure_at(results@, i as int);
                }
                return BatchOutcome::Failed(dup_download_error(err));
            },
            None => {},
        }
        i = i + 1;
    }
    BatchOutcome::ReadyToInstall
}

/// An identical copy of a download error, field by field.
fn dup_download_error(e: &DownloadError) -> (r: DownloadError)
    ensures
        r == *e,
{
    match e {
        DownloadError::MissingContentLength { item } => DownloadError::MissingContentLength {
            item: item.clone(),
        },
        DownloadError::Transfer { item } => DownloadError::Transfer { item: item.clone() },
        DownloadError::FileIo { path } => DownloadError::FileIo { path: path.clone() },
    }
}

proof fn lemma_first_failure_at(results: Seq<Option<DownloadError>>, i: int)
    requires
        0 <= i < results.len(),
        results[i] is Some,
        forall|j: int| 0 <= j < i ==> results[j] is None,
    ensures
        first_failure(results) == i,
    decreases results.len(),
{
    if i > 0 {
        lemma_first_failure_at(results.skip(1), i - 1);
    }
}

/// Index of the first character of the last separator-free run of `s` — the
/// start of the path's file name.
pub open spec fn comp_start(s: Seq<char>) -> int
    decreases s.len(),
{
    if s.len() == 0 {
        0
    } else if s[s.len() - 1] == '/' {
        s.len() as int
    } else {
        comp_start(s.drop_last())
    }
}

/// An item is installed by archive extraction exactly when its file name has
/// the `zip` extension: it ends in `.zip` with a non-empty stem before it.
pub open spec fn is_archive_name(s: Seq<char>) -> bool {
    let c = s.skip(comp_start(s));
    c.len() > 4 && c.subrange(c.len() - 4, c.len() as int) == ".zip"@
}

/// Any index bounding a separator-free suffix, with a separator just before
/// it or nothing at all before it, is where the file name starts.
proof fn lemma_comp_start_at(s: Seq<char>, i: int)
    requires
        0 <= i <= s.len(),
        forall|j: int| i <= j < s.len() ==> s[j] != '/',
        i > 0 ==> s[i - 1] == '/',
    ensures
        comp_start(s) == i,
    decreases s.len(),
{
    if s.len() == 0 {
    } else if s[s.len() - 1] == '/' {
        assert(i == s.len());
    } else {
        assert(i < s.len());
        assert forall|j: int| i <= j < s.drop_last().len() implies s.drop_last()[j] != '/' by {
            assert(s.drop_last()[j] == s[j]);
        }
        lemma_comp_start_at(s.drop_last(), i);
    }
}

/// Decides `is_archive_name(item@)`.
pub fn item_is_archive(item: &str) -> (r: bool)
    ensures
        r == is_archive_name(item@),
{
    let n = item.unicode_len();
    let mut i: usize = n;
    loop
        invariant_except_break
            0 <= i <= n,
            forall|j: int| i <= j < n ==> item@[j] != '/',
        invariant
            n == item@.len(),
        ensures
            0 <= i <= n,
            forall|j: int| i <= j < n ==> item@[j] != '/',
            i > 0 ==> item@[i - 1] == '/',
        decreases i,
    {
        if i == 0 {
            break;
        }
        if item.get_char(i - 1) == '/' {
            break;
        }
        i = i - 1;
    }
    let ghost cs = comp_start(item@);
    proof {
        lemma_comp_start_at(item@, i as int);
        assert(cs == i);
    }
    let clen = n - i;
    if clen <= 4 {
        return false;
    }
    let suffix = item.substring_char(n - 4, n);
    let r = crate::strutil::str_eq(suffix, ".zip");
    proof {
        let c = item@.skip(cs);
        assert(c.subrange(c.len() - 4, c.len() as int) =~= item@.subrange(n - 4, n as int));
        assert(suffix@ =~= item@.subrange(n - 4, n as int));
    }
    r
}

/// How one staged item is installed.
pub enum InstallStep {
    /// Remove the installed core tree, unpack the archive over the library
    /// root, then rebuild with the freshly installed executable.
    ExtractAndRebuild,
    /// Replace the destination file with the staged one; when the destination
    /// is the running executable itself, substitute it in place.
    ReplaceFile { replace_self: bool },
}

/// Plans the install action for one downloaded item: archives are extracted
/// and rebuilt, anything else replaces the file at its destination, with the
/// self-replacement path taken exactly when the normalized destination equals
/// the normalized path of the running executable. Paths are compared
/// textually, never through the file system.
pub fn plan_install_step(item: &str, dest: &str, current_exe: &str) -> (r: InstallStep)
    ensures
        is_archive_name(item@) ==> r is ExtractAndRebuild,
        !is_archive_name(item@) ==> r == (InstallStep::ReplaceFile {
            replace_self: normalize_spec(dest@) == normalize_spec(current_exe@),
        }),
{
    if item_is_archive(item) {
        InstallStep::ExtractAndRebuild
    } else {
        let dst_norm = crate::paths::normalize_path(dest);
        let exe_norm = crate::paths::normalize_path(current_exe);
        let same = dst_norm.eq(&exe_norm);
        proof {
            if same {
                assert(normalize_spec(dest@) == normalize_spec(current_exe@));
            }
        }
        InstallStep::ReplaceFile { replace_self: same }
    }
}

/// The stages one upgrade invocation moves through.
#[derive(PartialEq, Eq, Structural, Clone, Copy, Debug)]
pub enum UpgradeState {
    Idle,
    CheckingVersion,
    /// Terminal: nothing newer was published.
    UpToDate,
    /// Waiting for the user to confirm the installation.
    ConfirmPending,
    Downloading,
    /// Terminal: the interrupt won the race against the downloads.
    Interrupted,
    /// Terminal: a download task failed.
    DownloadFailed,
    Installing,
    /// Terminal: an install step failed; no rollback is attempted.
    InstallFailed,
    /// Terminal: every item was installed.
    Done,
}

/// What the surrounding process reports back into the state machine.
#[derive(PartialEq, Eq, Structural, Clone, Copy, Debug)]
pub enum UpgradeEvent {
    Started,
    /// The version check came back; `proceed` is false only for a confirmed
    /// "nothing newer" answer.
    VersionChecked { proceed: bool },
    Confirmed,
    BatchInterrupted,
    BatchFailed,
    BatchSucceeded,
    InstallFinished { ok: bool },
}

pub open spec fn is_terminal_state(s: UpgradeState) -> bool {
    s is UpToDate || s is Interrupted || s is DownloadFailed || s is InstallFailed || s is Done
}

/// The transition relation of one invocation, as a function: every failure
/// state is terminal — there are no retries — and an event that does not
/// belong to the current stage changes nothing.
pub fn upgrade_step(s: UpgradeState, e: UpgradeEvent) -> (r: UpgradeState)
    ensures
        s is Idle && e is Started ==> r is CheckingVersion,
        s is CheckingVersion && (e matches UpgradeEvent::VersionChecked { proceed } && r == (if proceed {
            UpgradeState::ConfirmPending
        } else {
            UpgradeState::UpToDate
        })) || !(s is CheckingVersion && e is VersionChecked),
        s is ConfirmPending && e is Confirmed ==> r is Downloading,
        s is Downloading && e is BatchInterrupted ==> r is Interrupted,
        s is Downloading && e is BatchFailed ==> r is DownloadFailed,
        s is Downloading && e is BatchSucceeded ==> r is Installing,
        s is Installing && (e matches UpgradeEvent::InstallFinished { ok } && r == (if ok {
            UpgradeState::Done
        } else {
            UpgradeState::InstallFailed
        })) || !(s is Installing && e is InstallFinished),
        is_terminal_state(s) ==> r == s,
        !(match (s, e) {
            (UpgradeState::Idle, UpgradeEvent::Started) => true,
            (UpgradeState::CheckingVersion, UpgradeEvent::VersionChecked { .. }) => true,
            (UpgradeState::ConfirmPending, UpgradeEvent::Confirmed) => true,
            (UpgradeState::Downloading, UpgradeEvent::BatchInterrupted) => true,
            (UpgradeState::Downloading, UpgradeEvent::BatchFailed) => true,
            (UpgradeState::Downloading, UpgradeEvent::BatchSucceeded) => true,
            (UpgradeState::Installing, UpgradeEvent::InstallFinished { .. }) => true,
            _ => false,
        }) ==> r == s,
{
    match (s, e) {
        (UpgradeState::Idle, UpgradeEvent::Started) => UpgradeState::CheckingVersion,
        (UpgradeState::CheckingVersion, UpgradeEvent::VersionChecked { proceed }) => {
            if proceed {
                UpgradeState::ConfirmPending
            } else {
                UpgradeState::UpToDate
            }
        },
        (UpgradeState::ConfirmPending, UpgradeEvent::Confirmed) => UpgradeState::Downloading,
        (UpgradeState::Downloading, UpgradeEvent::BatchInterrupted) => UpgradeState::Interrupted,
        (UpgradeState::Downloading, UpgradeEvent::BatchFailed) => UpgradeState::DownloadFailed,
        (UpgradeState::Downloading, UpgradeEvent::BatchSucceeded) => UpgradeState::Installing,
        (UpgradeState::Installing, UpgradeEvent::InstallFinished { ok }) => {
            if ok {
                UpgradeState::Done
            } else {
                UpgradeState::InstallFailed
            }
        },
        (other, _) => other,
    }
}

/// The process exit contract: zero for the benign endings — up to date, or a
/// completed installation — and for a declined confirmation, which the caller
/// reports by never leaving `ConfirmPending`.
pub fn exit_code_for(s: UpgradeState) -> (r: i32)
    ensures
        (r == 0) <==> (s is UpToDate || s is Done || s is ConfirmPending),
{
    match s {
        UpgradeState::UpToDate => 0,
        UpgradeState::Done => 0,
        UpgradeState::ConfirmPending => 0,
        _ => 1,
    }
}

/// Judges the exit of the rebuild subprocess: only a reported exit code of
/// zero counts as success; a non-zero code or a missing status is fatal.
pub fn rebuild_outcome(exit_code: Option<i32>) -> (r: Result<(), InstallError>)
    ensures
        exit_code == Some(0i32) ==> r is Ok,
        (exit_code matches Some(c) && c != 0) ==> r == Err::<(), InstallError>(
            InstallError::RebuildExit { code: exit_code->Some_0 },
        ),
        exit_code is None ==> r == Err::<(), InstallError>(InstallError::RebuildNoStatus),
{
    match exit_code {
        Some(0) => Ok(()),
        Some(c) => Err(InstallError::RebuildExit { code: c }),
        None => Err(InstallError::RebuildNoStatus),
    }
}

} // verus!

