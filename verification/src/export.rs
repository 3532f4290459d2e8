//! One export cycle as a state machine, and the export loop's decision.
//!
//! A cycle runs `vestige export --format <flag> <tmp>`, where `<tmp>` is the
//! export file's dotfile twin (so imports skip it), checks that it was
//! written, restricts its permissions, compares it with the existing export
//! file and then either discards it (identical content, so the existing file
//! and its modification time stay) or renames it over the export file.

use vstd::prelude::*;
use crate::cli::{format_extension, tmp_path_spec, ExportFormat};

verus! {

/// What the export loop waits on.
#[derive(Clone, Copy, Debug)]
pub enum ExportLoopEvent {
    /// The export interval elapsed (the first tick comes at once).
    Tick,
    /// Shutdown was signalled.
    Shutdown,
}

/// What the export loop does next.
#[derive(Clone, Copy, Debug, PartialEq, Eq)]
pub enum ExportLoopAction {
    /// Run one export cycle; a failed cycle is reported and the loop goes on.
    Export,
    /// Leave the loop.
    Stop,
}

/// The export loop exports on every tick and stops on shutdown.
pub fn export_loop_action(event: ExportLoopEvent) -> (r: ExportLoopAction)
    ensures
        r == (match event {
            ExportLoopEvent::Tick => ExportLoopAction::Export,
            ExportLoopEvent::Shutdown => ExportLoopAction::Stop,
        }),
{
    match event {
        ExportLoopEvent::Tick => ExportLoopAction::Export,
        ExportLoopEvent::Shutdown => ExportLoopAction::Stop,
    }
}

/// `--data-dir <dir>`, when a data directory is given, then `verb` and `file`.
pub open spec fn cli_args_spec(data_dir: Option<Seq<char>>, verb: Seq<char>, file: Seq<char>) -> Seq<
    Seq<char>,
> {
    match data_dir {
        Some(d) => seq!["--data-dir"@, d, verb, file],
        None => seq![verb, file],
    }
}

pub open spec fn strings_view(v: Seq<String>) -> Seq<Seq<char>> {
    v.map_values(|s: String| s@)
}

/// Arguments for one vestige CLI call: `[--data-dir <dir>] <verb> <file>`.
pub fn cli_args(data_dir: Option<&str>, verb: &str, file: &str) -> (r: Vec<String>)
    ensures
        strings_view(r@) == cli_args_spec(
            match data_dir {
                Some(d) => Some(d@),
                None => None,
            },
            verb@,
            file@,
        ),
{
    let mut r: Vec<String> = Vec::new();
    match data_dir {
        Some(d) => {
            r.push("--data-dir".to_string());
            r.push(d.to_string());
        },
        None => {},
    }
    r.push(verb.to_string());
    r.push(file.to_string());
    assert(strings_view(r@) =~= cli_args_spec(
        match data_dir {
            Some(d) => Some(d@),
            None => None,
        },
        verb@,
        file@,
    ));
    r
}

/// `--data-dir <dir>` when a data directory is given, then `export --format
/// <flag> <tmp_file>`.
pub open spec fn export_args_spec(data_dir: Option<Seq<char>>, flag: Seq<char>, tmp_file: Seq<char>) -> Seq<
    Seq<char>,
> {
    let head: Seq<Seq<char>> = match data_dir {
        Some(d) => seq!["--data-dir"@, d],
        None => seq![],
    };
    head + seq!["export"@, "--format"@, flag, tmp_file]
}

/// Arguments for `vestige export`:
/// `[--data-dir <dir>] export --format <flag> <tmp_file>`.
pub fn export_command_args(data_dir: Option<&str>, format: ExportFormat, tmp_file: &str) -> (r: Vec<
    String,
>)
    ensures
        strings_view(r@) == export_args_spec(
            match data_dir {
                Some(d) => Some(d@),
                None => None,
            },
            format_extension(format),
            tmp_file@,
        ),
{
    let mut r: Vec<String> = Vec::new();
    match data_dir {
        Some(d) => {
            r.push("--data-dir".to_string());
            r.push(d.to_string());
        },
        None => {},
    }
    r.push("export".to_string());
    r.push("--format".to_string());
    r.push(format.vestige_flag().to_string());
    r.push(tmp_file.to_string());
    assert(strings_view(r@) =~= export_args_spec(
        match data_dir {
            Some(d) => Some(d@),
            None => None,
        },
        format_extension(format),
        tmp_file@,
    ));
    r
}

/// Where an export cycle stands.
#[derive(Clone, Copy, Debug, PartialEq, Eq)]
pub enum ExportPhase {
    /// `vestige export` is running.
    Exporting,
    /// Checking that the temporary file exists.
    CheckingOutput,
    /// Restricting the temporary file's permissions.
    Restricting,
    /// Reading the existing export file.
    ReadingExisting,
    /// Reading the temporary file, to compare.
    ReadingNew,
    /// Removing the temporary file (the content is unchanged).
    Discarding,
    /// Renaming the temporary file over the export file.
    Replacing,
    /// The cycle is over.
    Finished,
}

/// How a read of the existing export file went.
#[derive(Debug)]
pub enum ExistingFile {
    Contents(Vec<u8>),
    NotFound,
    Failed,
}

/// What the outside world reports back to an export cycle.
#[derive(Debug)]
pub enum ExportEvent {
    /// The export command ended; `stderr` is what it wrote there.
    CommandFinished { success: bool, stderr: Vec<u8> },
    /// Whether the temporary file exists.
    OutputChecked { exists: bool },
    /// Whether restricting the permissions worked.
    PermissionsRestricted { ok: bool },
    /// The existing export file was read (or not).
    ExistingRead(ExistingFile),
    /// The temporary file was read (`None`: the read failed).
    NewRead(Option<Vec<u8>>),
    /// Whether removing the temporary file worked.
    TmpRemoved { ok: bool },
    /// Whether renaming the temporary file worked.
    TmpRenamed { ok: bool },
}

/// How an export cycle ended.
#[derive(Debug)]
pub enum ExportOutcome {
    /// The new export equals the existing file; the temporary file was removed.
    Unchanged,
    /// The export file was created or replaced.
    Updated,
    /// The export command failed; this is what it wrote to stderr.
    CommandFailed { stderr: Vec<u8> },
    /// The export command did not create its output file.
    MissingOutput,
    /// A file operation failed (the error is the one the outside world saw).
    IoFailed,
    /// An event came that the current phase does not wait for.
    Unexpected,
}

/// What the outside world is asked to do next.
#[derive(Debug)]
pub enum ExportAction {
    CheckOutput,
    RestrictPermissions,
    ReadExisting,
    ReadNew,
    RemoveTmp,
    RenameTmp,
    Finish(ExportOutcome),
}

/// An export cycle in progress.
pub struct ExportRun {
    export_file: String,
    tmp_file: String,
    phase: ExportPhase,
    existing: Vec<u8>,
}

/// Abstract form of an action, for contracts.
pub enum ExportStep {
    CheckOutput,
    RestrictPermissions,
    ReadExisting,
    ReadNew,
    RemoveTmp,
    RenameTmp,
    Unchanged,
    Updated,
    CommandFailed(Seq<u8>),
    MissingOutput,
    IoFailed,
    Unexpected,
}

pub open spec fn action_step(a: ExportAction) -> ExportStep {
    match a {
        ExportAction::CheckOutput => ExportStep::CheckOutput,
        ExportAction::RestrictPermissions => ExportStep::RestrictPermissions,
        ExportAction::ReadExisting => ExportStep::ReadExisting,
        ExportAction::ReadNew => ExportStep::ReadNew,
        ExportAction::RemoveTmp => ExportStep::RemoveTmp,
        ExportAction::RenameTmp => ExportStep::RenameTmp,
        ExportAction::Finish(o) => match o {
            ExportOutcome::Unchanged => ExportStep::Unchanged,
            ExportOutcome::Updated => ExportStep::Updated,
            ExportOutcome::CommandFailed { stderr } => ExportStep::CommandFailed(stderr@),
            ExportOutcome::MissingOutput => ExportStep::MissingOutput,
            ExportOutcome::IoFailed => ExportStep::IoFailed,
            ExportOutcome::Unexpected => ExportStep::Unexpected,
        },
    }
}

/// The transition of an export cycle: from its phase and the bytes of the
/// existing export file read so far, on an event, to the next phase, the
/// existing bytes kept, and the step asked for.
pub open spec fn export_next(phase: ExportPhase, existing: Seq<u8>, event: ExportEvent) -> (
    ExportPhase,
    Seq<u8>,
    ExportStep,
) {
    match (phase, event) {
        (ExportPhase::Exporting, ExportEvent::CommandFinished { success, stderr }) => if success {
            (ExportPhase::CheckingOutput, existing, ExportStep::CheckOutput)
        } else {
            (ExportPhase::Finished, existing, ExportStep::CommandFailed(stderr@))
        },
        (ExportPhase::CheckingOutput, ExportEvent::OutputChecked { exists }) => if exists {
            (ExportPhase::Restricting, existing, ExportStep::RestrictPermissions)
        } else {
            (ExportPhase::Finished, existing, ExportStep::MissingOutput)
        },
        (ExportPhase::Restricting, ExportEvent::PermissionsRestricted { ok }) => if ok {
            (ExportPhase::ReadingExisting, existing, ExportStep::ReadExisting)
        } else {
            (ExportPhase::Finished, existing, ExportStep::IoFailed)
        },
        (ExportPhase::ReadingExisting, ExportEvent::ExistingRead(read)) => match read {
            ExistingFile::Contents(bytes) => (
                ExportPhase::ReadingNew,
                bytes@,
                ExportStep::ReadNew,
            ),
            ExistingFile::NotFound => (ExportPhase::Replacing, existing, ExportStep::RenameTmp),
            ExistingFile::Failed => (ExportPhase::Finished, existing, ExportStep::IoFailed),
        },
        (ExportPhase::ReadingNew, ExportEvent::NewRead(read)) => match read {
            Some(bytes) => if bytes@ == existing {
                (ExportPhase::Discarding, existing, ExportStep::RemoveTmp)
            } else {
                (ExportPhase::Replacing, existing, ExportStep::RenameTmp)
            },
            None => (ExportPhase::Finished, existing, ExportStep::IoFailed),
        },
        (ExportPhase::Discarding, ExportEvent::TmpRemoved { ok }) => if ok {
            (ExportPhase::Finished, existing, ExportStep::Unchanged)
        } else {
            (ExportPhase::Finished, existing, ExportStep::IoFailed)
        },
        (ExportPhase::Replacing, ExportEvent::TmpRenamed { ok }) => if ok {
            (ExportPhase::Finished, existing, ExportStep::Updated)
        } else {
            (ExportPhase::Finished, existing, ExportStep::IoFailed)
        },
        _ => (ExportPhase::Finished, existing, ExportStep::Unexpected),
    }
}

fn bytes_eq(a: &[u8], b: &[u8]) -> (r: bool)
    ensures
        r == (a@ == b@),
{
    if a.len() != b.len() {
        return false;
    }
    let mut i: usize = 0;
    while i < a.len()
        invariant
            a.len() == b.len(),
            i <= a.len(),
            forall|k: int| 0 <= k < i ==> a@[k] == b@[k],
        decreases a.len() - i,
    {
        if a[i] != b[i] {
            return false;
        }
        i = i + 1;
    }
    assert(a@ =~= b@);
    true
}

impl ExportRun {
    pub closed spec fn phase(&self) -> ExportPhase {
        self.phase
    }

    pub closed spec fn existing(&self) -> Seq<u8> {
        self.existing@
    }

    pub closed spec fn export_file_view(&self) -> Seq<char> {
        self.export_file@
    }

    pub closed spec fn tmp_file_view(&self) -> Seq<char> {
        self.tmp_file@
    }

    /// The export file this cycle writes.
    pub fn export_file(&self) -> (r: &str)
        ensures
            r@ == self.export_file_view(),
    {
        self.export_file.as_str()
    }

    /// The temporary file this cycle writes first.
    pub fn tmp_file(&self) -> (r: &str)
        ensures
            r@ == self.tmp_file_view(),
    {
        self.tmp_file.as_str()
    }

    /// Begin a cycle that exports in `format` to `export_file`: the run, and
    /// the arguments of the `vestige export` command to start.  The export is
    /// first written to the dotfile next to `export_file`.
    pub fn start(export_file: &str, format: ExportFormat, data_dir: Option<&str>) -> (r: (
        ExportRun,
        Vec<String>,
    ))
        ensures
            r.0.export_file_view() == export_file@,
            r.0.tmp_file_view() == tmp_path_spec(export_file@),
            r.0.phase() == ExportPhase::Exporting,
            r.0.existing() == Seq::<u8>::empty(),
            strings_view(r.1@) == export_args_spec(
                match data_dir {
                    Some(d) => Some(d@),
                    None => None,
                },
                format_extension(format),
                tmp_path_spec(export_file@),
            ),
    {
        let tmp_file = ExportFormat::tmp_path(export_file);
        let args = export_command_args(data_dir, format, tmp_file.as_str());
        let run = ExportRun {
            export_file: export_file.to_string(),
            tmp_file,
            phase: ExportPhase::Exporting,
            existing: Vec::new(),
        };
        (run, args)
    }

    /// Whether the cycle is over.
    pub fn is_finished(&self) -> (r: bool)
        ensures
            r == (self.phase() == ExportPhase::Finished),
    {
        match self.phase {
            ExportPhase::Finished => true,
            _ => false,
        }
    }

    /// Take in what the outside world reports and say what to do next.
    pub fn step(&mut self, event: ExportEvent) -> (action: ExportAction)
        ensures
            ({
                let (p, e, a) = export_next(old(self).phase(), old(self).existing(), event);
                &&& final(self).phase() == p
                &&& final(self).existing() == e
                &&& action_step(action) == a
            }),
            final(self).export_file_view() == old(self).export_file_view(),
            final(self).tmp_file_view() == old(self).tmp_file_view(),
    {
        match (self.phase, event) {
            (ExportPhase::Exporting, ExportEvent::CommandFinished { success, stderr }) => {
                if success {
                    self.phase = ExportPhase::CheckingOutput;
                    ExportAction::CheckOutput
                } else {
                    self.phase = ExportPhase::Finished;
                    ExportAction::Finish(ExportOutcome::CommandFailed { stderr })
                }
            },
            (ExportPhase::CheckingOutput, ExportEvent::OutputChecked { exists }) => {
                if exists {
                    self.phase = ExportPhase::Restricting;
                    ExportAction::RestrictPermissions
                } else {
                    self.phase = ExportPhase::Finished;
                    ExportAction::Finish(ExportOutcome::MissingOutput)
                }
            },
            (ExportPhase::Restricting, ExportEvent::PermissionsRestricted { ok }) => {
                if ok {
                    self.phase = ExportPhase::ReadingExisting;
                    ExportAction::ReadExisting
                } else {
                    self.phase = ExportPhase::Finished;
                    ExportAction::Finish(ExportOutcome::IoFailed)
                }
            },
            (ExportPhase::ReadingExisting, ExportEvent::ExistingRead(read)) => match read {
                ExistingFile::Contents(bytes) => {
                    self.existing = bytes;
                    self.phase = ExportPhase::ReadingNew;
                    ExportAction::ReadNew
                },
                ExistingFile::NotFound => {
                    self.phase = ExportPhase::Replacing;
                    ExportAction::RenameTmp
                },
                ExistingFile::Failed => {
                    self.phase = ExportPhase::Finished;
                    ExportAction::Finish(ExportOutcome::IoFailed)
                },
            },
            (ExportPhase::ReadingNew, ExportEvent::NewRead(read)) => match read {
                Some(bytes) => {
                    if bytes_eq(bytes.as_slice(), self.existing.as_slice()) {
                        self.phase = ExportPhase::Discarding;
                        ExportAction::RemoveTmp
                    } else {
                        self.phase = ExportPhase::Replacing;
                        ExportAction::RenameTmp
                    }
                },
                None => {
                    self.phase = ExportPhase::Finished;
                    ExportAction::Finish(ExportOutcome::IoFailed)
                },
            },
            (ExportPhase::Discarding, ExportEvent::TmpRemoved { ok }) => {
                self.phase = ExportPhase::Finished;
                if ok {
                    ExportAction::Finish(ExportOutcome::Unchanged)
                } else {
                    ExportAction::Finish(ExportOutcome::IoFailed)
                }
            },
            (ExportPhase::Replacing, ExportEvent::TmpRenamed { ok }) => {
                self.phase = ExportPhase::Finished;
                if ok {
                    ExportAction::Finish(ExportOutcome::Updated)
                } else {
                    ExportAction::Finish(ExportOutcome::IoFailed)
                }
            },
            _ => {
                self.phase = ExportPhase::Finished;
                ExportAction::Finish(ExportOutcome::Unexpected)
            },
        }
    }
}

// ---------------------------------------------------------------------------
// Laws
// ---------------------------------------------------------------------------

/// An export whose bytes equal the existing export file is discarded: the
/// export file (and its modification time) is left alone, so an unchanged
/// memory store causes no file-sync traffic.
pub proof fn law_identical_export_discarded(existing: Seq<u8>, new: Vec<u8>)
    requires
        new@ == existing,
    ensures
        export_next(ExportPhase::ReadingNew, existing, ExportEvent::NewRead(Some(new))) == (
            ExportPhase::Discarding,
            existing,
            ExportStep::RemoveTmp,
        ),
{
}

/// The export file is replaced only when it does not exist yet or when the
/// new export differs from it byte for byte.
pub proof fn law_replace_only_on_change(phase: ExportPhase, existing: Seq<u8>, event: ExportEvent)
    requires
        export_next(phase, existing, event).2 is RenameTmp,
    ensures
        phase == ExportPhase::ReadingExisting || phase == ExportPhase::ReadingNew,
        phase == ExportPhase::ReadingExisting ==> (event matches ExportEvent::ExistingRead(
            ExistingFile::NotFound,
        )),
        phase == ExportPhase::ReadingNew ==> (event matches ExportEvent::NewRead(Some(b)) && b@
            != existing),
{
}

/// A cycle that has finished stays finished: every further event is
/// unexpected and asks for nothing to be done.
pub proof fn law_finished_is_final(existing: Seq<u8>, event: ExportEvent)
    ensures
        export_next(ExportPhase::Finished, existing, event) == (
            ExportPhase::Finished,
            existing,
            ExportStep::Unexpected,
        ),
{
}

/// An export whose bytes differ in any way from the existing export file
/// (same length or not) replaces it: the cycle asks for the temporary file to
/// be renamed over the export file and, once renamed, reports the file
/// updated.  With `law_identical_export_discarded`, the temporary file is
/// discarded exactly when the bytes are equal.
pub proof fn law_changed_export_replaces(existing: Seq<u8>, new: Vec<u8>)
    requires
        new@ != existing,
    ensures
        export_next(ExportPhase::ReadingNew, existing, ExportEvent::NewRead(Some(new))).0
            == ExportPhase::Replacing,
        export_next(ExportPhase::ReadingNew, existing, ExportEvent::NewRead(Some(new))).2
            is RenameTmp,
        export_next(ExportPhase::Replacing, existing, ExportEvent::TmpRenamed { ok: true }).2
            is Updated,
        !(export_next(ExportPhase::ReadingNew, existing, ExportEvent::NewRead(Some(new))).2
            is RemoveTmp),
{
}

} // verus!
