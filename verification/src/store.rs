//! What is kept on disk, and how it survives a crash.
//!
//! Four files, all in one directory:
//!
//! - `identity.json`: the permanent machine ID and secret key. Written once.
//! - `workspace.json`: the synchronized workspace document.
//! - `peer-hints.json`: last-known addresses, a pure cache.
//! - `local-prefs.json`: choices that belong to this computer alone.
//!
//! The hints file is separate on purpose. Addresses are runtime metadata that
//! change on every DHCP lease, so they must not ride along inside the
//! synchronized document and cause a configuration revision on every reconnect.
//! Losing the hints file costs nothing; discovery finds the peers again.
//!
//! Writes go through a temp file and a rename, and the previous copy is kept as
//! `.bak`. A machine that loses power mid-write must come back up with the old
//! workspace, not with no workspace: a truncated file that fails to parse would
//! otherwise look exactly like a first launch, which is the reset that must never
//! happen.

use std::collections::BTreeMap;

use vstd::prelude::*;

use crate::addr::Endpoint;
use crate::error::{Error, Result};
use crate::identity;
use crate::identity::Identity;
use crate::ids;
use crate::ids::MachineId;
use crate::model::WorkspaceDoc;
use crate::text;

verus! {

pub const IDENTITY_FILE: &'static str = "identity.json";

pub const WORKSPACE_FILE: &'static str = "workspace.json";

pub const HINTS_FILE: &'static str = "peer-hints.json";

pub const PREFS_FILE: &'static str = "local-prefs.json";

/// The variable of the environment that overrides the platform's configuration
/// directory.
///
/// Tests use it, and so does running two agents side by side on one box during
/// development.
pub const CONFIG_DIR_ENV: &'static str = "INPUTSHARE_CONFIG_DIR";

/// Where a peer was last reachable. A hint, never a source of truth: discovery
/// works from scratch when every address has changed.
#[derive(Debug)]
pub struct PeerHint {
    pub addrs: Vec<Endpoint>,
    pub hostname: Option<String>,
    pub last_seen_ms: u64,
}

#[derive(Debug)]
pub struct PeerHints {
    pub peers: BTreeMap<MachineId, PeerHint>,
}

impl Default for PeerHints {
    fn default() -> (r: Self)
        ensures
            r.peers@ == Map::<MachineId, PeerHint>::empty(),
    {
        PeerHints { peers: BTreeMap::new() }
    }
}

/// Choices that belong to this computer and travel with nothing.
///
/// Deliberately *not* part of the workspace document. The document is
/// synchronized, so putting "share this keyboard and mouse" in it would mean
/// that switching sharing on here switches it on everywhere, which is the
/// opposite of what the switch says. Whether a given computer hands over its own
/// keyboard is that computer's business.
#[derive(Clone, Copy, Debug, PartialEq, Eq, Structural)]
pub struct LocalPrefs {
    /// Whether keyboard and mouse sharing was on when this machine was last
    /// used, so a restart resumes it instead of quietly dropping it.
    pub sharing: bool,
}

impl Default for LocalPrefs {
    fn default() -> (r: Self)
        ensures
            r == (LocalPrefs { sharing: false }),
    {
        LocalPrefs { sharing: false }
    }
}

/// The preferences to write so that the sharing switch is remembered; `None` where
/// they say so already.
pub open spec fn to_remember(prefs: LocalPrefs, enabled: bool) -> Option<LocalPrefs> {
    if prefs.sharing == enabled {
        None
    } else {
        Some(LocalPrefs { sharing: enabled })
    }
}

impl LocalPrefs {
    /// The preferences to write so that the sharing switch is remembered; `None`
    /// where they say so already.
    pub fn remember_sharing(self, enabled: bool) -> (r: Option<LocalPrefs>)
        ensures
            r == to_remember(self, enabled),
    {
        if self.sharing == enabled {
            None
        } else {
            Some(LocalPrefs { sharing: enabled })
        }
    }
}

/// Everything needed to restore a machine into its workspace.
///
/// Contains the machine's secret key, so a backup is as sensitive as the config
/// directory itself.
pub struct Backup {
    pub identity: Identity,
    pub workspace: Option<WorkspaceDoc>,
}

/// A file of the configuration.
#[derive(Clone, Copy, Debug, PartialEq, Eq, Structural)]
pub enum ConfigFile {
    Identity,
    Workspace,
    Hints,
    Prefs,
}

impl ConfigFile {
    /// The name of the file.
    pub open spec fn name(self) -> Seq<char> {
        match self {
            ConfigFile::Identity => IDENTITY_FILE@,
            ConfigFile::Workspace => WORKSPACE_FILE@,
            ConfigFile::Hints => HINTS_FILE@,
            ConfigFile::Prefs => PREFS_FILE@,
        }
    }

    /// The name of the file.
    pub fn file_name(self) -> (r: &'static str)
        ensures
            r@ == self.name(),
    {
        match self {
            ConfigFile::Identity => IDENTITY_FILE,
            ConfigFile::Workspace => WORKSPACE_FILE,
            ConfigFile::Hints => HINTS_FILE,
            ConfigFile::Prefs => PREFS_FILE,
        }
    }

    /// Whether the file is narrowed to its owner once it is written.
    pub fn is_secret(self) -> (r: bool)
        ensures
            r == (self == ConfigFile::Identity),
    {
        match self {
            ConfigFile::Identity => true,
            _ => false,
        }
    }
}

/// One of the copies of a file.
#[derive(Clone, Copy, Debug, PartialEq, Eq, Structural)]
pub enum FileCopy {
    Primary,
    /// The previous copy.
    Backup,
    /// A copy being written.
    Temp,
}

/// The name of a copy of the file `name`.
pub open spec fn copy_name(name: Seq<char>, copy: FileCopy) -> Seq<char> {
    match copy {
        FileCopy::Primary => name,
        FileCopy::Backup => name + ".bak"@,
        FileCopy::Temp => name + ".tmp"@,
    }
}

/// The name of a copy of a file.
pub fn name_of(file: ConfigFile, copy: FileCopy) -> (r: String)
    ensures
        r@ == copy_name(file.name(), copy),
{
    match copy {
        FileCopy::Primary => String::from_str(file.file_name()),
        FileCopy::Backup => text::joined(file.file_name(), ".bak"),
        FileCopy::Temp => text::joined(file.file_name(), ".tmp"),
    }
}

/// Who names the directory that holds the configuration.
#[derive(Clone, Copy, Debug, PartialEq, Eq, Structural)]
pub enum DirSource {
    Environment,
    Platform,
}

/// Who names the directory that holds the configuration: the environment, unless it
/// names none or an empty one, and the platform otherwise.
pub fn dir_source(env: Option<&str>, platform: bool) -> (r: Result<DirSource>)
    ensures
        r == (match env {
            Some(dir) if dir@.len() > 0 => Ok::<DirSource, Error>(DirSource::Environment),
            _ => if platform {
                Ok::<DirSource, Error>(DirSource::Platform)
            } else {
                Err::<DirSource, Error>(Error::NoConfigDir)
            },
        }),
{
    if let Some(dir) = env {
        if dir.unicode_len() > 0 {
            return Ok(DirSource::Environment);
        }
    }
    if platform {
        Ok(DirSource::Platform)
    } else {
        Err(Error::NoConfigDir)
    }
}

/// The directory that holds the configuration, given what the environment and the
/// platform say: the one that the environment names, unless that is empty, and
/// the platform's otherwise.
pub fn config_dir(env: Option<String>, platform: Option<String>) -> (r: Result<String>)
    ensures
        match env {
            Some(dir) if dir@.len() > 0 => r == Ok::<String, Error>(dir),
            _ => match platform {
                Some(dir) => r == Ok::<String, Error>(dir),
                None => r == Err::<String, Error>(Error::NoConfigDir),
            },
        },
{
    let named = match &env {
        Some(dir) => Some(dir.as_str()),
        None => None,
    };
    match dir_source(named, platform.is_some()) {
        Ok(DirSource::Environment) => match env {
            Some(dir) => Ok(dir),
            None => Err(Error::NoConfigDir),
        },
        Ok(DirSource::Platform) => match platform {
            Some(dir) => Ok(dir),
            None => Err(Error::NoConfigDir),
        },
        Err(e) => Err(e),
    }
}

/// How what reading the identity gave and the answer to loading it relate: the one
/// that was read, with nothing to write, or a new one that has to be written.
pub open spec fn identifies(
    read: Result<Option<Identity>>,
    r: Result<(Identity, Option<WriteJob>)>,
) -> bool {
    match read {
        Ok(Some(identity)) => r == Ok::<(Identity, Option<WriteJob>), Error>((identity, None)),
        Ok(None) => {
            &&& r is Ok
            &&& r->Ok_0.0.secret().len() == 32
            &&& ids::is_minted(r->Ok_0.0.machine_id)
            &&& r->Ok_0.1 == Some(writing(ConfigFile::Identity))
        },
        Err(e) => r == Err::<(Identity, Option<WriteJob>), Error>(e),
    }
}

/// The workspace that was read, unless its layout is newer than this build knows.
pub open spec fn understood(read: Result<Option<WorkspaceDoc>>) -> Result<Option<WorkspaceDoc>> {
    match read {
        Ok(Some(doc)) if doc.schema_version > WorkspaceDoc::SCHEMA_VERSION => Err(
            Error::SchemaVersion {
                found: doc.schema_version,
                supported: WorkspaceDoc::SCHEMA_VERSION,
            },
        ),
        _ => read,
    }
}

/// The preferences that were read, the defaults where none were.
pub open spec fn preferred(read: Result<Option<LocalPrefs>>) -> LocalPrefs {
    match read {
        Ok(Some(prefs)) => prefs,
        _ => LocalPrefs { sharing: false },
    }
}

/// How an identity, a workspace and the copy made of them relate.
pub open spec fn exports(
    identity: Result<Identity>,
    workspace: Result<Option<WorkspaceDoc>>,
    r: Result<Backup>,
) -> bool {
    match identity {
        Err(e) => r == Err::<Backup, Error>(e),
        Ok(identity) => match workspace {
            Err(e) => r == Err::<Backup, Error>(e),
            Ok(workspace) => r == Ok::<Backup, Error>(Backup { identity, workspace }),
        },
    }
}

/// How what reading a backup gave, and the answer to restoring it, relate.
pub open spec fn imports(
    path: String,
    read: Result<Option<Backup>>,
    r: Result<(Backup, Vec<WriteJob>)>,
) -> bool {
    match read {
        Ok(Some(backup)) => {
            &&& r is Ok
            &&& r->Ok_0.0 == backup
            &&& r->Ok_0.1@ =~= (if backup.workspace is Some {
                seq![writing(ConfigFile::Identity), writing(ConfigFile::Workspace)]
            } else {
                seq![writing(ConfigFile::Identity)]
            })
        },
        Ok(None) => {
            &&& r is Err
            &&& r->Err_0 is Io
            &&& r->Err_0->Io_path == path
            &&& r->Err_0->Io_source@ == "backup file not found"@
        },
        Err(e) => r == Err::<(Backup, Vec<WriteJob>), Error>(e),
    }
}

/// The names of the files that hold the workspace.
pub open spec fn workspace_copies() -> Seq<Seq<char>> {
    seq![
        copy_name(ConfigFile::Workspace.name(), FileCopy::Primary),
        copy_name(ConfigFile::Workspace.name(), FileCopy::Backup),
        copy_name(ConfigFile::Workspace.name(), FileCopy::Temp),
    ]
}

/// The config directory.
#[derive(Debug)]
pub struct Store {
    pub dir: String,
}

impl Store {
    /// The store in the directory that the environment or the platform names.
    pub fn open(env: Option<String>, platform: Option<String>) -> (r: Result<Self>)
        ensures
            match env {
                Some(dir) if dir@.len() > 0 => r == Ok::<Store, Error>(Store { dir }),
                _ => match platform {
                    Some(dir) => r == Ok::<Store, Error>(Store { dir }),
                    None => r == Err::<Store, Error>(Error::NoConfigDir),
                },
            },
    {
        match config_dir(env, platform) {
            Ok(dir) => Ok(Self::at(dir)),
            Err(e) => Err(e),
        }
    }

    pub fn at(dir: String) -> (r: Self)
        ensures
            r == (Store { dir }),
    {
        Store { dir }
    }

    pub fn dir(&self) -> (r: &str)
        ensures
            r@ == self.dir@,
    {
        self.dir.as_str()
    }

    /// This machine's identity, minting one on first launch, and the write that has
    /// to follow then. `read` is what reading the file gave.
    ///
    /// An existing file is never overwritten. Regenerating the identity would
    /// change the machine ID, and every peer would see a stranger instead of the
    /// machine they paired with.
    pub fn load_or_create_identity(&self, read: Result<Option<Identity>>) -> (r: Result<
        (Identity, Option<WriteJob>),
    >)
        ensures
            identifies(read, r),
    {
        match read {
            Ok(Some(identity)) => Ok((identity, None)),
            Ok(None) => Ok((Identity::generate(), Some(WriteJob::start(ConfigFile::Identity)))),
            Err(e) => Err(e),
        }
    }

    /// The stored workspace, or `None` if this machine has not joined one. `read`
    /// is what reading the file gave.
    ///
    /// A newer layout is refused rather than parsed with the fields that this
    /// build does not know about silently dropped, which would then propagate the
    /// loss to every peer on the next merge.
    pub fn load_workspace(&self, read: Result<Option<WorkspaceDoc>>) -> (r: Result<
        Option<WorkspaceDoc>,
    >)
        ensures
            r == understood(read),
    {
        if let Ok(Some(doc)) = &read {
            if doc.schema_version > WorkspaceDoc::SCHEMA_VERSION {
                return Err(
                    Error::SchemaVersion {
                        found: doc.schema_version,
                        supported: WorkspaceDoc::SCHEMA_VERSION,
                    },
                );
            }
        }
        read
    }

    /// This computer's own choices. A missing or unreadable file is not an
    /// error: preferences are a convenience, and refusing to start because one
    /// could not be read would be worse than starting with the defaults.
    pub fn load_prefs(&self, read: Result<Option<LocalPrefs>>) -> (r: LocalPrefs)
        ensures
            r == preferred(read),
    {
        match read {
            Ok(Some(prefs)) => prefs,
            _ => LocalPrefs { sharing: false },
        }
    }

    /// The write that saves the workspace.
    pub fn save_workspace(&self) -> (r: WriteJob)
        ensures
            r == writing(ConfigFile::Workspace),
    {
        WriteJob::start(ConfigFile::Workspace)
    }

    /// The write that saves the preferences.
    pub fn save_prefs(&self) -> (r: WriteJob)
        ensures
            r == writing(ConfigFile::Prefs),
    {
        WriteJob::start(ConfigFile::Prefs)
    }

    /// The write that saves the hints.
    pub fn save_hints(&self) -> (r: WriteJob)
        ensures
            r == writing(ConfigFile::Hints),
    {
        WriteJob::start(ConfigFile::Hints)
    }

    /// The hints, none where there is no file.
    pub fn load_hints(&self, read: Result<Option<PeerHints>>) -> (r: Result<PeerHints>)
        ensures
            match read {
                Ok(Some(hints)) => r == Ok::<PeerHints, Error>(hints),
                Ok(None) => r is Ok && r->Ok_0.peers@ == Map::<MachineId, PeerHint>::empty(),
                Err(e) => r == Err::<PeerHints, Error>(e),
            },
    {
        match read {
            Ok(Some(hints)) => Ok(hints),
            Ok(None) => Ok(PeerHints::default()),
            Err(e) => Err(e),
        }
    }

    /// The files that are removed to forget the workspace, keeping this machine's
    /// identity.
    ///
    /// Used when a machine gives up its own workspace to join somebody else's,
    /// the one case where losing the local configuration is the point. The
    /// backup copy goes too, or the next start would quietly restore what the
    /// user just chose to abandon.
    pub fn clear_workspace(&self) -> (r: Vec<String>)
        ensures
            crate::model::texts_view(r@) == workspace_copies(),
    {
        let mut out: Vec<String> = Vec::new();
        out.push(name_of(ConfigFile::Workspace, FileCopy::Primary));
        out.push(name_of(ConfigFile::Workspace, FileCopy::Backup));
        out.push(name_of(ConfigFile::Workspace, FileCopy::Temp));
        assert(crate::model::texts_view(out@) =~= seq![
            copy_name(ConfigFile::Workspace.name(), FileCopy::Primary),
            copy_name(ConfigFile::Workspace.name(), FileCopy::Backup),
            copy_name(ConfigFile::Workspace.name(), FileCopy::Temp),
        ]);
        out
    }

    /// A portable copy of identity and workspace.
    pub fn export_backup(
        &self,
        identity: Result<Identity>,
        workspace: Result<Option<WorkspaceDoc>>,
    ) -> (r: Result<Backup>)
        ensures
            exports(identity, workspace, r),
    {
        match identity {
            Err(e) => Err(e),
            Ok(identity) => match workspace {
                Err(e) => Err(e),
                Ok(workspace) => Ok(Backup { identity, workspace }),
            },
        }
    }

    /// The backup at `path` that is to be restored over this machine's
    /// configuration, and the writes that do it, in order.
    ///
    /// This adopts the backup's machine ID and key, so the machine resumes the
    /// identity it had before a reinstall. Destructive by design: the caller is
    /// expected to have asked the user first.
    pub fn import_backup(&self, path: String, read: Result<Option<Backup>>) -> (r: Result<
        (Backup, Vec<WriteJob>),
    >)
        ensures
            imports(path, read, r),
    {
        match read {
            Ok(Some(backup)) => {
                let mut jobs: Vec<WriteJob> = Vec::new();
                jobs.push(WriteJob::start(ConfigFile::Identity));
                if backup.workspace.is_some() {
                    jobs.push(WriteJob::start(ConfigFile::Workspace));
                }
                Ok((backup, jobs))
            },
            Ok(None) => Err(Error::Io { path, source: String::from_str("backup file not found") }),
            Err(e) => Err(e),
        }
    }
}

/// What came of reading a file and parsing it.
#[derive(Debug)]
pub enum ReadOutcome<T> {
    Value(T),
    /// The file was read, and its content did not parse.
    Malformed(String),
    /// There is no such file.
    Missing,
    Failed(String),
}

/// What the file at `path` holds, given what came of reading it.
pub open spec fn outcome_as<T>(path: String, outcome: ReadOutcome<T>) -> core::result::Result<
    Option<T>,
    Error,
> {
    match outcome {
        ReadOutcome::Value(value) => Ok(Some(value)),
        ReadOutcome::Malformed(source) => Err(Error::Parse { path, source }),
        ReadOutcome::Missing => Ok(None),
        ReadOutcome::Failed(source) => Err(Error::Io { path, source }),
    }
}

/// What the file at `path` holds: nothing where there is no such file.
pub fn read_json<T>(path: String, outcome: ReadOutcome<T>) -> (r: core::result::Result<
    Option<T>,
    Error,
>)
    ensures
        r == outcome_as(path, outcome),
{
    match outcome {
        ReadOutcome::Value(value) => Ok(Some(value)),
        ReadOutcome::Malformed(source) => Err(Error::Parse { path, source }),
        ReadOutcome::Missing => Ok(None),
        ReadOutcome::Failed(source) => Err(Error::Io { path, source }),
    }
}

/// What came of removing a file.
#[derive(Debug)]
pub enum Removal {
    Removed,
    /// There was no such file.
    Missing,
    Failed(String),
}

/// Whether the file at `path` is gone now; that it was gone already is fine.
pub fn settle_removal(path: String, removal: Removal) -> (r: Result<()>)
    ensures
        r == (match removal {
            Removal::Failed(source) => Err::<(), Error>(Error::Io { path, source }),
            _ => Ok::<(), Error>(()),
        }),
{
    match removal {
        Removal::Failed(source) => Err(Error::Io { path, source }),
        _ => Ok(()),
    }
}

/// The name under which a copy of a workspace that is given up at `now` is kept.
pub open spec fn rescued_as(now: u64) -> Seq<char> {
    "workspace-replaced-"@ + text::decimal(now as nat) + ".json"@
}

/// The name under which a copy of a workspace that is given up at `now` is kept.
pub fn rescue_name(now: u64) -> (r: String)
    ensures
        r@ == rescued_as(now),
{
    let mut out = text::joined("workspace-replaced-", text::decimal_text(now).as_str());
    out.append(".json");
    out
}

/// What a file holds, given what reading it and reading its backup gave: the backup
/// if the file is unreadable and the backup is not. A file that is missing is not
/// unreadable.
pub open spec fn recovered<T>(
    primary: core::result::Result<Option<T>, Error>,
    backup: core::result::Result<Option<T>, Error>,
) -> core::result::Result<Option<T>, Error> {
    match primary {
        Ok(value) => Ok(value),
        Err(e) => match backup {
            Ok(Some(value)) => Ok(Some(value)),
            _ => Err(e),
        },
    }
}

/// What a file holds, falling back to the `.bak` copy if the primary file is
/// unreadable.
pub fn read_with_fallback<T>(
    primary: core::result::Result<Option<T>, Error>,
    backup: core::result::Result<Option<T>, Error>,
) -> (r: core::result::Result<Option<T>, Error>)
    ensures
        r == recovered(primary, backup),
{
    match primary {
        Ok(value) => Ok(value),
        Err(e) => match backup {
            Ok(Some(value)) => Ok(Some(value)),
            _ => Err(e),
        },
    }
}

/// A step of writing a file: temp file, fsync, keep a `.bak`, then rename into
/// place.
#[derive(Clone, Copy, Debug, PartialEq, Eq, Structural)]
pub enum WriteStep {
    /// Create the temp file.
    Create,
    /// Write the content to it.
    Write,
    /// Make sure that it is on the disk.
    Sync,
    /// Copy the file to its backup.
    Keep,
    /// Rename the temp file over the file.
    Rename,
    Done,
}

/// A file being written.
#[derive(Clone, Copy, Debug, PartialEq, Eq, Structural)]
pub struct WriteJob {
    pub file: ConfigFile,
    pub step: WriteStep,
}

/// The write of a file, about to begin.
pub open spec fn writing(file: ConfigFile) -> WriteJob {
    WriteJob { file, step: WriteStep::Create }
}

/// The step after one that succeeded. `exists` is whether there is a file to keep.
pub open spec fn step_after(step: WriteStep, exists: bool) -> WriteStep {
    match step {
        WriteStep::Create => WriteStep::Write,
        WriteStep::Write => WriteStep::Sync,
        WriteStep::Sync => if exists {
            WriteStep::Keep
        } else {
            WriteStep::Rename
        },
        WriteStep::Keep => WriteStep::Rename,
        WriteStep::Rename => WriteStep::Done,
        WriteStep::Done => WriteStep::Done,
    }
}

/// The copy that a step works on, and that its failure is reported for.
pub open spec fn step_target(step: WriteStep) -> FileCopy {
    match step {
        WriteStep::Create => FileCopy::Temp,
        WriteStep::Write => FileCopy::Temp,
        WriteStep::Sync => FileCopy::Temp,
        WriteStep::Keep => FileCopy::Backup,
        WriteStep::Rename => FileCopy::Primary,
        WriteStep::Done => FileCopy::Primary,
    }
}

impl WriteJob {
    pub fn start(file: ConfigFile) -> (r: Self)
        ensures
            r == writing(file),
    {
        WriteJob { file, step: WriteStep::Create }
    }

    /// The step at hand succeeded; `exists` is whether there is a file to keep.
    pub fn next(self, exists: bool) -> (r: Self)
        ensures
            r == (WriteJob { step: step_after(self.step, exists), ..self }),
    {
        let step = match self.step {
            WriteStep::Create => WriteStep::Write,
            WriteStep::Write => WriteStep::Sync,
            WriteStep::Sync => if exists {
                WriteStep::Keep
            } else {
                WriteStep::Rename
            },
            WriteStep::Keep => WriteStep::Rename,
            WriteStep::Rename => WriteStep::Done,
            WriteStep::Done => WriteStep::Done,
        };
        WriteJob { file: self.file, step }
    }

    /// The name of the copy that the step at hand works on.
    pub fn target(self) -> (r: String)
        ensures
            r@ == copy_name(self.file.name(), step_target(self.step)),
    {
        let copy = match self.step {
            WriteStep::Create | WriteStep::Write | WriteStep::Sync => FileCopy::Temp,
            WriteStep::Keep => FileCopy::Backup,
            WriteStep::Rename | WriteStep::Done => FileCopy::Primary,
        };
        name_of(self.file, copy)
    }
}

/// The copies of one file on the disk.
pub struct Disk {
    pub primary: Option<Seq<u8>>,
    pub backup: Option<Seq<u8>>,
    pub temp: Option<Seq<u8>>,
}

/// Whether `after` is what a completed step makes of `before`, writing `content`.
pub open spec fn step_done(before: Disk, step: WriteStep, content: Seq<u8>, after: Disk) -> bool {
    match step {
        WriteStep::Create => after == (Disk { temp: Some(Seq::empty()), ..before }),
        WriteStep::Write => after == (Disk { temp: Some(content), ..before }),
        WriteStep::Sync => after == before,
        WriteStep::Keep => after == (Disk { backup: before.primary, ..before }),
        WriteStep::Rename => after == (Disk { primary: before.temp, temp: None, ..before }),
        WriteStep::Done => after == before,
    }
}

/// Whether `after` can be left behind by a step that was cut short: the copy that
/// it works on can hold anything, except that a rename happens or does not.
pub open spec fn step_torn(before: Disk, step: WriteStep, content: Seq<u8>, after: Disk) -> bool {
    match step {
        WriteStep::Create => after.primary == before.primary && after.backup == before.backup,
        WriteStep::Write => after.primary == before.primary && after.backup == before.backup,
        WriteStep::Sync => after == before,
        WriteStep::Keep => after.primary == before.primary && after.temp == before.temp,
        WriteStep::Rename => after == before || step_done(before, step, content, after),
        WriteStep::Done => after == before,
    }
}

/// What is on the disk once the job of writing `content` over a file that was
/// `before` has come to `step`.
pub open spec fn disk_at(before: Disk, content: Seq<u8>, step: WriteStep) -> Disk {
    let kept = if before.primary is Some {
        before.primary
    } else {
        before.backup
    };
    match step {
        WriteStep::Create => before,
        WriteStep::Write => Disk { temp: Some(Seq::empty()), ..before },
        WriteStep::Sync => Disk { temp: Some(content), ..before },
        WriteStep::Keep => Disk { temp: Some(content), ..before },
        WriteStep::Rename => Disk { temp: Some(content), backup: kept, ..before },
        WriteStep::Done => Disk { primary: Some(content), backup: kept, temp: None },
    }
}

/// Each step that completes leads from one of these states to the next.
pub proof fn the_disk_follows_the_steps(before: Disk, content: Seq<u8>, step: WriteStep)
    requires
        step == WriteStep::Keep ==> before.primary is Some,
    ensures
        step_done(
            disk_at(before, content, step),
            step,
            content,
            disk_at(before, content, step_after(step, before.primary is Some)),
        ),
{
}

/// Wherever a write is cut short, the file holds either what it held before or the
/// whole of the new content: never a part of it, and never nothing where there
/// was something.
pub proof fn a_crash_leaves_the_old_or_the_new_file(
    before: Disk,
    content: Seq<u8>,
    step: WriteStep,
    after: Disk,
)
    requires
        step_torn(disk_at(before, content, step), step, content, after),
    ensures
        after.primary == before.primary || after.primary == Some(content),
        step == WriteStep::Done ==> after.primary == Some(content),
{
}

/// Once a write is done the previous content is in the backup.
pub proof fn the_previous_copy_is_kept(before: Disk, content: Seq<u8>)
    requires
        before.primary is Some,
    ensures
        disk_at(before, content, WriteStep::Done).backup == before.primary,
{
}

/// The steps of a write, from the first to the last.
pub proof fn a_write_takes_its_steps_in_order(exists: bool)
    ensures
        ({
            let create = WriteStep::Create;
            let write = step_after(create, exists);
            let sync = step_after(write, exists);
            let keep = step_after(sync, exists);
            &&& write == WriteStep::Write
            &&& sync == WriteStep::Sync
            &&& exists ==> keep == WriteStep::Keep && step_after(keep, exists) == WriteStep::Rename
            &&& !exists ==> keep == WriteStep::Rename
            &&& step_after(WriteStep::Rename, exists) == WriteStep::Done
        }),
{
}

/// A file that reads is what counts, whatever its backup holds.
pub proof fn a_readable_file_wins<T>(
    value: Option<T>,
    backup: core::result::Result<Option<T>, Error>,
)
    ensures
        recovered(Ok(value), backup) == Ok::<Option<T>, Error>(value),
{
}

/// A damaged file never looks like a first launch: it is read from its backup, or
/// it is an error.
pub proof fn damage_is_never_mistaken_for_a_first_launch<T>(
    e: Error,
    backup: core::result::Result<Option<T>, Error>,
)
    ensures
        recovered(Err(e), backup) != Ok::<Option<T>, Error>(None),
        backup matches Ok(Some(value)) ==> recovered(Err(e), backup) == Ok::<Option<T>, Error>(
            Some(value),
        ),
        !(backup matches Ok(Some(_))) ==> recovered(Err(e), backup) == Err::<Option<T>, Error>(e),
{
}

/// What a copy of a file holds, given how its content is parsed: nothing where there
/// is no such copy.
pub open spec fn content_as<T>(
    parse: spec_fn(Seq<u8>) -> core::result::Result<T, Error>,
    content: Option<Seq<u8>>,
) -> core::result::Result<Option<T>, Error> {
    match content {
        Some(content) => match parse(content) {
            Ok(value) => Ok(Some(value)),
            Err(e) => Err(e),
        },
        None => Ok(None),
    }
}

/// What loading a file gives whose copies are on the disk, given how its content is
/// parsed: the file, or its backup where the file does not parse.
pub open spec fn loaded<T>(
    parse: spec_fn(Seq<u8>) -> core::result::Result<T, Error>,
    disk: Disk,
) -> core::result::Result<Option<T>, Error> {
    recovered(content_as(parse, disk.primary), content_as(parse, disk.backup))
}

/// Whether `outcome` is what comes of reading a copy at `path` that can be read.
pub open spec fn comes_of<T>(
    path: String,
    parse: spec_fn(Seq<u8>) -> core::result::Result<T, Error>,
    content: Option<Seq<u8>>,
    outcome: ReadOutcome<T>,
) -> bool {
    match content {
        Some(content) => match parse(content) {
            Ok(value) => outcome == ReadOutcome::Value(value),
            Err(e) => outcome matches ReadOutcome::Malformed(source) && e == (Error::Parse {
                path,
                source,
            }),
        },
        None => outcome is Missing,
    }
}

/// Reading a file gives what its content parses to.
pub proof fn reading_gives_the_content<T>(
    path: String,
    parse: spec_fn(Seq<u8>) -> core::result::Result<T, Error>,
    content: Option<Seq<u8>>,
    outcome: ReadOutcome<T>,
)
    requires
        comes_of(path, parse, content, outcome),
    ensures
        outcome_as(path, outcome) == content_as(parse, content),
{
}

/// What was written is loaded: once a write is done, the file loads as the value that
/// the written content parses to, whatever was there before.
pub proof fn what_was_written_is_loaded<T>(
    parse: spec_fn(Seq<u8>) -> core::result::Result<T, Error>,
    before: Disk,
    content: Seq<u8>,
    value: T,
)
    requires
        parse(content) == Ok::<T, Error>(value),
    ensures
        loaded(parse, disk_at(before, content, WriteStep::Done)) == Ok::<Option<T>, Error>(
            Some(value),
        ),
{
}

/// Whether a write that is cut short at `step` can only leave the old value or the
/// new one. It can where the file was readable. A damaged file that is read from its
/// backup can lose that backup to the write between the copy and the rename.
pub open spec fn outlives_a_cut<T>(
    parse: spec_fn(Seq<u8>) -> core::result::Result<T, Error>,
    before: Disk,
    step: WriteStep,
) -> bool {
    match step {
        WriteStep::Keep => content_as(parse, before.primary) is Ok,
        WriteStep::Rename => content_as(parse, before.primary) is Ok || !(content_as(
            parse,
            before.backup,
        ) matches Ok(Some(_))),
        _ => true,
    }
}

/// Wherever a write is cut short, the file loads as it did before or as the new value.
pub proof fn a_cut_write_loads_as_the_old_or_the_new<T>(
    parse: spec_fn(Seq<u8>) -> core::result::Result<T, Error>,
    before: Disk,
    content: Seq<u8>,
    value: T,
    step: WriteStep,
    after: Disk,
)
    requires
        parse(content) == Ok::<T, Error>(value),
        step_torn(disk_at(before, content, step), step, content, after),
        outlives_a_cut(parse, before, step),
    ensures
        loaded(parse, after) == loaded(parse, before) || loaded(parse, after) == Ok::<
            Option<T>,
            Error,
        >(Some(value)),
{
}

/// The files of a directory once the jobs of writing `contents` are done.
pub open spec fn carried_out(
    dir: Map<ConfigFile, Disk>,
    jobs: Seq<WriteJob>,
    contents: Map<ConfigFile, Seq<u8>>,
) -> Map<ConfigFile, Disk>
    decreases jobs.len(),
{
    if jobs.len() == 0 {
        dir
    } else {
        let init = carried_out(dir, jobs.drop_last(), contents);
        let file = jobs.last().file;
        init.insert(file, disk_at(init[file], contents[file], WriteStep::Done))
    }
}

/// The jobs that an optional job is.
pub open spec fn optional_job(job: Option<WriteJob>) -> Seq<WriteJob> {
    match job {
        Some(job) => seq![job],
        None => Seq::empty(),
    }
}

/// The identity is minted once: whatever the first launch answered, the next one on
/// the same directory answers it again and writes nothing. So the machine keeps its
/// identifier and its keys, and what it signed before is still accepted.
pub proof fn the_identity_is_minted_once(
    parse: spec_fn(Seq<u8>) -> Result<Identity>,
    dir: Map<ConfigFile, Disk>,
    first: Result<(Identity, Option<WriteJob>)>,
    contents: Map<ConfigFile, Seq<u8>>,
    later: Result<(Identity, Option<WriteJob>)>,
    message: Seq<u8>,
    signature: Seq<u8>,
)
    requires
        identifies(loaded(parse, dir[ConfigFile::Identity]), first),
        first is Ok,
        first->Ok_0.1 is Some ==> parse(contents[ConfigFile::Identity]) == Ok::<Identity, Error>(
            first->Ok_0.0,
        ),
        identifies(
            loaded(
                parse,
                carried_out(dir, optional_job(first->Ok_0.1), contents)[ConfigFile::Identity],
            ),
            later,
        ),
    ensures
        later == Ok::<(Identity, Option<WriteJob>), Error>((first->Ok_0.0, None)),
        identity::accepts(
            identity::public_key_of(first->Ok_0.0.secret()),
            message,
            signature,
        ) ==> identity::accepts(
            identity::public_key_of(later->Ok_0.0.secret()),
            message,
            signature,
        ),
{
    reveal_with_fuel(carried_out, 2);
}

/// The workspace survives a reboot: what was saved last is what is loaded, unless its
/// layout is newer than the build that loads it knows, which is an error.
pub proof fn a_saved_workspace_is_loaded(
    parse: spec_fn(Seq<u8>) -> Result<WorkspaceDoc>,
    dir: Map<ConfigFile, Disk>,
    contents: Map<ConfigFile, Seq<u8>>,
    doc: WorkspaceDoc,
)
    requires
        parse(contents[ConfigFile::Workspace]) == Ok::<WorkspaceDoc, Error>(doc),
    ensures
        ({
            let after = carried_out(dir, seq![writing(ConfigFile::Workspace)], contents);
            let found = understood(loaded(parse, after[ConfigFile::Workspace]));
            &&& doc.schema_version <= WorkspaceDoc::SCHEMA_VERSION ==> found == Ok::<
                Option<WorkspaceDoc>,
                Error,
            >(Some(doc))
            &&& doc.schema_version > WorkspaceDoc::SCHEMA_VERSION ==> found == Err::<
                Option<WorkspaceDoc>,
                Error,
            >(
                Error::SchemaVersion {
                    found: doc.schema_version,
                    supported: WorkspaceDoc::SCHEMA_VERSION,
                },
            )
        }),
{
    reveal_with_fuel(carried_out, 2);
}

/// A backup restores identity and workspace: what one directory held is, after a
/// backup of it was restored over another, what the other one loads, and the identity
/// is not written again. Without a workspace in the backup the other directory keeps
/// its own.
pub proof fn a_backup_restores_identity_and_workspace(
    parse_identity: spec_fn(Seq<u8>) -> Result<Identity>,
    parse_workspace: spec_fn(Seq<u8>) -> Result<WorkspaceDoc>,
    parse_backup: spec_fn(Seq<u8>) -> Result<Backup>,
    from: Map<ConfigFile, Disk>,
    held: Result<(Identity, Option<WriteJob>)>,
    backup: Result<Backup>,
    exported: Seq<u8>,
    path: String,
    imported: Result<(Backup, Vec<WriteJob>)>,
    to: Map<ConfigFile, Disk>,
    contents: Map<ConfigFile, Seq<u8>>,
    later: Result<(Identity, Option<WriteJob>)>,
)
    requires
        identifies(loaded(parse_identity, from[ConfigFile::Identity]), held),
        held is Ok,
        exports(
            Ok::<Identity, Error>(held->Ok_0.0),
            understood(loaded(parse_workspace, from[ConfigFile::Workspace])),
            backup,
        ),
        backup is Ok,
        parse_backup(exported) == backup,
        imports(path, content_as(parse_backup, Some(exported)), imported),
        parse_identity(contents[ConfigFile::Identity]) == Ok::<Identity, Error>(
            backup->Ok_0.identity,
        ),
        backup->Ok_0.workspace matches Some(doc) ==> parse_workspace(
            contents[ConfigFile::Workspace],
        ) == Ok::<WorkspaceDoc, Error>(doc),
        imported is Ok ==> identifies(
            loaded(
                parse_identity,
                carried_out(to, imported->Ok_0.1@, contents)[ConfigFile::Identity],
            ),
            later,
        ),
    ensures
        imported is Ok,
        imported->Ok_0.0.identity == held->Ok_0.0,
        later == Ok::<(Identity, Option<WriteJob>), Error>((held->Ok_0.0, None)),
        ({
            let after = carried_out(to, imported->Ok_0.1@, contents)[ConfigFile::Workspace];
            match understood(loaded(parse_workspace, from[ConfigFile::Workspace])) {
                Ok(Some(doc)) => understood(loaded(parse_workspace, after)) == Ok::<
                    Option<WorkspaceDoc>,
                    Error,
                >(Some(doc)),
                _ => after == to[ConfigFile::Workspace],
            }
        }),
{
    reveal_with_fuel(carried_out, 3);
    let jobs = imported->Ok_0.1@;
    if backup->Ok_0.workspace is Some {
        assert(jobs.drop_last() =~= seq![writing(ConfigFile::Identity)]);
        assert(jobs.drop_last().drop_last() =~= Seq::empty());
    } else {
        assert(jobs.drop_last() =~= Seq::empty());
    }
}

/// Restoring a backup that is not there is an error and writes nothing.
pub proof fn a_missing_backup_changes_nothing(
    parse: spec_fn(Seq<u8>) -> Result<Backup>,
    path: String,
    r: Result<(Backup, Vec<WriteJob>)>,
)
    requires
        imports(path, content_as(parse, None), r),
    ensures
        r matches Err(Error::Io { path: named, source }) && named == path && source@
            == "backup file not found"@,
{
}

/// No two copies of files share a name: writing one never touches another.
pub proof fn no_two_files_share_a_name(a: ConfigFile, x: FileCopy, b: ConfigFile, y: FileCopy)
    requires
        copy_name(a.name(), x) == copy_name(b.name(), y),
    ensures
        a == b,
        x == y,
{
    reveal_strlit("identity.json");
    reveal_strlit("workspace.json");
    reveal_strlit("peer-hints.json");
    reveal_strlit("local-prefs.json");
    reveal_strlit(".bak");
    reveal_strlit(".tmp");
    let s = copy_name(a.name(), x);
    let t = copy_name(b.name(), y);
    assert(s.len() == t.len() && s[0] == t[0]);
    assert(a == b);
    assert(s.last() == t.last());
}

/// A workspace is read by every build that knows its layout, and by no other: one with
/// a later layout is refused rather than misread.
pub proof fn later_layouts_are_refused(doc: WorkspaceDoc)
    ensures
        doc.schema_version <= 1 <==> understood(Ok(Some(doc))) is Ok,
        doc.schema_version <= 1 ==> understood(Ok(Some(doc))) == Ok::<Option<WorkspaceDoc>, Error>(
            Some(doc),
        ),
        understood(Ok(None)) == Ok::<Option<WorkspaceDoc>, Error>(None),
{
}

/// Sharing is off until somebody switches it on: preferences that are missing or cannot
/// be read never take the keyboard away.
pub proof fn sharing_is_off_until_switched_on(e: Error, prefs: LocalPrefs, enabled: bool)
    ensures
        !preferred(Ok(None)).sharing,
        !preferred(Err(e)).sharing,
        preferred(Ok(Some(prefs))) == prefs,
        to_remember(prefs, enabled) is None ==> prefs.sharing == enabled,
        to_remember(prefs, enabled) matches Some(new) ==> new.sharing == enabled,
        to_remember(prefs, enabled) is Some ==> prefs.sharing != enabled,
{
}

/// Forgetting the workspace removes every copy of it, so that no later start brings it
/// back, and no copy of any other file: the identity stays.
pub proof fn forgetting_the_workspace_is_complete(file: ConfigFile, copy: FileCopy)
    ensures
        workspace_copies().contains(copy_name(file.name(), copy)) <==> file
            == ConfigFile::Workspace,
{
    let all = workspace_copies();
    assert(all[0] == copy_name(ConfigFile::Workspace.name(), FileCopy::Primary));
    assert(all[1] == copy_name(ConfigFile::Workspace.name(), FileCopy::Backup));
    assert(all[2] == copy_name(ConfigFile::Workspace.name(), FileCopy::Temp));
    if all.contains(copy_name(file.name(), copy)) {
        let k = choose|k: int| 0 <= k < 3 && all[k] == copy_name(file.name(), copy);
        if k == 0 {
            no_two_files_share_a_name(ConfigFile::Workspace, FileCopy::Primary, file, copy);
        } else if k == 1 {
            no_two_files_share_a_name(ConfigFile::Workspace, FileCopy::Backup, file, copy);
        } else {
            no_two_files_share_a_name(ConfigFile::Workspace, FileCopy::Temp, file, copy);
        }
    }
}

/// A workspace that was given up is kept under a name of its own: that of no other
/// moment, and of no file of the configuration.
pub proof fn what_was_given_up_is_kept(a: u64, b: u64, file: ConfigFile, copy: FileCopy)
    ensures
        a != b ==> rescued_as(a) != rescued_as(b),
        rescued_as(a) != copy_name(file.name(), copy),
{
    let head = "workspace-replaced-"@;
    let tail = ".json"@;
    let x = text::decimal(a as nat);
    let y = text::decimal(b as nat);
    if rescued_as(a) == rescued_as(b) {
        assert(rescued_as(a).len() == head.len() + x.len() + tail.len());
        assert(rescued_as(b).len() == head.len() + y.len() + tail.len());
        assert(rescued_as(a).subrange(head.len() as int, (head.len() + x.len()) as int) =~= x);
        assert(rescued_as(b).subrange(head.len() as int, (head.len() + y.len()) as int) =~= y);
        text::decimals_tell_numbers_apart(a as nat, b as nat);
    }
    reveal_strlit("identity.json");
    reveal_strlit("workspace.json");
    reveal_strlit("peer-hints.json");
    reveal_strlit("local-prefs.json");
    reveal_strlit(".bak");
    reveal_strlit(".tmp");
    reveal_strlit("workspace-replaced-");
    reveal_strlit(".json");
    assert(rescued_as(a).len() > 24);
    assert(copy_name(file.name(), copy).len() <= 20);
}

} // verus!
