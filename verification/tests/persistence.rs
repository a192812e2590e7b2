//! A reboot must never reset the workspace.
//!
//! The directory is held in memory: every write is carried out step by step as the
//! store asks for it.

use std::collections::BTreeMap;

use inputshare::store::{
    config_dir, dir_source, name_of, read_json, read_with_fallback, rescue_name, settle_removal,
    ConfigFile, DirSource, FileCopy, ReadOutcome, Removal, WriteJob, WriteStep,
};
use inputshare::{
    Backup, DisplayInfo, Error, Identity, InputAssignment, LocalPrefs, MachineRecord, PeerHints,
    Platform, Point, Result, Scale, Store, WorkspaceDoc,
};

fn machine(name: &str, position: Point) -> MachineRecord {
    let identity = Identity::generate();
    MachineRecord {
        id: identity.machine_id,
        display_name: name.into(),
        platform: Platform::current("linux"),
        public_key: identity.public_key(),
        position,
        displays: vec![DisplayInfo {
            id: "display-0".into(),
            name: "Built-in".into(),
            x: 0,
            y: 0,
            width: 1920,
            height: 1080,
            scale: Scale::one(),
            primary: true,
        }],
        input: InputAssignment {
            provides_keyboard: true,
            provides_mouse: true,
        },
        paired_at_ms: 0,
    }
}

/// A directory that holds values of one kind, or text that does not parse.
type Dir<T> = BTreeMap<String, std::result::Result<T, String>>;

fn read<T: Clone>(dir: &Dir<T>, name: String) -> Result<Option<T>> {
    let outcome = match dir.get(&name) {
        None => ReadOutcome::Missing,
        Some(Ok(value)) => ReadOutcome::Value(value.clone()),
        Some(Err(text)) => ReadOutcome::Malformed(text.clone()),
    };
    read_json(name, outcome)
}

fn load<T: Clone>(dir: &Dir<T>, file: ConfigFile) -> Result<Option<T>> {
    read_with_fallback(
        read(dir, name_of(file, FileCopy::Primary)),
        read(dir, name_of(file, FileCopy::Backup)),
    )
}

/// Carries out one step of a write.
fn advance<T: Clone>(dir: &mut Dir<T>, job: WriteJob, value: &T) -> WriteJob {
    let primary = name_of(job.file, FileCopy::Primary);
    let target = job.target();
    match job.step {
        WriteStep::Create => {
            dir.insert(target, Err(String::new()));
        }
        WriteStep::Write => {
            dir.insert(target, Ok(value.clone()));
        }
        WriteStep::Sync | WriteStep::Done => {}
        WriteStep::Keep => {
            let old = dir[&primary].clone();
            dir.insert(target, old);
        }
        WriteStep::Rename => {
            let new = dir.remove(&name_of(job.file, FileCopy::Temp)).unwrap();
            dir.insert(target, new);
        }
    }
    job.next(dir.contains_key(&primary))
}

fn save<T: Clone>(dir: &mut Dir<T>, mut job: WriteJob, value: &T) {
    while job.step != WriteStep::Done {
        job = advance(dir, job, value);
    }
}

fn new_store() -> Store {
    Store::at("/somewhere".into())
}

#[test]
fn machine_identity_is_minted_once_and_then_stable() {
    let store = new_store();
    let mut dir: Dir<Identity> = BTreeMap::new();

    let (first, job) = store
        .load_or_create_identity(load(&dir, ConfigFile::Identity))
        .expect("identity created");
    save(&mut dir, job.expect("a first launch writes it down"), &first);
    let (second, job) = store
        .load_or_create_identity(load(&dir, ConfigFile::Identity))
        .expect("identity loaded");

    assert!(job.is_none());
    assert_eq!(
        first.machine_id, second.machine_id,
        "a second launch must not mint a new machine ID"
    );
    assert_eq!(first.public_key(), second.public_key());
}

#[test]
fn identity_signatures_verify_across_a_reload() {
    let store = new_store();
    let mut dir: Dir<Identity> = BTreeMap::new();

    let (identity, job) = store
        .load_or_create_identity(load(&dir, ConfigFile::Identity))
        .expect("identity");
    save(&mut dir, job.expect("a first launch writes it down"), &identity);
    let signature = identity.sign(b"pairing challenge");

    let (reloaded, _) = store
        .load_or_create_identity(load(&dir, ConfigFile::Identity))
        .expect("identity");
    assert!(reloaded
        .public_key()
        .verify(b"pairing challenge", &signature));
    assert!(!reloaded.public_key().verify(b"different bytes", &signature));
}

#[test]
fn workspace_survives_a_reboot() {
    let store = new_store();
    let mut dir: Dir<WorkspaceDoc> = BTreeMap::new();

    let pc1 = machine("PC1", Point::new(0, 0));
    let pc2 = machine("PC2", Point::new(0, -1080));
    let mut doc = WorkspaceDoc::create("My Desk", pc1.clone());
    doc.upsert_machine(pc1.id, pc2.clone());
    save(&mut dir, store.save_workspace(), &doc);

    // Everything shuts down. A fresh process opens the same directory.
    let rebooted = new_store();
    let loaded = rebooted
        .load_workspace(load(&dir, ConfigFile::Workspace))
        .expect("readable")
        .expect("a workspace is present");

    assert_eq!(loaded.workspace_id, doc.workspace_id);
    assert_eq!(loaded.name.value, "My Desk");
    assert_eq!(loaded.machines_present().len(), 2);
    assert_eq!(
        loaded.machine(pc2.id).map(|m| m.position),
        Some(Point::new(0, -1080)),
        "the configured topology comes back, not a default"
    );
}

#[test]
fn a_machine_with_no_workspace_reports_none_rather_than_failing() {
    let store = new_store();
    let dir: Dir<WorkspaceDoc> = BTreeMap::new();
    assert!(store
        .load_workspace(load(&dir, ConfigFile::Workspace))
        .expect("readable")
        .is_none());
}

#[test]
fn a_truncated_workspace_file_falls_back_to_the_previous_copy() {
    let store = new_store();
    let mut dir: Dir<WorkspaceDoc> = BTreeMap::new();

    let pc1 = machine("PC1", Point::new(0, 0));
    let mut doc = WorkspaceDoc::create("My Desk", pc1.clone());
    save(&mut dir, store.save_workspace(), &doc);
    doc.set_name(pc1.id, "Studio");
    save(&mut dir, store.save_workspace(), &doc);

    // Power loss mid-write.
    dir.insert("workspace.json".into(), Err("{\"workspace_id\":".into()));

    let recovered = store
        .load_workspace(load(&dir, ConfigFile::Workspace))
        .expect("recovers from .bak")
        .expect("a workspace is present");

    assert_eq!(
        recovered.name.value, "My Desk",
        "losing the last write is acceptable; losing the workspace is not"
    );
}

#[test]
fn a_corrupt_file_with_no_backup_is_an_error_not_a_silent_reset() {
    let store = new_store();
    let mut dir: Dir<WorkspaceDoc> = BTreeMap::new();
    dir.insert("workspace.json".into(), Err("not json at all".into()));

    assert!(
        store
            .load_workspace(load(&dir, ConfigFile::Workspace))
            .is_err(),
        "reporting None here would look like a first launch and re-run onboarding"
    );
}

#[test]
fn a_future_schema_version_is_refused() {
    let store = new_store();
    let mut dir: Dir<WorkspaceDoc> = BTreeMap::new();
    let pc1 = machine("PC1", Point::new(0, 0));
    let mut doc = WorkspaceDoc::create("My Desk", pc1);
    doc.schema_version = WorkspaceDoc::SCHEMA_VERSION + 1;
    save(&mut dir, store.save_workspace(), &doc);

    assert!(
        matches!(
            store.load_workspace(load(&dir, ConfigFile::Workspace)),
            Err(Error::SchemaVersion {
                found: 2,
                supported: 1
            })
        ),
        "an older build must not drop fields it does not understand"
    );
}

#[test]
fn peer_hints_are_optional_and_default_to_empty() {
    let store = new_store();
    let hints = read_json::<PeerHints>("peer-hints.json".into(), ReadOutcome::Missing);
    assert!(store.load_hints(hints).expect("readable").peers.is_empty());
}

#[test]
fn a_backup_restores_identity_and_workspace() {
    let store = new_store();
    let mut identities: Dir<Identity> = BTreeMap::new();
    let mut workspaces: Dir<WorkspaceDoc> = BTreeMap::new();

    let (identity, job) = store
        .load_or_create_identity(load(&identities, ConfigFile::Identity))
        .expect("identity");
    save(&mut identities, job.expect("a first launch"), &identity);
    let pc1 = machine("PC1", Point::new(0, 0));
    let doc = WorkspaceDoc::create("My Desk", pc1);
    save(&mut workspaces, store.save_workspace(), &doc);

    let exported = store
        .export_backup(
            Ok(identity.clone()),
            store.load_workspace(load(&workspaces, ConfigFile::Workspace)),
        )
        .expect("exported");

    // A reinstall: fresh config directory, which by default is a new machine.
    let fresh = new_store();
    let mut fresh_identities: Dir<Identity> = BTreeMap::new();
    let mut fresh_workspaces: Dir<WorkspaceDoc> = BTreeMap::new();
    let (new_machine, job) = fresh
        .load_or_create_identity(load(&fresh_identities, ConfigFile::Identity))
        .expect("identity");
    save(&mut fresh_identities, job.expect("a first launch"), &new_machine);
    assert_ne!(
        new_machine.machine_id, identity.machine_id,
        "a reinstall is a new machine unless the user restores a backup"
    );

    let (restored, jobs) = fresh
        .import_backup("backup.json".into(), Ok(Some(exported)))
        .expect("imported");
    assert_eq!(jobs.len(), 2);
    for job in jobs {
        match job.file {
            ConfigFile::Identity => save(&mut fresh_identities, job, &restored.identity),
            _ => save(
                &mut fresh_workspaces,
                job,
                restored.workspace.as_ref().expect("present"),
            ),
        }
    }
    assert_eq!(restored.identity.machine_id, identity.machine_id);
    assert_eq!(
        fresh
            .load_or_create_identity(load(&fresh_identities, ConfigFile::Identity))
            .expect("identity")
            .0
            .machine_id,
        identity.machine_id
    );
    assert_eq!(
        fresh
            .load_workspace(load(&fresh_workspaces, ConfigFile::Workspace))
            .expect("readable")
            .expect("present")
            .workspace_id,
        doc.workspace_id
    );
}

/// The sharing switch is this computer's own choice, and a reboot must not quietly
/// undo it.
#[test]
fn the_sharing_switch_survives_a_restart() {
    let mut dir: Dir<LocalPrefs> = BTreeMap::new();

    // A machine nobody has configured is not sharing: taking over somebody's
    // keyboard is never the default.
    let store = new_store();
    assert!(!store.load_prefs(load(&dir, ConfigFile::Prefs)).sharing);

    save(&mut dir, store.save_prefs(), &LocalPrefs { sharing: true });

    // The next launch: a new Store over the same directory, which is exactly
    // what starting the app again does.
    let restarted = new_store();
    assert!(
        restarted.load_prefs(load(&dir, ConfigFile::Prefs)).sharing,
        "sharing was on when the machine was switched off, so it must come back on"
    );

    // And it is a local file, not part of the synchronized document: turning it
    // on here must not turn it on for every paired machine.
    assert!(!dir.contains_key("workspace.json"));
}

/// Preferences are a convenience. A damaged file must not stop the app.
#[test]
fn unreadable_preferences_fall_back_to_the_defaults() {
    let mut dir: Dir<LocalPrefs> = BTreeMap::new();
    let store = new_store();
    save(&mut dir, store.save_prefs(), &LocalPrefs { sharing: true });

    dir.insert("local-prefs.json".into(), Err("{ truncated".into()));
    dir.insert("local-prefs.json.bak".into(), Err("nonsense".into()));

    assert!(
        !store.load_prefs(load(&dir, ConfigFile::Prefs)).sharing,
        "damaged file, safe default"
    );
}

#[test]
fn a_write_cut_short_anywhere_leaves_a_readable_file() {
    let store = new_store();
    let pc1 = machine("PC1", Point::new(0, 0));
    let old = WorkspaceDoc::create("Old", pc1.clone());
    let mut new = old.clone();
    new.set_name(pc1.id, "New");
    for cut in 0..6 {
        let mut dir: Dir<WorkspaceDoc> = BTreeMap::new();
        save(&mut dir, store.save_workspace(), &old);
        let mut job = store.save_workspace();
        for _ in 0..cut {
            job = advance(&mut dir, job, &new);
        }
        let found = load(&dir, ConfigFile::Workspace)
            .expect("readable")
            .expect("present");
        assert_eq!(found.name.value, if cut < 5 { "Old" } else { "New" });
    }
}

#[test]
fn a_first_write_takes_no_backup() {
    let mut dir: Dir<LocalPrefs> = BTreeMap::new();
    save(
        &mut dir,
        WriteJob::start(ConfigFile::Prefs),
        &LocalPrefs { sharing: true },
    );
    let names: Vec<&String> = dir.keys().collect();
    assert_eq!(names, ["local-prefs.json"]);
    save(
        &mut dir,
        WriteJob::start(ConfigFile::Prefs),
        &LocalPrefs { sharing: false },
    );
    let names: Vec<&String> = dir.keys().collect();
    assert_eq!(names, ["local-prefs.json", "local-prefs.json.bak"]);
}

#[test]
fn reading_a_file_tells_missing_from_unreadable() {
    let missing = read_json::<LocalPrefs>("p".into(), ReadOutcome::Missing);
    assert!(matches!(missing, Ok(None)));
    let malformed = read_json::<LocalPrefs>("p".into(), ReadOutcome::Malformed("bad".into()));
    assert!(
        matches!(malformed, Err(Error::Parse { path, source }) if path == "p" && source == "bad")
    );
    let failed = read_json::<LocalPrefs>("p".into(), ReadOutcome::Failed("denied".into()));
    assert!(
        matches!(failed, Err(Error::Io { path, source }) if path == "p" && source == "denied")
    );
}

#[test]
fn a_missing_file_is_not_recovered_from_its_backup() {
    let found: Result<Option<u8>> = read_with_fallback(Ok(None), Ok(Some(1)));
    assert!(matches!(found, Ok(None)));
    let found: Result<Option<u8>> = read_with_fallback(Err(Error::NoConfigDir), Ok(None));
    assert!(matches!(found, Err(Error::NoConfigDir)));
}

#[test]
fn the_config_directory_is_named_by_one_of_two() {
    let source = |named: Option<&str>, platform: bool| dir_source(named, platform);
    assert!(matches!(source(Some("/mine"), false), Ok(DirSource::Environment)));
    assert!(matches!(source(Some(""), true), Ok(DirSource::Platform)));
    assert!(matches!(source(None, true), Ok(DirSource::Platform)));
    assert!(matches!(source(Some(""), false), Err(Error::NoConfigDir)));
}

#[test]
fn the_environment_overrides_the_config_directory() {
    let named = config_dir(Some("/mine".into()), Some("/theirs".into()));
    assert_eq!(named.expect("named"), "/mine");
    let empty = config_dir(Some(String::new()), Some("/theirs".into()));
    assert_eq!(empty.expect("platform"), "/theirs");
    assert!(matches!(config_dir(None, None), Err(Error::NoConfigDir)));
    let store = Store::open(None, Some("/theirs".into())).expect("opens");
    assert_eq!(store.dir(), "/theirs");
    assert!(matches!(
        Store::open(Some(String::new()), None),
        Err(Error::NoConfigDir)
    ));
}

#[test]
fn forgetting_a_workspace_removes_every_copy() {
    assert_eq!(
        new_store().clear_workspace(),
        ["workspace.json", "workspace.json.bak", "workspace.json.tmp"]
    );
    assert!(settle_removal("f".into(), Removal::Removed).is_ok());
    assert!(settle_removal("f".into(), Removal::Missing).is_ok());
    let failed = settle_removal("f".into(), Removal::Failed("busy".into()));
    assert!(matches!(failed, Err(Error::Io { path, source }) if path == "f" && source == "busy"));
}

#[test]
fn a_missing_backup_file_is_an_error() {
    let store = new_store();
    let missing = store.import_backup("b.json".into(), Ok(None));
    assert!(matches!(
        missing,
        Err(Error::Io { path, source }) if path == "b.json" && source == "backup file not found"
    ));
    let failed = store.import_backup("b.json".into(), Err(Error::NoConfigDir));
    assert!(matches!(failed, Err(Error::NoConfigDir)));
    let bare = Backup {
        identity: Identity::generate(),
        workspace: None,
    };
    let (_, jobs) = store
        .import_backup("b.json".into(), Ok(Some(bare)))
        .expect("imported");
    assert_eq!(jobs, [WriteJob::start(ConfigFile::Identity)]);
    assert!(matches!(
        store.export_backup(Err(Error::NoConfigDir), Ok(None)),
        Err(Error::NoConfigDir)
    ));
}

#[test]
fn a_replaced_workspace_is_kept_under_its_time() {
    assert_eq!(
        rescue_name(1_700_000_000_123),
        "workspace-replaced-1700000000123.json"
    );
}

#[test]
fn only_a_change_of_the_switch_is_written_down() {
    let off = LocalPrefs::default();
    assert_eq!(off.remember_sharing(false), None);
    assert_eq!(off.remember_sharing(true), Some(LocalPrefs { sharing: true }));
}

#[test]
fn only_the_identity_is_secret() {
    assert!(ConfigFile::Identity.is_secret());
    assert!(!ConfigFile::Workspace.is_secret());
    assert_eq!(
        name_of(ConfigFile::Hints, FileCopy::Temp),
        "peer-hints.json.tmp"
    );
    assert_eq!(new_store().save_hints(), WriteJob::start(ConfigFile::Hints));
}
