use isanagent::checkpoint::{
    after_resolve, checkpoint_request, dirs_to_prune, listing_text, name_to_delete, restored_text,
    AgedDir, CheckpointEntry, CheckpointRequest, CheckpointStore, Lookup, Meta, RestoreOutcome,
    RestorePlan, RestoreStep, MAX_CHECKPOINTS,
};
use isanagent::json::Json;
use std::collections::HashMap;

fn store() -> CheckpointStore {
    CheckpointStore::new("/w/.checkpoints".to_string(), Some("/w".to_string()))
}

fn entry(id: &str, created_ms: u128) -> CheckpointEntry {
    CheckpointEntry {
        id: id.to_string(),
        path: "/w/a".to_string(),
        label: "edit_file".to_string(),
        created_ms,
        existed: true,
    }
}

#[test]
fn a_snapshot_records_the_file() {
    let s = store().snapshot("/w/a.txt", "edit_file", true, 1_700);
    assert!(s.copy_content);
    assert_eq!(s.meta.path, "/w/a.txt");
    assert_eq!(s.meta.label, "edit_file");
    assert!(s.meta.existed);
    assert_eq!(s.meta.created_ms, 1_700);
    assert_eq!(s.id.len(), 36);
    assert!(store().check_id(&s.id).is_ok());
    assert!(!store().snapshot("/w/b", "write_file", false, 1).copy_content);
}

#[test]
fn names_of_snapshots_differ() {
    let a = store().snapshot("/w/a", "x", true, 1);
    let b = store().snapshot("/w/a", "x", true, 1);
    assert_ne!(a.id, b.id);
}

/// Files by their paths, and the backups of a store by their ids.
struct Disk {
    store: CheckpointStore,
    files: HashMap<String, String>,
    backups: Vec<(String, Meta, Option<String>)>,
}

impl Disk {
    fn new() -> Disk {
        Disk {
            store: store(),
            files: HashMap::new(),
            backups: Vec::new(),
        }
    }

    fn snapshot(&mut self, path: &str, label: &str) {
        let existed = self.files.contains_key(path);
        let s = self.store.snapshot(path, label, existed, 1);
        let content = if s.copy_content { self.files.get(path).cloned() } else { None };
        self.backups.push((s.id, s.meta, content));
    }

    fn list(&self) -> Vec<CheckpointEntry> {
        let found = self
            .backups
            .iter()
            .map(|(id, m, _)| CheckpointEntry {
                id: id.clone(),
                path: m.path.clone(),
                label: m.label.clone(),
                created_ms: m.created_ms,
                existed: m.existed,
            })
            .collect();
        self.store.list(found)
    }

    /// Restores a file; `links` names the directory that its directory has become a link to.
    fn restore(&mut self, id: &str, links: Option<&str>) -> Result<String, String> {
        self.store.check_id(id)?;
        let at = self.backups.iter().position(|b| b.0 == id);
        let lookup = match at {
            None => Lookup::Missing("no such file".to_string()),
            Some(i) => {
                let m = &self.backups[i].1;
                Lookup::Found(Meta {
                    path: m.path.clone(),
                    label: m.label.clone(),
                    existed: m.existed,
                    created_ms: m.created_ms,
                })
            }
        };
        let meta = self.store.find(id, lookup)?;
        let (parent, name) = meta.path.rsplit_once('/').expect("a path");
        let resolve = |path: &str| {
            let real = links.unwrap_or(path);
            if real == "/w" || real.starts_with("/w/") {
                Ok(real.to_string())
            } else {
                Err("outside of the workspace".to_string())
            }
        };
        let plan = self.store.restore(&meta, false, Some(parent));
        let outcome = match &plan {
            RestorePlan::Write(RestoreStep::Resolve { path }) => {
                let dest = after_resolve(&plan, resolve(path))?;
                let content = at.and_then(|i| self.backups[i].2.clone()).expect("content");
                self.files.insert(dest, content);
                RestoreOutcome::Written
            }
            RestorePlan::Remove(RestoreStep::Resolve { path }) => {
                let dir = after_resolve(&plan, resolve(path))?;
                let doomed = format!("{dir}/{}", name_to_delete(Some(name.to_string()))?);
                match self.files.remove(&doomed) {
                    Some(_) => RestoreOutcome::Removed,
                    None => RestoreOutcome::AlreadyAbsent,
                }
            }
            other => panic!("{:?}", other),
        };
        Ok(restored_text(&meta.path, id, outcome))
    }
}

#[test]
fn snapshot_then_restore_recovers_prior_content() {
    let mut disk = Disk::new();
    disk.files.insert("/w/a.txt".to_string(), "v1".to_string());
    disk.snapshot("/w/a.txt", "edit_file");
    disk.files.insert("/w/a.txt".to_string(), "v2-broken".to_string());

    let entries = disk.list();
    assert_eq!(entries.len(), 1);
    assert_eq!(entries[0].label, "edit_file");
    assert!(entries[0].existed);

    disk.restore(&entries[0].id, None).unwrap();
    assert_eq!(disk.files["/w/a.txt"], "v1");
}

#[test]
fn restoring_a_created_file_removes_it() {
    let mut disk = Disk::new();
    disk.snapshot("/w/new.txt", "write_file");
    disk.files.insert("/w/new.txt".to_string(), "created".to_string());

    let id = disk.list()[0].id.clone();
    assert!(!disk.list()[0].existed);
    disk.restore(&id, None).unwrap();
    assert!(
        !disk.files.contains_key("/w/new.txt"),
        "restoring a creation should remove the file"
    );
    assert_eq!(disk.restore(&id, None).unwrap(), "/w/new.txt is already absent.");
}

#[test]
fn restore_rejects_bad_ids() {
    let mut disk = Disk::new();
    assert!(disk.restore("../etc", None).is_err());
    assert!(disk.restore("a/b", None).is_err());
    assert!(disk.restore("missing-id", None).is_err());
    assert!(disk.restore("", None).is_err());
}

#[test]
fn what_cannot_be_restored_from_is_told() {
    assert_eq!(
        store().find("x", Lookup::Missing("gone".to_string())).unwrap_err(),
        "checkpoint x not found: gone"
    );
    assert_eq!(
        store().find("x", Lookup::Unreadable("eof".to_string())).unwrap_err(),
        "checkpoint meta parse: eof"
    );
    assert_eq!(
        store().find("..", Lookup::Missing("gone".to_string())).unwrap_err(),
        "invalid checkpoint id"
    );
}

#[test]
fn restore_refuses_meta_path_outside_base() {
    let mut disk = Disk::new();
    let outside = "/tmp/isan_outside.txt";
    disk.backups.push((
        "crafted".to_string(),
        Meta {
            path: outside.to_string(),
            label: "edit_file".to_string(),
            existed: true,
            created_ms: 1,
        },
        Some("payload".to_string()),
    ));
    assert_eq!(
        disk.restore("crafted", None).unwrap_err(),
        "checkpoint target rejected: outside of the workspace"
    );
    assert!(
        !disk.files.contains_key(outside),
        "must not write the payload outside base"
    );
}

#[test]
fn restore_delete_refuses_parent_symlink_escape() {
    let mut disk = Disk::new();
    disk.snapshot("/w/sub/created.txt", "write_file");
    disk.files.insert("/w/sub/created.txt".to_string(), "created".to_string());
    let id = disk.list()[0].id.clone();
    assert!(!disk.list()[0].existed);
    let victim = "/tmp/isan_victim/created.txt";
    disk.files.insert(victim.to_string(), "do not delete me".to_string());

    let res = disk.restore(&id, Some("/tmp/isan_victim"));
    assert!(res.is_err(), "must refuse a parent-symlink escape: {res:?}");
    assert!(
        disk.files.contains_key(victim),
        "must not delete the file outside the sandbox"
    );
}

#[test]
fn restore_refuses_symlinked_target() {
    match store().safe_write_target("/w/a", true) {
        RestoreStep::Refuse(_) => {}
        other => panic!("{:?}", other),
    }
    match store().safe_write_target("/w/a", false) {
        RestoreStep::Resolve { path } => assert_eq!(path, "/w/a"),
        other => panic!("{:?}", other),
    }
}

#[test]
fn deleting_needs_a_parent_and_a_name() {
    assert!(matches!(store().safe_delete_target(None), RestoreStep::Refuse(_)));
    match store().safe_delete_target(Some("/w/sub")) {
        RestoreStep::Resolve { path } => assert_eq!(path, "/w/sub"),
        other => panic!("{:?}", other),
    }
    assert!(name_to_delete(None).is_err());
    assert_eq!(name_to_delete(Some("f".to_string())).unwrap(), "f");
}

#[test]
fn a_file_comes_back_as_it_was() {
    let changed = store().snapshot("/w/sub/a", "edit_file", true, 1).meta;
    match store().restore(&changed, false, Some("/w/sub")) {
        RestorePlan::Write(RestoreStep::Resolve { path }) => assert_eq!(path, "/w/sub/a"),
        other => panic!("{:?}", other),
    }
    match store().restore(&changed, true, Some("/w/sub")) {
        RestorePlan::Write(RestoreStep::Refuse(why)) => assert_eq!(
            why,
            "checkpoint target is now a symlink; refusing to restore"
        ),
        other => panic!("{:?}", other),
    }
    let created = store().snapshot("/w/sub/b", "write_file", false, 1).meta;
    match store().restore(&created, false, Some("/w/sub")) {
        RestorePlan::Remove(RestoreStep::Resolve { path }) => assert_eq!(path, "/w/sub"),
        other => panic!("{:?}", other),
    }
    let open = CheckpointStore::new("/w/.checkpoints".to_string(), None);
    assert!(matches!(
        open.restore(&created, false, None),
        RestorePlan::Remove(RestoreStep::AsRecorded)
    ));
}

#[test]
fn list_is_newest_first() {
    let entries = store().list(vec![entry("a", 1), entry("c", 3), entry("b", 2)]);
    assert_eq!(entries.len(), 3);
    assert!(entries[0].created_ms >= entries[1].created_ms);
    assert_eq!(entries[0].id, "c");
    assert_eq!(entries[2].id, "a");
}

#[test]
fn the_oldest_are_pruned() {
    let dirs: Vec<AgedDir> = (0..MAX_CHECKPOINTS + 2)
        .map(|i| (format!("{}-x", 1000 + i), (1000 + i) as i128))
        .collect();
    let gone = dirs_to_prune(dirs);
    let names: Vec<&str> = gone.iter().map(|d| d.0.as_str()).collect();
    assert_eq!(names, vec!["1000-x", "1001-x"]);
    assert!(dirs_to_prune(Vec::new()).is_empty());
}

#[test]
fn the_tool_reads_its_request() {
    let args = |pairs: Vec<(&str, &str)>| {
        Json::Object(
            pairs
                .into_iter()
                .map(|(k, v)| (k.to_string(), Json::Str(v.to_string())))
                .collect(),
        )
    };
    assert!(matches!(
        checkpoint_request(&args(vec![("action", "list")])),
        Ok(CheckpointRequest::List)
    ));
    match checkpoint_request(&args(vec![("action", "restore"), ("id", "x")])) {
        Ok(CheckpointRequest::Restore { id }) => assert_eq!(id, "x"),
        other => panic!("{:?}", other),
    }
    assert!(checkpoint_request(&args(vec![("action", "restore")])).is_err());
    assert!(checkpoint_request(&args(vec![("action", "burn")])).is_err());
}

#[test]
fn what_was_restored_is_told() {
    assert_eq!(
        restored_text("/w/a", "id1", RestoreOutcome::Written),
        "Restored /w/a from checkpoint id1."
    );
    assert_eq!(
        restored_text("/w/a", "id1", RestoreOutcome::Removed),
        "Removed /w/a (it was created after checkpoint id1)."
    );
    assert_eq!(
        restored_text("/w/a", "id1", RestoreOutcome::AlreadyAbsent),
        "/w/a is already absent."
    );
    assert_eq!(
        listing_text(&[entry("a", 1)]),
        "Checkpoints (newest first):\n- a [edit_file] /w/a\n"
    );
    assert_eq!(listing_text(&[]), "No checkpoints.");
}
