//! Backups of files before they are changed, so that a change can be undone. The caller
//! reads and writes the files.
use vstd::prelude::*;
use vstd::string::*;
use crate::json::{Json, JsonView};
use crate::outside;
use crate::text;

verus! {

broadcast use vstd::string::group_string_axioms;

/// How many checkpoints are kept.
pub const MAX_CHECKPOINTS: usize = 200;

/// How many checkpoints a list shows.
pub const LISTED_CHECKPOINTS: usize = 50;

/// What the tool says where no checkpoints are made.
pub const CHECKPOINTS_DISABLED: &'static str =
    "Checkpointing is disabled (set checkpoint_enabled = true).";

/// What is stored with a backup.
#[derive(Debug)]
pub struct Meta {
    /// The file that is about to be changed.
    pub path: String,
    /// The tool that changes it.
    pub label: String,
    /// Whether the file was there before the change. If not, undoing removes it.
    pub existed: bool,
    pub created_ms: u128,
}

/// A backup of a file.
#[derive(Debug)]
pub struct CheckpointEntry {
    pub id: String,
    pub path: String,
    pub label: String,
    pub created_ms: u128,
    pub existed: bool,
}

/// Where the backups are, and within which directory files are restored.
#[derive(Debug)]
pub struct CheckpointStore {
    pub root: String,
    /// No file outside of this directory is restored.
    pub base: Option<String>,
}

// ---------------------------------------------------------------------------
// Snapshots
// ---------------------------------------------------------------------------

/// A backup that is about to be made.
#[derive(Debug)]
pub struct Snapshot {
    pub id: String,
    pub meta: Meta,
    /// Whether the file's content is copied.
    pub copy_content: bool,
}

impl CheckpointStore {
    /// A store with its backups in a directory.
    pub fn new(root: String, base: Option<String>) -> (r: Self)
        ensures
            r.root == root,
            r.base == base,
    {
        CheckpointStore { root, base }
    }

    /// Begins a backup of a file: it gets an id of its own, and the content is copied where
    /// there is a file.
    pub fn snapshot(&self, path: &str, label: &str, existed: bool, now_ms: u128) -> (r: Snapshot)
        ensures
            outside::is_hyphenated_uuid(r.id@),
            r.meta.path@ == path@,
            r.meta.label@ == label@,
            r.meta.existed == existed,
            r.meta.created_ms == now_ms,
            r.copy_content == existed,
    {
        Snapshot {
            id: outside::new_hyphenated_uuid(),
            meta: Meta {
                path: path.to_owned(),
                label: label.to_owned(),
                existed,
                created_ms: now_ms,
            },
            copy_content: existed,
        }
    }
}

// ---------------------------------------------------------------------------
// Order by age
// ---------------------------------------------------------------------------

/// A directory and when it was last changed.
pub type AgedDir = (String, i128);

/// The list with `x` put after all that are not younger.
pub open spec fn insert_by_age(list: Seq<AgedDir>, x: AgedDir) -> Seq<AgedDir>
    decreases list.len(),
{
    if list.len() == 0 {
        seq![x]
    } else if x.1 < list[0].1 {
        seq![x] + list
    } else {
        seq![list[0]] + insert_by_age(list.drop_first(), x)
    }
}

/// The directories, the oldest first; those of one age stay in their order.
pub open spec fn oldest_first(list: Seq<AgedDir>) -> Seq<AgedDir>
    decreases list.len(),
{
    if list.len() == 0 {
        list
    } else {
        insert_by_age(oldest_first(list.drop_last()), list.last())
    }
}

proof fn lemma_insert_by_age(list: Seq<AgedDir>, x: AgedDir)
    ensures
        insert_by_age(list, x).len() == list.len() + 1,
        insert_by_age(list, x).to_multiset() == list.to_multiset().insert(x),
        (forall|i: int, j: int| 0 <= i < j < list.len() ==> (#[trigger] list[i]).1 <= (
        #[trigger] list[j]).1) ==> forall|i: int, j: int|
            0 <= i < j < insert_by_age(list, x).len() ==> (#[trigger] insert_by_age(list, x)[i]).1
                <= (#[trigger] insert_by_age(list, x)[j]).1,
    decreases list.len(),
{
    broadcast use vstd::seq_lib::group_to_multiset_ensures;

    if list.len() == 0 {
        assert(insert_by_age(list, x) =~= list.push(x));
    } else if x.1 < list[0].1 {
        assert(insert_by_age(list, x) =~= list.insert(0, x));
    } else {
        let rest = list.drop_first();
        let inner = insert_by_age(rest, x);
        let r = insert_by_age(list, x);
        lemma_insert_by_age(rest, x);
        assert(r =~= inner.insert(0, list[0]));
        assert(list =~= rest.insert(0, list[0]));
        assert(r.to_multiset() =~= list.to_multiset().insert(x));
        if forall|i: int, j: int|
            0 <= i < j < list.len() ==> (#[trigger] list[i]).1 <= (#[trigger] list[j]).1 {
            assert forall|i: int, j: int| 0 <= i < j < rest.len() implies (#[trigger] rest[i]).1
                <= (#[trigger] rest[j]).1 by {
                assert(rest[i] == list[i + 1] && rest[j] == list[j + 1]);
            }
            assert forall|i: int, j: int| 0 <= i < j < r.len() implies (#[trigger] r[i]).1 <= (
            #[trigger] r[j]).1 by {
                assert(r[j] == inner[j - 1]);
                if i > 0 {
                    assert(r[i] == inner[i - 1]);
                } else {
                    assert(inner.contains(inner[j - 1]));
                    assert(inner.to_multiset().count(inner[j - 1]) > 0);
                    if inner[j - 1] != x {
                        assert(rest.to_multiset().count(inner[j - 1]) > 0);
                        assert(rest.contains(inner[j - 1]));
                        let k = choose|k: int| 0 <= k < rest.len() && rest[k] == inner[j - 1];
                        assert(list[k + 1] == inner[j - 1]);
                    }
                }
            }
        }
    }
}

/// Sorting by age neither loses a directory nor adds one, and no directory is older than one
/// ahead of it.
pub proof fn law_oldest_come_first(list: Seq<AgedDir>)
    ensures
        oldest_first(list).len() == list.len(),
        oldest_first(list).to_multiset() == list.to_multiset(),
        forall|i: int, j: int|
            0 <= i < j < list.len() ==> (#[trigger] oldest_first(list)[i]).1 <= (
            #[trigger] oldest_first(list)[j]).1,
    decreases list.len(),
{
    broadcast use vstd::seq_lib::group_to_multiset_ensures;

    if list.len() > 0 {
        law_oldest_come_first(list.drop_last());
        lemma_insert_by_age(oldest_first(list.drop_last()), list.last());
        assert(list =~= list.drop_last().push(list.last()));
    }
}

/// The directories that are removed, so that no more than the newest are kept.
pub open spec fn pruned(dirs: Seq<AgedDir>) -> Seq<AgedDir> {
    if dirs.len() <= MAX_CHECKPOINTS {
        Seq::empty()
    } else {
        oldest_first(dirs).take(dirs.len() - MAX_CHECKPOINTS)
    }
}

/// After the removal no more checkpoints are left than are kept, and none that is removed is
/// younger than one that is kept.
pub proof fn law_pruning_keeps_newest(dirs: Seq<AgedDir>, i: int, j: int)
    requires
        0 <= i < pruned(dirs).len(),
        pruned(dirs).len() <= j < dirs.len(),
    ensures
        dirs.len() - pruned(dirs).len() == MAX_CHECKPOINTS,
        pruned(dirs)[i].1 <= oldest_first(dirs)[j].1,
{
    law_oldest_come_first(dirs);
}

fn put_by_age(list: &mut Vec<AgedDir>, item: AgedDir)
    ensures
        final(list)@ == insert_by_age(old(list)@, item),
{
    let ghost s = list@;
    let mut i: usize = 0;
    assert(s.skip(0) =~= s);
    while i < list.len() && list[i].1 <= item.1
        invariant
            i <= list@.len(),
            s == list@,
            insert_by_age(s, item) == s.take(i as int) + insert_by_age(s.skip(i as int), item),
        decreases list@.len() - i,
    {
        assert(s.skip(i as int).drop_first() =~= s.skip(i + 1));
        assert(s.skip(i as int)[0] == s[i as int]);
        assert(s.take(i as int) + (seq![s[i as int]] + insert_by_age(s.skip(i + 1), item))
            =~= s.take(i + 1) + insert_by_age(s.skip(i + 1), item));
        i = i + 1;
    }
    proof {
        if i < s.len() {
            assert(s.skip(i as int)[0] == s[i as int]);
        }
        assert(s.insert(i as int, item) =~= s.take(i as int) + insert_by_age(
            s.skip(i as int),
            item,
        ));
    }
    list.insert(i, item);
}

/// Picks the directories that are to be removed, the oldest first.
pub fn dirs_to_prune(dirs: Vec<AgedDir>) -> (r: Vec<AgedDir>)
    ensures
        r@ == pruned(dirs@),
{
    let ghost given = dirs@;
    let count: usize = dirs.len();
    if count <= MAX_CHECKPOINTS {
        return Vec::new();
    }
    let mut sorted: Vec<AgedDir> = Vec::new();
    assert(sorted@ =~= oldest_first(given.take(0)));
    for dir in it: dirs
        invariant
            it.seq() == given,
            sorted@ == oldest_first(given.take(it.index())),
    {
        assert(given.take(it.index() + 1).drop_last() =~= given.take(it.index()));
        put_by_age(&mut sorted, dir);
    }
    assert(given.take(given.len() as int) =~= given);
    proof {
        law_oldest_come_first(given);
    }
    sorted.truncate(count - MAX_CHECKPOINTS);
    sorted
}

/// The list with `x` put after all that are not older.
pub open spec fn insert_newest_first(list: Seq<CheckpointEntry>, x: CheckpointEntry) -> Seq<
    CheckpointEntry,
>
    decreases list.len(),
{
    if list.len() == 0 {
        seq![x]
    } else if x.created_ms > list[0].created_ms {
        seq![x] + list
    } else {
        seq![list[0]] + insert_newest_first(list.drop_first(), x)
    }
}

/// The checkpoints, the newest first; those of one moment stay in their order.
pub open spec fn newest_first(list: Seq<CheckpointEntry>) -> Seq<CheckpointEntry>
    decreases list.len(),
{
    if list.len() == 0 {
        list
    } else {
        insert_newest_first(newest_first(list.drop_last()), list.last())
    }
}

proof fn lemma_insert_newest_first(list: Seq<CheckpointEntry>, x: CheckpointEntry)
    ensures
        insert_newest_first(list, x).len() == list.len() + 1,
        insert_newest_first(list, x).to_multiset() == list.to_multiset().insert(x),
        (forall|i: int, j: int| 0 <= i < j < list.len() ==> (#[trigger] list[i]).created_ms >= (
        #[trigger] list[j]).created_ms) ==> forall|i: int, j: int|
            0 <= i < j < insert_newest_first(list, x).len() ==> (#[trigger] insert_newest_first(
                list,
                x,
            )[i]).created_ms >= (#[trigger] insert_newest_first(list, x)[j]).created_ms,
    decreases list.len(),
{
    broadcast use vstd::seq_lib::group_to_multiset_ensures;

    if list.len() == 0 {
        assert(insert_newest_first(list, x) =~= list.push(x));
    } else if x.created_ms > list[0].created_ms {
        assert(insert_newest_first(list, x) =~= list.insert(0, x));
    } else {
        let rest = list.drop_first();
        let inner = insert_newest_first(rest, x);
        let r = insert_newest_first(list, x);
        lemma_insert_newest_first(rest, x);
        assert(r =~= inner.insert(0, list[0]));
        assert(list =~= rest.insert(0, list[0]));
        assert(r.to_multiset() =~= list.to_multiset().insert(x));
        if forall|i: int, j: int|
            0 <= i < j < list.len() ==> (#[trigger] list[i]).created_ms >= (
            #[trigger] list[j]).created_ms {
            assert forall|i: int, j: int| 0 <= i < j < rest.len() implies (
            #[trigger] rest[i]).created_ms >= (#[trigger] rest[j]).created_ms by {
                assert(rest[i] == list[i + 1] && rest[j] == list[j + 1]);
            }
            assert forall|i: int, j: int| 0 <= i < j < r.len() implies (#[trigger] r[i]).created_ms
                >= (#[trigger] r[j]).created_ms by {
                assert(r[j] == inner[j - 1]);
                if i > 0 {
                    assert(r[i] == inner[i - 1]);
                } else {
                    assert(inner.contains(inner[j - 1]));
                    assert(inner.to_multiset().count(inner[j - 1]) > 0);
                    if inner[j - 1] != x {
                        assert(rest.to_multiset().count(inner[j - 1]) > 0);
                        assert(rest.contains(inner[j - 1]));
                        let k = choose|k: int| 0 <= k < rest.len() && rest[k] == inner[j - 1];
                        assert(list[k + 1] == inner[j - 1]);
                    }
                }
            }
        }
    }
}

/// The list of checkpoints holds all of them, and none is younger than one ahead of it.
pub proof fn law_list_is_newest_first(list: Seq<CheckpointEntry>)
    ensures
        newest_first(list).len() == list.len(),
        newest_first(list).to_multiset() == list.to_multiset(),
        forall|i: int, j: int|
            0 <= i < j < list.len() ==> (#[trigger] newest_first(list)[i]).created_ms >= (
            #[trigger] newest_first(list)[j]).created_ms,
    decreases list.len(),
{
    broadcast use vstd::seq_lib::group_to_multiset_ensures;

    if list.len() > 0 {
        law_list_is_newest_first(list.drop_last());
        lemma_insert_newest_first(newest_first(list.drop_last()), list.last());
        assert(list =~= list.drop_last().push(list.last()));
    }
}

fn put_newest_first(list: &mut Vec<CheckpointEntry>, item: CheckpointEntry)
    ensures
        final(list)@ == insert_newest_first(old(list)@, item),
{
    let ghost s = list@;
    let mut i: usize = 0;
    assert(s.skip(0) =~= s);
    while i < list.len() && list[i].created_ms >= item.created_ms
        invariant
            i <= list@.len(),
            s == list@,
            insert_newest_first(s, item) == s.take(i as int) + insert_newest_first(
                s.skip(i as int),
                item,
            ),
        decreases list@.len() - i,
    {
        assert(s.skip(i as int).drop_first() =~= s.skip(i + 1));
        assert(s.skip(i as int)[0] == s[i as int]);
        assert(s.take(i as int) + (seq![s[i as int]] + insert_newest_first(s.skip(i + 1), item))
            =~= s.take(i + 1) + insert_newest_first(s.skip(i + 1), item));
        i = i + 1;
    }
    proof {
        if i < s.len() {
            assert(s.skip(i as int)[0] == s[i as int]);
        }
        assert(s.insert(i as int, item) =~= s.take(i as int) + insert_newest_first(
            s.skip(i as int),
            item,
        ));
    }
    list.insert(i, item);
}

impl CheckpointStore {
    /// The checkpoints that were found, the newest first.
    pub fn list(&self, found: Vec<CheckpointEntry>) -> (r: Vec<CheckpointEntry>)
        ensures
            r@ == newest_first(found@),
    {
        let ghost given = found@;
        let mut sorted: Vec<CheckpointEntry> = Vec::new();
        assert(sorted@ =~= newest_first(given.take(0)));
        for entry in it: found
            invariant
                it.seq() == given,
                sorted@ == newest_first(given.take(it.index())),
        {
            assert(given.take(it.index() + 1).drop_last() =~= given.take(it.index()));
            put_newest_first(&mut sorted, entry);
        }
        assert(given.take(given.len() as int) =~= given);
        sorted
    }
}

// ---------------------------------------------------------------------------
// Restoring
// ---------------------------------------------------------------------------

/// Whether the id can only name a direct child of the store.
pub open spec fn is_safe_id(id: Seq<char>) -> bool {
    id.len() > 0 && !text::contains(id, "/"@) && !text::contains(id, "\\"@) && !text::contains(
        id,
        ".."@,
    )
}

/// What was found under the id of a checkpoint.
#[derive(Debug)]
pub enum Lookup {
    /// Nothing can be read there, and why.
    Missing(String),
    /// What is stored there is not what is stored with a backup, and why.
    Unreadable(String),
    Found(Meta),
}

/// What is to be done to restore a file.
#[derive(Debug)]
pub enum RestoreStep {
    /// The path is used as it was recorded.
    AsRecorded,
    /// The path is resolved within the directory first.
    Resolve { path: String },
    /// Nothing is restored.
    Refuse(String),
}

/// How a file comes back.
#[derive(Debug)]
pub enum RestorePlan {
    /// The content that was saved is written back.
    Write(RestoreStep),
    /// The file is removed.
    Remove(RestoreStep),
}

/// Whether a file is written back to the place where it may be written.
pub open spec fn writes_to(
    step: RestoreStep,
    confined: bool,
    path: Seq<char>,
    is_symlink: bool,
) -> bool {
    if !confined {
        step is AsRecorded
    } else if is_symlink {
        step matches RestoreStep::Refuse(e) && e@
            == "checkpoint target is now a symlink; refusing to restore"@
    } else {
        step matches RestoreStep::Resolve { path: p } && p@ == path
    }
}

/// Whether a file is removed from the place where it may be removed.
pub open spec fn removes_from(step: RestoreStep, confined: bool, parent: Option<Seq<char>>) -> bool {
    if !confined {
        step is AsRecorded
    } else {
        match parent {
            None => step matches RestoreStep::Refuse(e) && e@
                == "checkpoint target has no parent directory"@,
            Some(p) => step matches RestoreStep::Resolve { path } && path@ == p,
        }
    }
}

/// Whether the plan is to leave the file as it is.
pub open spec fn refuses(plan: RestorePlan) -> bool {
    match plan {
        RestorePlan::Write(step) => step is Refuse,
        RestorePlan::Remove(step) => step is Refuse,
    }
}

/// Whether the plan brings a file back to what was recorded of it.
pub open spec fn brings_back(
    plan: RestorePlan,
    meta: Meta,
    confined: bool,
    is_symlink: bool,
    parent: Option<Seq<char>>,
) -> bool {
    match plan {
        RestorePlan::Write(step) => meta.existed && writes_to(
            step,
            confined,
            meta.path@,
            is_symlink,
        ),
        RestorePlan::Remove(step) => !meta.existed && removes_from(step, confined, parent),
    }
}

/// Whether this is what is stored under an id, or why it cannot be restored from.
pub open spec fn is_found(id: Seq<char>, lookup: Lookup, r: Result<Meta, String>) -> bool {
    if !is_safe_id(id) {
        r matches Err(e) && e@ == "invalid checkpoint id"@
    } else {
        match lookup {
            Lookup::Missing(why) => r matches Err(e) && e@ == "checkpoint "@ + id
                + " not found: "@ + why@,
            Lookup::Unreadable(why) => r matches Err(e) && e@ == "checkpoint meta parse: "@ + why@,
            Lookup::Found(meta) => r == Ok::<Meta, String>(meta),
        }
    }
}

impl CheckpointStore {
    /// Decides whether the id can name a checkpoint.
    pub fn check_id(&self, id: &str) -> (r: Result<(), String>)
        ensures
            if is_safe_id(id@) {
                r is Ok
            } else {
                r matches Err(e) && e@ == "invalid checkpoint id"@
            },
    {
        if id.is_empty() || text::has(id, "/") || text::has(id, "\\") || text::has(id, "..") {
            Err("invalid checkpoint id".to_owned())
        } else {
            Ok(())
        }
    }

    /// What is stored under an id, or why it cannot be restored from.
    pub fn find(&self, id: &str, lookup: Lookup) -> (r: Result<Meta, String>)
        ensures
            is_found(id@, lookup, r),
    {
        self.check_id(id)?;
        match lookup {
            Lookup::Missing(why) => {
                let mut out: String = "checkpoint ".to_owned();
                out.append(id);
                out.append(" not found: ");
                out.append(why.as_str());
                Err(out)
            },
            Lookup::Unreadable(why) => {
                let mut out: String = "checkpoint meta parse: ".to_owned();
                out.append(why.as_str());
                Err(out)
            },
            Lookup::Found(meta) => Ok(meta),
        }
    }

    /// Decides where a file is written back to. Where files are restored within a directory
    /// only, a link is not followed, and the path is resolved anew.
    pub fn safe_write_target(&self, path: &str, is_symlink: bool) -> (r: RestoreStep)
        ensures
            writes_to(r, self.base is Some, path@, is_symlink),
    {
        if self.base.is_none() {
            RestoreStep::AsRecorded
        } else if is_symlink {
            RestoreStep::Refuse(
                "checkpoint target is now a symlink; refusing to restore".to_owned(),
            )
        } else {
            RestoreStep::Resolve { path: path.to_owned() }
        }
    }

    /// Decides where a file is removed from. Where files are restored within a directory
    /// only, the directory that the file is in is resolved anew.
    pub fn safe_delete_target(&self, parent: Option<&str>) -> (r: RestoreStep)
        ensures
            removes_from(r, self.base is Some, parent.deep_view()),
    {
        if self.base.is_none() {
            return RestoreStep::AsRecorded;
        }
        match parent {
            None => RestoreStep::Refuse("checkpoint target has no parent directory".to_owned()),
            Some(p) => RestoreStep::Resolve { path: p.to_owned() },
        }
    }

    /// Decides how a file comes back to what was recorded of it: its content is written back,
    /// or the file is removed where there was none.
    pub fn restore(&self, meta: &Meta, is_symlink: bool, parent: Option<&str>) -> (r: RestorePlan)
        ensures
            brings_back(r, *meta, self.base is Some, is_symlink, parent.deep_view()),
    {
        if meta.existed {
            RestorePlan::Write(self.safe_write_target(meta.path.as_str(), is_symlink))
        } else {
            RestorePlan::Remove(self.safe_delete_target(parent))
        }
    }
}

/// Where a path leads after it was resolved, or why nothing is restored: a path that leads
/// out of the directory is rejected.
pub fn after_resolve(plan: &RestorePlan, resolved: Result<String, String>) -> (r: Result<
    String,
    String,
>)
    ensures
        match resolved {
            Ok(path) => r == Ok::<String, String>(path),
            Err(why) => r matches Err(e) && e@ == (if plan is Write {
                "checkpoint target rejected: "@
            } else {
                "checkpoint target parent rejected: "@
            }) + why@,
        },
{
    match resolved {
        Ok(path) => Ok(path),
        Err(why) => {
            let mut out: String = match plan {
                RestorePlan::Write(_) => "checkpoint target rejected: ".to_owned(),
                RestorePlan::Remove(_) => "checkpoint target parent rejected: ".to_owned(),
            };
            out.append(why.as_str());
            Err(out)
        },
    }
}

/// The name of the file that is removed from its resolved directory.
pub fn name_to_delete(file_name: Option<String>) -> (r: Result<String, String>)
    ensures
        match file_name {
            Some(name) => r == Ok::<String, String>(name),
            None => r matches Err(e) && e@ == "checkpoint target has no file name"@,
        },
{
    match file_name {
        Some(name) => Ok(name),
        None => Err("checkpoint target has no file name".to_owned()),
    }
}

/// How a file came back.
#[derive(Debug, Clone, Copy, PartialEq, Eq, Structural)]
pub enum RestoreOutcome {
    /// Its content was written back.
    Written,
    /// It was removed, for it was not there before the change.
    Removed,
    /// It was to be removed, and is not there.
    AlreadyAbsent,
}

/// What is said of a file that came back.
pub open spec fn restored_message(
    path: Seq<char>,
    id: Seq<char>,
    outcome: RestoreOutcome,
) -> Seq<char> {
    match outcome {
        RestoreOutcome::Written => "Restored "@ + path + " from checkpoint "@ + id + "."@,
        RestoreOutcome::Removed => "Removed "@ + path + " (it was created after checkpoint "@ + id
            + ")."@,
        RestoreOutcome::AlreadyAbsent => path + " is already absent."@,
    }
}

/// Writes what is said of a file that came back.
pub fn restored_text(path: &str, id: &str, outcome: RestoreOutcome) -> (r: String)
    ensures
        r@ == restored_message(path@, id@, outcome),
{
    match outcome {
        RestoreOutcome::Written => {
            let mut out: String = "Restored ".to_owned();
            out.append(path);
            out.append(" from checkpoint ");
            out.append(id);
            out.append(".");
            out
        },
        RestoreOutcome::Removed => {
            let mut out: String = "Removed ".to_owned();
            out.append(path);
            out.append(" (it was created after checkpoint ");
            out.append(id);
            out.append(").");
            out
        },
        RestoreOutcome::AlreadyAbsent => {
            let mut out: String = path.to_owned();
            out.append(" is already absent.");
            out
        },
    }
}

/// An id that a snapshot gets is one with which it can be restored.
pub proof fn law_new_id_is_safe(id: Seq<char>)
    requires
        outside::is_hyphenated_uuid(id),
    ensures
        is_safe_id(id),
{
    reveal_strlit("/");
    reveal_strlit("\\");
    reveal_strlit("..");
    assert(id[0] != '-');
    assert forall|at: int| !text::occurs_at(id, "/"@, at) by {
        if text::occurs_at(id, "/"@, at) {
            assert(id.subrange(at, at + 1)[0] == id[at]);
        }
    }
    assert forall|at: int| !text::occurs_at(id, "\\"@, at) by {
        if text::occurs_at(id, "\\"@, at) {
            assert(id.subrange(at, at + 1)[0] == id[at]);
        }
    }
    assert forall|at: int| !text::occurs_at(id, ".."@, at) by {
        if text::occurs_at(id, ".."@, at) {
            assert(id.subrange(at, at + 2)[0] == id[at]);
        }
    }
}

/// The files of a disk: what each path holds.
pub type Files = Map<Seq<char>, Seq<u8>>;

/// What a path holds, where it holds anything.
pub open spec fn held(files: Files, path: Seq<char>) -> Option<Seq<u8>> {
    if files.contains_key(path) {
        Some(files[path])
    } else {
        None
    }
}

/// What a snapshot backs up of a file.
pub open spec fn backed_up(files: Files, path: Seq<char>, copy_content: bool) -> Option<Seq<u8>> {
    if copy_content {
        held(files, path)
    } else {
        None
    }
}

/// The files after the plan was carried out at the path with what was backed up.
pub open spec fn carried_out(
    plan: RestorePlan,
    files: Files,
    path: Seq<char>,
    backup: Option<Seq<u8>>,
) -> Files {
    if refuses(plan) {
        files
    } else {
        match (plan, backup) {
            (RestorePlan::Write(_), Some(content)) => files.insert(path, content),
            (RestorePlan::Write(_), None) => files,
            (RestorePlan::Remove(_), _) => files.remove(path),
        }
    }
}

/// Restoring a file undoes whatever happened to it since its snapshot, and touches no other:
/// the file holds again what it held then, and is gone if it was not there. It is refused
/// only where files are restored within a directory and the file has become a link, or has
/// no directory; then nothing is touched.
pub proof fn law_restore_undoes_changes(
    before: Files,
    after: Files,
    snapshot: Snapshot,
    plan: RestorePlan,
    confined: bool,
    is_symlink: bool,
    parent: Option<Seq<char>>,
    other: Seq<char>,
)
    requires
        snapshot.meta.existed == before.contains_key(snapshot.meta.path@),
        snapshot.copy_content == snapshot.meta.existed,
        brings_back(plan, snapshot.meta, confined, is_symlink, parent),
    ensures
        ({
            let path = snapshot.meta.path@;
            let restored = carried_out(
                plan,
                after,
                path,
                backed_up(before, path, snapshot.copy_content),
            );
            &&& !refuses(plan) ==> held(restored, path) == held(before, path)
            &&& other != path ==> held(restored, other) == held(after, other)
            &&& refuses(plan) ==> restored == after
            &&& refuses(plan) <==> confined && if snapshot.meta.existed {
                is_symlink
            } else {
                parent is None
            }
        }),
{
}

// ---------------------------------------------------------------------------
// The tool
// ---------------------------------------------------------------------------

/// What the tool is asked for.
#[derive(Debug)]
pub enum CheckpointRequest {
    List,
    Restore { id: String },
}

/// The action that the arguments name.
pub open spec fn action_of(args: JsonView) -> Seq<char> {
    match args.text_at("action"@) {
        Some(a) => a,
        None => "list"@,
    }
}

/// Whether this is what the tool is asked for: the list where nothing is said.
pub open spec fn is_request(args: JsonView, r: Result<CheckpointRequest, String>) -> bool {
    let action = action_of(args);
    if action == "list"@ {
        r == Ok::<CheckpointRequest, String>(CheckpointRequest::List)
    } else if action == "restore"@ {
        match args.text_at("id"@) {
            Some(asked) => r matches Ok(CheckpointRequest::Restore { id }) && id@ == asked,
            None => r matches Err(e) && e@ == "restore requires 'id'"@,
        }
    } else {
        r matches Err(e) && e@ == "unknown action '"@ + action + "' (use list or restore)"@
    }
}

/// Reads what the tool is asked for.
pub fn checkpoint_request(args: &Json) -> (r: Result<CheckpointRequest, String>)
    ensures
        is_request(args@, r),
{
    let action: &str = match args.text_at("action") {
        Some(a) => a,
        None => "list",
    };
    if text::same(action, "list") {
        return Ok(CheckpointRequest::List);
    }
    if text::same(action, "restore") {
        return match args.text_at("id") {
            Some(id) => Ok(CheckpointRequest::Restore { id: id.to_owned() }),
            None => Err("restore requires 'id'".to_owned()),
        };
    }
    let mut why: String = "unknown action '".to_owned();
    why.append(action);
    why.append("' (use list or restore)");
    Err(why)
}

/// What a list says of a checkpoint.
pub open spec fn entry_line(e: CheckpointEntry) -> Seq<char> {
    "- "@ + e.id@ + " ["@ + e.label@ + "] "@ + e.path@ + (if e.existed {
        ""@
    } else {
        " (created)"@
    }) + "\n"@
}

/// What a list says of the checkpoints.
pub open spec fn entry_lines(entries: Seq<CheckpointEntry>) -> Seq<char>
    decreases entries.len(),
{
    if entries.len() == 0 {
        Seq::empty()
    } else {
        entry_lines(entries.drop_last()) + entry_line(entries.last())
    }
}

/// The list of checkpoints as it is shown.
pub open spec fn listing(entries: Seq<CheckpointEntry>) -> Seq<char> {
    if entries.len() == 0 {
        "No checkpoints."@
    } else {
        "Checkpoints (newest first):\n"@ + entry_lines(
            if entries.len() <= LISTED_CHECKPOINTS {
                entries
            } else {
                entries.take(LISTED_CHECKPOINTS as int)
            },
        )
    }
}

/// Writes the list of checkpoints.
pub fn listing_text(entries: &[CheckpointEntry]) -> (r: String)
    ensures
        r@ == listing(entries@),
{
    if entries.len() == 0 {
        return "No checkpoints.".to_owned();
    }
    let mut out: String = "Checkpoints (newest first):\n".to_owned();
    let shown: usize = if entries.len() <= LISTED_CHECKPOINTS {
        entries.len()
    } else {
        LISTED_CHECKPOINTS
    };
    let ghost head = out@;
    let ghost all = entries@;
    let mut i: usize = 0;
    assert(head + entry_lines(all.take(0)) =~= head);
    while i < shown
        invariant
            i <= shown <= entries@.len(),
            all == entries@,
            out@ == head + entry_lines(all.take(i as int)),
        decreases shown - i,
    {
        let ghost start = out@;
        let e: &CheckpointEntry = &entries[i];
        assert(all.take(i + 1).drop_last() =~= all.take(i as int));
        assert(all.take(i + 1).last() == *e);
        out.append("- ");
        out.append(e.id.as_str());
        out.append(" [");
        out.append(e.label.as_str());
        out.append("] ");
        out.append(e.path.as_str());
        if e.existed {
            out.append("");
        } else {
            out.append(" (created)");
        }
        out.append("\n");
        assert(out@ =~= start + entry_line(*e));
        assert(start + entry_line(*e) =~= head + (entry_lines(all.take(i as int)) + entry_line(
            *e,
        )));
        i = i + 1;
    }
    proof {
        if entries@.len() <= LISTED_CHECKPOINTS {
            assert(all.take(i as int) =~= all);
        }
    }
    out
}

// ---------------------------------------------------------------------------
// Laws of the requests
// ---------------------------------------------------------------------------

/// An id that could lead out of the store is refused: one with a slash of either kind, with two
/// dots in a row, or without characters. Every other is safe.
pub proof fn law_ids_cannot_leave_the_store(id: Seq<char>, before: Seq<char>, after: Seq<char>)
    ensures
        id == before + "/"@ + after ==> !is_safe_id(id),
        id == before + "\\"@ + after ==> !is_safe_id(id),
        id == before + ".."@ + after ==> !is_safe_id(id),
        id.len() == 0 ==> !is_safe_id(id),
        id.len() > 0 && !id.contains('/') && !id.contains('\\') && !id.contains('.')
            ==> is_safe_id(id),
{
    text::lemma_contains_middle(before, "/"@, after);
    text::lemma_contains_middle(before, "\\"@, after);
    text::lemma_contains_middle(before, ".."@, after);
    reveal_strlit("/");
    reveal_strlit("\\");
    reveal_strlit("..");
    if text::contains(id, "/"@) {
        let at = choose|at: int| #[trigger] text::occurs_at(id, "/"@, at);
        assert(id.subrange(at, at + 1)[0] == id[at]);
        assert(id[at] == '/');
    }
    if text::contains(id, "\\"@) {
        let at = choose|at: int| #[trigger] text::occurs_at(id, "\\"@, at);
        assert(id.subrange(at, at + 1)[0] == id[at]);
        assert(id[at] == '\\');
    }
    if text::contains(id, ".."@) {
        let at = choose|at: int| #[trigger] text::occurs_at(id, ".."@, at);
        assert(id.subrange(at, at + 2)[0] == id[at]);
        assert(id[at] == '.');
    }
}

/// A file that was there is written back and one that was not is removed. Where files are kept
/// within a directory, a link is never followed, and what has no directory is left alone; else
/// the path is taken as it was recorded.
pub proof fn law_restore_stays_inside(
    plan: RestorePlan,
    meta: Meta,
    is_symlink: bool,
    parent: Option<Seq<char>>,
    confined: bool,
)
    requires
        brings_back(plan, meta, confined, is_symlink, parent),
    ensures
        meta.existed <==> plan is Write,
        !confined ==> match plan {
            RestorePlan::Write(step) => step is AsRecorded,
            RestorePlan::Remove(step) => step is AsRecorded,
        },
        confined && meta.existed && is_symlink ==> refuses(plan),
        confined && meta.existed && !is_symlink ==> (plan matches RestorePlan::Write(
            RestoreStep::Resolve { path },
        ) && path@ == meta.path@),
        confined && !meta.existed && parent is None ==> refuses(plan),
        confined && !meta.existed ==> (parent matches Some(p) ==> (plan
            matches RestorePlan::Remove(RestoreStep::Resolve { path }) && path@ == p)),
{
}

/// What is said of a file that came back names the file, and the checkpoint where there was
/// something to do.
pub proof fn law_restore_is_told(path: Seq<char>, id: Seq<char>, outcome: RestoreOutcome)
    ensures
        text::contains(restored_message(path, id, outcome), path),
        outcome != RestoreOutcome::AlreadyAbsent ==> text::contains(
            restored_message(path, id, outcome),
            id,
        ),
        text::starts_with(restored_message(path, id, RestoreOutcome::Written), "Restored "@),
        text::starts_with(restored_message(path, id, RestoreOutcome::Removed), "Removed "@),
        text::ends_with(
            restored_message(path, id, RestoreOutcome::AlreadyAbsent),
            " is already absent."@,
        ),
{
    let written = "Restored "@ + path + " from checkpoint "@;
    let removed = "Removed "@ + path + " (it was created after checkpoint "@;
    text::lemma_contains_middle(written, id, "."@);
    text::lemma_contains_middle(removed, id, ")."@);
    text::lemma_contains_middle("Restored "@, path, " from checkpoint "@ + id + "."@);
    text::lemma_contains_middle(
        "Removed "@,
        path,
        " (it was created after checkpoint "@ + id + ")."@,
    );
    assert(written + id + "."@ =~= "Restored "@ + path + (" from checkpoint "@ + id + "."@));
    assert(removed + id + ")."@ =~= "Removed "@ + path + (" (it was created after checkpoint "@
        + id + ")."@));
    let none = Seq::<char>::empty();
    text::lemma_contains_middle(none, path, " is already absent."@);
    assert(none + path + " is already absent."@ =~= path + " is already absent."@);
    assert((written + id + "."@).subrange(0, "Restored "@.len() as int) =~= "Restored "@);
    assert((removed + id + ")."@).subrange(0, "Removed "@.len() as int) =~= "Removed "@);
    let gone = path + " is already absent."@;
    let end = " is already absent."@;
    assert(gone.subrange(gone.len() - end.len(), gone.len() as int) =~= end);
}

/// What is not asked for otherwise is the list.
pub proof fn law_action_is_what_was_asked(args: JsonView, action: Seq<char>)
    ensures
        args.text_at("action"@) == Some(action) ==> action_of(args) == action,
        args.text_at("action"@) is None ==> action_of(args) == "list"@,
{
}

proof fn lemma_lines_hold(entries: Seq<CheckpointEntry>, i: int)
    requires
        0 <= i < entries.len(),
    ensures
        text::contains(entry_lines(entries), entry_line(entries[i])),
    decreases entries.len(),
{
    let head = entry_lines(entries.drop_last());
    if i == entries.len() - 1 {
        text::lemma_contains_end(head, entry_line(entries.last()));
    } else {
        lemma_lines_hold(entries.drop_last(), i);
        text::lemma_contains_longer(head, entry_line(entries.last()), entry_line(entries[i]));
    }
}

/// The list shows each of the first fifty checkpoints, with its id, its label and its path, and
/// says of a file that it was new; without checkpoints it says so.
pub proof fn law_listing_shows_checkpoints(entries: Seq<CheckpointEntry>, i: int)
    ensures
        entries.len() == 0 ==> listing(entries) == "No checkpoints."@,
        0 <= i < entries.len() && i < 50 ==> text::contains(
            listing(entries),
            "- "@ + entries[i].id@ + " ["@ + entries[i].label@ + "] "@ + entries[i].path@ + (
            if entries[i].existed {
                ""@
            } else {
                " (created)"@
            }) + "\n"@,
        ),
        entries.len() > 50 ==> listing(entries) == listing(entries.take(50)),
{
    if 0 <= i < entries.len() && i < 50 {
        let shown = if entries.len() <= 50 {
            entries
        } else {
            entries.take(50)
        };
        assert(shown[i] == entries[i]);
        lemma_lines_hold(shown, i);
        text::lemma_contains_behind(
            "Checkpoints (newest first):\n"@,
            entry_lines(shown),
            entry_line(entries[i]),
        );
    }
}

/// A file is saved as it is, where it is to be saved, and a file that is not there as nothing.
pub proof fn law_backup_is_what_is_there(files: Files, path: Seq<char>, content: Seq<u8>)
    ensures
        backed_up(files, path, false) is None,
        files.contains_key(path) && files[path] == content ==> backed_up(files, path, true) == Some(
            content,
        ),
        !files.contains_key(path) ==> backed_up(files, path, true) is None,
{
}

/// A checkpoint is restored from only where its id is safe and it is there and can be read; what
/// is found is what was stored.
pub proof fn law_only_stored_checkpoints_are_found(
    id: Seq<char>,
    lookup: Lookup,
    r: Result<Meta, String>,
)
    requires
        is_found(id, lookup, r),
    ensures
        r is Ok <==> is_safe_id(id) && lookup is Found,
        r matches Ok(meta) ==> lookup == Lookup::Found(meta),
        is_safe_id(id) ==> (lookup matches Lookup::Missing(why) ==> (r matches Err(e)
            && text::contains(e@, id) && text::ends_with(e@, why@))),
        is_safe_id(id) ==> (lookup matches Lookup::Unreadable(why) ==> (r matches Err(e)
            && text::ends_with(e@, why@))),
{
    if let Lookup::Missing(why) = lookup {
        let said = "checkpoint "@ + id + " not found: "@ + why@;
        text::lemma_contains_middle("checkpoint "@, id, " not found: "@ + why@);
        assert(said =~= "checkpoint "@ + id + (" not found: "@ + why@));
        assert(said.subrange(said.len() - why@.len(), said.len() as int) =~= why@);
    }
    if let Lookup::Unreadable(why) = lookup {
        let said = "checkpoint meta parse: "@ + why@;
        assert(said.subrange(said.len() - why@.len(), said.len() as int) =~= why@);
    }
}

/// The checkpoints are listed where nothing else is asked for, one is restored where it is named,
/// and any other action is refused by its name.
pub proof fn law_requests_are_read_as_given(
    args: JsonView,
    r: Result<CheckpointRequest, String>,
    action: Seq<char>,
    asked: Seq<char>,
)
    requires
        is_request(args, r),
    ensures
        args.text_at("action"@) is None || args.text_at("action"@) == Some("list"@) ==> (r
            matches Ok(CheckpointRequest::List)),
        args.text_at("action"@) == Some("restore"@) && args.text_at("id"@) == Some(asked) ==> (r
            matches Ok(CheckpointRequest::Restore { id }) && id@ == asked),
        args.text_at("action"@) == Some("restore"@) && args.text_at("id"@) is None ==> r is Err,
        args.text_at("action"@) == Some(action) && action != "list"@ && action != "restore"@ ==> (r
            matches Err(e) && text::contains(e@, action)),
{
    reveal_strlit("list");
    reveal_strlit("restore");
    assert("list"@.len() == 4 && "restore"@.len() == 7);
    text::lemma_contains_middle("unknown action '"@, action, "' (use list or restore)"@);
}

} // verus!
