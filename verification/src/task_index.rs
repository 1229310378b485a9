//! The index of the sub-agent tasks that run: a concurrent map by task id.
use vstd::prelude::*;
use dashmap::DashMap;
use crate::text;

verus! {

/// How far a task has come.
#[derive(Debug, Clone, Copy, PartialEq, Eq, Structural)]
pub enum TaskStatus {
    Pending,
    Running,
    Completed,
    Failed,
    Cancelled,
}

/// What is known of a task of a sub-agent.
#[derive(Debug)]
pub struct TaskRecord {
    pub parent_chat_id: String,
    pub child_chat_id: String,
    pub prompt: String,
    pub agent_name: Option<String>,
    pub status: TaskStatus,
    pub result: Option<String>,
    pub error: Option<String>,
}

impl Clone for TaskRecord {
    fn clone(&self) -> (r: Self)
        ensures
            r == *self,
    {
        TaskRecord {
            parent_chat_id: self.parent_chat_id.clone(),
            child_chat_id: self.child_chat_id.clone(),
            prompt: self.prompt.clone(),
            agent_name: self.agent_name.clone(),
            status: self.status,
            result: self.result.clone(),
            error: self.error.clone(),
        }
    }
}

/// The concurrent map of the crate `dashmap`. What it holds is `tasks_in`.
#[verifier::external_type_specification]
#[verifier::external_body]
#[verifier::reject_recursive_types(K)]
#[verifier::reject_recursive_types(V)]
#[verifier::reject_recursive_types(S)]
pub struct ExDashMap<K, V, S>(dashmap::DashMap<K, V, S>);

/// What a map of tasks holds: for each id that is a key, its record.
pub uninterp spec fn tasks_in(m: DashMap<String, TaskRecord>) -> Map<Seq<char>, TaskRecord>;

/// No tasks.
pub open spec fn no_tasks() -> Map<Seq<char>, TaskRecord> {
    Map::empty()
}

/// `DashMap::new`: a map that holds nothing.
#[verifier::external_body]
fn map_new() -> (r: DashMap<String, TaskRecord>)
    ensures
        tasks_in(r) == no_tasks(),
{
    DashMap::new()
}

/// Whether there are `n` tasks.
pub open spec fn is_count(n: nat, tasks: Map<Seq<char>, TaskRecord>) -> bool {
    tasks.dom().finite() && n == tasks.len()
}

/// `DashMap::len`: the number of keys.
#[verifier::external_body]
fn map_len(m: &DashMap<String, TaskRecord>) -> (r: usize)
    ensures
        is_count(r as nat, tasks_in(*m)),
{
    m.len()
}

/// `DashMap::insert`: puts the record under the id, in place of one that was there, which it
/// gives back.
#[verifier::external_body]
fn map_insert(m: &mut DashMap<String, TaskRecord>, id: String, record: TaskRecord) -> (r: Option<
    TaskRecord,
>)
    ensures
        tasks_in(*final(m)) == tasks_in(*old(m)).insert(id@, record),
        r == if tasks_in(*old(m)).contains_key(id@) {
            Some(tasks_in(*old(m))[id@])
        } else {
            None
        },
{
    m.insert(id, record)
}

/// `DashMap::remove`: takes the id out with its record, which it gives back.
#[verifier::external_body]
fn map_remove(m: &mut DashMap<String, TaskRecord>, id: &str) -> (r: Option<TaskRecord>)
    ensures
        tasks_in(*final(m)) == tasks_in(*old(m)).remove(id@),
        r == if tasks_in(*old(m)).contains_key(id@) {
            Some(tasks_in(*old(m))[id@])
        } else {
            None
        },
{
    m.remove(id).map(|entry| entry.1)
}

/// `DashMap::get`: the record under the id, of which a clone is handed out.
#[verifier::external_body]
fn map_get(m: &DashMap<String, TaskRecord>, id: &str) -> (r: Option<TaskRecord>)
    ensures
        r == if tasks_in(*m).contains_key(id@) {
            Some(tasks_in(*m)[id@])
        } else {
            None
        },
{
    m.get(id).map(|entry| entry.value().clone())
}

/// Whether the list holds each entry of the map once, and nothing else.
pub open spec fn lists_entries(
    list: Seq<(String, TaskRecord)>,
    tasks: Map<Seq<char>, TaskRecord>,
) -> bool {
    &&& forall|i: int|
        0 <= i < list.len() ==> tasks.contains_key((#[trigger] list[i]).0@) && tasks[list[i].0@]
            == list[i].1
    &&& forall|i: int, j: int|
        0 <= i < j < list.len() ==> (#[trigger] list[i]).0@ != (#[trigger] list[j]).0@
    &&& forall|id: Seq<char>| #[trigger]
        tasks.contains_key(id) ==> exists|i: int|
            0 <= i < list.len() && (#[trigger] list[i]).0@ == id
}

/// `DashMap::iter`: walks over every entry once, of which a clone is handed out. The order
/// is left open.
#[verifier::external_body]
fn map_entries(m: &DashMap<String, TaskRecord>) -> (r: Vec<(String, TaskRecord)>)
    ensures
        lists_entries(r@, tasks_in(*m)),
{
    m.iter().map(|entry| (entry.key().clone(), entry.value().clone())).collect()
}

/// The tasks of the chat.
pub open spec fn tasks_of(tasks: Map<Seq<char>, TaskRecord>, parent_chat_id: Seq<char>) -> Map<
    Seq<char>,
    TaskRecord,
> {
    tasks.restrict(
        Set::new(
            |id: Seq<char>|
                tasks.contains_key(id) && tasks[id].parent_chat_id@ == parent_chat_id,
        ),
    )
}

/// The tasks that run, by their ids.
pub struct TaskIndex {
    tasks: DashMap<String, TaskRecord>,
}

impl View for TaskIndex {
    type V = Map<Seq<char>, TaskRecord>;

    closed spec fn view(&self) -> Map<Seq<char>, TaskRecord> {
        tasks_in(self.tasks)
    }
}

impl TaskIndex {
    /// An index without tasks.
    pub fn new() -> (r: Self)
        ensures
            r@ == no_tasks(),
    {
        TaskIndex { tasks: map_new() }
    }

    /// How many tasks run.
    pub fn len(&self) -> (r: usize)
        ensures
            is_count(r as nat, self@),
    {
        map_len(&self.tasks)
    }

    /// Puts the task under the id, in place of one that was there.
    pub fn put(&mut self, id: &str, record: TaskRecord)
        ensures
            final(self)@ == old(self)@.insert(id@, record),
    {
        let _replaced: Option<TaskRecord> = map_insert(&mut self.tasks, id.to_owned(), record);
    }

    /// Takes the task out.
    pub fn remove(&mut self, id: &str) -> (r: Option<TaskRecord>)
        ensures
            final(self)@ == old(self)@.remove(id@),
            r == if old(self)@.contains_key(id@) {
                Some(old(self)@[id@])
            } else {
                None
            },
    {
        map_remove(&mut self.tasks, id)
    }

    /// The task with the id.
    pub fn get(&self, id: &str) -> (r: Option<TaskRecord>)
        ensures
            r == if self@.contains_key(id@) {
                Some(self@[id@])
            } else {
                None
            },
    {
        map_get(&self.tasks, id)
    }

    /// The tasks of the chat, each once, in no order.
    pub fn of_parent(&self, parent_chat_id: &str) -> (r: Vec<(String, TaskRecord)>)
        ensures
            lists_entries(r@, tasks_of(self@, parent_chat_id@)),
    {
        let all: Vec<(String, TaskRecord)> = map_entries(&self.tasks);
        let ghost given = all@;
        let ghost tasks = self@;
        let mut kept: Vec<(String, TaskRecord)> = Vec::new();
        let ghost mut from: Seq<int> = Seq::empty();
        for entry in it: all
            invariant
                it.seq() == given,
                lists_entries(given, tasks),
                kept@.len() == from.len(),
                forall|k: int|
                    0 <= k < from.len() ==> 0 <= #[trigger] from[k] < it.index() && kept@[k]
                        == given[from[k]] && given[from[k]].1.parent_chat_id@ == parent_chat_id@,
                forall|k: int, l: int|
                    0 <= k < l < from.len() ==> #[trigger] from[k] < #[trigger] from[l],
                forall|i: int|
                    0 <= i < it.index() && (#[trigger] given[i]).1.parent_chat_id@
                        == parent_chat_id@ ==> exists|k: int|
                        0 <= k < from.len() && #[trigger] from[k] == i,
        {
            let ghost i = it.index();
            let ghost before = from;
            if text::same(entry.1.parent_chat_id.as_str(), parent_chat_id) {
                kept.push(entry);
                proof {
                    from = from.push(i);
                    assert(from[from.len() - 1] == i);
                    assert forall|j: int|
                        0 <= j < i + 1 && (#[trigger] given[j]).1.parent_chat_id@
                            == parent_chat_id@ implies exists|k: int|
                        0 <= k < from.len() && #[trigger] from[k] == j by {
                        if j < i {
                            let k = choose|k: int| 0 <= k < before.len() && #[trigger] before[k] == j;
                            assert(from[k] == j);
                        }
                    }
                }
            }
        }
        proof {
            let mine = tasks_of(tasks, parent_chat_id@);
            assert forall|i: int| 0 <= i < kept@.len() implies mine.contains_key(
                (#[trigger] kept@[i]).0@,
            ) && mine[kept@[i].0@] == kept@[i].1 by {
                assert(kept@[i] == given[from[i]]);
            }
            assert forall|i: int, j: int| 0 <= i < j < kept@.len() implies (#[trigger] kept@[i]).0@
                != (#[trigger] kept@[j]).0@ by {
                assert(kept@[i] == given[from[i]] && kept@[j] == given[from[j]]);
                assert(from[i] < from[j]);
            }
            assert forall|id: Seq<char>| #[trigger] mine.contains_key(id) implies exists|i: int|
                0 <= i < kept@.len() && (#[trigger] kept@[i]).0@ == id by {
                assert(tasks.contains_key(id));
                let j = choose|j: int| 0 <= j < given.len() && (#[trigger] given[j]).0@ == id;
                let k = choose|k: int| 0 <= k < from.len() && #[trigger] from[k] == j;
                assert(kept@[k].0@ == id);
            }
        }
        kept
    }
}

} // verus!
