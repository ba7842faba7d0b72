//! The in-memory task store: a bounded map from task ids to task records.

use crate::json;
use crate::json::{Json, JsonObject, JsonView};
use crate::text::same_text;
use vstd::prelude::*;
use vstd::string::*;

verus! {

/// Ceiling on the tasks in memory, so that a long-lived daemon does not grow without
/// bound. The oldest finished task makes room when it is reached.
pub const MAX_TASKS: usize = 10_000;

/// How far a task has come.
#[derive(Debug, Clone, Copy, PartialEq, Eq, Structural)]
pub enum TaskStatus {
    Working,
    Completed,
    Failed,
}

impl TaskStatus {
    /// The name of the status on the wire.
    pub open spec fn name(self) -> Seq<char> {
        match self {
            TaskStatus::Working => "working"@,
            TaskStatus::Completed => "completed"@,
            TaskStatus::Failed => "failed"@,
        }
    }

    /// Whether the task is over.
    pub open spec fn terminal(self) -> bool {
        self != TaskStatus::Working
    }

    /// The name of the status on the wire.
    pub fn as_str(&self) -> (name: &'static str)
        ensures
            name@ == self.name(),
    {
        match self {
            TaskStatus::Working => "working",
            TaskStatus::Completed => "completed",
            TaskStatus::Failed => "failed",
        }
    }
}

/// Record of an inbound task.
#[derive(Debug)]
pub struct TaskRecord {
    pub id: String,
    pub status: TaskStatus,
    /// What the task produced; filled in on completion.
    pub artifacts: Vec<Json>,
    /// Unix seconds of the last change, by which the oldest task is found.
    pub updated_at: u64,
}

/// The mathematical model of a task record.
#[verifier::ext_equal]
pub struct TaskView {
    pub id: Seq<char>,
    pub status: TaskStatus,
    pub artifacts: Seq<JsonView>,
    pub updated_at: u64,
}

impl View for TaskRecord {
    type V = TaskView;

    open spec fn view(&self) -> TaskView {
        TaskView {
            id: self.id@,
            status: self.status,
            artifacts: json::items_view(self.artifacts@),
            updated_at: self.updated_at,
        }
    }
}

impl TaskView {
    /// The record as JSON.
    pub open spec fn json(self) -> JsonView {
        JsonView::Object(
            Map::empty().insert("id"@, JsonView::Text(self.id)).insert(
                "status"@,
                JsonView::Text(self.status.name()),
            ).insert("artifacts"@, JsonView::Array(self.artifacts)).insert(
                "updated_at"@,
                JsonView::Integer(self.updated_at as int),
            ),
        )
    }
}

impl Clone for TaskRecord {
    fn clone(&self) -> (copy: TaskRecord)
        ensures
            copy@ == self@,
    {
        TaskRecord {
            id: self.id.clone(),
            status: self.status,
            artifacts: json::clone_items(&self.artifacts),
            updated_at: self.updated_at,
        }
    }
}

impl TaskRecord {
    /// The record as JSON.
    pub fn to_json(&self) -> (value: Json)
        ensures
            value@ == self@.json(),
    {
        Json::Object(
            JsonObject::new().with("id", Json::text(self.id.as_str())).with(
                "status",
                Json::text(self.status.as_str()),
            ).with("artifacts", Json::Array(json::clone_items(&self.artifacts))).with(
                "updated_at",
                Json::unsigned(self.updated_at),
            ),
        )
    }
}

/// The tasks by their ids.
pub open spec fn records_view(records: Seq<TaskRecord>) -> Map<Seq<char>, TaskView>
    decreases records.len(),
{
    if records.len() == 0 {
        Map::empty()
    } else {
        records_view(records.drop_last()).insert(records.last().id@, records.last()@)
    }
}

/// Whether no id occurs twice.
pub open spec fn distinct_ids(records: Seq<TaskRecord>) -> bool {
    forall|i: int, j: int|
        0 <= i < j < records.len() ==> (#[trigger] records[i]).id@ != (#[trigger] records[j]).id@
}

proof fn lemma_records_view(records: Seq<TaskRecord>)
    requires
        distinct_ids(records),
    ensures
        records_view(records).dom().finite(),
        records_view(records).len() == records.len(),
        forall|i: int|
            0 <= i < records.len() ==> records_view(records).contains_key(
                (#[trigger] records[i]).id@,
            ) && records_view(records)[records[i].id@] == records[i]@,
        forall|id: Seq<char>| #[trigger]
            records_view(records).contains_key(id) ==> exists|i: int|
                0 <= i < records.len() && (#[trigger] records[i]).id@ == id,
    decreases records.len(),
{
    if records.len() > 0 {
        let rest = records.drop_last();
        lemma_records_view(rest);
        assert(!records_view(rest).contains_key(records.last().id@)) by {
            if records_view(rest).contains_key(records.last().id@) {
                let i = choose|i: int|
                    0 <= i < rest.len() && (#[trigger] rest[i]).id@ == records.last().id@;
                assert(records[i].id@ == records[records.len() - 1].id@);
            }
        }
        assert forall|i: int| 0 <= i < records.len() implies records_view(records).contains_key(
            (#[trigger] records[i]).id@,
        ) && records_view(records)[records[i].id@] == records[i]@ by {
            if i < records.len() - 1 {
                assert(records[i] == rest[i]);
                assert(records[i].id@ != records[records.len() - 1].id@);
            }
        }
        assert forall|id: Seq<char>| #[trigger]
            records_view(records).contains_key(id) implies exists|i: int|
            0 <= i < records.len() && (#[trigger] records[i]).id@ == id by {
            if id == records.last().id@ {
                assert(records[records.len() - 1].id@ == id);
            } else {
                assert(records_view(rest).contains_key(id));
                let i = choose|i: int| 0 <= i < rest.len() && (#[trigger] rest[i]).id@ == id;
                assert(records[i].id@ == id);
            }
        }
    }
}

/// Two lists of records with the same content under the same ids are the same map.
proof fn lemma_records_same(records: Seq<TaskRecord>, map: Map<Seq<char>, TaskView>)
    requires
        distinct_ids(records),
        forall|i: int|
            0 <= i < records.len() ==> map.contains_key((#[trigger] records[i]).id@)
                && map[records[i].id@] == records[i]@,
        forall|id: Seq<char>| #[trigger]
            map.contains_key(id) ==> exists|i: int|
                0 <= i < records.len() && (#[trigger] records[i]).id@ == id,
    ensures
        records_view(records) == map,
{
    lemma_records_view(records);
    assert forall|id: Seq<char>| #[trigger] records_view(records).contains_key(id)
        == map.contains_key(id) by {
        if map.contains_key(id) {
            let i = choose|i: int| 0 <= i < records.len() && (#[trigger] records[i]).id@ == id;
            assert(records_view(records).contains_key(records[i].id@));
        }
    }
    assert forall|id: Seq<char>| #[trigger] map.contains_key(id) implies records_view(records)[id]
        == map[id] by {
        let i = choose|i: int| 0 <= i < records.len() && (#[trigger] records[i]).id@ == id;
        assert(records_view(records)[records[i].id@] == records[i]@);
    }
    assert(records_view(records) =~= map);
}

/// Tasks by their ids. Each id occurs once.
pub struct TaskMap {
    records: Vec<TaskRecord>,
}

impl View for TaskMap {
    type V = Map<Seq<char>, TaskView>;

    closed spec fn view(&self) -> Map<Seq<char>, TaskView> {
        records_view(self.records@)
    }
}

impl TaskMap {
    #[verifier::type_invariant]
    spec fn well_formed(&self) -> bool {
        distinct_ids(self.records@)
    }

    /// A map without tasks.
    pub fn new() -> (tasks: TaskMap)
        ensures
            tasks@ == Map::<Seq<char>, TaskView>::empty(),
    {
        TaskMap { records: Vec::new() }
    }

    /// The number of tasks.
    pub fn len(&self) -> (count: usize)
        ensures
            count == self@.len(),
            self@.dom().finite(),
    {
        proof {
            use_type_invariant(self);
            lemma_records_view(self.records@);
        }
        self.records.len()
    }

    /// Where the task with an id stands.
    fn position(&self, id: &str) -> (found: Option<usize>)
        ensures
            match found {
                Some(i) => i < self.records@.len() && self.records@[i as int].id@ == id@
                    && self@.contains_key(id@) && self@[id@] == self.records@[i as int]@,
                None => !self@.contains_key(id@),
            },
    {
        proof {
            use_type_invariant(self);
            lemma_records_view(self.records@);
        }
        let mut i: usize = 0;
        while i < self.records.len()
            invariant
                i <= self.records.len(),
                distinct_ids(self.records@),
                self@ == records_view(self.records@),
                forall|k: int|
                    0 <= k < self.records@.len() ==> self@.contains_key(
                        (#[trigger] self.records@[k]).id@,
                    ) && self@[self.records@[k].id@] == self.records@[k]@,
                forall|k: int| 0 <= k < i ==> (#[trigger] self.records@[k]).id@ != id@,
            decreases self.records.len() - i,
        {
            if same_text(self.records[i].id.as_str(), id) {
                return Some(i);
            }
            i += 1;
        }
        None
    }

    /// Whether there is a task with an id.
    pub fn contains_key(&self, id: &str) -> (yes: bool)
        ensures
            yes == self@.contains_key(id@),
    {
        self.position(id).is_some()
    }

    /// The task with an id.
    pub fn get(&self, id: &str) -> (record: Option<&TaskRecord>)
        ensures
            match record {
                Some(task) => self@.contains_key(id@) && self@[id@] == task@,
                None => !self@.contains_key(id@),
            },
    {
        match self.position(id) {
            Some(i) => Some(&self.records[i]),
            None => None,
        }
    }

    /// Adds a task under its id, in place of the one that is there.
    pub fn insert(&mut self, record: TaskRecord)
        ensures
            final(self)@ == old(self)@.insert(record@.id, record@),
    {
        let ghost before = self.records@;
        proof {
            use_type_invariant(&*self);
            lemma_records_view(before);
        }
        let found: Option<usize> = self.position(record.id.as_str());
        let mut records: Vec<TaskRecord> = Vec::new();
        std::mem::swap(&mut records, &mut self.records);
        match found {
            Some(i) => {
                let ghost after = before.update(i as int, record);
                proof {
                    assert forall|id: Seq<char>| #[trigger]
                        records_view(before).insert(record@.id, record@).contains_key(
                            id,
                        ) implies exists|k: int|
                        0 <= k < after.len() && (#[trigger] after[k]).id@ == id by {
                        if id == record@.id {
                            assert(after[i as int].id@ == id);
                        } else {
                            assert(records_view(before).contains_key(id));
                            let k = choose|k: int|
                                0 <= k < before.len() && (#[trigger] before[k]).id@ == id;
                            assert(after[k].id@ == id);
                        }
                    }
                    assert(distinct_ids(after)) by {
                        assert forall|a: int, b: int| 0 <= a < b < after.len() implies (
                        #[trigger] after[a]).id@ != (#[trigger] after[b]).id@ by {
                            assert(before[a].id@ != before[b].id@);
                        }
                    }
                    assert forall|k: int| 0 <= k < after.len() implies records_view(before).insert(
                        record@.id,
                        record@,
                    ).contains_key((#[trigger] after[k]).id@) && records_view(before).insert(
                        record@.id,
                        record@,
                    )[after[k].id@] == after[k]@ by {
                        if k != i {
                            assert(after[k] == before[k]);
                            assert(after[k].id@ != after[i as int].id@);
                        }
                    }
                    lemma_records_same(after, records_view(before).insert(record@.id, record@));
                }
                records.set(i, record);
            },
            None => {
                let ghost after = before.push(record);
                proof {
                    assert(after.drop_last() =~= before);
                    assert forall|a: int, b: int| 0 <= a < b < after.len() implies (
                    #[trigger] after[a]).id@ != (#[trigger] after[b]).id@ by {
                        if b == before.len() {
                            assert(records_view(before).contains_key(before[a].id@));
                        } else {
                            assert(before[a].id@ != before[b].id@);
                        }
                    }
                }
                records.push(record);
            },
        }
        self.records = records;
    }

    /// Takes the task with an id away, where there is one.
    pub fn remove(&mut self, id: &str)
        ensures
            final(self)@ == old(self)@.remove(id@),
    {
        let ghost before = self.records@;
        proof {
            use_type_invariant(&*self);
            lemma_records_view(before);
        }
        let found: Option<usize> = self.position(id);
        let mut records: Vec<TaskRecord> = Vec::new();
        std::mem::swap(&mut records, &mut self.records);
        match found {
            Some(i) => {
                let ghost after = before.remove(i as int);
                proof {
                    assert forall|a: int, b: int| 0 <= a < b < after.len() implies (
                    #[trigger] after[a]).id@ != (#[trigger] after[b]).id@ by {
                        let x = if a < i { a } else { a + 1 };
                        let y = if b < i { b } else { b + 1 };
                        assert(after[a] == before[x] && after[b] == before[y]);
                    }
                    assert forall|k: int| 0 <= k < after.len() implies records_view(before).remove(
                        id@,
                    ).contains_key((#[trigger] after[k]).id@) && records_view(before).remove(
                        id@,
                    )[after[k].id@] == after[k]@ by {
                        let x = if k < i { k } else { k + 1 };
                        assert(after[k] == before[x]);
                        if x < i {
                            assert(before[x].id@ != before[i as int].id@);
                        } else {
                            assert(before[i as int].id@ != before[x].id@);
                        }
                    }
                    assert forall|key: Seq<char>| #[trigger]
                        records_view(before).remove(id@).contains_key(key) implies exists|k: int|
                        0 <= k < after.len() && (#[trigger] after[k]).id@ == key by {
                        assert(records_view(before).contains_key(key));
                        let x = choose|x: int|
                            0 <= x < before.len() && (#[trigger] before[x]).id@ == key;
                        let k = if x < i { x } else { x - 1 };
                        assert(after[k].id@ == key);
                    }
                    lemma_records_same(after, records_view(before).remove(id@));
                }
                let _ = records.remove(i);
            },
            None => {
                assert(records_view(before).remove(id@) =~= records_view(before));
            },
        }
        self.records = records;
    }
}

/// Whether some task is over.
pub open spec fn has_terminal(tasks: Map<Seq<char>, TaskView>) -> bool {
    exists|id: Seq<char>| #[trigger] tasks.contains_key(id) && tasks[id].status.terminal()
}

/// Whether a task is over and no other task that is over is older.
pub open spec fn is_oldest_terminal(tasks: Map<Seq<char>, TaskView>, id: Seq<char>) -> bool {
    &&& tasks.contains_key(id)
    &&& tasks[id].status.terminal()
    &&& forall|other: Seq<char>| #[trigger]
        tasks.contains_key(other) && tasks[other].status.terminal() ==> tasks[id].updated_at
            <= tasks[other].updated_at
}

/// Whether the tasks after an eviction follow from those before it: an oldest of the
/// tasks that are over is gone, and nothing where no task is over. Which one of
/// several that are equally old goes is left open.
pub open spec fn evicted(
    before: Map<Seq<char>, TaskView>,
    after: Map<Seq<char>, TaskView>,
) -> bool {
    if has_terminal(before) {
        exists|victim: Seq<char>| #[trigger]
            is_oldest_terminal(before, victim) && after == before.remove(victim)
    } else {
        after == before
    }
}

/// Takes an oldest of the tasks that are over away, where some task is over.
pub fn evict_oldest_terminal(tasks: &mut TaskMap)
    ensures
        evicted(old(tasks)@, final(tasks)@),
{
    let ghost records = tasks.records@;
    let ghost map = tasks@;
    proof {
        use_type_invariant(&*tasks);
        lemma_records_view(records);
    }
    let mut oldest: Option<usize> = None;
    let mut i: usize = 0;
    while i < tasks.records.len()
        invariant
            tasks.records@ == records,
            map == tasks@,
            i <= records.len(),
            match oldest {
                Some(o) => o < i && records[o as int].status.terminal() && forall|k: int|
                    0 <= k < i && (#[trigger] records[k]).status.terminal()
                        ==> records[o as int].updated_at <= records[k].updated_at,
                None => forall|k: int|
                    0 <= k < i ==> !(#[trigger] records[k]).status.terminal(),
            },
        decreases records.len() - i,
    {
        if tasks.records[i].status != TaskStatus::Working {
            match oldest {
                Some(o) => {
                    if tasks.records[i].updated_at < tasks.records[o].updated_at {
                        oldest = Some(i);
                    }
                },
                None => {
                    oldest = Some(i);
                },
            }
        }
        i += 1;
    }
    match oldest {
        Some(o) => {
            let victim: String = tasks.records[o].id.clone();
            proof {
                assert(map.contains_key(records[o as int].id@));
                assert forall|other: Seq<char>| #[trigger]
                    map.contains_key(other) && map[other].status.terminal() implies map[victim@].updated_at
                    <= map[other].updated_at by {
                    let k = choose|k: int|
                        0 <= k < records.len() && (#[trigger] records[k]).id@ == other;
                    assert(map[records[k].id@] == records[k]@);
                }
                assert(is_oldest_terminal(map, victim@));
            }
            tasks.remove(victim.as_str());
        },
        None => {
            assert forall|id: Seq<char>| #[trigger] map.contains_key(id) implies !map[id].status.terminal() by {
                let k = choose|k: int| 0 <= k < records.len() && (#[trigger] records[k]).id@ == id;
                assert(map[records[k].id@] == records[k]@);
            }
        },
    }
}

/// Whether the store can take another task: it has a free place, or a task that is
/// over and can make room.
pub open spec fn has_room(tasks: Map<Seq<char>, TaskView>) -> bool {
    tasks.len() < MAX_TASKS || has_terminal(tasks)
}

/// Whether the tasks after making room follow from those before: nothing changes
/// below the ceiling, and at the ceiling an eviction takes place.
pub open spec fn room_made(
    before: Map<Seq<char>, TaskView>,
    after: Map<Seq<char>, TaskView>,
) -> bool {
    if before.len() < MAX_TASKS {
        after == before
    } else {
        evicted(before, after)
    }
}

/// A task that has just been taken on.
pub open spec fn working_task(id: Seq<char>, now: u64) -> TaskView {
    TaskView { id, status: TaskStatus::Working, artifacts: Seq::empty(), updated_at: now }
}

/// Whether the tasks after taking a new one on follow from those before: room was
/// made, and the new task is working.
pub open spec fn reserved(
    before: Map<Seq<char>, TaskView>,
    after: Map<Seq<char>, TaskView>,
    id: Seq<char>,
    now: u64,
) -> bool {
    exists|made: Map<Seq<char>, TaskView>| #[trigger]
        room_made(before, made) && after == made.insert(id, working_task(id, now))
}

/// The tasks after one of them has completed with an artifact.
pub open spec fn with_completed(
    tasks: Map<Seq<char>, TaskView>,
    id: Seq<char>,
    artifact: JsonView,
    now: u64,
) -> Map<Seq<char>, TaskView> {
    if tasks.contains_key(id) {
        tasks.insert(
            id,
            TaskView {
                status: TaskStatus::Completed,
                artifacts: seq![artifact],
                updated_at: now,
                ..tasks[id]
            },
        )
    } else {
        tasks
    }
}

/// The tasks after one of them has failed.
pub open spec fn with_failed(
    tasks: Map<Seq<char>, TaskView>,
    id: Seq<char>,
    now: u64,
) -> Map<Seq<char>, TaskView> {
    if tasks.contains_key(id) {
        tasks.insert(id, TaskView { status: TaskStatus::Failed, updated_at: now, ..tasks[id] })
    } else {
        tasks
    }
}

/// Each task stands under its own id.
proof fn lemma_ids(tasks: &TaskMap, id: Seq<char>)
    requires
        tasks@.contains_key(id),
        distinct_ids(tasks.records@),
    ensures
        tasks@[id].id == id,
{
    lemma_records_view(tasks.records@);
    let i = choose|i: int|
        0 <= i < tasks.records@.len() && (#[trigger] tasks.records@[i]).id@ == id;
    assert(tasks@[tasks.records@[i].id@] == tasks.records@[i]@);
}

/// In-memory task store. It never holds more than [`MAX_TASKS`] tasks.
pub struct TaskStore {
    tasks: TaskMap,
}

impl View for TaskStore {
    type V = Map<Seq<char>, TaskView>;

    closed spec fn view(&self) -> Map<Seq<char>, TaskView> {
        self.tasks@
    }
}

impl TaskStore {
    #[verifier::type_invariant]
    spec fn bounded(&self) -> bool {
        self.tasks@.dom().finite() && self.tasks@.len() <= MAX_TASKS
    }

    /// A store without tasks.
    pub fn new() -> (store: TaskStore)
        ensures
            store@ == Map::<Seq<char>, TaskView>::empty(),
    {
        TaskStore { tasks: TaskMap::new() }
    }

    /// The number of tasks, which is never above the ceiling. Each of them stands under
    /// its own id.
    pub fn len(&self) -> (count: usize)
        ensures
            count == self@.len(),
            storable(self@),
    {
        proof {
            use_type_invariant(self);
            use_type_invariant(&self.tasks);
            assert forall|id: Seq<char>| #[trigger] self@.contains_key(id) implies self@[id].id
                == id by {
                lemma_ids(&self.tasks, id);
            }
        }
        self.tasks.len()
    }

    /// The task with an id.
    pub fn get(&self, id: &str) -> (record: Option<&TaskRecord>)
        ensures
            match record {
                Some(task) => self@.contains_key(id@) && self@[id@] == task@,
                None => !self@.contains_key(id@),
            },
    {
        self.tasks.get(id)
    }

    /// Takes a new task on, as working. An oldest of the tasks that are over makes
    /// room at the ceiling; where none is over, the store stays as it is and the
    /// answer is `false`.
    pub fn reserve(&mut self, id: &str, now: u64) -> (taken: bool)
        ensures
            taken == has_room(old(self)@),
            taken ==> reserved(old(self)@, final(self)@, id@, now),
            !taken ==> final(self)@ == old(self)@,
    {
        let ghost before = self@;
        proof {
            use_type_invariant(&*self);
        }
        let mut tasks: TaskMap = TaskMap::new();
        std::mem::swap(&mut tasks, &mut self.tasks);
        if tasks.len() >= MAX_TASKS {
            evict_oldest_terminal(&mut tasks);
            if tasks.len() >= MAX_TASKS {
                proof {
                    if has_terminal(before) {
                        let victim = choose|victim: Seq<char>| #[trigger]
                            is_oldest_terminal(before, victim) && tasks@ == before.remove(victim);
                        assert(tasks@.len() == before.len() - 1);
                    }
                }
                self.tasks = tasks;
                return false;
            }
        }
        let ghost made = tasks@;
        proof {
            if before.len() >= MAX_TASKS {
                assert(has_terminal(before)) by {
                    if !has_terminal(before) {
                        assert(made == before);
                    }
                }
            }
            assert(room_made(before, made));
        }
        let record: TaskRecord = TaskRecord {
            id: id.to_owned(),
            status: TaskStatus::Working,
            artifacts: Vec::new(),
            updated_at: now,
        };
        assert(record@ == working_task(id@, now));
        tasks.insert(record);
        self.tasks = tasks;
        true
    }

    /// Marks a task as completed, with the artifact it produced. Nothing happens
    /// where there is no such task.
    pub fn complete(&mut self, id: &str, artifact: Json, now: u64)
        ensures
            final(self)@ == with_completed(old(self)@, id@, artifact@, now),
    {
        proof {
            use_type_invariant(&*self);
        }
        let mut tasks: TaskMap = TaskMap::new();
        std::mem::swap(&mut tasks, &mut self.tasks);
        if tasks.contains_key(id) {
            proof {
                use_type_invariant(&tasks);
                lemma_ids(&tasks, id@);
            }
            let mut artifacts: Vec<Json> = Vec::new();
            artifacts.push(artifact);
            let record: TaskRecord = TaskRecord {
                id: id.to_owned(),
                status: TaskStatus::Completed,
                artifacts,
                updated_at: now,
            };
            proof {
                json::lemma_items_view(artifacts@);
                assert(record@.artifacts =~= seq![artifact@]);
            }
            tasks.insert(record);
        }
        self.tasks = tasks;
    }

    /// Marks a task as failed. Nothing happens where there is no such task.
    pub fn fail(&mut self, id: &str, now: u64)
        ensures
            final(self)@ == with_failed(old(self)@, id@, now),
    {
        proof {
            use_type_invariant(&*self);
        }
        let mut tasks: TaskMap = TaskMap::new();
        std::mem::swap(&mut tasks, &mut self.tasks);
        if let Some(task) = tasks.get(id) {
            proof {
                use_type_invariant(&tasks);
                lemma_ids(&tasks, id@);
            }
            let record: TaskRecord = TaskRecord {
                id: task.id.clone(),
                status: TaskStatus::Failed,
                artifacts: json::clone_items(&task.artifacts),
                updated_at: now,
            };
            tasks.insert(record);
        }
        self.tasks = tasks;
    }
}

impl Default for TaskStore {
    fn default() -> (store: TaskStore)
        ensures
            store@ == Map::<Seq<char>, TaskView>::empty(),
    {
        TaskStore::new()
    }
}

/// Whether each task stands under its own id.
pub open spec fn keyed_by_id(tasks: Map<Seq<char>, TaskView>) -> bool {
    forall|id: Seq<char>| #[trigger] tasks.contains_key(id) ==> tasks[id].id == id
}

/// Whether the tasks are such as a store can hold: each under its own id, and no more
/// than the ceiling.
pub open spec fn storable(tasks: Map<Seq<char>, TaskView>) -> bool {
    keyed_by_id(tasks) && tasks.dom().finite() && tasks.len() <= MAX_TASKS
}

/// Whether the tasks after a step follow from those before it, where the step is one
/// of the store's: a task is taken on, completed or failed, or nothing happens. The
/// task in the middle of attention is one that the step is not about.
pub open spec fn step_beside(
    before: Map<Seq<char>, TaskView>,
    after: Map<Seq<char>, TaskView>,
    id: Seq<char>,
) -> bool {
    ||| after == before
    ||| has_room(before) && exists|other: Seq<char>, now: u64|
        other != id && #[trigger] reserved(before, after, other, now)
    ||| exists|other: Seq<char>, artifact: JsonView, now: u64|
        other != id && after == #[trigger] with_completed(before, other, artifact, now)
    ||| exists|other: Seq<char>, now: u64|
        other != id && after == #[trigger] with_failed(before, other, now)
}

/// Whether states of the store follow from one another, by steps that are not about the
/// given task.
pub open spec fn steps_beside(states: Seq<Map<Seq<char>, TaskView>>, id: Seq<char>) -> bool {
    &&& states.len() > 0
    &&& forall|i: int|
        0 <= i < states.len() - 1 ==> #[trigger] step_beside(states[i], states[i + 1], id)
}

/// What an eviction does: it takes no task away but one, and that one is over and no
/// younger than any other that is over.
pub proof fn law_eviction(
    before: Map<Seq<char>, TaskView>,
    after: Map<Seq<char>, TaskView>,
    id: Seq<char>,
)
    requires
        evicted(before, after),
        before.contains_key(id),
    ensures
        after.contains_key(id) ==> after[id] == before[id],
        !after.contains_key(id) ==> is_oldest_terminal(before, id),
        before[id].status == TaskStatus::Working ==> after.contains_key(id),
        forall|other: Seq<char>|
            before.contains_key(other) && other != id && !after.contains_key(id)
                ==> #[trigger] after.contains_key(other),
        forall|other: Seq<char>| #[trigger]
            after.contains_key(other) ==> before.contains_key(other),
{
}

/// The store's steps keep it within its ceiling and each task under its own id.
pub proof fn law_storable(
    before: Map<Seq<char>, TaskView>,
    after: Map<Seq<char>, TaskView>,
    id: Seq<char>,
    artifact: JsonView,
    now: u64,
)
    requires
        storable(before),
    ensures
        reserved(before, after, id, now) && has_room(before) ==> storable(after),
        storable(with_completed(before, id, artifact, now)),
        storable(with_failed(before, id, now)),
{
    if reserved(before, after, id, now) && has_room(before) {
        let made = choose|made: Map<Seq<char>, TaskView>| #[trigger]
            room_made(before, made) && after == made.insert(id, working_task(id, now));
        assert(made.dom().finite() && made.len() < MAX_TASKS && keyed_by_id(made));
    }
}

/// What a step of the store may do about a task that it is not about: nothing, or take it
/// away to make room. That happens at the ceiling only, and only to a task that is over and
/// no younger than any other that is over. The step leaves the store storable.
pub proof fn law_step_beside(
    before: Map<Seq<char>, TaskView>,
    after: Map<Seq<char>, TaskView>,
    id: Seq<char>,
)
    requires
        step_beside(before, after, id),
    ensures
        after.contains_key(id) ==> before.contains_key(id) && after[id] == before[id],
        before.contains_key(id) && !after.contains_key(id) ==> before.len() >= MAX_TASKS
            && is_oldest_terminal(before, id),
        storable(before) ==> storable(after),
{
    if after == before {
    } else if has_room(before) && exists|other: Seq<char>, now: u64|
        other != id && #[trigger] reserved(before, after, other, now) {
        let (other, now) = choose|other: Seq<char>, now: u64|
            other != id && #[trigger] reserved(before, after, other, now);
        let made = choose|made: Map<Seq<char>, TaskView>| #[trigger]
            room_made(before, made) && after == made.insert(other, working_task(other, now));
        if before.len() >= MAX_TASKS && before.contains_key(id) {
            law_eviction(before, made, id);
        }
        if storable(before) {
            law_storable(before, after, other, JsonView::Null, now);
        }
    } else if exists|other: Seq<char>, artifact: JsonView, now: u64|
        other != id && after == #[trigger] with_completed(before, other, artifact, now) {
        let (other, artifact, now) = choose|other: Seq<char>, artifact: JsonView, now: u64|
            other != id && after == #[trigger] with_completed(before, other, artifact, now);
        if storable(before) {
            law_storable(before, after, other, artifact, now);
        }
    } else {
        let (other, now) = choose|other: Seq<char>, now: u64|
            other != id && after == #[trigger] with_failed(before, other, now);
        if storable(before) {
            law_storable(before, after, other, JsonView::Null, now);
        }
    }
}

/// A run without its last state is a run, and its last two states are a step.
proof fn lemma_shorter_run(states: Seq<Map<Seq<char>, TaskView>>, id: Seq<char>)
    requires
        steps_beside(states, id),
        states.len() > 1,
    ensures
        steps_beside(states.drop_last(), id),
        states.drop_last().last() == states[states.len() - 2],
        step_beside(states[states.len() - 2], states.last(), id),
{
    let rest = states.drop_last();
    assert forall|i: int| 0 <= i < rest.len() - 1 implies #[trigger] step_beside(
        rest[i],
        rest[i + 1],
        id,
    ) by {
        assert(step_beside(states[i], states[i + 1], id));
    }
    assert(step_beside(states[states.len() - 2], states[states.len() - 2 + 1], id));
}

/// A working task is not lost: whatever the store does about other tasks, one step
/// after the other, it stays as it is.
pub proof fn law_working_task_stays(states: Seq<Map<Seq<char>, TaskView>>, id: Seq<char>)
    requires
        steps_beside(states, id),
        states[0].contains_key(id),
        states[0][id].status == TaskStatus::Working,
    ensures
        states.last().contains_key(id),
        states.last()[id] == states[0][id],
        storable(states[0]) ==> storable(states.last()),
    decreases states.len(),
{
    if states.len() > 1 {
        lemma_shorter_run(states, id);
        law_working_task_stays(states.drop_last(), id);
        law_step_beside(states[states.len() - 2], states.last(), id);
    }
}

/// A task is kept as it is or not at all: where the store still holds it after any steps
/// about other tasks, it held it all along, and nothing about it has changed.
pub proof fn law_kept_task_is_unchanged(states: Seq<Map<Seq<char>, TaskView>>, id: Seq<char>)
    requires
        steps_beside(states, id),
        states.last().contains_key(id),
    ensures
        states[0].contains_key(id),
        states.last()[id] == states[0][id],
    decreases states.len(),
{
    if states.len() > 1 {
        lemma_shorter_run(states, id);
        law_step_beside(states[states.len() - 2], states.last(), id);
        law_kept_task_is_unchanged(states.drop_last(), id);
    }
}

/// What the states are called on the wire.
pub proof fn law_state_names()
    ensures
        TaskStatus::Working.name() == "working"@,
        TaskStatus::Completed.name() == "completed"@,
        TaskStatus::Failed.name() == "failed"@,
{
}

/// What is shown of a task: its id, its state, its artifacts and the time of its last
/// change, and nothing else.
pub proof fn law_shown_task(task: TaskView, key: Seq<char>)
    ensures
        task.json().get("id"@) == Some(JsonView::Text(task.id)),
        task.json().get("status"@) == Some(JsonView::Text(task.status.name())),
        task.json().get("artifacts"@) == Some(JsonView::Array(task.artifacts)),
        task.json().get("updated_at"@) == Some(JsonView::Integer(task.updated_at as int)),
        task.json().get(key) is Some ==> key == "id"@ || key == "status"@ || key == "artifacts"@
            || key == "updated_at"@,
{
    reveal_strlit("id");
    reveal_strlit("status");
    reveal_strlit("artifacts");
    reveal_strlit("updated_at");
    assert("id"@.len() == 2 && "status"@.len() == 6 && "artifacts"@.len() == 9
        && "updated_at"@.len() == 10);
}

/// Completing a task gives it the artifact, the state and the time, keeps its id and leaves
/// every other task alone. Where there is no such task, nothing happens.
pub proof fn law_completed(
    tasks: Map<Seq<char>, TaskView>,
    id: Seq<char>,
    artifact: JsonView,
    now: u64,
    other: Seq<char>,
)
    ensures
        ({
            let after = with_completed(tasks, id, artifact, now);
            &&& after.contains_key(other) <==> tasks.contains_key(other)
            &&& other != id && tasks.contains_key(other) ==> after[other] == tasks[other]
            &&& tasks.contains_key(id) ==> {
                &&& after[id].status == TaskStatus::Completed
                &&& after[id].artifacts == seq![artifact]
                &&& after[id].updated_at == now
                &&& after[id].id == tasks[id].id
            }
        }),
{
}

/// Failing a task gives it the state and the time, keeps its id and its artifacts and leaves
/// every other task alone. Where there is no such task, nothing happens.
pub proof fn law_failed(
    tasks: Map<Seq<char>, TaskView>,
    id: Seq<char>,
    now: u64,
    other: Seq<char>,
)
    ensures
        ({
            let after = with_failed(tasks, id, now);
            &&& after.contains_key(other) <==> tasks.contains_key(other)
            &&& other != id && tasks.contains_key(other) ==> after[other] == tasks[other]
            &&& tasks.contains_key(id) ==> {
                &&& after[id].status == TaskStatus::Failed
                &&& after[id].artifacts == tasks[id].artifacts
                &&& after[id].updated_at == now
                &&& after[id].id == tasks[id].id
            }
        }),
{
}

/// There is room below ten thousand tasks, and else just where some task is over.
pub proof fn law_room(tasks: Map<Seq<char>, TaskView>)
    ensures
        has_room(tasks) <==> tasks.len() < 10_000 || exists|id: Seq<char>| #[trigger]
            tasks.contains_key(id) && (tasks[id].status == TaskStatus::Completed
                || tasks[id].status == TaskStatus::Failed),
{
    if has_terminal(tasks) {
        let id = choose|id: Seq<char>| #[trigger] tasks.contains_key(id)
            && tasks[id].status.terminal();
        assert(tasks.contains_key(id));
    }
}

/// Taking a task on adds it as working, without artifacts, at the given time. Below ten
/// thousand tasks every other task stays as it is. From there on exactly one goes, which is
/// over and was not changed later than any other that is over, and the others stay.
pub proof fn law_taken_on(
    before: Map<Seq<char>, TaskView>,
    after: Map<Seq<char>, TaskView>,
    id: Seq<char>,
    now: u64,
)
    requires
        reserved(before, after, id, now),
        has_room(before),
    ensures
        after.contains_key(id),
        after[id].id == id,
        after[id].status == TaskStatus::Working,
        after[id].artifacts.len() == 0,
        after[id].updated_at == now,
        forall|other: Seq<char>|
            other != id && #[trigger] after.contains_key(other) ==> before.contains_key(other)
                && after[other] == before[other],
        before.len() < 10_000 ==> forall|other: Seq<char>| #[trigger]
            before.contains_key(other) ==> after.contains_key(other),
        before.len() >= 10_000 ==> exists|gone: Seq<char>|
            {
                &&& #[trigger] before.contains_key(gone)
                &&& before[gone].status == TaskStatus::Completed || before[gone].status
                    == TaskStatus::Failed
                &&& gone != id ==> !after.contains_key(gone)
                &&& forall|other: Seq<char>| #[trigger]
                    before.contains_key(other) && other != gone ==> after.contains_key(other)
                &&& forall|other: Seq<char>| #[trigger]
                    before.contains_key(other) && before[other].status != TaskStatus::Working
                        ==> before[gone].updated_at <= before[other].updated_at
            },
{
    let made = choose|made: Map<Seq<char>, TaskView>| #[trigger]
        room_made(before, made) && after == made.insert(id, working_task(id, now));
    if before.len() >= 10_000 {
        let gone = choose|victim: Seq<char>| #[trigger]
            is_oldest_terminal(before, victim) && made == before.remove(victim);
        assert(before.contains_key(gone));
        assert forall|other: Seq<char>| #[trigger]
            before.contains_key(other) && other != gone implies after.contains_key(other) by {
            assert(made.contains_key(other));
        }
    }
}

/// An eviction takes one task away where some task is over, and none otherwise. The one that
/// goes is over and was not changed later than any other that is over.
pub proof fn law_evicted(before: Map<Seq<char>, TaskView>, after: Map<Seq<char>, TaskView>)
    requires
        evicted(before, after),
    ensures
        forall|other: Seq<char>| #[trigger]
            after.contains_key(other) ==> before.contains_key(other) && after[other]
                == before[other],
        (forall|other: Seq<char>| #[trigger]
            before.contains_key(other) ==> before[other].status == TaskStatus::Working) ==> after
            == before,
        (exists|other: Seq<char>| #[trigger]
            before.contains_key(other) && before[other].status != TaskStatus::Working)
            ==> exists|gone: Seq<char>|
            {
                &&& #[trigger] before.contains_key(gone)
                &&& before[gone].status != TaskStatus::Working
                &&& !after.contains_key(gone)
                &&& forall|other: Seq<char>| #[trigger]
                    before.contains_key(other) && other != gone ==> after.contains_key(other)
                &&& forall|other: Seq<char>| #[trigger]
                    before.contains_key(other) && before[other].status != TaskStatus::Working
                        ==> before[gone].updated_at <= before[other].updated_at
            },
{
    if has_terminal(before) {
        let gone = choose|victim: Seq<char>| #[trigger]
            is_oldest_terminal(before, victim) && after == before.remove(victim);
        assert(before.contains_key(gone) && before[gone].status != TaskStatus::Working);
    } else {
        assert forall|other: Seq<char>| #[trigger] before.contains_key(other) implies before[other].status
            == TaskStatus::Working by {
        }
    }
}

/// The model of a record holds what the record holds.
pub proof fn law_record_model(record: TaskRecord)
    ensures
        record@.id == record.id@,
        record@.status == record.status,
        record@.updated_at == record.updated_at,
        record@.artifacts.len() == record.artifacts@.len(),
        forall|i: int|
            0 <= i < record.artifacts@.len() ==> #[trigger] record@.artifacts[i]
                == record.artifacts@[i]@,
{
    json::lemma_items_view(record.artifacts@);
}

/// A store holds ten thousand tasks at most, each under its own id.
pub proof fn law_bound(tasks: Map<Seq<char>, TaskView>, id: Seq<char>)
    requires
        storable(tasks),
    ensures
        tasks.len() <= 10_000,
        tasks.contains_key(id) ==> tasks[id].id == id,
{
}

} // verus!
