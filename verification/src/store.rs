//! The persistence layer: a task table with schema bootstrap and
//! create/read/update/delete operations.
//!
//! The store models the durable task table directly: the table rows, the
//! auto-increment counter that assigns ids, and whether the schema has been
//! created. Every operation is specified against [`StoreModel`], the
//! mathematical view of that state.

use vstd::prelude::*;

use crate::task::TaskModel;
use crate::task::Todo;

verus! {

/// Mathematical model of the backing store: whether the task table exists,
/// the rows it holds (in insertion order), and the next id the table will
/// assign.
#[verifier::ext_equal]
pub ghost struct StoreModel {
    pub table_exists: bool,
    pub tasks: Seq<TaskModel>,
    pub next_id: int,
}

/// The task store. It owns the task table and assigns ids from a
/// monotonically increasing counter, as a serial primary-key column does.
pub struct Store {
    table_exists: bool,
    tasks: Vec<Todo>,
    next_id: i32,
}

/// The rows of a task table, as their models, in order.
pub open spec fn view_of_tasks(tasks: Seq<Todo>) -> Seq<TaskModel> {
    tasks.map_values(|t: Todo| t@)
}

impl View for Store {
    type V = StoreModel;

    closed spec fn view(&self) -> StoreModel {
        StoreModel {
            table_exists: self.table_exists,
            tasks: view_of_tasks(self.tasks@),
            next_id: self.next_id as int,
        }
    }
}

proof fn lemma_view_push(tasks: Seq<Todo>, t: Todo)
    ensures
        view_of_tasks(tasks.push(t)) == view_of_tasks(tasks).push(t@),
{
    let lhs = view_of_tasks(tasks.push(t));
    let rhs = view_of_tasks(tasks).push(t@);
    assert forall|j: int| 0 <= j < lhs.len() implies lhs[j] == rhs[j] by {
        if j < tasks.len() {
            assert(tasks.push(t)[j] == tasks[j]);
        } else {
            assert(tasks.push(t)[j] == t);
        }
    }
    assert(lhs =~= rhs);
}

/// True when some row carries the given id.
pub open spec fn has_task(tasks: Seq<TaskModel>, id: int) -> bool {
    exists|i: int| 0 <= i < tasks.len() && tasks[i].id == id
}

/// The index of the row carrying the given id (meaningful when `has_task`
/// holds; under `wf_model` that index is unique).
pub open spec fn index_of(tasks: Seq<TaskModel>, id: int) -> int {
    choose|i: int| 0 <= i < tasks.len() && tasks[i].id == id
}

/// The row carrying the given id.
pub open spec fn task_with(tasks: Seq<TaskModel>, id: int) -> TaskModel {
    tasks[index_of(tasks, id)]
}

/// Well-formedness of the store: ids are unique, positive and below the
/// counter, and every description is non-empty.
pub open spec fn wf_model(m: StoreModel) -> bool {
    &&& 1 <= m.next_id
    &&& forall|i: int| 0 <= i < m.tasks.len() ==> 1 <= (#[trigger] m.tasks[i]).id < m.next_id
    &&& forall|i: int, j: int|
        #![trigger m.tasks[i].id, m.tasks[j].id]
        0 <= i < j < m.tasks.len() ==> m.tasks[i].id != m.tasks[j].id
    &&& forall|i: int| 0 <= i < m.tasks.len() ==> (#[trigger] m.tasks[i]).description.len() > 0
}

/// What creating the schema does to the store: the table exists afterwards;
/// rows and counter are untouched.
pub open spec fn create_table_model(m: StoreModel) -> StoreModel {
    StoreModel { table_exists: true, ..m }
}

/// The task an insertion creates: the next free id, the given description,
/// and open status.
pub open spec fn added_task(m: StoreModel, description: Seq<char>) -> TaskModel {
    TaskModel { id: m.next_id, description, status: false }
}

/// What inserting a task does to the store: the new row is appended and the
/// counter moves past it.
pub open spec fn add_model(m: StoreModel, description: Seq<char>) -> StoreModel {
    StoreModel { tasks: m.tasks.push(added_task(m, description)), next_id: m.next_id + 1, ..m }
}

/// A row with its status replaced.
pub open spec fn with_status(t: TaskModel, status: bool) -> TaskModel {
    TaskModel { status, ..t }
}

/// The rows after setting the status of the row with the given id; rows with
/// other ids are untouched.
pub open spec fn set_status(tasks: Seq<TaskModel>, id: int, status: bool) -> Seq<TaskModel> {
    tasks.map_values(|t: TaskModel| if t.id == id { with_status(t, status) } else { t })
}

/// What a status update does to the store.
pub open spec fn update_model(m: StoreModel, id: int, status: bool) -> StoreModel {
    StoreModel { tasks: set_status(m.tasks, id, status), ..m }
}

/// What a deletion does to the store: the row with the given id is removed
/// if present; otherwise nothing changes.
pub open spec fn delete_model(m: StoreModel, id: int) -> StoreModel {
    if has_task(m.tasks, id) {
        StoreModel { tasks: m.tasks.remove(index_of(m.tasks, id)), ..m }
    } else {
        m
    }
}

/// Failure of a store operation. A status update of an id that no row
/// carries reports `NotFound`; this store makes that condition explicit
/// rather than folding it into a generic failure.
#[derive(Clone, Copy, PartialEq, Eq, Structural, Debug)]
pub enum StoreError {
    NotFound,
}

/// Opens a fresh backing store and ensures the task table exists before any
/// other operation runs. The new store is empty and will assign ids from 1.
pub fn connect() -> (s: Store)
    ensures
        s@ == (StoreModel { table_exists: true, tasks: Seq::<TaskModel>::empty(), next_id: 1 }),
        wf_model(s@),
{
    let mut s = Store { table_exists: false, tasks: Vec::new(), next_id: 1 };
    Todo::create_table(&mut s);
    proof {
        assert(s@.tasks =~= Seq::<TaskModel>::empty());
    }
    s
}

impl Todo {
    /// Ensures the task table exists, creating it only where it is absent:
    /// existing rows and the id counter are never touched, so this is safe to
    /// run at every process start.
    pub fn create_table(store: &mut Store)
        ensures
            final(store)@ == create_table_model(old(store)@),
    {
        store.table_exists = true;
    }

    /// Inserts a new open task with the given description and returns the
    /// fully populated row, id assigned by the store. The description must be
    /// non-empty, and the id counter must not yet have reached its ceiling.
    pub fn add(store: &mut Store, description: &str) -> (t: Todo)
        requires
            wf_model(old(store)@),
            description@.len() > 0,
            old(store)@.next_id < i32::MAX as int,
        ensures
            final(store)@ == add_model(old(store)@, description@),
            t@ == added_task(old(store)@, description@),
            wf_model(final(store)@),
    {
        let id = store.next_id;
        let t = Todo::new(id, description.to_owned(), false);
        store.tasks.push(t.clone());
        store.next_id = id + 1;
        proof {
            let m = old(store)@;
            assert(store@.tasks =~= m.tasks.push(t@));
            assert forall|i: int| 0 <= i < store@.tasks.len() implies 1 <= (
            #[trigger] store@.tasks[i]).id < store@.next_id by {
                if i < m.tasks.len() {
                    assert(store@.tasks[i] == m.tasks[i]);
                }
            }
            assert forall|i: int, j: int|
                #![trigger store@.tasks[i].id, store@.tasks[j].id]
                0 <= i < j < store@.tasks.len() implies store@.tasks[i].id
                != store@.tasks[j].id by {
                assert(store@.tasks[i] == m.tasks[i]);
                if j < m.tasks.len() {
                    assert(store@.tasks[j] == m.tasks[j]);
                }
            }
            assert forall|i: int| 0 <= i < store@.tasks.len() implies (
            #[trigger] store@.tasks[i]).description.len() > 0 by {
                if i < m.tasks.len() {
                    assert(store@.tasks[i] == m.tasks[i]);
                }
            }
        }
        t
    }

    /// Returns every task in the table, in insertion order. An empty table
    /// yields an empty vector, never an error.
    pub fn list(store: &Store) -> (ts: Vec<Todo>)
        ensures
            view_of_tasks(ts@) == store@.tasks,
            ts@.len() == store@.tasks.len(),
            forall|i: int| 0 <= i < ts@.len() ==> (#[trigger] ts@[i])@ == store@.tasks[i],
    {
        let mut ts: Vec<Todo> = Vec::new();
        let n = store.tasks.len();
        let mut i: usize = 0;
        while i < n
            invariant
                n == store.tasks@.len(),
                i <= n,
                view_of_tasks(ts@) == store@.tasks.subrange(0, i as int),
            decreases n - i,
        {
            let t = store.tasks[i].clone();
            let ghost ts0 = ts@;
            let ghost i0 = i as int;
            ts.push(t);
            i = i + 1;
            proof {
                lemma_view_push(ts0, t);
                assert(t@ == store@.tasks[i0]);
                assert(store@.tasks.subrange(0, i0 + 1) =~= store@.tasks.subrange(
                    0,
                    i0,
                ).push(store@.tasks[i0]));
            }
        }
        proof {
            assert(store@.tasks.subrange(0, n as int) =~= store@.tasks);
            assert(view_of_tasks(ts@).len() == ts@.len());
            assert forall|j: int| 0 <= j < ts@.len() implies (#[trigger] ts@[j])@
                == store@.tasks[j] by {
                assert(view_of_tasks(ts@)[j] == ts@[j]@);
            }
        }
        ts
    }

    /// Sets the status of the task carrying the given id and returns the
    /// resulting row. When no row carries the id, the table is left unchanged
    /// and `NotFound` is reported: that is the documented policy for a status
    /// update against a missing id.
    pub fn update(store: &mut Store, id: i32, status: bool) -> (r: Result<Todo, StoreError>)
        requires
            wf_model(old(store)@),
        ensures
            r is Ok <==> has_task(old(store)@.tasks, id as int),
            r matches Ok(t) ==> {
                &&& final(store)@ == update_model(old(store)@, id as int, status)
                &&& t@ == with_status(task_with(old(store)@.tasks, id as int), status)
            },
            r is Err ==> {
                &&& *final(store) == *old(store)
                &&& r == Err::<Todo, StoreError>(StoreError::NotFound)
            },
            wf_model(final(store)@),
    {
        match find_index(&store.tasks, id) {
            None => Err(StoreError::NotFound),
            Some(i) => {
                let description = store.tasks[i].description.clone();
                let t = Todo::new(id, description, status);
                store.tasks[i] = t.clone();
                proof {
                    let m = old(store)@;
                    let iv = i as int;
                    assert(has_task(m.tasks, id as int));
                    let k = index_of(m.tasks, id as int);
                    assert(0 <= k < m.tasks.len() && m.tasks[k].id == id as int);
                    assert(k == iv);
                    assert forall|j: int| 0 <= j < store@.tasks.len() implies
                        #[trigger] store@.tasks[j] == set_status(
                        m.tasks,
                        id as int,
                        status,
                    )[j] by {
                        if j != iv {
                            assert(store@.tasks[j] == m.tasks[j]);
                            assert(m.tasks[j].id != id as int);
                        }
                    }
                    assert(store@.tasks =~= set_status(m.tasks, id as int, status));
                    assert(final(store)@ =~= update_model(m, id as int, status));
                    assert forall|a: int, b: int|
                        #![trigger store@.tasks[a].id, store@.tasks[b].id]
                        0 <= a < b < store@.tasks.len() implies store@.tasks[a].id
                        != store@.tasks[b].id by {
                        assert(m.tasks[a].id != m.tasks[b].id);
                    }
                }
                Ok(t)
            },
        }
    }

    /// Removes the row carrying the given id. Deleting an id that no row
    /// carries is a silent no-op, not an error.
    pub fn delete(store: &mut Store, id: i32)
        requires
            wf_model(old(store)@),
        ensures
            final(store)@ == delete_model(old(store)@, id as int),
            wf_model(final(store)@),
    {
        match find_index(&store.tasks, id) {
            None => {},
            Some(i) => {
                let ghost tasks0 = store.tasks@;
                store.tasks.remove(i);
                proof {
                    let m = old(store)@;
                    let iv = i as int;
                    assert(has_task(m.tasks, id as int));
                    let k = index_of(m.tasks, id as int);
                    assert(0 <= k < m.tasks.len() && m.tasks[k].id == id as int);
                    assert(k == iv);
                    tasks0.remove_ensures(iv);
                    m.tasks.remove_ensures(iv);
                    assert forall|j: int| 0 <= j < store@.tasks.len() implies
                        #[trigger] store@.tasks[j] == m.tasks.remove(iv)[j] by {
                        if j < iv {
                            assert(store.tasks@[j] == tasks0[j]);
                            assert(m.tasks.remove(iv)[j] == m.tasks[j]);
                        } else {
                            assert(store.tasks@[j] == tasks0[j + 1]);
                            assert(m.tasks.remove(iv)[j] == m.tasks[j + 1]);
                        }
                    }
                    assert(store@.tasks =~= m.tasks.remove(iv));
                    assert(final(store)@ =~= delete_model(m, id as int));
                    let nm = final(store)@;
                    assert forall|a: int, b: int|
                        #![trigger nm.tasks[a].id, nm.tasks[b].id]
                        0 <= a < b < nm.tasks.len() implies nm.tasks[a].id != nm.tasks[b].id by {
                        let oa: int = if a < iv {
                            a
                        } else {
                            a + 1
                        };
                        let ob: int = if b < iv {
                            b
                        } else {
                            b + 1
                        };
                        assert(nm.tasks[a] == m.tasks[oa]);
                        assert(nm.tasks[b] == m.tasks[ob]);
                        assert(m.tasks[oa].id != m.tasks[ob].id);
                    }
                    assert forall|j: int| 0 <= j < nm.tasks.len() implies 1 <= (
                    #[trigger] nm.tasks[j]).id < nm.next_id && nm.tasks[j].description.len()
                        > 0 by {
                        if j < iv {
                            assert(nm.tasks[j] == m.tasks[j]);
                        } else {
                            assert(nm.tasks[j] == m.tasks[j + 1]);
                        }
                    }
                }
            },
        }
    }
}

/// The index of the row carrying the given id, or `None` when no row does.
fn find_index(tasks: &Vec<Todo>, id: i32) -> (r: Option<usize>)
    ensures
        match r {
            Some(i) => i < tasks@.len() && view_of_tasks(tasks@)[i as int].id == id as int,
            None => !has_task(view_of_tasks(tasks@), id as int),
        },
{
    let n = tasks.len();
    let mut i: usize = 0;
    while i < n
        invariant
            n == tasks@.len(),
            i <= n,
            forall|j: int| 0 <= j < i ==> (#[trigger] view_of_tasks(tasks@)[j]).id != id as int,
        decreases n - i,
    {
        if tasks[i].id == id {
            return Some(i);
        }
        i = i + 1;
    }
    None
}

/// Law: creating the schema is idempotent and never destructive — creating
/// it twice is the same as creating it once, and neither the rows nor the id
/// counter change.
pub proof fn lemma_create_table_idempotent(m: StoreModel)
    ensures
        create_table_model(create_table_model(m)) == create_table_model(m),
        create_table_model(m).tasks == m.tasks,
        create_table_model(m).next_id == m.next_id,
        wf_model(m) == wf_model(create_table_model(m)),
{
}

/// Law: completing a task and then reopening it returns it to the open
/// state: the task the second update reports has `status == false` and its
/// description unchanged, and the table ends exactly as if the task had only
/// ever been set open.
pub proof fn lemma_status_toggle(m: StoreModel, id: int)
    requires
        wf_model(m),
        has_task(m.tasks, id),
    ensures
        has_task(update_model(m, id, true).tasks, id),
        with_status(task_with(update_model(m, id, true).tasks, id), false).status == false,
        with_status(task_with(update_model(m, id, true).tasks, id), false).description
            == task_with(m.tasks, id).description,
        update_model(update_model(m, id, true), id, false) == update_model(m, id, false),
{
    let m1 = update_model(m, id, true);
    let k = index_of(m.tasks, id);
    assert(0 <= k < m.tasks.len() && m.tasks[k].id == id);
    assert(m1.tasks[k].id == id);
    assert(has_task(m1.tasks, id));
    let k1 = index_of(m1.tasks, id);
    assert(0 <= k1 < m1.tasks.len() && m1.tasks[k1].id == id);
    assert(m.tasks[k1].id == id);
    assert(k1 == k);
    assert(set_status(m1.tasks, id, false) =~= set_status(m.tasks, id, false));
    assert(update_model(m1, id, false) =~= update_model(m, id, false));
}

/// Law: after a deletion the table holds no row with that id, and deleting
/// the same id a second time changes nothing — a silent no-op, never an
/// error.
pub proof fn lemma_delete_idempotent(m: StoreModel, id: int)
    requires
        wf_model(m),
    ensures
        !has_task(delete_model(m, id).tasks, id),
        delete_model(delete_model(m, id), id) == delete_model(m, id),
{
    if has_task(m.tasks, id) {
        let k = index_of(m.tasks, id);
        assert(0 <= k < m.tasks.len() && m.tasks[k].id == id);
        m.tasks.remove_ensures(k);
        let d = delete_model(m, id);
        assert forall|j: int| 0 <= j < d.tasks.len() implies (#[trigger] d.tasks[j]).id != id by {
            if j < k {
                assert(d.tasks[j] == m.tasks[j]);
                assert(m.tasks[j].id != m.tasks[k].id);
            } else {
                assert(d.tasks[j] == m.tasks[j + 1]);
                assert(m.tasks[j + 1].id != m.tasks[k].id);
            }
        }
    }
}

/// Law: two successive insertions never assign the same id.
pub proof fn lemma_add_distinct_ids(m: StoreModel, d1: Seq<char>, d2: Seq<char>)
    ensures
        added_task(m, d1).id != added_task(add_model(m, d1), d2).id,
{
}

/// Law: an insertion assigns a positive id that no existing row carries, and
/// the new task starts open.
pub proof fn lemma_add_fresh_id(m: StoreModel, d: Seq<char>)
    requires
        wf_model(m),
    ensures
        added_task(m, d).id >= 1,
        !has_task(m.tasks, added_task(m, d).id),
        !added_task(m, d).status,
{
    if has_task(m.tasks, added_task(m, d).id) {
        let k = index_of(m.tasks, added_task(m, d).id);
        assert(0 <= k < m.tasks.len() && m.tasks[k].id == m.next_id);
    }
}

} // verus!
