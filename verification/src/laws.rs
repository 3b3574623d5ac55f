//! Laws of the store's model: what holds of its operations on every store.

use vstd::prelude::*;
use crate::model::{distinct_task_ids, lists_tasks, lists_users, StoreModel};
use crate::record::{TaskView, UserView};

verus! {

/// A task that was inserted is found under its `id`, unchanged.
pub proof fn lemma_get_after_insert(store: StoreModel, task: TaskView)
    ensures
        store.insert_task(task).get_task(task.id) == Some(task),
{
}

/// After a deletion nothing is found under the deleted `id`, whether or not
/// a task was there before.
pub proof fn lemma_get_after_delete(store: StoreModel, id: u64)
    ensures
        store.delete_task(id).get_task(id) is None,
{
}

/// Deleting under an `id` that holds no task changes nothing.
pub proof fn lemma_delete_absent(store: StoreModel, id: u64)
    requires
        store.get_task(id) is None,
    ensures
        store.delete_task(id) == store,
{
    assert(store.delete_task(id).tasks =~= store.tasks);
}

/// Updating does what inserting does, on every store: a task whose `id` held
/// nothing is created.
pub proof fn lemma_update_is_insert(store: StoreModel, task: TaskView)
    ensures
        store.update_task(task) == store.insert_task(task),
        store.update_task(task).get_task(task.id) == Some(task),
{
}

/// Inserting the same task a second time changes nothing.
pub proof fn lemma_insert_twice(store: StoreModel, task: TaskView)
    ensures
        store.insert_task(task).insert_task(task) == store.insert_task(task),
{
    assert(store.insert_task(task).insert_task(task).tasks =~= store.insert_task(task).tasks);
}

/// Every operation keeps a well-formed store well-formed.
pub proof fn lemma_well_formed_kept(store: StoreModel, task: TaskView, user: UserView, id: u64)
    requires
        store.well_formed(),
    ensures
        StoreModel::empty().well_formed(),
        store.insert_task(task).well_formed(),
        store.update_task(task).well_formed(),
        store.delete_task(id).well_formed(),
        store.insert_user(user).well_formed(),
{
}

/// Inserting tasks one after the other leaves the users alone, and the task
/// found under an `id` is the last one of the sequence with that `id`, or,
/// where the sequence has none, the task that was there before.
pub proof fn lemma_insert_tasks(store: StoreModel, tasks: Seq<TaskView>)
    ensures
        store.insert_tasks(tasks).users == store.users,
        store.well_formed() ==> store.insert_tasks(tasks).well_formed(),
        forall|id: u64|
            (forall|i: int| 0 <= i < tasks.len() ==> (#[trigger] tasks[i]).id != id)
                ==> #[trigger] store.insert_tasks(tasks).get_task(id) == store.get_task(id),
        forall|i: int|
            0 <= i < tasks.len() && (forall|j: int|
                i < j < tasks.len() ==> (#[trigger] tasks[j]).id != tasks[i].id)
                ==> store.insert_tasks(tasks).get_task((#[trigger] tasks[i]).id) == Some(tasks[i]),
    decreases tasks.len(),
{
    if tasks.len() > 0 {
        let front = tasks.drop_last();
        lemma_insert_tasks(store, front);
        let before = store.insert_tasks(front);
        assert forall|id: u64|
            (forall|i: int| 0 <= i < tasks.len() ==> (#[trigger] tasks[i]).id != id)
                implies #[trigger] store.insert_tasks(tasks).get_task(id) == store.get_task(
            id,
        ) by {
            assert(tasks.last() == tasks[tasks.len() - 1]);
            assert forall|i: int| 0 <= i < front.len() implies (#[trigger] front[i]).id != id by {
                assert(front[i] == tasks[i]);
            }
            assert(before.get_task(id) == store.get_task(id));
        }
        assert forall|i: int|
            0 <= i < tasks.len() && (forall|j: int|
                i < j < tasks.len() ==> (#[trigger] tasks[j]).id != tasks[i].id)
                implies store.insert_tasks(tasks).get_task((#[trigger] tasks[i]).id) == Some(
            tasks[i],
        ) by {
            if i < tasks.len() - 1 {
                assert(front[i] == tasks[i]);
                assert forall|j: int| i < j < front.len() implies (#[trigger] front[j]).id
                    != front[i].id by {
                    assert(front[j] == tasks[j]);
                }
                assert(before.get_task(front[i].id) == Some(front[i]));
                assert(tasks[tasks.len() - 1].id != tasks[i].id);
            }
        }
    }
}

/// Inserting users one after the other leaves the tasks alone, and the user
/// found under an `id` is the last one of the sequence with that `id`, or,
/// where the sequence has none, the user that was there before.
pub proof fn lemma_insert_users(store: StoreModel, users: Seq<UserView>)
    ensures
        store.insert_users(users).tasks == store.tasks,
        store.well_formed() ==> store.insert_users(users).well_formed(),
        forall|id: u64|
            (forall|i: int| 0 <= i < users.len() ==> (#[trigger] users[i]).id != id) ==> {
                let after = #[trigger] store.insert_users(users).users.contains_key(id);
                &&& after == store.users.contains_key(id)
                &&& after ==> store.insert_users(users).users[id] == store.users[id]
            },
        forall|i: int|
            0 <= i < users.len() && (forall|j: int|
                i < j < users.len() ==> (#[trigger] users[j]).id != users[i].id) ==> {
                &&& store.insert_users(users).users.contains_key((#[trigger] users[i]).id)
                &&& store.insert_users(users).users[users[i].id] == users[i]
            },
    decreases users.len(),
{
    if users.len() > 0 {
        let front = users.drop_last();
        lemma_insert_users(store, front);
        let before = store.insert_users(front);
        assert forall|id: u64|
            (forall|i: int| 0 <= i < users.len() ==> (#[trigger] users[i]).id != id) implies {
            let after = #[trigger] store.insert_users(users).users.contains_key(id);
            &&& after == store.users.contains_key(id)
            &&& after ==> store.insert_users(users).users[id] == store.users[id]
        } by {
            assert(users.last() == users[users.len() - 1]);
            assert forall|i: int| 0 <= i < front.len() implies (#[trigger] front[i]).id != id by {
                assert(front[i] == users[i]);
            }
            assert(before.users.contains_key(id) == store.users.contains_key(id));
        }
        assert forall|i: int|
            0 <= i < users.len() && (forall|j: int|
                i < j < users.len() ==> (#[trigger] users[j]).id != users[i].id) implies {
            &&& store.insert_users(users).users.contains_key((#[trigger] users[i]).id)
            &&& store.insert_users(users).users[users[i].id] == users[i]
        } by {
            if i < users.len() - 1 {
                assert(front[i] == users[i]);
                assert forall|j: int| i < j < front.len() implies (#[trigger] front[j]).id
                    != front[i].id by {
                    assert(front[j] == users[j]);
                }
                assert(before.users.contains_key(front[i].id));
                assert(users[users.len() - 1].id != users[i].id);
            }
        }
    }
}

/// Tasks with distinct `id`s that are inserted one at a time are all found
/// afterwards, each unchanged, and every other task is as it was: no
/// insertion is lost, in whatever order they arrive.
pub proof fn lemma_distinct_inserts_all_kept(store: StoreModel, tasks: Seq<TaskView>)
    requires
        distinct_task_ids(tasks),
    ensures
        forall|i: int|
            0 <= i < tasks.len() ==> store.insert_tasks(tasks).get_task((#[trigger] tasks[i]).id)
                == Some(tasks[i]),
        forall|id: u64|
            (forall|i: int| 0 <= i < tasks.len() ==> (#[trigger] tasks[i]).id != id)
                ==> #[trigger] store.insert_tasks(tasks).get_task(id) == store.get_task(id),
{
    lemma_insert_tasks(store, tasks);
}

/// After tasks with distinct `id`s were inserted one at a time, every
/// listing of the store's tasks holds each of them.
pub proof fn lemma_distinct_inserts_all_listed(
    store: StoreModel,
    tasks: Seq<TaskView>,
    listing: Seq<TaskView>,
)
    requires
        distinct_task_ids(tasks),
        lists_tasks(listing, store.insert_tasks(tasks).tasks),
    ensures
        forall|i: int| 0 <= i < tasks.len() ==> listing.contains(#[trigger] tasks[i]),
{
    lemma_insert_tasks(store, tasks);
    let after = store.insert_tasks(tasks);
    assert forall|i: int| 0 <= i < tasks.len() implies listing.contains(#[trigger] tasks[i]) by {
        assert(after.get_task(tasks[i].id) == Some(tasks[i]));
        assert(after.tasks.contains_key(tasks[i].id));
    }
}

/// The store that distinct-`id` insertions lead to does not depend on their
/// order: two arrangements of the same tasks give the same store.
pub proof fn lemma_insert_order_irrelevant(
    store: StoreModel,
    tasks: Seq<TaskView>,
    rearranged: Seq<TaskView>,
)
    requires
        distinct_task_ids(tasks),
        distinct_task_ids(rearranged),
        tasks.to_set() == rearranged.to_set(),
    ensures
        store.insert_tasks(tasks) == store.insert_tasks(rearranged),
{
    lemma_insert_tasks(store, tasks);
    lemma_insert_tasks(store, rearranged);
    let one = store.insert_tasks(tasks);
    let other = store.insert_tasks(rearranged);
    assert forall|id: u64| one.get_task(id) == other.get_task(id) by {
        if exists|i: int| 0 <= i < tasks.len() && (#[trigger] tasks[i]).id == id {
            let i = choose|i: int| 0 <= i < tasks.len() && (#[trigger] tasks[i]).id == id;
            assert(tasks.to_set().contains(tasks[i]));
            assert(rearranged.to_set().contains(tasks[i]));
            let j = choose|j: int| 0 <= j < rearranged.len() && rearranged[j] == tasks[i];
            assert(one.get_task(tasks[i].id) == Some(tasks[i]));
            assert(other.get_task(rearranged[j].id) == Some(rearranged[j]));
        } else {
            assert forall|j: int| 0 <= j < rearranged.len() implies (#[trigger] rearranged[j]).id
                != id by {
                assert(rearranged.to_set().contains(rearranged[j]));
                assert(tasks.to_set().contains(rearranged[j]));
                let i = choose|i: int| 0 <= i < tasks.len() && tasks[i] == rearranged[j];
                assert(tasks[i].id != id);
            }
        }
    }
    assert(one.tasks =~= other.tasks) by {
        assert forall|id: u64| #[trigger] one.tasks.contains_key(id) == other.tasks.contains_key(id) && (
        one.tasks.contains_key(id) ==> one.tasks[id] == other.tasks[id]) by {
            assert(one.get_task(id) == other.get_task(id));
        }
    }
}

/// A well-formed store is rebuilt from any listing of its records: inserting
/// them into an empty store, in the order of the listing, gives the store
/// that was listed.
pub proof fn lemma_rebuilt_from_listing(
    store: StoreModel,
    tasks: Seq<TaskView>,
    users: Seq<UserView>,
)
    requires
        store.well_formed(),
        lists_tasks(tasks, store.tasks),
        lists_users(users, store.users),
    ensures
        StoreModel::empty().insert_tasks(tasks).insert_users(users) == store,
{
    let with_tasks = StoreModel::empty().insert_tasks(tasks);
    let rebuilt = with_tasks.insert_users(users);
    lemma_insert_tasks(StoreModel::empty(), tasks);
    lemma_insert_users(with_tasks, users);
    assert forall|id: u64| #[trigger] rebuilt.tasks.contains_key(id) == store.tasks.contains_key(id) && (
    store.tasks.contains_key(id) ==> rebuilt.tasks[id] == store.tasks[id]) by {
        if store.tasks.contains_key(id) {
            assert(tasks.contains(store.tasks[id]));
            let i = choose|i: int| 0 <= i < tasks.len() && tasks[i] == store.tasks[id];
            assert(with_tasks.get_task(tasks[i].id) == Some(tasks[i]));
        } else {
            assert(with_tasks.get_task(id) == StoreModel::empty().get_task(id));
        }
    }
    assert forall|id: u64| #[trigger] rebuilt.users.contains_key(id) == store.users.contains_key(id) && (
    store.users.contains_key(id) ==> rebuilt.users[id] == store.users[id]) by {
        if store.users.contains_key(id) {
            assert(users.contains(store.users[id]));
            let i = choose|i: int| 0 <= i < users.len() && users[i] == store.users[id];
            assert(rebuilt.users.contains_key(users[i].id));
        } else {
            assert(rebuilt.users.contains_key(id) == with_tasks.users.contains_key(id));
        }
    }
    assert(rebuilt.tasks =~= store.tasks);
    assert(rebuilt.users =~= store.users);
}

} // verus!
