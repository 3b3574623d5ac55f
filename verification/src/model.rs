//! The mathematical model of the store: two maps from identifier to record,
//! the operations on them as spec functions, and the laws that relate them.

use vstd::prelude::*;
use crate::record::{TaskView, UserView};

verus! {

/// The contents of a store: each collection is a map from identifier to record.
pub struct StoreModel {
    pub tasks: Map<u64, TaskView>,
    pub users: Map<u64, UserView>,
}

/// Every key of `tasks` is the `id` of the task it leads to.
pub open spec fn tasks_keyed_by_id(tasks: Map<u64, TaskView>) -> bool {
    forall|id: u64| tasks.contains_key(id) ==> (#[trigger] tasks[id]).id == id
}

/// Every key of `users` is the `id` of the user it leads to.
pub open spec fn users_keyed_by_id(users: Map<u64, UserView>) -> bool {
    forall|id: u64| users.contains_key(id) ==> (#[trigger] users[id]).id == id
}

impl StoreModel {
    /// The store that holds nothing.
    pub open spec fn empty() -> StoreModel {
        StoreModel { tasks: Map::empty(), users: Map::empty() }
    }

    /// Both collections are finite, and each record sits under its own `id`.
    pub open spec fn well_formed(self) -> bool {
        &&& self.tasks.dom().finite()
        &&& self.users.dom().finite()
        &&& tasks_keyed_by_id(self.tasks)
        &&& users_keyed_by_id(self.users)
    }

    /// The store after `task` was put under `task.id`, replacing what was there.
    pub open spec fn insert_task(self, task: TaskView) -> StoreModel {
        StoreModel { tasks: self.tasks.insert(task.id, task), users: self.users }
    }

    /// The task under `id`, if there is one.
    pub open spec fn get_task(self, id: u64) -> Option<TaskView> {
        if self.tasks.contains_key(id) {
            Some(self.tasks[id])
        } else {
            None
        }
    }

    /// The store without a task under `id`.
    pub open spec fn delete_task(self, id: u64) -> StoreModel {
        StoreModel { tasks: self.tasks.remove(id), users: self.users }
    }

    /// Updating is inserting: the task is created where it did not exist.
    pub open spec fn update_task(self, task: TaskView) -> StoreModel {
        self.insert_task(task)
    }

    /// The store after `user` was put under `user.id`, replacing what was there.
    pub open spec fn insert_user(self, user: UserView) -> StoreModel {
        StoreModel { tasks: self.tasks, users: self.users.insert(user.id, user) }
    }

    /// Some user of the store goes by `name`.
    pub open spec fn has_user_named(self, name: Seq<char>) -> bool {
        exists|id: u64| self.users.contains_key(id) && (#[trigger] self.users[id]).username == name
    }

    /// The store after the tasks of `tasks` were inserted one after the other,
    /// the first one first.
    pub open spec fn insert_tasks(self, tasks: Seq<TaskView>) -> StoreModel
        decreases tasks.len(),
    {
        if tasks.len() == 0 {
            self
        } else {
            self.insert_tasks(tasks.drop_last()).insert_task(tasks.last())
        }
    }

    /// The store after the users of `users` were inserted one after the other,
    /// the first one first.
    pub open spec fn insert_users(self, users: Seq<UserView>) -> StoreModel
        decreases users.len(),
    {
        if users.len() == 0 {
            self
        } else {
            self.insert_users(users.drop_last()).insert_user(users.last())
        }
    }
}

/// No two tasks of `tasks` have the same `id`.
pub open spec fn distinct_task_ids(tasks: Seq<TaskView>) -> bool {
    forall|i: int, j: int|
        0 <= i < j < tasks.len() ==> (#[trigger] tasks[i]).id != (#[trigger] tasks[j]).id
}

/// No two users of `users` have the same `id`.
pub open spec fn distinct_user_ids(users: Seq<UserView>) -> bool {
    forall|i: int, j: int|
        0 <= i < j < users.len() ==> (#[trigger] users[i]).id != (#[trigger] users[j]).id
}

/// `listing` holds each task of `tasks` exactly once, in some order.
pub open spec fn lists_tasks(listing: Seq<TaskView>, tasks: Map<u64, TaskView>) -> bool {
    &&& listing.len() == tasks.dom().len()
    &&& forall|i: int|
        0 <= i < listing.len() ==> tasks.contains_key((#[trigger] listing[i]).id)
            && tasks[listing[i].id] == listing[i]
    &&& forall|id: u64| #[trigger] tasks.contains_key(id) ==> listing.contains(tasks[id])
    &&& distinct_task_ids(listing)
}

/// `listing` holds each user of `users` exactly once, in some order.
pub open spec fn lists_users(listing: Seq<UserView>, users: Map<u64, UserView>) -> bool {
    &&& listing.len() == users.dom().len()
    &&& forall|i: int|
        0 <= i < listing.len() ==> users.contains_key((#[trigger] listing[i]).id)
            && users[listing[i].id] == listing[i]
    &&& forall|id: u64| #[trigger] users.contains_key(id) ==> listing.contains(users[id])
    &&& distinct_user_ids(listing)
}

} // verus!
