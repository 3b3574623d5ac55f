//! The records the store holds, and their mathematical views.

use vstd::prelude::*;

verus! {

/// What a [`Task`] is, as plain mathematical values.
pub struct TaskView {
    pub id: u64,
    pub name: Seq<char>,
    pub completed: bool,
}

/// A unit of work, identified by `id`.
#[derive(Debug, Clone)]
pub struct Task {
    pub id: u64,
    pub name: String,
    pub completed: bool,
}

impl View for Task {
    type V = TaskView;

    open spec fn view(&self) -> TaskView {
        TaskView { id: self.id, name: self.name@, completed: self.completed }
    }
}

/// What a [`User`] is, as plain mathematical values.
pub struct UserView {
    pub id: u64,
    pub username: Seq<char>,
    pub password: Seq<char>,
}

/// A registered user, identified by `id`. The user name is a second way
/// to look a user up, and nothing keeps two users from sharing one.
#[derive(Debug, Clone)]
pub struct User {
    pub id: u64,
    pub username: String,
    pub password: String,
}

impl View for User {
    type V = UserView;

    open spec fn view(&self) -> UserView {
        UserView { id: self.id, username: self.username@, password: self.password@ }
    }
}

/// The views of the tasks that `tasks` refers to, in the same order.
pub open spec fn task_views(tasks: Seq<&Task>) -> Seq<TaskView> {
    tasks.map_values(|t: &Task| t@)
}

/// The views of the users that `users` refers to, in the same order.
pub open spec fn user_views(users: Seq<&User>) -> Seq<UserView> {
    users.map_values(|u: &User| u@)
}

/// The views of the tasks of `tasks`, in the same order.
pub open spec fn owned_task_views(tasks: Seq<Task>) -> Seq<TaskView> {
    tasks.map_values(|t: Task| t@)
}

/// The views of the users of `users`, in the same order.
pub open spec fn owned_user_views(users: Seq<User>) -> Seq<UserView> {
    users.map_values(|u: User| u@)
}

} // verus!
