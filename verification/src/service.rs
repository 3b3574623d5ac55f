//! What each request of the service does to the store and what it is
//! answered with. The caller holds the store exclusively for the length of
//! one call, writes the store out after a call that changed it, and turns
//! the [`Reply`] into a response.

use vstd::prelude::*;
use crate::model::lists_tasks;
use crate::record::{task_views, Task, User};
use crate::store::Database;

verus! {

/// The answer to one request.
#[derive(Debug)]
pub enum Reply<'a> {
    /// The request was carried out and there is nothing to send back.
    Done,
    /// The task that was asked for.
    Task(&'a Task),
    /// Every task of the store.
    Tasks(Vec<&'a Task>),
    /// No task is stored under the identifier that was asked for.
    NotFound,
    /// The user is known and is now logged in.
    LoggedIn,
    /// No user goes by the name that was given.
    InvalidCredentials,
}

impl<'a> Reply<'a> {
    /// The status code the reply goes out with.
    pub open spec fn status_code(self) -> u16 {
        match self {
            Reply::NotFound => 404u16,
            Reply::InvalidCredentials => 400u16,
            _ => 200u16,
        }
    }

    /// The text the reply goes out with; empty where it carries none.
    pub open spec fn message(self) -> Seq<char> {
        match self {
            Reply::LoggedIn => "User Logged in!"@,
            Reply::InvalidCredentials => "Invalid Username or Password"@,
            _ => ""@,
        }
    }

    /// The status code the reply goes out with: 404 where nothing was
    /// found, 400 where the login was turned down, 200 otherwise.
    pub fn status(&self) -> (code: u16)
        ensures
            code == self.status_code(),
    {
        match self {
            Reply::NotFound => 404,
            Reply::InvalidCredentials => 400,
            _ => 200,
        }
    }

    /// The text the reply goes out with; empty where it carries none.
    pub fn text(&self) -> (body: &'static str)
        ensures
            body@ == self.message(),
    {
        match self {
            Reply::LoggedIn => "User Logged in!",
            Reply::InvalidCredentials => "Invalid Username or Password",
            _ => "",
        }
    }
}

/// Stores `task` under its `id`, replacing what was there.
pub fn create_task(db: &mut Database, task: Task) -> (reply: Reply<'static>)
    ensures
        final(db)@ == old(db)@.insert_task(task@),
        old(db)@.well_formed() ==> final(db)@.well_formed(),
        reply is Done,
{
    db.insert(task);
    Reply::Done
}

/// Looks up the task under `id`: the task where there is one, and
/// [`Reply::NotFound`] where there is none.
pub fn get_task<'a>(db: &'a Database, id: u64) -> (reply: Reply<'a>)
    ensures
        match db@.get_task(id) {
            Some(task) => reply matches Reply::Task(found) && found@ == task,
            None => reply is NotFound,
        },
{
    match db.get(&id) {
        Some(task) => Reply::Task(task),
        None => Reply::NotFound,
    }
}

/// Lists every task of the store once, in no order that means anything.
pub fn get_all_tasks<'a>(db: &'a Database) -> (reply: Reply<'a>)
    ensures
        reply matches Reply::Tasks(all) && {
            &&& all@.len() == db@.tasks.dom().len()
            &&& task_views(all@).to_set() == db@.tasks.values()
            &&& db@.well_formed() ==> lists_tasks(task_views(all@), db@.tasks)
        },
{
    Reply::Tasks(db.get_all())
}

/// Removes the task under `id`. Where there is none the store stays as it
/// is, and the reply is the same.
pub fn delete_task(db: &mut Database, id: u64) -> (reply: Reply<'static>)
    ensures
        final(db)@ == old(db)@.delete_task(id),
        old(db)@.well_formed() ==> final(db)@.well_formed(),
        reply is Done,
{
    db.delete(&id);
    Reply::Done
}

/// Stores `task` under its `id`, whether or not a task was there before.
pub fn update_task(db: &mut Database, task: Task) -> (reply: Reply<'static>)
    ensures
        final(db)@ == old(db)@.update_task(task@),
        old(db)@.well_formed() ==> final(db)@.well_formed(),
        reply is Done,
{
    db.update(task);
    Reply::Done
}

/// Stores `user` under its `id`, replacing what was there.
pub fn register(db: &mut Database, user: User) -> (reply: Reply<'static>)
    ensures
        final(db)@ == old(db)@.insert_user(user@),
        old(db)@.well_formed() ==> final(db)@.well_formed(),
        reply is Done,
{
    db.insert_user(user);
    Reply::Done
}

/// Logs in whoever gives the name of a stored user. Only the name is
/// looked at: the password and the `id` of `user` play no part.
pub fn login(db: &Database, user: &User) -> (reply: Reply<'static>)
    ensures
        db@.has_user_named(user@.username) ==> reply is LoggedIn,
        !db@.has_user_named(user@.username) ==> reply is InvalidCredentials,
{
    match db.get_user_by_name(user.username.as_str()) {
        Some(stored) => {
            if user.username == stored.username {
                Reply::LoggedIn
            } else {
                Reply::InvalidCredentials
            }
        },
        None => Reply::InvalidCredentials,
    }
}

} // verus!
