//! The store: tasks and users in memory, each under its identifier.

use std::collections::HashMap;
use vstd::prelude::*;
use vstd::std_specs::hash::*;
use vstd::std_specs::iter::IteratorSpec;
use crate::model::{lists_tasks, lists_users, StoreModel};
use crate::laws::{lemma_insert_tasks, lemma_insert_users};
use crate::record::{
    owned_task_views, owned_user_views, task_views, user_views, Task, TaskView, User, UserView,
};

verus! {

/// The tasks and the users of the service. A record is always stored under
/// its own `id`: every insertion takes the key from the record.
#[derive(Debug, Clone)]
pub struct Database {
    tasks: HashMap<u64, Task>,
    users: HashMap<u64, User>,
}

impl View for Database {
    type V = StoreModel;

    closed spec fn view(&self) -> StoreModel {
        StoreModel {
            tasks: self.tasks@.map_values(|t: Task| t@),
            users: self.users@.map_values(|u: User| u@),
        }
    }
}

impl Database {
    /// An empty store.
    pub fn new() -> (db: Database)
        ensures
            db@ == StoreModel::empty(),
            db@.well_formed(),
    {
        let db = Database { tasks: HashMap::new(), users: HashMap::new() };
        assert(db@.tasks =~= Map::<u64, TaskView>::empty());
        assert(db@.users =~= Map::<u64, UserView>::empty());
        db
    }

    /// The store that holds the given records: each is put under its own
    /// `id`, the tasks in their order and then the users in theirs, so of
    /// two records with one `id` the later one stays.
    pub fn from_records(tasks: Vec<Task>, users: Vec<User>) -> (db: Database)
        ensures
            db@ == StoreModel::empty().insert_tasks(owned_task_views(tasks@)).insert_users(
                owned_user_views(users@),
            ),
            db@.well_formed(),
    {
        let ghost task_list = owned_task_views(tasks@);
        let ghost user_list = owned_user_views(users@);
        let mut db = Database::new();
        for task in it: tasks
            invariant
                it.seq() == tasks@,
                task_list == owned_task_views(tasks@),
                db@ == StoreModel::empty().insert_tasks(task_list.take(it.index())),
        {
            proof {
                let upto = task_list.take(it.index() + 1);
                assert(upto.drop_last() == task_list.take(it.index()));
                assert(upto.last() == task@);
            }
            db.insert(task);
        }
        assert(task_list.take(task_list.len() as int) == task_list);
        let ghost with_tasks = db@;
        for user in it: users
            invariant
                it.seq() == users@,
                user_list == owned_user_views(users@),
                db@ == with_tasks.insert_users(user_list.take(it.index())),
        {
            proof {
                let upto = user_list.take(it.index() + 1);
                assert(upto.drop_last() == user_list.take(it.index()));
                assert(upto.last() == user@);
            }
            db.insert_user(user);
        }
        assert(user_list.take(user_list.len() as int) == user_list);
        proof {
            lemma_insert_tasks(StoreModel::empty(), task_list);
            lemma_insert_users(with_tasks, user_list);
        }
        db
    }

    /// Puts `task` under `task.id`, in place of any task that was there.
    pub fn insert(&mut self, task: Task)
        ensures
            final(self)@ == old(self)@.insert_task(task@),
            old(self)@.well_formed() ==> final(self)@.well_formed(),
    {
        broadcast use group_hash_axioms;
        let ghost added = task;
        self.tasks.insert(task.id, task);
        assert(self@.tasks =~= old(self)@.tasks.insert(added.id, added@));
    }

    /// The task under `id`, if there is one.
    pub fn get(&self, id: &u64) -> (found: Option<&Task>)
        ensures
            match found {
                Some(task) => self@.get_task(*id) == Some(task@),
                None => self@.get_task(*id) is None,
            },
    {
        broadcast use group_hash_axioms;
        self.tasks.get(id)
    }

    /// Removes the task under `id`. Where there is none, nothing changes.
    pub fn delete(&mut self, id: &u64)
        ensures
            final(self)@ == old(self)@.delete_task(*id),
            old(self)@.well_formed() ==> final(self)@.well_formed(),
    {
        broadcast use group_hash_axioms;
        self.tasks.remove(id);
        assert(self@.tasks =~= old(self)@.tasks.remove(*id));
    }

    /// Puts `task` under `task.id`, whether or not a task was there before.
    pub fn update(&mut self, task: Task)
        ensures
            final(self)@ == old(self)@.update_task(task@),
            old(self)@.well_formed() ==> final(self)@.well_formed(),
    {
        broadcast use group_hash_axioms;
        let ghost changed = task;
        self.tasks.insert(task.id, task);
        assert(self@.tasks =~= old(self)@.tasks.insert(changed.id, changed@));
    }

    /// Puts `user` under `user.id`, in place of any user that was there.
    /// Whether another user already goes by the same name is not looked at.
    pub fn insert_user(&mut self, user: User)
        ensures
            final(self)@ == old(self)@.insert_user(user@),
            old(self)@.well_formed() ==> final(self)@.well_formed(),
    {
        broadcast use group_hash_axioms;
        let ghost added = user;
        self.users.insert(user.id, user);
        assert(self@.users =~= old(self)@.users.insert(added.id, added@));
    }

    /// Every task of the store, once each. The order is that in which the
    /// underlying table hands them out, and means nothing.
    pub fn get_all(&self) -> (all: Vec<&Task>)
        ensures
            all@.len() == self@.tasks.dom().len(),
            task_views(all@).to_set() == self@.tasks.values(),
            self@.well_formed() ==> lists_tasks(task_views(all@), self@.tasks),
    {
        broadcast use group_hash_axioms;
        let ghost listing = self.tasks.values().remaining();
        let mut all: Vec<&Task> = Vec::new();
        for task in it: self.tasks.values()
            invariant
                it.seq() == listing,
                all@ == listing.take(it.index()),
        {
            all.push(task);
        }
        proof {
            assert(all@ == listing);
            assert(self@.tasks.dom() =~= self.tasks@.dom());
            lemma_views_of_values(self.tasks@, listing);
            assert(task_views(all@) =~= listing.map_values(|t: &Task| t@));
            assert(self@.tasks =~= self.tasks@.map_values(|t: Task| t@));
            if self@.well_formed() {
                lemma_listing_by_key(self@.tasks, task_views(all@), |t: TaskView| t.id);
            }
        }
        all
    }

    /// Every user of the store, once each, in no order that means anything.
    pub fn get_all_users(&self) -> (all: Vec<&User>)
        ensures
            all@.len() == self@.users.dom().len(),
            user_views(all@).to_set() == self@.users.values(),
            self@.well_formed() ==> lists_users(user_views(all@), self@.users),
    {
        broadcast use group_hash_axioms;
        let ghost listing = self.users.values().remaining();
        let mut all: Vec<&User> = Vec::new();
        for user in it: self.users.values()
            invariant
                it.seq() == listing,
                all@ == listing.take(it.index()),
        {
            all.push(user);
        }
        proof {
            assert(all@ == listing);
            assert(self@.users.dom() =~= self.users@.dom());
            lemma_views_of_values(self.users@, listing);
            assert(user_views(all@) =~= listing.map_values(|u: &User| u@));
            assert(self@.users =~= self.users@.map_values(|u: User| u@));
            if self@.well_formed() {
                lemma_listing_by_key(self@.users, user_views(all@), |u: UserView| u.id);
            }
        }
        all
    }

    /// A user that goes by `username`, if the store has one. Where several
    /// users share the name, the one found is whichever the underlying table
    /// hands out first: any of them may come back.
    pub fn get_user_by_name(&self, username: &str) -> (found: Option<&User>)
        ensures
            match found {
                Some(user) => {
                    &&& user@.username == username@
                    &&& self@.users.values().contains(user@)
                    &&& self@.well_formed() ==> self@.users.contains_key(user.id)
                        && self@.users[user.id] == user@
                },
                None => !self@.has_user_named(username@),
            },
    {
        broadcast use group_hash_axioms;
        let ghost listing = self.users.values().remaining();
        let ghost views = user_views(listing);
        proof {
            lemma_views_of_values(self.users@, listing);
            assert(views =~= listing.map_values(|u: &User| u@));
            assert(self@.users =~= self.users@.map_values(|u: User| u@));
            assert(views.to_set() == self@.users.values());
        }
        let wanted = username.to_owned();
        for user in it: self.users.values()
            invariant
                it.seq() == listing,
                views == user_views(listing),
                views.to_set() == self@.users.values(),
                wanted@ == username@,
                forall|i: int| 0 <= i < it.index() ==> (#[trigger] views[i]).username != username@,
        {
            if user.username == wanted {
                assert(views[it.index()] == user@);
                assert(views.to_set().contains(user@));
                return Some(user);
            }
        }
        proof {
            if self@.has_user_named(username@) {
                let id = choose|id: u64|
                    self@.users.contains_key(id) && (#[trigger] self@.users[id]).username
                        == username@;
                assert(self@.users.values().contains(self@.users[id]));
                assert(views.to_set().contains(self@.users[id]));
            }
        }
        None
    }
}

/// Where the items of `listing` are the values of `raw`, their views are the
/// values of the map of views.
proof fn lemma_views_of_values<T: View>(raw: Map<u64, T>, listing: Seq<&T>)
    requires
        listing.unref().to_set() == raw.values(),
    ensures
        listing.map_values(|t: &T| t@).to_set() == raw.map_values(|t: T| t@).values(),
{
    let views = listing.map_values(|t: &T| t@);
    let table = raw.map_values(|t: T| t@);
    assert forall|x: T::V| views.to_set().contains(x) implies table.values().contains(x) by {
        let i = choose|i: int| 0 <= i < views.len() && views[i] == x;
        assert(listing.unref()[i] == *listing[i]);
        assert(listing.unref().to_set().contains(*listing[i]));
        assert(raw.values().contains(*listing[i]));
        let k = choose|k: u64| raw.contains_key(k) && raw[k] == *listing[i];
        assert(table.contains_key(k) && table[k] == x);
    }
    assert forall|x: T::V| table.values().contains(x) implies views.to_set().contains(x) by {
        let k = choose|k: u64| table.contains_key(k) && table[k] == x;
        assert(raw.contains_key(k));
        assert(raw.values().contains(raw[k]));
        assert(listing.unref().to_set().contains(raw[k]));
        let i = choose|i: int| 0 <= i < listing.unref().len() && listing.unref()[i] == raw[k];
        assert(views[i] == x);
    }
    assert(views.to_set() =~= table.values());
}

/// A sequence as long as a finite map has keys, whose items are the map's
/// values, holds each value once where every value names its own key.
proof fn lemma_listing_by_key<V>(table: Map<u64, V>, listing: Seq<V>, key: spec_fn(V) -> u64)
    requires
        table.dom().finite(),
        forall|k: u64| table.contains_key(k) ==> key(#[trigger] table[k]) == k,
        listing.to_set() == table.values(),
        listing.len() == table.dom().len(),
    ensures
        forall|i: int|
            0 <= i < listing.len() ==> table.contains_key(key(#[trigger] listing[i]))
                && table[key(listing[i])] == listing[i],
        forall|k: u64| #[trigger] table.contains_key(k) ==> listing.contains(table[k]),
        forall|i: int, j: int|
            0 <= i < j < listing.len() ==> key(#[trigger] listing[i]) != key(#[trigger] listing[j]),
{
    let keys = listing.map_values(key);
    assert forall|i: int| 0 <= i < listing.len() implies table.contains_key(
        key(#[trigger] listing[i]),
    ) && table[key(listing[i])] == listing[i] by {
        assert(listing.to_set().contains(listing[i]));
        assert(table.values().contains(listing[i]));
    }
    assert forall|k: u64| #[trigger] table.contains_key(k) implies listing.contains(table[k]) by {
        assert(table.values().contains(table[k]));
        assert(listing.to_set().contains(table[k]));
    }
    assert forall|k: u64| keys.to_set().contains(k) <==> table.dom().contains(k) by {
        if keys.to_set().contains(k) {
            let i = choose|i: int| 0 <= i < keys.len() && keys[i] == k;
            assert(table.contains_key(key(listing[i])));
        }
        if table.dom().contains(k) {
            assert(listing.contains(table[k]));
            let i = choose|i: int| 0 <= i < listing.len() && listing[i] == table[k];
            assert(keys[i] == k);
        }
    }
    assert(keys.to_set() =~= table.dom());
    keys.lemma_no_dup_set_cardinality();
    assert forall|i: int, j: int| 0 <= i < j < listing.len() implies key(#[trigger] listing[i])
        != key(#[trigger] listing[j]) by {
        assert(keys[i] == key(listing[i]) && keys[j] == key(listing[j]));
    }
}

} // verus!
