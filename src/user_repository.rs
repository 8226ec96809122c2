use vstd::pervasive::VecAdditionalExecFns;
use vstd::prelude::*;

use crate::errors::ServiceError;
use crate::model::{User, UserRow};
use crate::seq_facts::{
    find_first, key_is, lemma_filter_all, lemma_filter_unique_by, lemma_find_by_key,
    lemma_push_unique_by, unique_by,
};

verus! {

/// The abstract contents of the user table.
pub struct UserTable {
    pub users: Seq<UserRow>,
    pub next_id: i32,
}

pub open spec fn user_id_key() -> spec_fn(UserRow) -> i32 {
    |u: UserRow| u.id
}

pub open spec fn email_key() -> spec_fn(UserRow) -> Seq<char> {
    |u: UserRow| u.email
}

pub open spec fn username_key() -> spec_fn(UserRow) -> Seq<char> {
    |u: UserRow| u.username
}

/// Ids, usernames and emails are unique, and every id was handed out before `next_id`.
pub open spec fn user_table_wf(t: UserTable) -> bool {
    &&& unique_by(t.users, user_id_key())
    &&& unique_by(t.users, email_key())
    &&& unique_by(t.users, username_key())
    &&& 1 <= t.next_id
    &&& forall|i: int| 0 <= i < t.users.len() ==> 1 <= #[trigger] t.users[i].id < t.next_id
}

pub open spec fn user_by_id(users: Seq<UserRow>, id: i32) -> Option<UserRow> {
    find_first(users, key_is(user_id_key(), id))
}

pub open spec fn user_by_email(users: Seq<UserRow>, email: Seq<char>) -> Option<UserRow> {
    find_first(users, key_is(email_key(), email))
}

pub open spec fn user_by_username(users: Seq<UserRow>, username: Seq<char>) -> Option<UserRow> {
    find_first(users, key_is(username_key(), username))
}

/// Inserting a user: refused when the email or username is taken, or ids are exhausted.
pub open spec fn spec_create_user(
    t: UserTable,
    username: Seq<char>,
    email: Seq<char>,
    password_hash: Option<Seq<char>>,
    now: i64,
) -> (UserTable, Result<UserRow, ServiceError>) {
    if user_by_email(t.users, email) is Some || user_by_username(t.users, username) is Some {
        (t, Err(ServiceError::Conflict))
    } else if t.next_id == i32::MAX {
        (t, Err(ServiceError::Persistence))
    } else {
        let row = UserRow {
            id: t.next_id,
            username,
            email,
            password_hash,
            created_at: now,
            updated_at: now,
        };
        (UserTable { users: t.users.push(row), next_id: (t.next_id + 1) as i32 }, Ok(row))
    }
}

/// Users other than `id`.
pub open spec fn without_user(users: Seq<UserRow>, id: i32) -> Seq<UserRow> {
    users.filter(|u: UserRow| u.id != id)
}

/// Creating a user keeps the table well formed, keeps earlier rows in place, and makes
/// the new row findable by id and by email.
pub proof fn lemma_create_user(t: UserTable, username: Seq<char>, email: Seq<char>, password_hash: Option<Seq<char>>, now: i64)
    requires
        user_table_wf(t),
    ensures
        ({
            let (t2, r) = spec_create_user(t, username, email, password_hash, now);
            &&& user_table_wf(t2)
            &&& r is Err ==> t2 == t
            &&& r is Ok ==> {
                &&& t2.users == t.users.push(r->Ok_0)
                &&& r->Ok_0.email == email
                &&& user_by_id(t2.users, r->Ok_0.id) == Some(r->Ok_0)
                &&& user_by_email(t2.users, email) == Some(r->Ok_0)
            }
        }),
{
    let (t2, r) = spec_create_user(t, username, email, password_hash, now);
    if r is Ok {
        let row = r->Ok_0;
        let os = t.users;
        let ss = t2.users;
        assert(find_first(os, key_is(user_id_key(), row.id)) is None) by {
            if exists|i: int| 0 <= i < os.len() && #[trigger] key_is(user_id_key(), row.id)(os[i]) {
                let i = choose|i: int| 0 <= i < os.len() && #[trigger] key_is(user_id_key(), row.id)(os[i]);
                assert(os[i].id < row.id);
            }
        }
        lemma_push_unique_by(os, user_id_key(), row);
        lemma_push_unique_by(os, email_key(), row);
        lemma_push_unique_by(os, username_key(), row);
        assert forall|i: int| 0 <= i < ss.len() implies 1 <= #[trigger] ss[i].id < t2.next_id by {
            if i < ss.len() - 1 {
                assert(ss[i] == os[i]);
            }
        }
        lemma_find_by_key(ss, user_id_key(), ss.len() - 1);
        lemma_find_by_key(ss, email_key(), ss.len() - 1);
    }
}

/// Some user other than `id` holds the key value `v`.
pub open spec fn taken_by_other(users: Seq<UserRow>, id: i32, key: spec_fn(UserRow) -> Seq<char>, v: Seq<char>) -> bool {
    exists|j: int| 0 <= j < users.len() && users[j].id != id && #[trigger] key(users[j]) == v
}

/// Changing a user's username and/or email: refused for an unknown id, and when another
/// user holds the new value.
pub open spec fn spec_update_user(
    t: UserTable,
    id: i32,
    username: Option<Seq<char>>,
    email: Option<Seq<char>>,
    now: i64,
) -> (UserTable, Result<UserRow, ServiceError>) {
    match user_by_id(t.users, id) {
        None => (t, Err(ServiceError::UserNotFound)),
        Some(u) => {
            let name = match username {
                Some(n) => n,
                None => u.username,
            };
            let mail = match email {
                Some(e) => e,
                None => u.email,
            };
            if taken_by_other(t.users, id, email_key(), mail) || taken_by_other(t.users, id, username_key(), name) {
                (t, Err(ServiceError::Conflict))
            } else {
                let row = UserRow { username: name, email: mail, updated_at: now, ..u };
                (UserTable { users: t.users.map_values(|r: UserRow| if r.id == id { row } else { r }), ..t }, Ok(row))
            }
        },
    }
}

pub open spec fn user_rows(v: Seq<User>) -> Seq<UserRow> {
    v.map_values(|u: User| u@)
}

enum UserField<'a> {
    Id(i32),
    Email(&'a String),
    Username(&'a String),
}

spec fn field_key(f: UserField) -> spec_fn(UserRow) -> bool {
    match f {
        UserField::Id(id) => key_is(user_id_key(), id),
        UserField::Email(e) => key_is(email_key(), e@),
        UserField::Username(n) => key_is(username_key(), n@),
    }
}

/// Local accounts.
pub struct UserRepository {
    users: Vec<User>,
    next_id: i32,
}

impl View for UserRepository {
    type V = UserTable;

    closed spec fn view(&self) -> UserTable {
        UserTable { users: user_rows(self.users@), next_id: self.next_id }
    }
}

impl UserRepository {
    pub open spec fn wf(&self) -> bool {
        user_table_wf(self@)
    }

    /// How many rows the table holds.
    pub fn count(&self) -> (r: usize)
        ensures
            r == self@.users.len(),
    {
        self.users.len()
    }

    pub fn new() -> (r: Self)
        ensures
            r.wf(),
            r@.users.len() == 0,
            r@.next_id == 1,
    {
        let r = UserRepository { users: Vec::new(), next_id: 1 };
        assert(r@.users =~= Seq::<UserRow>::empty());
        r
    }

    fn position(&self, f: &UserField) -> (r: Option<usize>)
        requires
            self.wf(),
        ensures
            match r {
                Some(i) => i < self@.users.len() && find_first(self@.users, field_key(*f))
                    == Some(self@.users[i as int]),
                None => find_first(self@.users, field_key(*f)) is None,
            },
    {
        let mut i: usize = 0;
        while i < self.users.len()
            invariant
                0 <= i <= self.users@.len(),
                self.wf(),
                forall|j: int| 0 <= j < i ==> !#[trigger] field_key(*f)(self@.users[j]),
            decreases self.users@.len() - i,
        {
            let u = &self.users[i];
            let hit = match f {
                UserField::Id(id) => u.id == *id,
                UserField::Email(e) => u.email == **e,
                UserField::Username(n) => u.username == **n,
            };
            assert(u@ == self@.users[i as int]);
            if hit {
                proof {
                    match *f {
                        UserField::Id(_) => lemma_find_by_key(self@.users, user_id_key(), i as int),
                        UserField::Email(_) => lemma_find_by_key(self@.users, email_key(), i as int),
                        UserField::Username(_) => lemma_find_by_key(self@.users, username_key(), i as int),
                    }
                }
                return Some(i);
            }
            i = i + 1;
        }
        None
    }

    fn found(&self, f: &UserField) -> (r: Option<User>)
        requires
            self.wf(),
        ensures
            match r {
                Some(u) => find_first(self@.users, field_key(*f)) == Some(u@),
                None => find_first(self@.users, field_key(*f)) is None,
            },
    {
        match self.position(f) {
            Some(i) => Some(self.users[i].copy()),
            None => None,
        }
    }

    pub fn find_by_id(&self, id: i32) -> (r: Option<User>)
        requires
            self.wf(),
        ensures
            match r {
                Some(u) => user_by_id(self@.users, id) == Some(u@),
                None => user_by_id(self@.users, id) is None,
            },
    {
        self.found(&UserField::Id(id))
    }

    pub fn find_by_email(&self, email: &String) -> (r: Option<User>)
        requires
            self.wf(),
        ensures
            match r {
                Some(u) => user_by_email(self@.users, email@) == Some(u@),
                None => user_by_email(self@.users, email@) is None,
            },
    {
        self.found(&UserField::Email(email))
    }

    pub fn find_by_username(&self, username: &String) -> (r: Option<User>)
        requires
            self.wf(),
        ensures
            match r {
                Some(u) => user_by_username(self@.users, username@) == Some(u@),
                None => user_by_username(self@.users, username@) is None,
            },
    {
        self.found(&UserField::Username(username))
    }

    /// Stores a new user.
    pub fn create(&mut self, username: String, email: String, password_hash: Option<String>, now: i64) -> (r: Result<User, ServiceError>)
        requires
            old(self).wf(),
        ensures
            final(self).wf(),
            (final(self)@, match r {
                Ok(u) => Ok(u@),
                Err(e) => Err(e),
            }) == spec_create_user(old(self)@, username@, email@, match password_hash {
                Some(h) => Some(h@),
                None => None::<Seq<char>>,
            }, now),
    {
        if self.position(&UserField::Email(&email)).is_some() {
            return Err(ServiceError::Conflict);
        }
        if self.position(&UserField::Username(&username)).is_some() {
            return Err(ServiceError::Conflict);
        }
        if self.next_id == i32::MAX {
            return Err(ServiceError::Persistence);
        }
        let user = User {
            id: self.next_id,
            username,
            email,
            password_hash,
            created_at: now,
            updated_at: now,
        };
        let out = user.copy();
        let ghost os = self@;
        proof {
            lemma_create_user(os, out@.username, out@.email, out@.password_hash, now);
        }
        self.users.push(user);
        self.next_id = self.next_id + 1;
        assert(self@.users =~= os.users.push(out@));
        Ok(out)
    }

    fn taken(&self, id: i32, f: &UserField) -> (r: bool)
        requires
            f is Email || f is Username,
        ensures
            r == match *f {
                UserField::Email(e) => taken_by_other(self@.users, id, email_key(), e@),
                UserField::Username(n) => taken_by_other(self@.users, id, username_key(), n@),
                UserField::Id(_) => false,
            },
    {
        let mut i: usize = 0;
        while i < self.users.len()
            invariant
                0 <= i <= self.users@.len(),
                f is Email || f is Username,
                forall|j: int| 0 <= j < i ==> !(self@.users[j].id != id && #[trigger] field_key(*f)(self@.users[j])),
            decreases self.users@.len() - i,
        {
            let u = &self.users[i];
            assert(u@ == self@.users[i as int]);
            let hit = match f {
                UserField::Email(e) => u.email == **e,
                UserField::Username(n) => u.username == **n,
                UserField::Id(_) => false,
            };
            if u.id != id && hit {
                proof {
                    match *f {
                        UserField::Email(e) => assert(email_key()(self@.users[i as int]) == e@),
                        UserField::Username(n) => assert(username_key()(self@.users[i as int]) == n@),
                        UserField::Id(_) => {},
                    }
                }
                return true;
            }
            i = i + 1;
        }
        proof {
            match *f {
                UserField::Email(e) => {
                    assert forall|j: int| 0 <= j < self@.users.len() && self@.users[j].id != id implies #[trigger] email_key()(self@.users[j]) != e@ by {
                        assert(!(self@.users[j].id != id && field_key(*f)(self@.users[j])));
                    }
                },
                UserField::Username(n) => {
                    assert forall|j: int| 0 <= j < self@.users.len() && self@.users[j].id != id implies #[trigger] username_key()(self@.users[j]) != n@ by {
                        assert(!(self@.users[j].id != id && field_key(*f)(self@.users[j])));
                    }
                },
                UserField::Id(_) => {},
            }
        }
        false
    }

    /// Changes the username and/or email of user `id`.
    pub fn update(&mut self, id: i32, username: Option<String>, email: Option<String>, now: i64) -> (r: Result<User, ServiceError>)
        requires
            old(self).wf(),
        ensures
            final(self).wf(),
            (final(self)@, match r {
                Ok(u) => Ok(u@),
                Err(e) => Err(e),
            }) == spec_update_user(old(self)@, id, match username {
                Some(n) => Some(n@),
                None => None::<Seq<char>>,
            }, match email {
                Some(e) => Some(e@),
                None => None::<Seq<char>>,
            }, now),
    {
        let i = match self.position(&UserField::Id(id)) {
            Some(i) => i,
            None => {
                return Err(ServiceError::UserNotFound);
            },
        };
        let cur = self.users[i].copy();
        let name = match username {
            Some(n) => n,
            None => cur.username.clone(),
        };
        let mail = match email {
            Some(e) => e,
            None => cur.email.clone(),
        };
        if self.taken(id, &UserField::Email(&mail)) || self.taken(id, &UserField::Username(&name)) {
            return Err(ServiceError::Conflict);
        }
        let user = User {
            id,
            username: name,
            email: mail,
            password_hash: cur.password_hash,
            created_at: cur.created_at,
            updated_at: now,
        };
        let out = user.copy();
        let ghost t = self@;
        let ghost k = i as int;
        self.users.set(i, user);
        proof {
            let row = out@;
            let f = |r: UserRow| if r.id == id { row } else { r };
            let ss = self@.users;
            assert(t.users[k].id == id);
            assert forall|j: int| 0 <= j < t.users.len() && j != k implies t.users[j].id != id by {
                if t.users[j].id == id {
                    assert(user_id_key()(t.users[j]) == user_id_key()(t.users[k]));
                }
            }
            assert(ss =~= t.users.map_values(f)) by {
                assert forall|j: int| 0 <= j < ss.len() implies ss[j] == t.users.map_values(f)[j] by {
                    if j != k {
                        assert(ss[j] == t.users[j]);
                    }
                }
            }
            assert forall|a: int, b: int| 0 <= a < ss.len() && 0 <= b < ss.len() && #[trigger] (user_id_key())(ss[a]) == #[trigger] (user_id_key())(ss[b]) implies a == b by {
                if a != k && b != k {
                    assert(user_id_key()(t.users[a]) == user_id_key()(t.users[b]));
                }
            }
            assert forall|a: int, b: int| 0 <= a < ss.len() && 0 <= b < ss.len() && #[trigger] (email_key())(ss[a]) == #[trigger] (email_key())(ss[b]) implies a == b by {
                if a != k && b != k {
                    assert(email_key()(t.users[a]) == email_key()(t.users[b]));
                } else if a == k && b != k {
                    assert(email_key()(t.users[b]) == row.email);
                } else if b == k && a != k {
                    assert(email_key()(t.users[a]) == row.email);
                }
            }
            assert forall|a: int, b: int| 0 <= a < ss.len() && 0 <= b < ss.len() && #[trigger] (username_key())(ss[a]) == #[trigger] (username_key())(ss[b]) implies a == b by {
                if a != k && b != k {
                    assert(username_key()(t.users[a]) == username_key()(t.users[b]));
                } else if a == k && b != k {
                    assert(username_key()(t.users[b]) == row.username);
                } else if b == k && a != k {
                    assert(username_key()(t.users[a]) == row.username);
                }
            }
            assert forall|j: int| 0 <= j < ss.len() implies 1 <= #[trigger] ss[j].id < self.next_id by {
                if j != k {
                    assert(ss[j] == t.users[j]);
                } else {
                    assert(t.users[k].id == ss[k].id);
                }
            }
        }
        Ok(out)
    }

    /// Deletes the user `id`; returns how many rows went.
    pub fn delete(&mut self, id: i32) -> (r: usize)
        requires
            old(self).wf(),
        ensures
            final(self).wf(),
            final(self)@.users == without_user(old(self)@.users, id),
            final(self)@.next_id == old(self)@.next_id,
            r == old(self)@.users.len() - final(self)@.users.len(),
    {
        let ghost f = |u: UserRow| u.id != id;
        let mut kept: Vec<User> = Vec::new();
        let mut i: usize = 0;
        while i < self.users.len()
            invariant
                0 <= i <= self.users@.len(),
                f == (|u: UserRow| u.id != id),
                user_rows(kept@) == user_rows(self.users@).take(i as int).filter(f),
            decreases self.users@.len() - i,
        {
            let u = &self.users[i];
            let ghost before = kept@;
            if u.id != id {
                kept.push(u.copy());
                assert(user_rows(kept@) =~= user_rows(before).push(u@));
            }
            proof {
                let t = user_rows(self.users@).take(i + 1);
                assert(t.drop_last() =~= user_rows(self.users@).take(i as int));
                assert(t.last() == u@);
                reveal(Seq::filter);
            }
            i = i + 1;
        }
        assert(user_rows(self.users@).take(self.users@.len() as int) =~= user_rows(self.users@));
        proof {
            let t = old(self)@;
            t.users.lemma_filter_len(f);
            lemma_filter_unique_by(t.users, f, user_id_key());
            lemma_filter_unique_by(t.users, f, email_key());
            lemma_filter_unique_by(t.users, f, username_key());
            let q = |u: UserRow| 1 <= u.id < t.next_id;
            lemma_filter_all(t.users, f, q);
            let g = t.users.filter(f);
            assert forall|k: int| 0 <= k < g.len() implies 1 <= #[trigger] g[k].id < t.next_id by {
                assert(q(g[k]));
            }
        }
        let r = self.users.len() - kept.len();
        self.users = kept;
        r
    }
}

} // verus!
