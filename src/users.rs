//! Proxy users: an identity with a name and a password, and the lookups
//! that authentication makes over a list of them.
use vstd::prelude::*;
use vstd::utf8::encode_utf8;

use crate::codec::bytes_equal;
use crate::ids::random_uuid;

verus! {

/// What a user is, to the contracts.
pub struct UserView {
    pub id: u128,
    pub name: Seq<char>,
    pub password: Seq<char>,
}

/// A user, equal to another one when their ids are equal.
#[derive(Debug)]
pub struct User {
    pub user_id: u128,
    pub user_name: String,
    pub password: String,
}

impl View for User {
    type V = UserView;

    open spec fn view(&self) -> UserView {
        UserView { id: self.user_id, name: self.user_name@, password: self.password@ }
    }
}

/// The views of a list of users.
pub open spec fn user_views(users: Seq<User>) -> Seq<UserView> {
    users.map_values(|u: User| u@)
}

/// Whether some user of `users` has the name and the password given as UTF-8 bytes.
pub open spec fn credentials_accepted(users: Seq<UserView>, name: Seq<u8>, password: Seq<u8>) -> bool {
    exists|i: int|
        0 <= i < users.len() && encode_utf8(#[trigger] users[i].name) == name && encode_utf8(
            users[i].password,
        ) == password
}

/// The index of the first user of `users` called `name`, if one is.
pub open spec fn first_named(users: Seq<UserView>, name: Seq<char>, i: int) -> bool {
    &&& 0 <= i < users.len()
    &&& users[i].name == name
    &&& forall|j: int| 0 <= j < i ==> (#[trigger] users[j]).name != name
}

impl User {
    /// A new user with a freshly drawn random id.
    pub fn new(user_name: &str, password: &str) -> (r: User)
        ensures
            r@.name == user_name@,
            r@.password == password@,
    {
        User { user_id: random_uuid(), user_name: user_name.to_owned(), password: password.to_owned() }
    }

    /// A user with the given id.
    pub fn with_id(user_id: u128, user_name: &str, password: &str) -> (r: User)
        ensures
            r@ == (UserView { id: user_id, name: user_name@, password: password@ }),
    {
        User { user_id, user_name: user_name.to_owned(), password: password.to_owned() }
    }

    pub fn duplicate(&self) -> (r: User)
        ensures
            r@ == self@,
    {
        User {
            user_id: self.user_id,
            user_name: self.user_name.clone(),
            password: self.password.clone(),
        }
    }

    /// The first user called `user_name`.
    pub fn find_user_by_name(users: &Vec<User>, user_name: String) -> (r: Option<User>)
        ensures
            r is Some <==> exists|i: int|
                0 <= i < users@.len() && (#[trigger] users@[i])@.name == user_name@,
            r matches Some(u) ==> exists|i: int|
                first_named(user_views(users@), user_name@, i) && (#[trigger] users@[i])@ == u@,
    {
        let mut i: usize = 0;
        while i < users.len()
            invariant
                i <= users@.len(),
                forall|j: int| 0 <= j < i ==> (#[trigger] users@[j])@.name != user_name@,
            decreases users@.len() - i,
        {
            if users[i].user_name == user_name {
                let u = users[i].duplicate();
                proof {
                    let vs = user_views(users@);
                    assert(first_named(vs, user_name@, i as int)) by {
                        assert forall|j: int| 0 <= j < i implies (#[trigger] vs[j]).name != user_name@ by {
                            assert(vs[j] == users@[j]@);
                        }
                    }
                }
                return Some(u);
            }
            i = i + 1;
        }
        None
    }

    /// Whether some user is called `user_name`.
    pub fn check_user_avaliable(users: &Vec<User>, user_name: String) -> (r: bool)
        ensures
            r == exists|i: int| 0 <= i < users@.len() && (#[trigger] users@[i])@.name == user_name@,
    {
        User::find_user_by_name(users, user_name).is_some()
    }

    /// Whether some user has both this name and this password.
    pub fn check_user_pass(users: &Vec<User>, user_name: String, password: String) -> (r: bool)
        ensures
            r == exists|i: int|
                0 <= i < users@.len() && (#[trigger] users@[i])@.name == user_name@ && users@[i]@.password
                    == password@,
    {
        let mut i: usize = 0;
        while i < users.len()
            invariant
                i <= users@.len(),
                forall|j: int|
                    0 <= j < i ==> !((#[trigger] users@[j])@.name == user_name@ && users@[j]@.password
                        == password@),
            decreases users@.len() - i,
        {
            if users[i].user_name == user_name && users[i].password == password {
                return true;
            }
            i = i + 1;
        }
        false
    }

    /// Whether some user has this name and this password, both compared
    /// byte for byte with the UTF-8 encoding of the stored ones.
    pub fn check_credentials(users: &Vec<User>, user_name: &[u8], password: &[u8]) -> (r: bool)
        ensures
            r == credentials_accepted(user_views(users@), user_name@, password@),
    {
        let ghost vs = user_views(users@);
        let mut i: usize = 0;
        while i < users.len()
            invariant
                i <= users@.len(),
                vs == user_views(users@),
                forall|j: int|
                    0 <= j < i ==> !(encode_utf8((#[trigger] vs[j]).name) == user_name@ && encode_utf8(
                        vs[j].password,
                    ) == password@),
            decreases users@.len() - i,
        {
            let name_ok = bytes_equal(users[i].user_name.as_str().as_bytes(), user_name);
            let pass_ok = bytes_equal(users[i].password.as_str().as_bytes(), password);
            assert(vs[i as int] == users@[i as int]@);
            if name_ok && pass_ok {
                assert(encode_utf8(vs[i as int].name) == user_name@);
                return true;
            }
            i = i + 1;
        }
        false
    }
}

/// Whether some user of `us` has the id `id`.
pub open spec fn has_user_id(us: Seq<UserView>, id: u128) -> bool {
    exists|i: int| 0 <= i < us.len() && (#[trigger] us[i]).id == id
}

/// The users of `us` once `u` is registered: a user whose id is already
/// there is not added again, nor does it replace the one there.
pub open spec fn users_with(us: Seq<UserView>, u: UserView) -> Seq<UserView> {
    if has_user_id(us, u.id) {
        us
    } else {
        us.push(u)
    }
}

/// Whether no two users of `us` share an id.
pub open spec fn ids_unique(us: Seq<UserView>) -> bool {
    forall|i: int, j: int| 0 <= i < us.len() && 0 <= j < us.len() && i != j ==> (#[trigger] us[i]).id != (#[trigger] us[j]).id
}

/// The users of `us` but the one whose id is `id`, if one has it.
pub open spec fn users_without(us: Seq<UserView>, id: u128) -> Seq<UserView> {
    us.filter(|v: UserView| v.id != id)
}

/// Registering the same user a second time changes nothing.
pub proof fn lemma_users_with_idempotent(us: Seq<UserView>, u: UserView)
    ensures
        users_with(users_with(us, u), u) == users_with(us, u),
{
    if !has_user_id(us, u.id) {
        let vs = us.push(u);
        assert(vs[us.len() as int].id == u.id);
    }
}

/// A set of users, no two with the same id, kept in the order they came.
#[derive(Debug)]
pub struct UserSet {
    users: Vec<User>,
}

impl View for UserSet {
    type V = Seq<UserView>;

    closed spec fn view(&self) -> Seq<UserView> {
        user_views(self.users@)
    }
}

impl UserSet {
    pub closed spec fn wf(&self) -> bool {
        ids_unique(self@)
    }

    pub fn new() -> (r: UserSet)
        ensures
            r.wf(),
            r@ == Seq::<UserView>::empty(),
    {
        let r = UserSet { users: Vec::new() };
        assert(r@ =~= Seq::<UserView>::empty());
        r
    }

    /// A copy of the users, in order.
    pub fn to_vec(&self) -> (r: Vec<User>)
        ensures
            user_views(r@) == self@,
    {
        let mut r: Vec<User> = Vec::new();
        let mut i: usize = 0;
        while i < self.users.len()
            invariant
                i <= self.users@.len(),
                user_views(r@) == user_views(self.users@).subrange(0, i as int),
            decreases self.users@.len() - i,
        {
            let u = self.users[i].duplicate();
            let ghost prev = r@;
            r.push(u);
            assert(user_views(r@) =~= user_views(prev).push(u@));
            assert(user_views(self.users@).subrange(0, i + 1) =~= user_views(self.users@).subrange(
                0,
                i as int,
            ).push(u@));
            i = i + 1;
        }
        assert(user_views(self.users@).subrange(0, i as int) =~= user_views(self.users@));
        r
    }

    /// Whether some user has this name and this password, byte for byte in UTF-8.
    pub fn check_credentials(&self, user_name: &[u8], password: &[u8]) -> (r: bool)
        ensures
            r == credentials_accepted(self@, user_name@, password@),
    {
        User::check_credentials(&self.users, user_name, password)
    }

    /// The position of the user with id `id`, if there is one.
    pub fn index_of(&self, id: u128) -> (r: Option<usize>)
        ensures
            r is None <==> !has_user_id(self@, id),
            r matches Some(i) ==> i < self@.len() && self@[i as int].id == id,
    {
        let mut i: usize = 0;
        while i < self.users.len()
            invariant
                i <= self.users@.len(),
                forall|j: int| 0 <= j < i ==> (#[trigger] self.users@[j]).user_id != id,
            decreases self.users@.len() - i,
        {
            if self.users[i].user_id == id {
                assert(self@[i as int] == self.users@[i as int]@);
                return Some(i);
            }
            i = i + 1;
        }
        assert forall|j: int| 0 <= j < self@.len() implies (#[trigger] self@[j]).id != id by {
            assert(self@[j] == self.users@[j]@);
        }
        None
    }

    /// Adds `user`, unless a user with its id is there already.
    pub fn insert(&mut self, user: User)
        requires
            old(self).wf(),
        ensures
            final(self).wf(),
            final(self)@ == users_with(old(self)@, user@),
    {
        match self.index_of(user.user_id) {
            Some(_) => {},
            None => {
                let ghost u = user@;
                let ghost before = self.users@;
                self.users.push(user);
                proof {
                    assert(user_views(self.users@) =~= user_views(before).push(u));
                    let vs = user_views(self.users@);
                    assert forall|i: int, j: int|
                        0 <= i < vs.len() && 0 <= j < vs.len() && i != j implies (#[trigger] vs[i]).id
                        != (#[trigger] vs[j]).id by {
                        if i == vs.len() - 1 {
                            assert(user_views(before)[j].id != u.id);
                        }
                        if j == vs.len() - 1 {
                            assert(user_views(before)[i].id != u.id);
                        }
                    }
                }
            },
        }
    }

    /// Removes the user whose id is `id`; whether there was one.
    pub fn remove_by_id(&mut self, id: u128) -> (r: bool)
        requires
            old(self).wf(),
        ensures
            final(self).wf(),
            r == has_user_id(old(self)@, id),
            final(self)@ == users_without(old(self)@, id),
    {
        match self.index_of(id) {
            None => {
                proof {
                    lemma_filter_keeps_all(self@, id);
                }
                false
            },
            Some(i) => {
                let ghost before = self.users@;
                self.users.remove(i);
                proof {
                    let vs = user_views(self.users@);
                    let ws = user_views(before);
                    assert(vs =~= ws.remove(i as int));
                    assert forall|a: int, b: int|
                        0 <= a < vs.len() && 0 <= b < vs.len() && a != b implies (#[trigger] vs[a]).id
                        != (#[trigger] vs[b]).id by {
                        let a2 = if a < i { a } else { a + 1 };
                        let b2 = if b < i { b } else { b + 1 };
                        assert(vs[a] == ws[a2]);
                        assert(vs[b] == ws[b2]);
                    }
                    lemma_filter_drops_one(ws, id, i as int);
                }
                true
            },
        }
    }
}

proof fn lemma_filter_keeps_all(us: Seq<UserView>, id: u128)
    requires
        !has_user_id(us, id),
    ensures
        users_without(us, id) == us,
    decreases us.len(),
{
    if us.len() > 0 {
        let last = us.len() - 1;
        assert(us.drop_last() =~= us.subrange(0, last));
        assert(!has_user_id(us.drop_last(), id)) by {
            assert forall|j: int| 0 <= j < us.drop_last().len() implies (#[trigger] us.drop_last()[j]).id != id by {
                assert(us.drop_last()[j] == us[j]);
            }
        }
        lemma_filter_keeps_all(us.drop_last(), id);
        assert(us[last].id != id);
        assert(us.drop_last().push(us[last]) =~= us);
        us.drop_last().lemma_filter_push(us[last], |v: UserView| v.id != id);
    } else {
        assert(us.filter(|v: UserView| v.id != id) =~= us);
    }
}

proof fn lemma_filter_drops_one(us: Seq<UserView>, id: u128, i: int)
    requires
        ids_unique(us),
        0 <= i < us.len(),
        us[i].id == id,
    ensures
        users_without(us, id) == us.remove(i),
    decreases us.len(),
{
    let last = us.len() - 1;
    let init = us.drop_last();
    assert(init.push(us[last]) =~= us);
    if i == last {
        assert(!has_user_id(init, id)) by {
            assert forall|j: int| 0 <= j < init.len() implies (#[trigger] init[j]).id != id by {
                assert(init[j] == us[j]);
            }
        }
        lemma_filter_keeps_all(init, id);
        init.lemma_filter_push(us[last], |v: UserView| v.id != id);
        assert(us.remove(i) =~= init);
    } else {
        assert(ids_unique(init)) by {
            assert forall|a: int, b: int| 0 <= a < init.len() && 0 <= b < init.len() && a != b implies (#[trigger] init[a]).id != (#[trigger] init[b]).id by {
                assert(init[a] == us[a]);
                assert(init[b] == us[b]);
            }
        }
        assert(init[i] == us[i]);
        lemma_filter_drops_one(init, id, i);
        assert(us[last].id != id);
        init.lemma_filter_push(us[last], |v: UserView| v.id != id);
        assert(us.remove(i) =~= init.remove(i).push(us[last]));
    }
}

} // verus!
