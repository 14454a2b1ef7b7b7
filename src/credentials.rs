//! The credential store: accounts with unique usernames.
use crate::auth::{AuthenticatedUser, User};
use vstd::prelude::*;

verus! {

/// Why the store refused a write.
#[derive(PartialEq, Eq, Structural, Debug, Clone, Copy)]
pub enum StoreError {
    /// Another account already has the username.
    UniqueViolation,
}

/// Some account in `users` has the username `name`.
pub open spec fn username_taken(users: Seq<User>, name: Seq<char>) -> bool {
    exists|i: int| 0 <= i < users.len() && (#[trigger] users[i]).username@ == name
}

/// All accounts, in order of creation; an account's id is its position.
pub struct UserStore {
    users: Vec<User>,
}

impl UserStore {
    pub closed spec fn users(&self) -> Seq<User> {
        self.users@
    }

    /// Ids are positions, and no two accounts share a username.
    pub open spec fn wf(&self) -> bool {
        &&& forall|i: int| 0 <= i < self.users().len() ==> (#[trigger] self.users()[i]).id == i
        &&& forall|i: int, j: int|
            0 <= i < self.users().len() && 0 <= j < self.users().len() && i != j
                ==> (#[trigger] self.users()[i]).username@ != (#[trigger] self.users()[j]).username@
    }

    pub fn new() -> (r: UserStore)
        ensures
            r.wf(),
            r.users().len() == 0,
    {
        UserStore { users: Vec::new() }
    }

    /// Looks an account up by exact username.
    pub fn get_user_by_username(&self, username: &str) -> (r: Option<User>)
        requires
            self.wf(),
        ensures
            r is None <==> !username_taken(self.users(), username@),
            r matches Some(u) ==> u.username@ == username@ && exists|i: int|
                0 <= i < self.users().len() && #[trigger] self.users()[i] == u,
    {
        let name = username.to_owned();
        let mut i: usize = 0;
        while i < self.users.len()
            invariant
                i <= self.users@.len(),
                name@ == username@,
                forall|j: int| 0 <= j < i ==> (#[trigger] self.users@[j]).username@ != username@,
            decreases self.users.len() - i,
        {
            if self.users[i].username == name {
                let x = &self.users[i];
                let u = User {
                    id: x.id,
                    username: x.username.clone(),
                    password: x.password.clone(),
                    pbkdf2_salt: x.pbkdf2_salt.clone(),
                    created_at: x.created_at,
                };
                assert(self.users()[i as int] == u);
                return Some(u);
            }
            i = i + 1;
        }
        None
    }

    /// Stores a new account, unless its username is taken.
    pub fn insert_user(
        &mut self,
        username: &str,
        password_hash: &str,
        pbkdf2_salt: &str,
        created_at: i64,
    ) -> (r: Result<AuthenticatedUser, StoreError>)
        requires
            old(self).wf(),
        ensures
            final(self).wf(),
            username_taken(old(self).users(), username@) ==> r == Err::<AuthenticatedUser, StoreError>(StoreError::UniqueViolation)
                && final(self).users() == old(self).users(),
            !username_taken(old(self).users(), username@) ==> {
                &&& r matches Ok(a)
                &&& a.identity() == (old(self).users().len() as u64, username@, pbkdf2_salt@, created_at)
                &&& final(self).users().len() == old(self).users().len() + 1
                &&& final(self).users().take(old(self).users().len() as int) == old(self).users()
                &&& final(self).users().last().identity() == a.identity()
                &&& final(self).users().last().password@ == password_hash@
            },
    {
        if self.get_user_by_username(username).is_some() {
            return Err(StoreError::UniqueViolation);
        }
        let id = self.users.len() as u64;
        let user = User {
            id,
            username: username.to_owned(),
            password: password_hash.to_owned(),
            pbkdf2_salt: pbkdf2_salt.to_owned(),
            created_at,
        };
        let view = AuthenticatedUser::from_user(&user);
        self.users.push(user);
        assert(self.users().take(old(self).users().len() as int) =~= old(self).users());
        Ok(view)
    }
}

} // verus!
