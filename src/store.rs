use vstd::prelude::*;

use crate::error::DBError;

verus! {

/// An account record.
#[derive(Debug, Clone)]
pub struct Account {
    pub username: String,
    /// Self-contained password hash, salt included.
    pub password_hash: String,
    /// Raw second-factor secret, present only after enrollment.
    pub second_factor_secret: Option<Vec<u8>>,
    pub is_admin: bool,
    pub created_at: u64,
}

/// Whether some account in `accounts` has the username `user`.
pub open spec fn has_user(accounts: Seq<Account>, user: Seq<char>) -> bool {
    exists|i: int| 0 <= i < accounts.len() && (#[trigger] accounts[i]).username@ == user
}

/// No two accounts share a username.
pub open spec fn unique_usernames(accounts: Seq<Account>) -> bool {
    forall|i: int, j: int|
        0 <= i < accounts.len() && 0 <= j < accounts.len() && i != j ==> (#[trigger] accounts[i]).username@
            != (#[trigger] accounts[j]).username@
}

/// The table of accounts, keyed by username.
pub struct CredentialStore {
    accounts: Vec<Account>,
}

impl CredentialStore {
    pub closed spec fn accounts(&self) -> Seq<Account> {
        self.accounts@
    }

    pub open spec fn wf(&self) -> bool {
        unique_usernames(self.accounts())
    }

    /// An empty store.
    pub fn new() -> (r: CredentialStore)
        ensures
            r.wf(),
            r.accounts() == Seq::<Account>::empty(),
    {
        CredentialStore { accounts: Vec::new() }
    }

    /// Number of accounts.
    pub fn len(&self) -> (r: usize)
        ensures
            r == self.accounts().len(),
    {
        self.accounts.len()
    }

    fn index_of(&self, user: &String) -> (r: Option<usize>)
        ensures
            match r {
                Some(i) => i < self.accounts().len() && self.accounts()[i as int].username@
                    == user@,
                None => !has_user(self.accounts(), user@),
            },
    {
        let mut i: usize = 0;
        while i < self.accounts.len()
            invariant
                i <= self.accounts@.len(),
                forall|k: int| 0 <= k < i ==> (#[trigger] self.accounts@[k]).username@ != user@,
            decreases self.accounts@.len() - i,
        {
            if self.accounts[i].username == *user {
                return Some(i);
            }
            i = i + 1;
        }
        None
    }

    /// Adds `account`, unless its username is taken, in which case the stored
    /// record is left as it was.
    pub fn create(&mut self, account: Account) -> (r: Result<(), DBError>)
        requires
            old(self).wf(),
        ensures
            final(self).wf(),
            has_user(old(self).accounts(), account.username@) ==> (r matches Err(DBError::UserExists))
                && final(self).accounts() == old(self).accounts(),
            !has_user(old(self).accounts(), account.username@) ==> r is Ok
                && final(self).accounts() == old(self).accounts().push(account),
    {
        match self.index_of(&account.username) {
            Some(_) => Err(DBError::UserExists),
            None => {
                let ghost before = self.accounts@;
                self.accounts.push(account);
                proof {
                    assert forall|i: int, j: int|
                        0 <= i < self.accounts@.len() && 0 <= j < self.accounts@.len() && i
                            != j implies (#[trigger] self.accounts@[i]).username@
                        != (#[trigger] self.accounts@[j]).username@ by {
                        if i == before.len() as int {
                            assert(before[j] == self.accounts@[j]);
                        } else if j == before.len() as int {
                            assert(before[i] == self.accounts@[i]);
                        } else {
                            assert(before[i] == self.accounts@[i]);
                            assert(before[j] == self.accounts@[j]);
                        }
                    }
                }
                Ok(())
            },
        }
    }

    /// The account with username `user`, if there is one.
    pub fn find(&self, user: &String) -> (r: Option<&Account>)
        ensures
            match r {
                Some(a) => a.username@ == user@ && self.accounts().contains(*a),
                None => !has_user(self.accounts(), user@),
            },
    {
        match self.index_of(user) {
            Some(i) => Some(&self.accounts[i]),
            None => None,
        }
    }

    /// Removes the account with username `user`.
    pub fn delete(&mut self, user: &String) -> (r: Result<(), DBError>)
        requires
            old(self).wf(),
        ensures
            final(self).wf(),
            !has_user(final(self).accounts(), user@),
            has_user(old(self).accounts(), user@) <==> r is Ok,
            r is Err ==> r->Err_0 is NotFound && final(self).accounts() == old(self).accounts(),
            r is Ok ==> exists|i: int|
                0 <= i < old(self).accounts().len() && old(self).accounts()[i].username@ == user@
                    && final(self).accounts() == old(self).accounts().remove(i),
    {
        match self.index_of(user) {
            None => Err(DBError::NotFound),
            Some(i) => {
                let ghost before = self.accounts@;
                self.accounts.remove(i);
                proof {
                    assert(before.remove(i as int) == self.accounts@);
                    assert forall|a: int, b: int|
                        0 <= a < self.accounts@.len() && 0 <= b < self.accounts@.len() && a
                            != b implies (#[trigger] self.accounts@[a]).username@
                        != (#[trigger] self.accounts@[b]).username@ by {
                        let a0 = if a < i { a } else { a + 1 };
                        let b0 = if b < i { b } else { b + 1 };
                        assert(self.accounts@[a] == before[a0]);
                        assert(self.accounts@[b] == before[b0]);
                    }
                    assert forall|k: int| 0 <= k < self.accounts@.len() implies (#[trigger] self.accounts@[k]).username@ != user@ by {
                        let k0 = if k < i { k } else { k + 1 };
                        assert(self.accounts@[k] == before[k0]);
                        assert(before[i as int].username@ == user@);
                    }
                }
                Ok(())
            },
        }
    }
}

} // verus!
