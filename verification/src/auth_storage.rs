//! The saved logins: each account's tokens and when they expire, and which account is
//! selected.

use crate::assoc::{
    assoc_insert, assoc_map, last_position, lemma_assoc_absent, lemma_assoc_last,
};
use vstd::prelude::*;

verus! {

/// Why a token cannot be had.
#[derive(Debug, Clone, Copy, PartialEq, Eq, Structural)]
pub enum TokenError {
    /// A refresh token was not provided.
    NoRefresh,
    /// An access token was not provided.
    Absent,
}

/// One logged-in account.
pub struct AuthAccount {
    pub dirty: bool,
    pub access_token: String,
    pub refresh_token: String,
    /// Expiry time in seconds since epoch
    pub expires_at: u64,
    pub user_id: String,
}

impl AuthAccount {
    pub fn user_id(&self) -> (r: &str)
        ensures
            r@ == self.user_id@,
    {
        self.user_id.as_str()
    }

    /// An account for a bare access token, which never expires.
    pub fn from_token(token: &str) -> (r: Self)
        ensures
            r.access_token@ == token@,
            r.expires_at == u64::MAX,
            r.refresh_token@ == Seq::<char>::empty(),
            r.user_id@ == Seq::<char>::empty(),
            !r.dirty,
    {
        AuthAccount {
            dirty: false,
            access_token: token.to_string(),
            refresh_token: String::new(),
            expires_at: u64::MAX,
            user_id: String::new(),
        }
    }

    /// Takes the tokens of a token response received at `now`: the access token, then the
    /// refresh token (an error when there is none, the access token being kept), then the
    /// expiry; the account must then be saved.
    pub fn parse_token_response(
        &mut self,
        access_token: &str,
        refresh_token: Option<&str>,
        expires_in: u64,
        now: u64,
    ) -> (r: Result<(), TokenError>)
        requires
            now + expires_in <= u64::MAX,
        ensures
            final(self).access_token@ == access_token@,
            final(self).user_id == old(self).user_id,
            match refresh_token {
                None => r == Err::<(), TokenError>(TokenError::NoRefresh) && final(self).refresh_token
                    == old(self).refresh_token && final(self).expires_at == old(self).expires_at
                    && final(self).dirty == old(self).dirty,
                Some(t) => r is Ok && final(self).refresh_token@ == t@ && final(self).expires_at
                    == now + expires_in && final(self).dirty,
            },
    {
        self.access_token = access_token.to_string();
        match refresh_token {
            Some(t) => {
                self.refresh_token = t.to_string();
            },
            None => return Err(TokenError::NoRefresh),
        }
        self.expires_at = now + expires_in;
        self.dirty = true;
        Ok(())
    }

    /// The user id is learnt once, when the account has none.
    pub fn needs_user_id(&self) -> (r: bool)
        ensures
            r == (self.user_id@.len() == 0),
    {
        self.user_id.as_str().is_empty()
    }

    /// Whether the access token must be refreshed at `now`: it expires within ten seconds.
    pub fn needs_refresh(&self, now: u64) -> (r: bool)
        requires
            self.expires_at >= 10,
        ensures
            r == (now >= self.expires_at - 10),
    {
        now >= self.expires_at - 10
    }

    pub fn mark_dirty(&mut self)
        ensures
            final(self).dirty,
            final(self).access_token == old(self).access_token,
            final(self).refresh_token == old(self).refresh_token,
            final(self).expires_at == old(self).expires_at,
            final(self).user_id == old(self).user_id,
    {
        self.dirty = true;
    }
}

/// The saved accounts by user id, the selected one, and whether they may be saved.
pub struct AuthStorage {
    pub accounts: Vec<(String, AuthAccount)>,
    pub selected: Option<String>,
    pub can_save: bool,
}

/// `after` is `before` with `account` added and selected: the other accounts stay, and a
/// replaced account must be saved.
pub open spec fn account_added(before: AuthStorage, account: AuthAccount, after: AuthStorage) -> bool {
    &&& after.selected matches Some(s) && s@ == account.user_id@
    &&& after.can_save == before.can_save
    &&& after.accounts().dom() == before.accounts().dom().insert(account.user_id@)
    &&& forall|k: Seq<char>| k != account.user_id@ && before.accounts().contains_key(k)
        ==> after.accounts()[k] == before.accounts()[k]
    &&& ({
        let a = after.accounts()[account.user_id@];
        &&& a.access_token == account.access_token
        &&& a.refresh_token == account.refresh_token
        &&& a.expires_at == account.expires_at
        &&& a.user_id == account.user_id
        &&& a.dirty == (account.dirty || before.accounts().contains_key(account.user_id@))
    })
}

impl AuthStorage {
    /// The accounts by user id.
    pub open spec fn accounts(&self) -> Map<Seq<char>, AuthAccount> {
        assoc_map(self.accounts@)
    }

    /// Storage read from the saved file: it may be saved again.
    pub fn new_saved() -> (r: Self)
        ensures
            r.accounts() == Map::<Seq<char>, AuthAccount>::empty(),
            r.selected is None,
            r.can_save,
    {
        AuthStorage { accounts: Vec::new(), selected: None, can_save: true }
    }

    /// Storage that is never saved.
    pub fn new() -> (r: Self)
        ensures
            r.accounts() == Map::<Seq<char>, AuthAccount>::empty(),
            r.selected is None,
            !r.can_save,
    {
        AuthStorage { accounts: Vec::new(), selected: None, can_save: false }
    }

    /// Storage for one account of a bare token, selected under the name `direct`, never
    /// saved.
    pub fn from_token(token: &str) -> (r: Self)
        ensures
            r.accounts().dom() == set!["direct"@],
            r.accounts()["direct"@].access_token@ == token@,
            r.accounts()["direct"@].expires_at == u64::MAX,
            r.selected matches Some(s) && s@ == "direct"@,
            !r.can_save,
    {
        let mut accounts: Vec<(String, AuthAccount)> = Vec::new();
        let account = AuthAccount::from_token(token);
        let ghost a = account;
        assoc_insert(&mut accounts, "direct", account);
        assert(assoc_map(Seq::<(String, AuthAccount)>::empty()) =~= Map::<Seq<char>, AuthAccount>::empty());
        assert(assoc_map(accounts@).dom() =~= set!["direct"@]);
        AuthStorage { accounts, selected: Some("direct".to_string()), can_save: false }
    }

    /// The selected account.
    pub fn current(&self) -> (r: Option<&AuthAccount>)
        ensures
            match self.selected {
                Some(s) => if self.accounts().contains_key(s@) {
                    r == Some(&self.accounts()[s@])
                } else {
                    r is None
                },
                None => r is None,
            },
    {
        match &self.selected {
            Some(s) => match last_position(&self.accounts, s.as_str()) {
                Some(i) => {
                    proof {
                        lemma_assoc_last(self.accounts@, i as int);
                    }
                    Some(&self.accounts[i].1)
                },
                None => {
                    proof {
                        lemma_assoc_absent(self.accounts@, s@);
                    }
                    None
                },
            },
            None => None,
        }
    }

    /// Adds (or replaces) an account and selects it; a replaced account must be saved.
    pub fn add_account(&mut self, account: AuthAccount)
        ensures
            account_added(*old(self), account, *final(self)),
    {
        let mut account = account;
        let user_id = account.user_id.clone();
        let existed = match last_position(&self.accounts, user_id.as_str()) {
            Some(i) => {
                proof {
                    lemma_assoc_last(self.accounts@, i as int);
                }
                true
            },
            None => {
                proof {
                    lemma_assoc_absent(self.accounts@, user_id@);
                }
                false
            },
        };
        if existed {
            account.mark_dirty();
        }
        assoc_insert(&mut self.accounts, user_id.as_str(), account);
        self.selected = Some(user_id);
        assert(self.accounts().dom() =~= old(self).accounts().dom().insert(user_id@));
    }

    /// Whether the accounts must be written to disk: saving is allowed and one is dirty.
    pub fn save_needed(&self) -> (r: bool)
        ensures
            r == (self.can_save && exists|k: Seq<char>| self.accounts().contains_key(k) && #[trigger] self.accounts()[k].dirty),
    {
        if !self.can_save {
            return false;
        }
        let mut i: usize = 0;
        while i < self.accounts.len()
            invariant
                i <= self.accounts.len(),
                self.can_save,
                forall|j: int| 0 <= j < i ==> !(self.accounts@[j].1.dirty && #[trigger] is_last_of_key(self.accounts@, j)),
            decreases self.accounts.len() - i,
        {
            if self.accounts[i].1.dirty {
                match last_position(&self.accounts, self.accounts[i].0.as_str()) {
                    Some(j) => {
                        if j == i {
                            proof {
                                lemma_assoc_last(self.accounts@, i as int);
                                let k = self.accounts@[i as int].0@;
                                assert(self.accounts().contains_key(k) && self.accounts()[k].dirty);
                            }
                            return true;
                        }
                        assert(!is_last_of_key(self.accounts@, i as int));
                    },
                    None => {},
                }
            }
            i = i + 1;
        }
        proof {
            assert forall|k: Seq<char>| self.accounts().contains_key(k) implies !#[trigger] self.accounts()[k].dirty by {
                lemma_map_value_is_entry(self.accounts@, k);
                let j = choose|j: int| 0 <= j < self.accounts@.len() && self.accounts@[j].0@ == k && assoc_map(self.accounts@)[k] == self.accounts@[j].1 && forall|x: int| j < x < self.accounts@.len() ==> self.accounts@[x].0@ != k;
                assert(is_last_of_key(self.accounts@, j));
            }
        }
        false
    }
}

/// `e[i]` is the last entry of its key.
spec fn is_last_of_key(e: Seq<(String, AuthAccount)>, i: int) -> bool {
    0 <= i < e.len() && forall|x: int| i < x < e.len() ==> e[x].0@ != e[i].0@
}

/// A key of the map has the value of its last entry.
proof fn lemma_map_value_is_entry(e: Seq<(String, AuthAccount)>, k: Seq<char>)
    requires
        assoc_map(e).contains_key(k),
    ensures
        exists|j: int| 0 <= j < e.len() && e[j].0@ == k && assoc_map(e)[k] == e[j].1 && forall|x: int| j < x < e.len() ==> e[x].0@ != k,
    decreases e.len(),
{
    if e.len() > 0 {
        if e.last().0@ == k {
            let j = e.len() - 1;
            assert(assoc_map(e)[k] == e[j].1);
        } else {
            assert(assoc_map(e.drop_last()).contains_key(k));
            lemma_map_value_is_entry(e.drop_last(), k);
            let d = e.drop_last();
            let j = choose|j: int| 0 <= j < d.len() && d[j].0@ == k && assoc_map(d)[k] == d[j].1 && forall|x: int| j < x < d.len() ==> d[x].0@ != k;
            assert(e[j].0@ == k && assoc_map(e)[k] == e[j].1);
            assert forall|x: int| j < x < e.len() implies e[x].0@ != k by {
                if x < e.len() - 1 {
                    assert(e[x] == d[x]);
                }
            }
        }
    }
}

/// Adding an account makes it the current one, with its tokens; a storage that may be
/// saved then needs saving when the account was new and dirty, or replaced one.
pub proof fn lemma_current_after_add(before: AuthStorage, account: AuthAccount, after: AuthStorage)
    requires
        account_added(before, account, after),
    ensures
        after.selected matches Some(s) && after.accounts().contains_key(s@) && after.accounts()[s@].access_token
            == account.access_token && after.accounts()[s@].refresh_token == account.refresh_token
            && after.accounts()[s@].expires_at == account.expires_at,
        after.can_save && (account.dirty || before.accounts().contains_key(account.user_id@)) ==> exists|k: Seq<char>|
            after.accounts().contains_key(k) && #[trigger] after.accounts()[k].dirty,
{
    assert(after.accounts().contains_key(account.user_id@));
    if after.can_save && (account.dirty || before.accounts().contains_key(account.user_id@)) {
        assert(after.accounts()[account.user_id@].dirty);
    }
}

} // verus!
