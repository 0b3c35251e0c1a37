use crate::types::{role_of, Role};
use vstd::prelude::*;

verus! {

/// A stored user: `login` is the unique key, `admin` encodes the role.
///
/// `password` is the secret exactly as it is compared at login; the store neither
/// hashes nor transforms it. Storing raw passwords is a known weakness: a deployment
/// that needs hashing must store and present a digest in this field.
#[derive(Debug, Clone)]
pub struct UserRecord {
    pub login: String,
    pub password: String,
    pub admin: bool,
}

/// A stored session token, bound to one (login, device) pair.
#[derive(Debug, Clone)]
pub struct TokenRecord {
    pub token: String,
    pub login: String,
    pub device_id: String,
}

/// Mathematical value of a user row.
pub struct UserEntry {
    pub login: Seq<char>,
    pub password: Seq<char>,
    pub admin: bool,
}

/// Mathematical value of a token row.
pub struct TokenEntry {
    pub token: Seq<char>,
    pub login: Seq<char>,
    pub device_id: Seq<char>,
}

impl View for UserRecord {
    type V = UserEntry;

    open spec fn view(&self) -> UserEntry {
        UserEntry { login: self.login@, password: self.password@, admin: self.admin }
    }
}

impl View for TokenRecord {
    type V = TokenEntry;

    open spec fn view(&self) -> TokenEntry {
        TokenEntry { token: self.token@, login: self.login@, device_id: self.device_id@ }
    }
}

/// A change that the durable copy of the store has yet to receive.
#[derive(Debug, Clone)]
pub enum StoreWrite {
    /// A new user row.
    InsertUser(UserRecord),
    /// A new token row.
    InsertToken(TokenRecord),
    /// The row of the record's (login, device_id) pair now holds the record's token.
    UpdateToken(TokenRecord),
}

/// Mathematical value of a pending write.
pub enum WriteEntry {
    InsertUser(UserEntry),
    InsertToken(TokenEntry),
    UpdateToken(TokenEntry),
}

impl View for StoreWrite {
    type V = WriteEntry;

    open spec fn view(&self) -> WriteEntry {
        match self {
            StoreWrite::InsertUser(u) => WriteEntry::InsertUser(u@),
            StoreWrite::InsertToken(t) => WriteEntry::InsertToken(t@),
            StoreWrite::UpdateToken(t) => WriteEntry::UpdateToken(t@),
        }
    }
}

/// Failures of store operations.
#[derive(Debug, Clone, Copy, PartialEq, Eq, Structural)]
pub enum StoreError {
    /// The login is already registered.
    Conflict,
    /// The write would break a key of the store (a token value already in use).
    StorageFailure,
}

/// Mathematical value of the whole store.
pub struct StoreView {
    pub users: Seq<UserEntry>,
    pub tokens: Seq<TokenEntry>,
    pub pending: Seq<WriteEntry>,
}

pub open spec fn user_matches(u: UserEntry, login: Seq<char>, password: Seq<char>) -> bool {
    u.login == login && u.password == password
}

pub open spec fn token_matches(t: TokenEntry, token: Seq<char>, device_id: Seq<char>) -> bool {
    t.token == token && t.device_id == device_id
}

pub open spec fn pair_matches(t: TokenEntry, login: Seq<char>, device_id: Seq<char>) -> bool {
    t.login == login && t.device_id == device_id
}

impl StoreView {
    /// Logins are unique, token values are unique, and each (login, device) pair has
    /// at most one token row.
    pub open spec fn wf(self) -> bool {
        &&& forall|i: int, j: int|
            #![trigger self.users[i], self.users[j]]
            0 <= i < self.users.len() && 0 <= j < self.users.len() && i != j
                ==> self.users[i].login != self.users[j].login
        &&& forall|i: int, j: int|
            #![trigger self.tokens[i], self.tokens[j]]
            0 <= i < self.tokens.len() && 0 <= j < self.tokens.len() && i != j
                ==> self.tokens[i].token != self.tokens[j].token && !pair_matches(
                self.tokens[i],
                self.tokens[j].login,
                self.tokens[j].device_id,
            )
    }

    pub open spec fn has_login(self, login: Seq<char>) -> bool {
        exists|i: int| 0 <= i < self.users.len() && #[trigger] self.users[i].login == login
    }

    /// The role of the user whose login and password both match, if any.
    pub open spec fn credentials_role(self, login: Seq<char>, password: Seq<char>) -> Option<Role> {
        if exists|i: int|
            0 <= i < self.users.len() && #[trigger] user_matches(self.users[i], login, password) {
            let i = choose|i: int|
                0 <= i < self.users.len() && #[trigger] user_matches(self.users[i], login, password);
            Some(role_of(self.users[i].admin))
        } else {
            None
        }
    }

    /// The role of the owner of the token row holding both `token` and `device_id`.
    pub open spec fn resolved_role(self, token: Seq<char>, device_id: Seq<char>) -> Option<Role> {
        if exists|i: int, j: int|
            0 <= i < self.tokens.len() && 0 <= j < self.users.len() && #[trigger] token_matches(
                self.tokens[i],
                token,
                device_id,
            ) && #[trigger] self.users[j].login == self.tokens[i].login {
            let (i, j) = choose|i: int, j: int|
                0 <= i < self.tokens.len() && 0 <= j < self.users.len() && #[trigger] token_matches(
                    self.tokens[i],
                    token,
                    device_id,
                ) && #[trigger] self.users[j].login == self.tokens[i].login;
            Some(role_of(self.users[j].admin))
        } else {
            None
        }
    }

    pub open spec fn token_in_use(self, token: Seq<char>) -> bool {
        exists|i: int| 0 <= i < self.tokens.len() && #[trigger] self.tokens[i].token == token
    }

    /// Whether some stored token value has the given length.
    pub open spec fn holds_token_of_len(self, len: nat) -> bool {
        exists|i: int| 0 <= i < self.tokens.len() && #[trigger] self.tokens[i].token.len() == len
    }

    pub open spec fn has_pair(self, login: Seq<char>, device_id: Seq<char>) -> bool {
        exists|i: int|
            0 <= i < self.tokens.len() && #[trigger] pair_matches(self.tokens[i], login, device_id)
    }

    /// The store after a user row is added.
    pub open spec fn with_user(self, login: Seq<char>, password: Seq<char>, admin: bool) -> StoreView {
        let u = UserEntry { login, password, admin };
        StoreView {
            users: self.users.push(u),
            tokens: self.tokens,
            pending: self.pending.push(WriteEntry::InsertUser(u)),
        }
    }

    /// The store after the administrative account is seeded: unchanged when the login
    /// is already stored, else with one admin row added.
    pub open spec fn seeded(self, login: Seq<char>, password: Seq<char>) -> StoreView {
        if self.has_login(login) {
            self
        } else {
            self.with_user(login, password, true)
        }
    }

    /// The store after `token` is issued for the pair: the pair's row is overwritten
    /// in place when it exists, else a row is appended.
    pub open spec fn with_token(self, login: Seq<char>, device_id: Seq<char>, token: Seq<char>) -> StoreView {
        let t = TokenEntry { token, login, device_id };
        if self.has_pair(login, device_id) {
            let i = choose|i: int|
                0 <= i < self.tokens.len() && #[trigger] pair_matches(self.tokens[i], login, device_id);
            StoreView {
                users: self.users,
                tokens: self.tokens.update(i, t),
                pending: self.pending.push(WriteEntry::UpdateToken(t)),
            }
        } else {
            StoreView {
                users: self.users,
                tokens: self.tokens.push(t),
                pending: self.pending.push(WriteEntry::InsertToken(t)),
            }
        }
    }
}

/// Users and tokens, with the writes that have not yet been handed to durable storage.
pub struct CredentialStore {
    users: Vec<UserRecord>,
    tokens: Vec<TokenRecord>,
    pending: Vec<StoreWrite>,
}

impl View for CredentialStore {
    type V = StoreView;

    closed spec fn view(&self) -> StoreView {
        StoreView {
            users: self.users@.map_values(|u: UserRecord| u@),
            tokens: self.tokens@.map_values(|t: TokenRecord| t@),
            pending: self.pending@.map_values(|w: StoreWrite| w@),
        }
    }
}

impl CredentialStore {
    /// An empty store.
    pub fn new() -> (r: CredentialStore)
        ensures
            r@.users.len() == 0,
            r@.tokens.len() == 0,
            r@.pending.len() == 0,
            r@.wf(),
    {
        let r = CredentialStore { users: Vec::new(), tokens: Vec::new(), pending: Vec::new() };
        assert(r@.users.len() == 0);
        r
    }

    /// Whether a user with this login is stored.
    pub fn user_exists(&self, login: &String) -> (r: bool)
        ensures
            r == self@.has_login(login@),
    {
        let mut i: usize = 0;
        while i < self.users.len()
            invariant
                i <= self.users.len(),
                forall|k: int| 0 <= k < i ==> self@.users[k].login != login@,
            decreases self.users.len() - i,
        {
            if self.users[i].login == *login {
                assert(self@.users[i as int].login == login@);
                return true;
            }
            i += 1;
        }
        false
    }

    /// Whether some token row holds this token value.
    pub fn token_in_use(&self, token: &String) -> (r: bool)
        ensures
            r == self@.token_in_use(token@),
    {
        let mut i: usize = 0;
        while i < self.tokens.len()
            invariant
                i <= self.tokens.len(),
                forall|k: int| 0 <= k < i ==> #[trigger] self@.tokens[k].token != token@,
            decreases self.tokens.len() - i,
        {
            if self.tokens[i].token == *token {
                assert(self@.tokens[i as int].token == token@);
                return true;
            }
            i += 1;
        }
        false
    }

    /// The role of the user when both login and password match exactly; `None` on
    /// any mismatch, so an unknown login and a wrong password look alike.
    pub fn verify_credentials(&self, login: &String, password: &String) -> (r: Option<Role>)
        requires
            self@.wf(),
        ensures
            r == self@.credentials_role(login@, password@),
    {
        let mut i: usize = 0;
        while i < self.users.len()
            invariant
                i <= self.users.len(),
                self@.wf(),
                forall|k: int| 0 <= k < i ==> !user_matches(#[trigger] self@.users[k], login@, password@),
            decreases self.users.len() - i,
        {
            if self.users[i].login == *login && self.users[i].password == *password {
                let ghost v = self@;
                assert(user_matches(v.users[i as int], login@, password@));
                let ghost c = choose|c: int|
                    0 <= c < v.users.len() && #[trigger] user_matches(v.users[c], login@, password@);
                assert(v.users[c].login == v.users[i as int].login);
                return Some(Role::from_admin_flag(self.users[i].admin));
            }
            i += 1;
        }
        None
    }

    /// The role bound to the token row that holds both `token` and `device_id`;
    /// `None` when no row holds both.
    pub fn resolve_role(&self, token: &String, device_id: &String) -> (r: Option<Role>)
        requires
            self@.wf(),
        ensures
            r == self@.resolved_role(token@, device_id@),
    {
        let ghost v = self@;
        let mut i: usize = 0;
        while i < self.tokens.len()
            invariant
                i <= self.tokens.len(),
                v == self@,
                v.wf(),
                forall|k: int| 0 <= k < i ==> !token_matches(#[trigger] v.tokens[k], token@, device_id@),
            decreases self.tokens.len() - i,
        {
            if self.tokens[i].token == *token && self.tokens[i].device_id == *device_id {
                assert(token_matches(v.tokens[i as int], token@, device_id@));
                let mut j: usize = 0;
                while j < self.users.len()
                    invariant
                        j <= self.users.len(),
                        i < self.tokens.len(),
                        v == self@,
                        v.wf(),
                        token_matches(v.tokens[i as int], token@, device_id@),
                        forall|k: int| 0 <= k < j ==> #[trigger] v.users[k].login != v.tokens[i as int].login,
                    decreases self.users.len() - j,
                {
                    if self.users[j].login == self.tokens[i].login {
                        assert(v.users[j as int].login == v.tokens[i as int].login);
                        let ghost (ci, cj) = choose|ci: int, cj: int|
                            0 <= ci < v.tokens.len() && 0 <= cj < v.users.len() && #[trigger] token_matches(
                                v.tokens[ci],
                                token@,
                                device_id@,
                            ) && #[trigger] v.users[cj].login == v.tokens[ci].login;
                        assert(v.tokens[ci].token == v.tokens[i as int].token);
                        assert(ci == i);
                        assert(v.users[cj].login == v.users[j as int].login);
                        return Some(Role::from_admin_flag(self.users[j].admin));
                    }
                    j += 1;
                }
                assert forall|ci: int, cj: int|
                    0 <= ci < v.tokens.len() && 0 <= cj < v.users.len() && #[trigger] token_matches(
                        v.tokens[ci],
                        token@,
                        device_id@,
                    ) implies #[trigger] v.users[cj].login != v.tokens[ci].login by {
                    assert(v.tokens[ci].token == v.tokens[i as int].token);
                    assert(ci == i);
                    assert(v.users[cj].login != v.tokens[i as int].login);
                }
                return None;
            }
            i += 1;
        }
        None
    }

    /// Adds a user unless the login is taken. On `Conflict` nothing changes.
    pub fn create_user(&mut self, login: String, password: String, admin: bool) -> (r: Result<(), StoreError>)
        requires
            old(self)@.wf(),
        ensures
            final(self)@.wf(),
            old(self)@.has_login(login@) ==> r == Err::<(), StoreError>(StoreError::Conflict) && final(self)@ == old(self)@,
            !old(self)@.has_login(login@) ==> r == Ok::<(), StoreError>(()) && final(self)@ == old(self)@.with_user(
                login@,
                password@,
                admin,
            ),
    {
        if self.user_exists(&login) {
            return Err(StoreError::Conflict);
        }
        let ghost v = self@;
        let rec = UserRecord { login: login.clone(), password: password.clone(), admin };
        self.users.push(rec);
        self.pending.push(StoreWrite::InsertUser(UserRecord { login, password, admin }));
        assert(self@.users =~= v.users.push(UserEntry { login: login@, password: password@, admin }));
        assert(self@.pending =~= v.pending.push(
            WriteEntry::InsertUser(UserEntry { login: login@, password: password@, admin }),
        ));
        assert(self@.tokens =~= v.tokens);
        assert forall|i: int, j: int|
            0 <= i < self@.users.len() && 0 <= j < self@.users.len() && i != j implies #[trigger] self@.users[i].login
                != #[trigger] self@.users[j].login by {
            if i < v.users.len() && j < v.users.len() {
                assert(self@.users[i] == v.users[i]);
                assert(self@.users[j] == v.users[j]);
            } else if i < v.users.len() {
                assert(self@.users[i] == v.users[i]);
            } else {
                assert(self@.users[j] == v.users[j]);
            }
        }
        Ok(())
    }

    /// Stores `token` for the (login, device_id) pair: the pair's row is overwritten in
    /// place when there is one, else a row is added. A token value that is already
    /// stored is refused with `StorageFailure`, and then nothing changes.
    pub fn issue_token(&mut self, login: String, device_id: String, token: String) -> (r: Result<(), StoreError>)
        requires
            old(self)@.wf(),
        ensures
            final(self)@.wf(),
            old(self)@.token_in_use(token@) ==> r == Err::<(), StoreError>(StoreError::StorageFailure)
                && final(self)@ == old(self)@,
            !old(self)@.token_in_use(token@) ==> r == Ok::<(), StoreError>(()) && final(self)@
                == old(self)@.with_token(login@, device_id@, token@),
    {
        let ghost v = self@;
        let mut i: usize = 0;
        while i < self.tokens.len()
            invariant
                i <= self.tokens.len(),
                v == self@,
                v.wf(),
                forall|k: int| 0 <= k < i ==> #[trigger] v.tokens[k].token != token@,
            decreases self.tokens.len() - i,
        {
            if self.tokens[i].token == token {
                assert(v.tokens[i as int].token == token@);
                return Err(StoreError::StorageFailure);
            }
            i += 1;
        }
        let ghost t = TokenEntry { token: token@, login: login@, device_id: device_id@ };
        let mut j: usize = 0;
        while j < self.tokens.len()
            invariant
                j <= self.tokens.len(),
                v == self@,
                v == old(self)@,
                t == (TokenEntry { token: token@, login: login@, device_id: device_id@ }),
                v.wf(),
                !v.token_in_use(token@),
                forall|k: int| 0 <= k < j ==> !pair_matches(#[trigger] v.tokens[k], login@, device_id@),
            decreases self.tokens.len() - j,
        {
            if self.tokens[j].login == login && self.tokens[j].device_id == device_id {
                assert(pair_matches(v.tokens[j as int], login@, device_id@));
                let ghost c = choose|c: int|
                    0 <= c < v.tokens.len() && #[trigger] pair_matches(v.tokens[c], login@, device_id@);
                assert(c == j as int);
                let rec = TokenRecord { token: token.clone(), login: login.clone(), device_id: device_id.clone() };
                assert(rec@ == t);
                self.tokens.set(j, rec);
                let w = StoreWrite::UpdateToken(TokenRecord { token, login, device_id });
                assert(w@ == WriteEntry::UpdateToken(t));
                self.pending.push(w);
                assert(self@.tokens =~= v.tokens.update(j as int, t));
                assert(self@.pending =~= v.pending.push(WriteEntry::UpdateToken(t)));
                assert(self@.users =~= v.users);
                assert forall|a: int, b: int|
                    0 <= a < self@.tokens.len() && 0 <= b < self@.tokens.len() && a != b implies
                    #[trigger] self@.tokens[a].token != #[trigger] self@.tokens[b].token
                        && !pair_matches(self@.tokens[a], self@.tokens[b].login, self@.tokens[b].device_id) by {
                    if a == j as int {
                        assert(v.tokens[b].token != token@);
                        assert(!pair_matches(v.tokens[j as int], v.tokens[b].login, v.tokens[b].device_id));
                    } else if b == j as int {
                        assert(v.tokens[a].token != token@);
                        assert(!pair_matches(v.tokens[a], v.tokens[j as int].login, v.tokens[j as int].device_id));
                    } else {
                        assert(self@.tokens[a] == v.tokens[a]);
                        assert(self@.tokens[b] == v.tokens[b]);
                    }
                }
                return Ok(());
            }
            j += 1;
        }
        self.tokens.push(TokenRecord { token: token.clone(), login: login.clone(), device_id: device_id.clone() });
        self.pending.push(StoreWrite::InsertToken(TokenRecord { token, login, device_id }));
        assert(self@.tokens =~= v.tokens.push(t));
        assert(self@.pending =~= v.pending.push(WriteEntry::InsertToken(t)));
        assert(self@.users =~= v.users);
        assert forall|a: int, b: int|
            0 <= a < self@.tokens.len() && 0 <= b < self@.tokens.len() && a != b implies
            #[trigger] self@.tokens[a].token != #[trigger] self@.tokens[b].token
                && !pair_matches(self@.tokens[a], self@.tokens[b].login, self@.tokens[b].device_id) by {
            let n = v.tokens.len() as int;
            if a == n {
                assert(v.tokens[b].token != token@);
                assert(!pair_matches(v.tokens[b], login@, device_id@));
            } else if b == n {
                assert(v.tokens[a].token != token@);
                assert(!pair_matches(v.tokens[a], login@, device_id@));
            } else {
                assert(self@.tokens[a] == v.tokens[a]);
                assert(self@.tokens[b] == v.tokens[b]);
            }
        }
        Ok(())
    }

    /// Hands out the writes not yet made durable, oldest first, and forgets them.
    pub fn take_pending(&mut self) -> (r: Vec<StoreWrite>)
        ensures
            r@.map_values(|w: StoreWrite| w@) == old(self)@.pending,
            final(self)@.users == old(self)@.users,
            final(self)@.tokens == old(self)@.tokens,
            final(self)@.pending.len() == 0,
    {
        let mut out: Vec<StoreWrite> = Vec::new();
        core::mem::swap(&mut out, &mut self.pending);
        assert(self@.pending =~= Seq::<WriteEntry>::empty());
        out
    }

    /// The user rows, in insertion order.
    pub fn user_rows(&self) -> (r: &Vec<UserRecord>)
        ensures
            r@.map_values(|u: UserRecord| u@) == self@.users,
    {
        &self.users
    }

    /// The token rows, in insertion order.
    pub fn token_rows(&self) -> (r: &Vec<TokenRecord>)
        ensures
            r@.map_values(|t: TokenRecord| t@) == self@.tokens,
    {
        &self.tokens
    }
}

} // verus!
