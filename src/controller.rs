use crate::store::{CredentialStore, StoreError, StoreView};
use crate::types::{
    risk_score, AuthRequest, AuthResponse, Config, Fingerprint, RegistrationRequest, Role,
};
use vstd::prelude::*;

verus! {

/// Relies on `uuid::Uuid::new_v4` for a random 128-bit identifier, and on uuid's
/// `Display`, which writes it in the hyphenated form of 36 characters.
#[verifier::external_body]
fn fresh_token() -> (r: String)
    ensures
        r@.len() == 36,
{
    uuid::Uuid::new_v4().to_string()
}

/// How many token values one login may draw before it gives up on finding one
/// that is not stored yet.
pub const TOKEN_DRAWS: u8 = 4;

/// Why a registration request was turned down.
#[derive(Debug, Clone, Copy, PartialEq, Eq, Structural)]
pub enum RegistrationError {
    /// The token did not resolve for the presented fingerprint.
    Unauthorized,
    /// The token belongs to a user without the admin role.
    Forbidden,
    /// The store refused the new user.
    Store(StoreError),
}

/// The service object: the seed configuration and the credential store.
pub struct Controller {
    config: Config,
    store: CredentialStore,
}

impl Controller {
    pub closed spec fn store_view(&self) -> StoreView {
        self.store@
    }

    pub closed spec fn seed_login(&self) -> Seq<char> {
        self.config.admil_login@
    }

    pub closed spec fn seed_password(&self) -> Seq<char> {
        self.config.admil_password@
    }

    pub open spec fn wf(&self) -> bool {
        self.store_view().wf()
    }

    /// A controller over `store`, seeding the account named in `config`.
    pub fn new(config: Config, store: CredentialStore) -> (r: Controller)
        requires
            store@.wf(),
        ensures
            r.wf(),
            r.store_view() == store@,
            r.seed_login() == config.admil_login@,
            r.seed_password() == config.admil_password@,
    {
        Controller { config, store }
    }

    /// The store, for reading.
    pub fn store(&self) -> (r: &CredentialStore)
        ensures
            r@ == self.store_view(),
    {
        &self.store
    }

    /// Seeds the configured administrative account when its login is not stored yet;
    /// an existing row is left as it is.
    pub fn start(&mut self)
        requires
            old(self).wf(),
        ensures
            final(self).wf(),
            final(self).store_view() == old(self).store_view().seeded(
                old(self).seed_login(),
                old(self).seed_password(),
            ),
            final(self).seed_login() == old(self).seed_login(),
            final(self).seed_password() == old(self).seed_password(),
    {
        if !self.store.user_exists(&self.config.admil_login) {
            let login = self.config.admil_login.clone();
            let password = self.config.admil_password.clone();
            let _ = self.store.create_user(login, password, true);
        }
    }

    /// The risk score of a fingerprint: 50 for webdriver, 50 for open dev tools.
    pub fn calculate_risk(fp: &Fingerprint) -> (r: u8)
        ensures
            r as int == fp.spec_score(),
            r as int == risk_score(fp.webdriver, fp.dev_tools),
    {
        fp.score()
    }

    /// The caller's role when the fingerprint passes the risk gate and the token is
    /// stored for the fingerprint's device; `None` otherwise.
    pub fn check_auth(&self, token: &str, fp: Fingerprint) -> (r: Option<Role>)
        requires
            self.wf(),
        ensures
            fp.is_rejected() ==> r.is_none(),
            !fp.is_rejected() ==> r == self.store_view().resolved_role(token@, fp.device_id@),
    {
        if !fp.passes_risk_gate() {
            return None;
        }
        let token = token.to_owned();
        self.store.resolve_role(&token, &fp.device_id)
    }

    /// Password login with the token value to issue given. `Ok(None)` when the
    /// fingerprint is rejected or the credentials do not match; otherwise `token` is
    /// issued for (login, device) and returned with the user's role, unless the
    /// value is already stored (`StorageFailure`).
    pub fn log_in_with_token(&mut self, auth: AuthRequest, token: String) -> (r: Result<Option<AuthResponse>, StoreError>)
        requires
            old(self).wf(),
        ensures
            final(self).wf(),
            final(self).seed_login() == old(self).seed_login(),
            final(self).seed_password() == old(self).seed_password(),
            ({
                let s = old(self).store_view();
                let creds = s.credentials_role(auth.login@, auth.password@);
                if auth.fingerprint.is_rejected() || creds.is_none() {
                    r matches Ok(None) && final(self).store_view() == s
                } else if s.token_in_use(token@) {
                    r == Err::<Option<AuthResponse>, StoreError>(StoreError::StorageFailure)
                        && final(self).store_view() == s
                } else {
                    &&& r matches Ok(Some(resp))
                    &&& resp.token@ == token@
                    &&& Some(resp.role) == creds
                    &&& final(self).store_view() == s.with_token(
                        auth.login@,
                        auth.fingerprint.device_id@,
                        token@,
                    )
                }
            }),
    {
        if !auth.fingerprint.passes_risk_gate() {
            return Ok(None);
        }
        let role = match self.store.verify_credentials(&auth.login, &auth.password) {
            Some(role) => role,
            None => return Ok(None),
        };
        let issued = token.clone();
        match self.store.issue_token(auth.login, auth.fingerprint.device_id, token) {
            Ok(()) => Ok(Some(AuthResponse { token: issued, role })),
            Err(e) => Err(e),
        }
    }

    /// Password login. `Ok(None)` when the fingerprint is rejected or the
    /// credentials do not match, with the store untouched; otherwise a random token
    /// value that is not stored yet is issued for (login, device) and returned with
    /// the user's role. A drawn value that is already stored is drawn again, up to
    /// `TOKEN_DRAWS` times; only when every draw collided is `StorageFailure`
    /// returned, which needs a stored token of the drawn length.
    pub fn log_in_with_password(&mut self, auth: AuthRequest) -> (r: Result<Option<AuthResponse>, StoreError>)
        requires
            old(self).wf(),
        ensures
            final(self).wf(),
            final(self).seed_login() == old(self).seed_login(),
            final(self).seed_password() == old(self).seed_password(),
            ({
                let s = old(self).store_view();
                let creds = s.credentials_role(auth.login@, auth.password@);
                if auth.fingerprint.is_rejected() || creds.is_none() {
                    r matches Ok(None) && final(self).store_view() == s
                } else {
                    ||| r == Err::<Option<AuthResponse>, StoreError>(StoreError::StorageFailure)
                        && final(self).store_view() == s && s.holds_token_of_len(36)
                    ||| r matches Ok(Some(resp)) && Some(resp.role) == creds && resp.token@.len() == 36
                        && !s.token_in_use(resp.token@) && final(self).store_view() == s.with_token(
                        auth.login@,
                        auth.fingerprint.device_id@,
                        resp.token@,
                    )
                }
            }),
            !old(self).store_view().holds_token_of_len(36) ==> r is Ok,
    {
        if !auth.fingerprint.passes_risk_gate() {
            return Ok(None);
        }
        if self.store.verify_credentials(&auth.login, &auth.password).is_none() {
            return Ok(None);
        }
        let ghost s = self.store_view();
        let mut draws: u8 = 0;
        while draws < TOKEN_DRAWS
            invariant
                self.wf(),
                self.store_view() == s,
                s == old(self).store_view(),
                self.seed_login() == old(self).seed_login(),
                self.seed_password() == old(self).seed_password(),
                !auth.fingerprint.is_rejected(),
                s.credentials_role(auth.login@, auth.password@).is_some(),
                draws > 0 ==> s.holds_token_of_len(36),
            decreases TOKEN_DRAWS - draws,
        {
            let token = fresh_token();
            if !self.store.token_in_use(&token) {
                return self.log_in_with_token(auth, token);
            }
            assert(s.holds_token_of_len(36)) by {
                let i = choose|i: int| 0 <= i < s.tokens.len() && #[trigger] s.tokens[i].token == token@;
                assert(s.tokens[i].token.len() == 36);
            }
            draws += 1;
        }
        Err(StoreError::StorageFailure)
    }

    /// Adds a user; `Conflict` when the login is already stored, and then nothing changes.
    pub fn create_user(&mut self, login: String, password: String, admin: bool) -> (r: Result<(), StoreError>)
        requires
            old(self).wf(),
        ensures
            final(self).wf(),
            final(self).seed_login() == old(self).seed_login(),
            final(self).seed_password() == old(self).seed_password(),
            old(self).store_view().has_login(login@) ==> r == Err::<(), StoreError>(StoreError::Conflict)
                && final(self).store_view() == old(self).store_view(),
            !old(self).store_view().has_login(login@) ==> r == Ok::<(), StoreError>(())
                && final(self).store_view() == old(self).store_view().with_user(login@, password@, admin),
    {
        self.store.create_user(login, password, admin)
    }

    /// Registration on behalf of the holder of `token`: the holder must resolve, for
    /// the request's fingerprint, to the admin role.
    pub fn register(&mut self, token: &str, req: RegistrationRequest) -> (r: Result<(), RegistrationError>)
        requires
            old(self).wf(),
        ensures
            final(self).wf(),
            final(self).seed_login() == old(self).seed_login(),
            final(self).seed_password() == old(self).seed_password(),
            ({
                let s = old(self).store_view();
                let who = if req.fingerprint.is_rejected() {
                    None
                } else {
                    s.resolved_role(token@, req.fingerprint.device_id@)
                };
                if who.is_none() {
                    r == Err::<(), RegistrationError>(RegistrationError::Unauthorized)
                        && final(self).store_view() == s
                } else if who != Some(Role::ADMIN) {
                    r == Err::<(), RegistrationError>(RegistrationError::Forbidden)
                        && final(self).store_view() == s
                } else if s.has_login(req.login@) {
                    r == Err::<(), RegistrationError>(RegistrationError::Store(StoreError::Conflict))
                        && final(self).store_view() == s
                } else {
                    r == Ok::<(), RegistrationError>(()) && final(self).store_view() == s.with_user(
                        req.login@,
                        req.password@,
                        req.admin,
                    )
                }
            }),
    {
        let role = match self.check_auth(token, req.fingerprint) {
            None => return Err(RegistrationError::Unauthorized),
            Some(role) => role,
        };
        if role != Role::ADMIN {
            return Err(RegistrationError::Forbidden);
        }
        match self.store.create_user(req.login, req.password, req.admin) {
            Ok(()) => Ok(()),
            Err(e) => Err(RegistrationError::Store(e)),
        }
    }

    /// Hands out the store writes not yet made durable, oldest first.
    pub fn take_pending(&mut self) -> (r: Vec<crate::store::StoreWrite>)
        requires
            old(self).wf(),
        ensures
            final(self).wf(),
            r@.map_values(|w: crate::store::StoreWrite| w@) == old(self).store_view().pending,
            final(self).store_view().users == old(self).store_view().users,
            final(self).store_view().tokens == old(self).store_view().tokens,
            final(self).store_view().pending.len() == 0,
            final(self).seed_login() == old(self).seed_login(),
            final(self).seed_password() == old(self).seed_password(),
    {
        self.store.take_pending()
    }
}

} // verus!
