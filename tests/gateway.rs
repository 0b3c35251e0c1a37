use auth_gateway::{
    AuthRequest, Config, Controller, CredentialStore, Fingerprint, RegistrationError,
    RegistrationRequest, Role, StoreError, StoreWrite, SystemInfo,
};

fn fp(device: &str, webdriver: bool, dev_tools: bool) -> Fingerprint {
    Fingerprint { device_id: device.to_string(), webdriver, dev_tools }
}

fn clean(device: &str) -> Fingerprint {
    fp(device, false, false)
}

fn seeded() -> Controller {
    let config = Config { admil_login: "root".to_string(), admil_password: "secret".to_string() };
    let mut c = Controller::new(config, CredentialStore::new());
    c.start();
    c
}

fn login(c: &mut Controller, user: &str, password: &str, f: Fingerprint) -> Option<(String, Role)> {
    let req = AuthRequest { login: user.to_string(), password: password.to_string(), fingerprint: f };
    c.log_in_with_password(req).expect("no storage failure").map(|r| (r.token, r.role))
}

fn rows_for(c: &Controller, user: &str, device: &str) -> Vec<String> {
    c.store()
        .token_rows()
        .iter()
        .filter(|t| t.login == user && t.device_id == device)
        .map(|t| t.token.clone())
        .collect()
}

#[test]
fn risk_scores() {
    assert_eq!(Controller::calculate_risk(&fp("d", true, false)), 50);
    assert_eq!(Controller::calculate_risk(&fp("d", false, true)), 50);
    assert_eq!(Controller::calculate_risk(&fp("d", true, true)), 100);
    assert_eq!(Controller::calculate_risk(&fp("d", false, false)), 0);
}

#[test]
fn risky_fingerprint_is_rejected_at_login_and_authorization() {
    let mut c = seeded();
    assert_eq!(login(&mut c, "root", "secret", fp("d1", true, false)), None);
    assert_eq!(login(&mut c, "root", "secret", fp("d1", false, true)), None);
    assert!(c.store().token_rows().is_empty());
    let (token, _) = login(&mut c, "root", "secret", clean("d1")).unwrap();
    assert_eq!(c.check_auth(&token, fp("d1", true, false)), None);
    assert_eq!(c.check_auth(&token, fp("d1", true, true)), None);
    assert_eq!(c.check_auth(&token, clean("d1")), Some(Role::ADMIN));
}

#[test]
fn end_to_end_admin_flow() {
    let mut c = seeded();
    let (token, role) = login(&mut c, "root", "secret", clean("d1")).unwrap();
    assert_eq!(role, Role::ADMIN);
    assert_eq!(token.len(), 36);
    assert_ne!(token, "root");
    assert_eq!(login(&mut c, "root", "wrong", clean("d1")), None);
    assert_eq!(c.check_auth(&token, clean("d1")), Some(Role::ADMIN));
    assert_eq!(c.check_auth(&token, clean("d2")), None);
}

#[test]
fn unknown_login_and_wrong_password_look_alike() {
    let mut c = seeded();
    assert_eq!(login(&mut c, "nobody", "secret", clean("d1")), None);
    assert_eq!(login(&mut c, "root", "secret2", clean("d1")), None);
    assert_eq!(login(&mut c, "root", "", clean("d1")), None);
    assert!(c.store().token_rows().is_empty());
}

#[test]
fn reauthentication_replaces_token_of_same_device() {
    let mut c = seeded();
    let (first, _) = login(&mut c, "root", "secret", clean("d1")).unwrap();
    let (second, _) = login(&mut c, "root", "secret", clean("d1")).unwrap();
    assert_ne!(first, second);
    assert_eq!(rows_for(&c, "root", "d1"), vec![second.clone()]);
    assert_eq!(c.store().token_rows().len(), 1);
    assert_eq!(c.check_auth(&first, clean("d1")), None);
    assert_eq!(c.check_auth(&second, clean("d1")), Some(Role::ADMIN));
}

#[test]
fn devices_hold_independent_tokens() {
    let mut c = seeded();
    let (t1, _) = login(&mut c, "root", "secret", clean("d1")).unwrap();
    let (t2, _) = login(&mut c, "root", "secret", clean("d2")).unwrap();
    assert_eq!(c.store().token_rows().len(), 2);
    assert_eq!(c.check_auth(&t1, clean("d1")), Some(Role::ADMIN));
    assert_eq!(c.check_auth(&t2, clean("d2")), Some(Role::ADMIN));
    assert_eq!(c.check_auth(&t1, clean("d2")), None);
    assert_eq!(c.check_auth(&t2, clean("d1")), None);
}

#[test]
fn create_user_conflict_leaves_store_unchanged() {
    let mut c = seeded();
    assert_eq!(c.create_user("root".to_string(), "other".to_string(), false), Err(StoreError::Conflict));
    assert_eq!(c.store().user_rows().len(), 1);
    let root = &c.store().user_rows()[0];
    assert_eq!(root.login, "root");
    assert_eq!(root.password, "secret");
    assert!(root.admin);
    assert_eq!(login(&mut c, "root", "other", clean("d1")), None);
}

#[test]
fn created_user_can_log_in() {
    let mut c = seeded();
    assert_eq!(c.create_user("alice".to_string(), "pw".to_string(), false), Ok(()));
    assert_eq!(c.store().user_rows().len(), 2);
    let (token, role) = login(&mut c, "alice", "pw", clean("phone")).unwrap();
    assert_eq!(role, Role::USER);
    assert_eq!(c.check_auth(&token, clean("phone")), Some(Role::USER));
    assert_eq!(c.create_user("bob".to_string(), "pw2".to_string(), true), Ok(()));
    let (_, role) = login(&mut c, "bob", "pw2", clean("phone")).unwrap();
    assert_eq!(role, Role::ADMIN);
}

#[test]
fn bootstrap_twice_keeps_one_admin_row() {
    let mut c = seeded();
    c.start();
    assert_eq!(c.store().user_rows().len(), 1);
    let root = &c.store().user_rows()[0];
    assert_eq!((root.login.as_str(), root.password.as_str(), root.admin), ("root", "secret", true));
}

#[test]
fn bootstrap_leaves_existing_row_alone() {
    let mut store = CredentialStore::new();
    assert_eq!(store.create_user("root".to_string(), "old".to_string(), false), Ok(()));
    let config = Config { admil_login: "root".to_string(), admil_password: "secret".to_string() };
    let mut c = Controller::new(config, store);
    c.start();
    assert_eq!(c.store().user_rows().len(), 1);
    let root = &c.store().user_rows()[0];
    assert_eq!((root.password.as_str(), root.admin), ("old", false));
}

#[test]
fn given_token_is_issued_and_reused_value_is_refused() {
    let mut c = seeded();
    let req = |device: &str| AuthRequest {
        login: "root".to_string(),
        password: "secret".to_string(),
        fingerprint: clean(device),
    };
    let r = c.log_in_with_token(req("d1"), "tok-1".to_string()).unwrap().unwrap();
    assert_eq!((r.token.as_str(), r.role), ("tok-1", Role::ADMIN));
    assert_eq!(c.log_in_with_token(req("d2"), "tok-1".to_string()).unwrap_err(), StoreError::StorageFailure);
    assert_eq!(c.store().token_rows().len(), 1);
    assert_eq!(c.check_auth("tok-1", clean("d1")), Some(Role::ADMIN));
    let bad = AuthRequest { login: "root".to_string(), password: "no".to_string(), fingerprint: clean("d1") };
    assert!(c.log_in_with_token(bad, "tok-2".to_string()).unwrap().is_none());
    assert_eq!(rows_for(&c, "root", "d1"), vec!["tok-1".to_string()]);
}

#[test]
fn registration_outcomes() {
    let mut c = seeded();
    let reg = |user: &str, admin: bool, device: &str| RegistrationRequest {
        login: user.to_string(),
        password: "pw".to_string(),
        admin,
        fingerprint: clean(device),
    };
    assert_eq!(c.register("nope", reg("alice", false, "d1")), Err(RegistrationError::Unauthorized));
    let (admin_token, _) = login(&mut c, "root", "secret", clean("d1")).unwrap();
    assert_eq!(c.register(&admin_token, reg("alice", false, "d2")), Err(RegistrationError::Unauthorized));
    assert_eq!(c.register(&admin_token, reg("alice", false, "d1")), Ok(()));
    assert_eq!(
        c.register(&admin_token, reg("alice", true, "d1")),
        Err(RegistrationError::Store(StoreError::Conflict))
    );
    let (user_token, role) = login(&mut c, "alice", "pw", clean("d3")).unwrap();
    assert_eq!(role, Role::USER);
    assert_eq!(c.register(&user_token, reg("carol", false, "d3")), Err(RegistrationError::Forbidden));
    assert_eq!(c.store().user_rows().len(), 2);
}

#[test]
fn pending_writes_come_out_in_order() {
    let mut c = seeded();
    let (t1, _) = login(&mut c, "root", "secret", clean("d1")).unwrap();
    let (t2, _) = login(&mut c, "root", "secret", clean("d1")).unwrap();
    let writes = c.take_pending();
    assert_eq!(writes.len(), 3);
    match &writes[0] {
        StoreWrite::InsertUser(u) => assert_eq!((u.login.as_str(), u.password.as_str(), u.admin), ("root", "secret", true)),
        other => panic!("unexpected {:?}", other),
    }
    match &writes[1] {
        StoreWrite::InsertToken(t) => assert_eq!((&t.token, t.login.as_str(), t.device_id.as_str()), (&t1, "root", "d1")),
        other => panic!("unexpected {:?}", other),
    }
    match &writes[2] {
        StoreWrite::UpdateToken(t) => assert_eq!((&t.token, t.login.as_str(), t.device_id.as_str()), (&t2, "root", "d1")),
        other => panic!("unexpected {:?}", other),
    }
    assert!(c.take_pending().is_empty());
    assert_eq!(c.store().user_rows().len(), 1);
    assert_eq!(c.store().token_rows().len(), 1);
}

#[test]
fn store_lookups() {
    let mut s = CredentialStore::new();
    assert!(!s.user_exists(&"u".to_string()));
    assert_eq!(s.create_user("u".to_string(), "p".to_string(), true), Ok(()));
    assert!(s.user_exists(&"u".to_string()));
    assert_eq!(s.verify_credentials(&"u".to_string(), &"p".to_string()), Some(Role::ADMIN));
    assert_eq!(s.verify_credentials(&"u".to_string(), &"q".to_string()), None);
    assert_eq!(s.issue_token("u".to_string(), "d".to_string(), "t".to_string()), Ok(()));
    assert_eq!(s.resolve_role(&"t".to_string(), &"d".to_string()), Some(Role::ADMIN));
    assert_eq!(s.resolve_role(&"t".to_string(), &"e".to_string()), None);
    assert_eq!(s.issue_token("ghost".to_string(), "d".to_string(), "g".to_string()), Ok(()));
    assert_eq!(s.resolve_role(&"g".to_string(), &"d".to_string()), None);
}

#[test]
fn role_flag_round_trip() {
    assert_eq!(Role::from_admin_flag(true), Role::ADMIN);
    assert_eq!(Role::from_admin_flag(false), Role::USER);
    assert!(Role::ADMIN.is_admin());
    assert!(!Role::USER.is_admin());
}

#[test]
fn missing_readings_show_a_dash() {
    let info = SystemInfo::from_readings(
        Some("x86".to_string()),
        None,
        Some("box".to_string()),
        None,
        None,
        None,
        Some("host".to_string()),
        None,
        Some("1 GiB".to_string()),
    );
    assert_eq!(info.cpu, "x86");
    assert_eq!(info.temp, "-");
    assert_eq!(info.device, "box");
    assert_eq!(info.distro, "-");
    assert_eq!(info.hostname, "host");
    assert_eq!(info.kernel, "-");
    assert_eq!(info.memory, "1 GiB");
}

#[test]
fn risk_gate_threshold() {
    assert!(fp("d", false, false).passes_risk_gate());
    assert!(!fp("d", true, false).passes_risk_gate());
    assert!(!fp("d", false, true).passes_risk_gate());
    assert!(!fp("d", true, true).passes_risk_gate());
    assert_eq!(fp("d", true, false).score(), 50);
    assert_eq!(fp("d", true, true).score(), 100);
    assert_eq!(fp("d", false, false).score(), 0);
}

#[test]
fn password_login_succeeds_beside_stored_tokens() {
    let mut c = seeded();
    let req = AuthRequest { login: "root".to_string(), password: "secret".to_string(), fingerprint: clean("d1") };
    assert!(c.log_in_with_token(req, "tok-1".to_string()).unwrap().is_some());
    let (token, role) = login(&mut c, "root", "secret", clean("d1")).unwrap();
    assert_ne!(token, "tok-1");
    assert_eq!(role, Role::ADMIN);
    assert_eq!(rows_for(&c, "root", "d1"), vec![token]);
}
