use auth_core::auth::{
    login_step, me_step, register_step, AuthConfig, LoginAction, LoginEvent, LoginOutcome,
    LoginRequest, MeAction, MeEvent, MeOutcome, RegisterAction, RegisterEvent, RegisterOutcome,
    RegisterRequest, UserResponse,
};
use auth_core::error::AuthError;
use auth_core::token::{decode_token, TOKEN_LIFETIME_SECS};
use auth_core::{role, user};

const NOW: u64 = 1_700_000_000;

#[derive(Default)]
struct Store {
    roles: Vec<(i32, String, String)>,
    users: Vec<(i32, String, String, String, i32)>,
}

impl Store {
    fn role(&self, i: usize) -> role::Model {
        let r = &self.roles[i];
        role::Model { id: r.0, name: r.1.clone(), attributes: r.2.clone() }
    }
    fn user(&self, i: usize) -> user::Model {
        let u = &self.users[i];
        user::Model {
            id: u.0,
            username: u.1.clone(),
            login: u.2.clone(),
            password: u.3.clone(),
            role_id: u.4,
        }
    }
    fn find_login(&self, login: &str) -> Option<user::Model> {
        self.users.iter().position(|u| u.2 == login).map(|i| self.user(i))
    }
}

fn config() -> AuthConfig {
    AuthConfig { secret: b"flow-key".to_vec(), hash_cost: 4, token_lifetime: TOKEN_LIFETIME_SECS }
}

fn register(store: &mut Store, req: &RegisterRequest) -> RegisterOutcome {
    let mut event = RegisterEvent::Started;
    loop {
        event = match register_step(req, config().hash_cost, event) {
            RegisterAction::FindUserByLogin(l) => RegisterEvent::LoginLookup(store.find_login(&l)),
            RegisterAction::FindRoleByName(n) => RegisterEvent::RoleLookup(
                store.roles.iter().position(|r| r.1 == n).map(|i| store.role(i)),
            ),
            RegisterAction::CreateRole { name, attributes } => {
                let id = store.roles.len() as i32 + 1;
                store.roles.push((id, name, attributes));
                RegisterEvent::RoleCreated(store.role(store.roles.len() - 1))
            }
            RegisterAction::CreateUser { username, login, password_hash, role_id } => {
                if store.users.iter().any(|u| u.1 == username || u.2 == login) {
                    RegisterEvent::StoreFailed(AuthError::Conflict)
                } else {
                    let id = store.users.len() as i32 + 1;
                    store.users.push((id, username, login, password_hash, role_id));
                    RegisterEvent::UserCreated(store.user(store.users.len() - 1))
                }
            }
            RegisterAction::Reply(outcome) => return outcome,
        }
    }
}

fn login(store: &Store, req: &LoginRequest) -> LoginOutcome {
    let cfg = config();
    let mut event = LoginEvent::Started;
    loop {
        event = match login_step(req, &cfg, event) {
            LoginAction::FindUserByLogin(l) => LoginEvent::UserLookup(store.find_login(&l)),
            LoginAction::FindRoleById { user } => {
                let role = store.roles.iter().position(|r| r.0 == user.role_id).map(|i| store.role(i));
                LoginEvent::RoleLookup { user, role, now: NOW }
            }
            LoginAction::Reply(outcome) => return outcome,
        }
    }
}

fn me(store: &Store, subject: &str) -> MeOutcome {
    let mut event = MeEvent::Started { subject: subject.to_string() };
    loop {
        event = match me_step(event) {
            MeAction::FindUserWithRole(id) => MeEvent::Found(
                store.users.iter().position(|u| u.0 == id).map(|i| {
                    let u = store.user(i);
                    let r = store.roles.iter().position(|r| r.0 == u.role_id).map(|j| store.role(j));
                    (u, r)
                }),
            ),
            MeAction::Reply(outcome) => return outcome,
        }
    }
}

fn reg(username: &str, login: &str, password: &str, role: Option<&str>) -> RegisterRequest {
    RegisterRequest {
        username: username.to_string(),
        login: login.to_string(),
        password: password.to_string(),
        role_name: role.map(|r| r.to_string()),
    }
}

fn creds(login: &str, password: &str) -> LoginRequest {
    LoginRequest { login: login.to_string(), password: password.to_string() }
}

fn check_alice(u: &UserResponse) {
    assert_eq!(u.username, "alice");
    assert_eq!(u.login, "alice@x.com");
    assert_eq!(u.role.as_ref().unwrap().name, "dummy");
}

#[test]
fn config_defaults() {
    let c = AuthConfig::new(b"k".to_vec());
    assert_eq!(c.secret, b"k".to_vec());
    assert_eq!(c.hash_cost, 12);
    assert_eq!(c.token_lifetime, 604800);
}

#[test]
fn end_to_end_register_login_me() {
    let mut store = Store::default();
    let created = match register(&mut store, &reg("alice", "alice@x.com", "p@ss1", None)) {
        RegisterOutcome::Created(u) => u,
        _ => panic!("registration failed"),
    };
    assert_eq!(created.username, "alice");
    assert_eq!(created.login, "alice@x.com");
    assert_eq!(store.roles[0].1, "dummy");
    assert_eq!(store.roles[0].2, "[\"read\"]");
    assert_eq!(created.role_id, store.roles[0].0);
    assert_ne!(store.users[0].3, "p@ss1");

    assert!(matches!(login(&store, &creds("alice@x.com", "wrong")), LoginOutcome::InvalidCredentials));

    let resp = match login(&store, &creds("alice@x.com", "p@ss1")) {
        LoginOutcome::LoggedIn(r) => r,
        _ => panic!("login failed"),
    };
    check_alice(&resp.user);
    assert_eq!(resp.user.id, created.id);

    let claims = decode_token(&resp.token, NOW + 10, &config().secret).unwrap();
    assert_eq!(claims.pid, created.id.to_string());
    assert_eq!(claims.login, "alice@x.com");
    assert_eq!(claims.exp, NOW + TOKEN_LIFETIME_SECS);
    assert_eq!(resp.token.split('.').count(), 3);
    match me(&store, &claims.pid) {
        MeOutcome::Found(u) => {
            assert_eq!(u.id, created.id);
            check_alice(&u);
        }
        _ => panic!("me failed"),
    }
}

#[test]
fn unknown_login_and_wrong_password_look_the_same() {
    let mut store = Store::default();
    register(&mut store, &reg("bob", "bob@x.com", "secret", None));
    assert!(matches!(login(&store, &creds("nobody@x.com", "secret")), LoginOutcome::InvalidCredentials));
    assert!(matches!(login(&store, &creds("bob@x.com", "Secret")), LoginOutcome::InvalidCredentials));
}

#[test]
fn second_registration_with_same_login_already_exists() {
    let mut store = Store::default();
    assert!(matches!(register(&mut store, &reg("a", "same@x.com", "1", None)), RegisterOutcome::Created(_)));
    assert!(matches!(register(&mut store, &reg("b", "same@x.com", "2", None)), RegisterOutcome::AlreadyExists));
    assert_eq!(store.users.len(), 1);
}

#[test]
fn store_conflict_is_reported() {
    let mut store = Store::default();
    register(&mut store, &reg("carol", "carol@x.com", "1", None));
    let out = register(&mut store, &reg("carol", "other@x.com", "2", None));
    assert!(matches!(out, RegisterOutcome::Failed(AuthError::Conflict)));
}

#[test]
fn named_role_is_created_once_and_reused() {
    let mut store = Store::default();
    register(&mut store, &reg("d1", "d1@x.com", "1", Some("admin")));
    register(&mut store, &reg("d2", "d2@x.com", "1", Some("admin")));
    assert_eq!(store.roles.len(), 1);
    assert_eq!(store.roles[0].1, "admin");
    assert_eq!(store.users[0].4, store.users[1].4);
}

#[test]
fn bad_hash_cost_fails_registration() {
    let req = reg("e", "e@x.com", "1", None);
    let ro = role::Model { id: 1, name: "dummy".to_string(), attributes: "[]".to_string() };
    let out = register_step(&req, 99, RegisterEvent::RoleCreated(ro));
    assert!(matches!(out, RegisterAction::Reply(RegisterOutcome::Failed(AuthError::Hashing))));
}

#[test]
fn malformed_stored_hash_fails_login() {
    let u = user::Model {
        id: 1,
        username: "f".to_string(),
        login: "f@x.com".to_string(),
        password: "plaintext".to_string(),
        role_id: 1,
    };
    let out = login_step(&creds("f@x.com", "plaintext"), &config(), LoginEvent::UserLookup(Some(u)));
    assert!(matches!(out, LoginAction::Reply(LoginOutcome::Failed(AuthError::Hashing))));
}

#[test]
fn login_near_end_of_time_fails_signing() {
    let u = user::Model {
        id: 1,
        username: "g".to_string(),
        login: "g@x.com".to_string(),
        password: String::new(),
        role_id: 1,
    };
    let out = login_step(&creds("g@x.com", ""), &config(), LoginEvent::RoleLookup { user: u, role: None, now: u64::MAX });
    assert!(matches!(out, LoginAction::Reply(LoginOutcome::Failed(AuthError::Signing))));
}

#[test]
fn store_failure_ends_each_flow() {
    let out = register_step(&reg("h", "h@x.com", "1", None), 4, RegisterEvent::StoreFailed(AuthError::StoreUnavailable));
    assert!(matches!(out, RegisterAction::Reply(RegisterOutcome::Failed(AuthError::StoreUnavailable))));
    let out = login_step(&creds("h@x.com", "1"), &config(), LoginEvent::StoreFailed(AuthError::StoreUnavailable));
    assert!(matches!(out, LoginAction::Reply(LoginOutcome::Failed(AuthError::StoreUnavailable))));
    let out = me_step(MeEvent::StoreFailed(AuthError::RecordNotFound));
    assert!(matches!(out, MeAction::Reply(MeOutcome::Failed(AuthError::RecordNotFound))));
}

#[test]
fn me_with_bad_subject_is_invalid_token() {
    let store = Store::default();
    assert!(matches!(me(&store, "abc"), MeOutcome::Failed(AuthError::TokenInvalid)));
    assert!(matches!(me(&store, ""), MeOutcome::Failed(AuthError::TokenInvalid)));
}

#[test]
fn me_for_missing_user_is_not_found() {
    let store = Store::default();
    assert!(matches!(me(&store, "17"), MeOutcome::NotFound));
}

#[test]
fn user_without_role_shows_no_role() {
    let u = user::Model {
        id: 3,
        username: "i".to_string(),
        login: "i@x.com".to_string(),
        password: "h".to_string(),
        role_id: 9,
    };
    match me_step(MeEvent::Found(Some((u, None)))) {
        MeAction::Reply(MeOutcome::Found(r)) => {
            assert_eq!((r.id, r.username.as_str(), r.login.as_str()), (3, "i", "i@x.com"));
            assert!(r.role.is_none());
        }
        _ => panic!("expected a user"),
    }
}

#[test]
fn create_user_action_uses_the_hash_or_the_failure() {
    let req = reg("j", "j@x.com", "pw", None);
    match auth_core::auth::create_user_action(&req, 5, Ok("$2b$04$hash".to_string())) {
        RegisterAction::CreateUser { username, login, password_hash, role_id } => {
            assert_eq!((username.as_str(), login.as_str()), ("j", "j@x.com"));
            assert_eq!(password_hash, "$2b$04$hash");
            assert_eq!(role_id, 5);
        }
        _ => panic!("expected CreateUser"),
    }
    let out = auth_core::auth::create_user_action(&req, 5, Err(AuthError::Hashing));
    assert!(matches!(out, RegisterAction::Reply(RegisterOutcome::Failed(AuthError::Hashing))));
}

#[test]
fn registered_hash_verifies_against_password() {
    let mut store = Store::default();
    register(&mut store, &reg("k", "k@x.com", "p@ss1", None));
    let stored = &store.users[0].3;
    assert_ne!(stored, "p@ss1");
    assert_eq!(auth_core::credentials::verify_password("p@ss1", stored), Ok(true));
}
