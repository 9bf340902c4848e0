//! The decisions of the three request flows. Each flow is driven by its
//! caller, which performs the store action that a step asks for and hands
//! back what the store answered as the next event.
use vstd::prelude::*;
use crate::claims::claims_text;
use crate::credentials::{bcrypt_verdict, hash_password, verify_password, DEFAULT_HASH_COST};
use crate::error::AuthError;
use crate::role;
use crate::subject::{
    lemma_subject_round_trip, parse_subject, parse_subject_text, subject_of, subject_text,
};
use crate::token::{
    generate_token, issued_claims, lemma_issued_token_lifetime, signed_token, token_claims,
    verified_payload,
    TOKEN_LIFETIME_SECS,
};
use crate::user;

verus! {

/// Process-wide settings, read once at startup.
pub struct AuthConfig {
    /// The key that tokens are signed with.
    pub secret: Vec<u8>,
    /// The bcrypt work factor for new password hashes.
    pub hash_cost: u32,
    /// How long an issued token stays valid, in seconds.
    pub token_lifetime: u64,
}

impl AuthConfig {
    /// Settings with the given signing key, the default bcrypt work factor and
    /// a token lifetime of 168 hours.
    pub fn new(secret: Vec<u8>) -> (r: AuthConfig)
        ensures
            r.secret@ == secret@,
            r.hash_cost == DEFAULT_HASH_COST,
            r.token_lifetime == TOKEN_LIFETIME_SECS,
    {
        AuthConfig { secret, hash_cost: DEFAULT_HASH_COST, token_lifetime: TOKEN_LIFETIME_SECS }
    }
}

pub struct RegisterRequest {
    pub username: String,
    pub login: String,
    pub password: String,
    pub role_name: Option<String>,
}

pub struct LoginRequest {
    pub login: String,
    pub password: String,
}

pub struct RoleResponse {
    pub id: i32,
    pub name: String,
}

pub struct UserResponse {
    pub id: i32,
    pub username: String,
    pub login: String,
    pub role: Option<RoleResponse>,
}

pub struct AuthResponse {
    pub token: String,
    pub user: UserResponse,
}

/// What registration reports of a new user: never the password hash.
pub struct RegisteredUser {
    pub id: i32,
    pub username: String,
    pub login: String,
    pub role_id: i32,
}

/// The role name a registration binds to: the one asked for, else `dummy`.
pub open spec fn requested_role(req: &RegisterRequest) -> Seq<char> {
    match &req.role_name {
        Some(n) => n@,
        None => "dummy"@,
    }
}

pub open spec fn shows_role(r: RoleResponse, role: role::Model) -> bool {
    r.id == role.id && r.name@ == role.name@
}

/// `resp` describes user `u` with role `role`, and nothing secret.
pub open spec fn shows_user(resp: UserResponse, u: user::Model, role: Option<role::Model>) -> bool {
    &&& resp.id == u.id
    &&& resp.username@ == u.username@
    &&& resp.login@ == u.login@
    &&& match (resp.role, role) {
        (Some(a), Some(b)) => shows_role(a, b),
        (None, None) => true,
        _ => false,
    }
}

fn copy_string(s: &String) -> (r: String)
    ensures
        r@ == s@,
{
    s.as_str().to_string()
}

pub fn role_name_for(req: &RegisterRequest) -> (r: String)
    ensures
        r@ == requested_role(req),
{
    match &req.role_name {
        Some(n) => copy_string(n),
        None => "dummy".to_string(),
    }
}

/// The public view of a user and its role.
pub fn user_response(u: &user::Model, role: &Option<role::Model>) -> (r: UserResponse)
    ensures
        shows_user(r, *u, *role),
{
    let role_resp = match role {
        Some(x) => Some(RoleResponse { id: x.id, name: copy_string(&x.name) }),
        None => None,
    };
    UserResponse {
        id: u.id,
        username: copy_string(&u.username),
        login: copy_string(&u.login),
        role: role_resp,
    }
}

pub enum RegisterEvent {
    /// The request has just arrived.
    Started,
    /// The answer to `FindUserByLogin`.
    LoginLookup(Option<user::Model>),
    /// The answer to `FindRoleByName`.
    RoleLookup(Option<role::Model>),
    /// The answer to `CreateRole`.
    RoleCreated(role::Model),
    /// The answer to `CreateUser`.
    UserCreated(user::Model),
    /// The store refused or failed the last action.
    StoreFailed(AuthError),
}

pub enum RegisterOutcome {
    Created(RegisteredUser),
    AlreadyExists,
    Failed(AuthError),
}

pub enum RegisterAction {
    FindUserByLogin(String),
    FindRoleByName(String),
    CreateRole { name: String, attributes: String },
    CreateUser { username: String, login: String, password_hash: String, role_id: i32 },
    Reply(RegisterOutcome),
}

/// What registration does once the role is known and the password has been
/// hashed: create the user with that hash, or end with the hashing failure.
pub fn create_user_action(req: &RegisterRequest, role_id: i32, hashed: Result<String, AuthError>) -> (r:
    RegisterAction)
    ensures
        match hashed {
            Ok(h) => r matches RegisterAction::CreateUser {
                username,
                login,
                password_hash,
                role_id: rid,
            } && username@ == req.username@ && login@ == req.login@ && password_hash == h && rid
                == role_id,
            Err(e) => r matches RegisterAction::Reply(RegisterOutcome::Failed(x)) && x == e,
        },
{
    match hashed {
        Ok(h) => RegisterAction::CreateUser {
            username: copy_string(&req.username),
            login: copy_string(&req.login),
            password_hash: h,
            role_id,
        },
        Err(e) => RegisterAction::Reply(RegisterOutcome::Failed(e)),
    }
}

/// One step of registration. A login already in use ends it with
/// `AlreadyExists`; a missing role is created with the default attributes;
/// the password is hashed before the user is created, and the reply shows
/// the new user without its hash. A store failure (a conflict under a race
/// included) ends it with that failure.
pub fn register_step(req: &RegisterRequest, cost: u32, event: RegisterEvent) -> (r: RegisterAction)
    ensures
        match event {
            RegisterEvent::Started => r matches RegisterAction::FindUserByLogin(l) && l@
                == req.login@,
            RegisterEvent::LoginLookup(Some(_)) => r matches RegisterAction::Reply(
                RegisterOutcome::AlreadyExists,
            ),
            RegisterEvent::LoginLookup(None) => r matches RegisterAction::FindRoleByName(n) && n@
                == requested_role(req),
            RegisterEvent::RoleLookup(None) => r matches RegisterAction::CreateRole {
                name,
                attributes,
            } && name@ == requested_role(req) && attributes@ == "[\"read\"]"@,
            RegisterEvent::RoleLookup(Some(ro)) | RegisterEvent::RoleCreated(ro) => {
                ||| r matches RegisterAction::CreateUser { username, login, password_hash, role_id }
                    && username@ == req.username@ && login@ == req.login@ && role_id == ro.id
                    && bcrypt_verdict(req.password@, password_hash@) == Some(true)
                ||| r matches RegisterAction::Reply(RegisterOutcome::Failed(e)) && e
                    == AuthError::Hashing
            },
            RegisterEvent::UserCreated(u) => r matches RegisterAction::Reply(
                RegisterOutcome::Created(c),
            ) && c.id == u.id && c.username@ == u.username@ && c.login@ == u.login@ && c.role_id
                == u.role_id,
            RegisterEvent::StoreFailed(e) => r matches RegisterAction::Reply(
                RegisterOutcome::Failed(x),
            ) && x == e,
        },
        (cost < crate::credentials::MIN_HASH_COST || cost > crate::credentials::MAX_HASH_COST)
            && (event is RoleLookup && event->RoleLookup_0 is Some || event is RoleCreated)
            ==> r matches RegisterAction::Reply(RegisterOutcome::Failed(AuthError::Hashing)),
{
    match event {
        RegisterEvent::Started => RegisterAction::FindUserByLogin(copy_string(&req.login)),
        RegisterEvent::LoginLookup(Some(_)) => RegisterAction::Reply(RegisterOutcome::AlreadyExists),
        RegisterEvent::LoginLookup(None) => RegisterAction::FindRoleByName(role_name_for(req)),
        RegisterEvent::RoleLookup(None) => RegisterAction::CreateRole {
            name: role_name_for(req),
            attributes: role::default_attributes(),
        },
        RegisterEvent::RoleLookup(Some(ro)) | RegisterEvent::RoleCreated(ro) => {
            create_user_action(req, ro.id, hash_password(req.password.as_str(), cost))
        },
        RegisterEvent::UserCreated(u) => RegisterAction::Reply(
            RegisterOutcome::Created(
                RegisteredUser {
                    id: u.id,
                    username: u.username,
                    login: u.login,
                    role_id: u.role_id,
                },
            ),
        ),
        RegisterEvent::StoreFailed(e) => RegisterAction::Reply(RegisterOutcome::Failed(e)),
    }
}


pub enum LoginEvent {
    /// The request has just arrived.
    Started,
    /// The answer to `FindUserByLogin`.
    UserLookup(Option<user::Model>),
    /// The answer to `FindRoleById`, with the user it was asked for and the
    /// current time in Unix seconds.
    RoleLookup { user: user::Model, role: Option<role::Model>, now: u64 },
    /// The store failed the last action.
    StoreFailed(AuthError),
}

pub enum LoginOutcome {
    LoggedIn(AuthResponse),
    /// The one answer for an unknown login and for a wrong password.
    InvalidCredentials,
    Failed(AuthError),
}

pub enum LoginAction {
    FindUserByLogin(String),
    /// Look up the role `user.role_id`, then hand `user` back with it.
    FindRoleById { user: user::Model },
    Reply(LoginOutcome),
}

/// The claims document that login signs for user `u` at time `now`.
pub open spec fn login_claims(u: user::Model, now: u64, config: &AuthConfig) -> Seq<char> {
    claims_text(issued_claims(subject_text(u.id as int), u.login@, now, config.token_lifetime))
}

/// The token that login issues for user `u` at time `now`.
pub open spec fn login_token(u: user::Model, now: u64, config: &AuthConfig) -> Seq<char> {
    signed_token(login_claims(u, now, config), config.secret@)
}

/// One step of login. An unknown login and a wrong password end it with
/// the same `InvalidCredentials`; a malformed stored hash is a failure;
/// otherwise the user's role is loaded and a token is issued for the user's
/// id and login.
pub fn login_step(req: &LoginRequest, config: &AuthConfig, event: LoginEvent) -> (r: LoginAction)
    ensures
        match event {
            LoginEvent::Started => r matches LoginAction::FindUserByLogin(l) && l@ == req.login@,
            LoginEvent::UserLookup(None) => r matches LoginAction::Reply(
                LoginOutcome::InvalidCredentials,
            ),
            LoginEvent::UserLookup(Some(u)) => match bcrypt_verdict(req.password@, u.password@) {
                Some(true) => r matches LoginAction::FindRoleById { user } && user == u,
                Some(false) => r matches LoginAction::Reply(LoginOutcome::InvalidCredentials),
                None => r matches LoginAction::Reply(LoginOutcome::Failed(e)) && e
                    == AuthError::Hashing,
            },
            LoginEvent::RoleLookup { user, role, now } => if now + config.token_lifetime
                <= u64::MAX {
                r matches LoginAction::Reply(LoginOutcome::LoggedIn(resp)) && resp.token@
                    == login_token(user, now, config) && verified_payload(
                    resp.token@,
                    config.secret@,
                ) == Some(login_claims(user, now, config)) && shows_user(resp.user, user, role)
            } else {
                r matches LoginAction::Reply(LoginOutcome::Failed(e)) && e == AuthError::Signing
            },
            LoginEvent::StoreFailed(e) => r matches LoginAction::Reply(LoginOutcome::Failed(x))
                && x == e,
        },
{
    match event {
        LoginEvent::Started => LoginAction::FindUserByLogin(copy_string(&req.login)),
        LoginEvent::UserLookup(None) => LoginAction::Reply(LoginOutcome::InvalidCredentials),
        LoginEvent::UserLookup(Some(u)) => {
            match verify_password(req.password.as_str(), u.password.as_str()) {
                Ok(true) => LoginAction::FindRoleById { user: u },
                Ok(false) => LoginAction::Reply(LoginOutcome::InvalidCredentials),
                Err(e) => LoginAction::Reply(LoginOutcome::Failed(e)),
            }
        },
        LoginEvent::RoleLookup { user, role, now } => {
            if now > u64::MAX - config.token_lifetime {
                return LoginAction::Reply(LoginOutcome::Failed(AuthError::Signing));
            }
            let subject = subject_of(user.id);
            match generate_token(
                subject.as_str(),
                user.login.as_str(),
                now,
                config.token_lifetime,
                config.secret.as_slice(),
            ) {
                Ok(token) => LoginAction::Reply(
                    LoginOutcome::LoggedIn(
                        AuthResponse { token, user: user_response(&user, &role) },
                    ),
                ),
                Err(e) => LoginAction::Reply(LoginOutcome::Failed(e)),
            }
        },
        LoginEvent::StoreFailed(e) => LoginAction::Reply(LoginOutcome::Failed(e)),
    }
}

pub enum MeEvent {
    /// A verified token arrived carrying this subject.
    Started { subject: String },
    /// The answer to `FindUserWithRole`.
    Found(Option<(user::Model, Option<role::Model>)>),
    /// The store failed the last action.
    StoreFailed(AuthError),
}

pub enum MeOutcome {
    Found(UserResponse),
    NotFound,
    Failed(AuthError),
}

pub enum MeAction {
    FindUserWithRole(i32),
    Reply(MeOutcome),
}

/// One step of introspection: the token's subject must be a user id, else
/// the token is invalid; the reply describes the user and its role, or says
/// that the user no longer exists.
pub fn me_step(event: MeEvent) -> (r: MeAction)
    ensures
        match event {
            MeEvent::Started { subject } => match parse_subject_text(subject@) {
                Some(id) => r == MeAction::FindUserWithRole(id),
                None => r matches MeAction::Reply(MeOutcome::Failed(e)) && e
                    == AuthError::TokenInvalid,
            },
            MeEvent::Found(Some((u, ro))) => r matches MeAction::Reply(MeOutcome::Found(resp))
                && shows_user(resp, u, ro),
            MeEvent::Found(None) => r matches MeAction::Reply(MeOutcome::NotFound),
            MeEvent::StoreFailed(e) => r matches MeAction::Reply(MeOutcome::Failed(x)) && x == e,
        },
{
    match event {
        MeEvent::Started { subject } => match parse_subject(subject.as_str()) {
            Some(id) => MeAction::FindUserWithRole(id),
            None => MeAction::Reply(MeOutcome::Failed(AuthError::TokenInvalid)),
        },
        MeEvent::Found(Some((u, ro))) => MeAction::Reply(MeOutcome::Found(user_response(&u, &ro))),
        MeEvent::Found(None) => MeAction::Reply(MeOutcome::NotFound),
        MeEvent::StoreFailed(e) => MeAction::Reply(MeOutcome::Failed(e)),
    }
}


/// The token that login issues for a user at `issued_at` (one whose
/// verified payload is the login claims, as `login_step` ensures), checked
/// under the same secret at any time before it expires, names that user: its
/// subject reads back as the user's id and its login is the user's login.
pub proof fn lemma_login_token_names_user(
    token: Seq<char>,
    u: user::Model,
    config: &AuthConfig,
    issued_at: u64,
    now: u64,
)
    requires
        issued_at + config.token_lifetime <= u64::MAX,
        now < issued_at + config.token_lifetime,
        verified_payload(token, config.secret@) == Some(login_claims(u, issued_at, config)),
    ensures
        token_claims(token, config.secret@, now) matches Some(c) && parse_subject_text(c.pid)
            == Some(u.id) && c.login == u.login@ && c.exp == issued_at + config.token_lifetime,
{
    lemma_issued_token_lifetime(
        token,
        config.secret@,
        subject_text(u.id as int),
        u.login@,
        issued_at,
        config.token_lifetime,
        now,
    );
    lemma_subject_round_trip(u.id);
}

} // verus!
