//! Accounts and sessions: the session record, the registration and login
//! flows as step functions (each step says what to do next; the caller
//! does it and reports back), and the decisions taken on database answers.
use vstd::prelude::*;
use vstd::string::StringExecFns;
use vstd::utf8::encode_utf8;
use crate::crypto::{random_bytes, uuid_v4_from_random, uuid_v4_layout};
use crate::wire::bytes_to_array;
use crate::status::HttpStatus;
use crate::text::{contains_bytes, has_infix};

verus! {

/// A login session: its random token, its row id and the user it belongs to.
pub struct Session {
    pub session_token: [u8; 16],
    pub session_id: i32,
    pub user_id: [u8; 16],
}

/// The four little-endian bytes of `x` in two's complement.
pub open spec fn i32_le_bytes(x: i32) -> Seq<u8> {
    let u: int = if x < 0 {
        x + 0x1_0000_0000
    } else {
        x as int
    };
    seq![(u % 256) as u8, (u / 256 % 256) as u8, (u / 65536 % 256) as u8, (u / 16777216) as u8]
}

impl Session {
    /// The 16 bytes of the session token.
    pub fn token_as_bytes(&self) -> (b: &[u8; 16])
        ensures
            *b == self.session_token,
    {
        &self.session_token
    }

    /// The session id as four little-endian bytes (`i32::to_le_bytes`).
    pub fn id_as_bytes(&self) -> (b: [u8; 4])
        ensures
            b@ == i32_le_bytes(self.session_id),
    {
        let u: u32 = if self.session_id < 0 {
            (self.session_id as i64 + 0x1_0000_0000i64) as u32
        } else {
            self.session_id as u32
        };
        let b: [u8; 4] = [
            (u % 256) as u8,
            (u / 256 % 256) as u8,
            (u / 65536 % 256) as u8,
            (u / 16777216) as u8,
        ];
        assert(b@ =~= i32_le_bytes(self.session_id));
        b
    }

    /// The 16 bytes of the user id.
    pub fn uid_as_bytes(&self) -> (b: &[u8; 16])
        ensures
            *b == self.user_id,
    {
        &self.user_id
    }
}

/// A request to open an account.
pub struct RegisterRequest {
    pub login: String,
    pub password: String,
    pub email: Option<String>,
}

/// A request to log in.
pub struct LoginRequest {
    pub login: String,
    pub password: String,
}

/// Answer to a successful registration.
pub struct RegisterResponse {
    pub user_id: [u8; 16],
    pub message: String,
}

/// Answer to a successful login.
pub struct LoginResponse {
    pub session: Session,
    pub message: String,
}

/// Length in bytes of the UTF-8 encoding of `s`.
pub open spec fn utf8_len(s: Seq<char>) -> nat {
    encode_utf8(s).len()
}

/// A registration is considered only for a login of at least 3 bytes and a
/// password of at least 8 bytes.
pub open spec fn registration_acceptable(r: RegisterRequest) -> bool {
    utf8_len(r.login@) >= 3 && utf8_len(r.password@) >= 8
}

/// Decision on the number of accounts with the same login or e-mail
/// (`None` when the database failed): whether the account already exists.
pub open spec fn user_exists_answer(count: Option<i64>) -> Result<bool, HttpStatus> {
    match count {
        None => Err(HttpStatus::InternalServerError),
        Some(n) => Ok(n > 0),
    }
}

/// Whether an account with this login or e-mail already exists, given the
/// number of such accounts the database counted (`None` when it failed).
pub fn user_exists(count: Option<i64>) -> (r: Result<bool, HttpStatus>)
    ensures
        r == user_exists_answer(count),
{
    match count {
        None => Err(HttpStatus::InternalServerError),
        Some(n) => Ok(n > 0),
    }
}

/// The bytes of `duplicate key`, which the database puts in the message of
/// a uniqueness violation.
pub open spec fn duplicate_key_text() -> Seq<u8> {
    seq![0x64u8, 0x75, 0x70, 0x6c, 0x69, 0x63, 0x61, 0x74, 0x65, 0x20, 0x6b, 0x65, 0x79]
}

/// Decision on the database's answer to creating an account: the new id, or
/// `Conflict` when the error message reports a duplicate key, or
/// `InternalServerError` for any other error.
pub open spec fn create_user_answer(outcome: Result<[u8; 16], String>) -> Result<[u8; 16], HttpStatus> {
    match outcome {
        Ok(id) => Ok(id),
        Err(msg) => if has_infix(encode_utf8(msg@), duplicate_key_text()) {
            Err(HttpStatus::Conflict)
        } else {
            Err(HttpStatus::InternalServerError)
        },
    }
}

/// The id of the account just created, or the status that answers the
/// database error whose message is given.
pub fn create_user(outcome: Result<[u8; 16], String>) -> (r: Result<[u8; 16], HttpStatus>)
    ensures
        r == create_user_answer(outcome),
{
    match outcome {
        Ok(id) => Ok(id),
        Err(msg) => {
            let needle: [u8; 13] = [
                0x64u8,
                0x75,
                0x70,
                0x6c,
                0x69,
                0x63,
                0x61,
                0x74,
                0x65,
                0x20,
                0x6b,
                0x65,
                0x79,
            ];
            assert(needle@ =~= duplicate_key_text());
            if contains_bytes(msg.as_str().as_bytes(), needle.as_slice()) {
                Err(HttpStatus::Conflict)
            } else {
                Err(HttpStatus::InternalServerError)
            }
        },
    }
}

/// Decision on inserting a new session row (`None` when the database
/// failed): the session, or `InternalServerError`.
pub open spec fn session_answer(token: [u8; 16], user_id: [u8; 16], inserted: Option<i32>) -> Result<Session, HttpStatus> {
    match inserted {
        None => Err(HttpStatus::InternalServerError),
        Some(id) => Ok(Session { session_token: token, session_id: id, user_id }),
    }
}

/// The session created for `user_id` under `token`, given the row id the
/// database returned for it (`None` when it failed).
pub fn create_session(token: [u8; 16], user_id: [u8; 16], inserted: Option<i32>) -> (r: Result<Session, HttpStatus>)
    ensures
        r == session_answer(token, user_id, inserted),
{
    match inserted {
        None => Err(HttpStatus::InternalServerError),
        Some(id) => Ok(Session { session_token: token, session_id: id, user_id }),
    }
}

fn clone_email(e: &Option<String>) -> (r: Option<String>)
    ensures
        r == *e,
{
    match e {
        None => None,
        Some(s) => Some(s.clone()),
    }
}

fn bytes_equal(a: &[u8], b: &[u8]) -> (r: bool)
    ensures
        r == (a@ == b@),
{
    if a.len() != b.len() {
        return false;
    }
    let mut i: usize = 0;
    while i < a.len()
        invariant
            a@.len() == b@.len(),
            i <= a@.len(),
            forall|j: int| 0 <= j < i ==> a@[j] == b@[j],
        decreases a@.len() - i,
    {
        if a[i] != b[i] {
            return false;
        }
        i = i + 1;
    }
    assert(a@ =~= b@);
    true
}

/// `User created`, the message of a successful registration.
pub open spec fn user_created_text() -> Seq<char> {
    seq!['U', 's', 'e', 'r', ' ', 'c', 'r', 'e', 'a', 't', 'e', 'd']
}

/// `login complete`, the message of a successful login.
pub open spec fn login_complete_text() -> Seq<char> {
    seq!['l', 'o', 'g', 'i', 'n', ' ', 'c', 'o', 'm', 'p', 'l', 'e', 't', 'e']
}

/// Where a registration stands.
pub enum RegisterStep {
    /// Nothing done yet.
    Start(RegisterRequest),
    /// Waiting for the number of accounts with this login or e-mail.
    CheckingUser(RegisterRequest),
    /// Waiting for the password hash computed with `salt`.
    DerivingKey { request: RegisterRequest, salt: Vec<u8> },
    /// Waiting for the database to create the account.
    CreatingUser,
    /// The reply has been given.
    Finished,
}

/// What the caller reports back to a registration.
pub enum RegisterEvent {
    /// Start the flow.
    Begin,
    /// Accounts counted with the same login or e-mail (`None`: database error).
    UserCount(Option<i64>),
    /// The password hash (`None`: the key derivation failed).
    MasterKey(Option<Vec<u8>>),
    /// The new account's id, or the database's error message.
    UserCreated(Result<[u8; 16], String>),
}

/// What a registration asks the caller to do next.
pub enum RegisterAction {
    /// Count the accounts with this login or with this e-mail.
    CheckUser { login: String, email: Option<String> },
    /// Derive the password hash of `password` with `salt`.
    DeriveMasterKey { password: String, salt: Vec<u8> },
    /// Insert the account and return its id.
    CreateUser { login: String, password_hash: Vec<u8>, email: Option<String>, salt: Vec<u8> },
    /// Answer the client.
    Reply(Result<RegisterResponse, HttpStatus>),
}

/// The registration's answer once it has reached `Finished`.
pub open spec fn register_failed(out: (RegisterStep, RegisterAction), status: HttpStatus) -> bool {
    out.0 is Finished && out.1 == RegisterAction::Reply(Err(status))
}

/// One step of a registration, given the salt drawn for a new account
/// (`None` when the random source failed): a login under 3 bytes or a
/// password under 8 bytes is `BadRequest`; an existing login or e-mail is
/// `Conflict`; a free one goes on to derive the password hash with the drawn
/// salt, then to create the account.
pub open spec fn register_next(
    state: RegisterStep,
    event: RegisterEvent,
    salt: Option<Vec<u8>>,
    out: (RegisterStep, RegisterAction),
) -> bool {
    match (state, event) {
        (RegisterStep::Start(req), RegisterEvent::Begin) => if registration_acceptable(req) {
            out == (RegisterStep::CheckingUser(req), RegisterAction::CheckUser {
                login: req.login,
                email: req.email,
            })
        } else {
            register_failed(out, HttpStatus::BadRequest)
        },
        (RegisterStep::CheckingUser(req), RegisterEvent::UserCount(count)) => match user_exists_answer(count) {
            Err(st) => register_failed(out, st),
            Ok(true) => register_failed(out, HttpStatus::Conflict),
            Ok(false) => match salt {
                None => register_failed(out, HttpStatus::InternalServerError),
                Some(drawn) => (out.1 matches RegisterAction::DeriveMasterKey { password, salt }
                    && password == req.password && salt@ == drawn@) && (out.0 matches RegisterStep::DerivingKey {
                    request,
                    salt: kept,
                } && request == req && kept@ == drawn@),
            },
        },
        (RegisterStep::DerivingKey { request, salt }, RegisterEvent::MasterKey(key)) => match key {
            None => register_failed(out, HttpStatus::InternalServerError),
            Some(hash) => out == (RegisterStep::CreatingUser, RegisterAction::CreateUser {
                login: request.login,
                password_hash: hash,
                email: request.email,
                salt,
            }),
        },
        (RegisterStep::CreatingUser, RegisterEvent::UserCreated(created)) => match create_user_answer(
            created,
        ) {
            Err(st) => register_failed(out, st),
            Ok(id) => out.0 is Finished && (out.1 matches RegisterAction::Reply(Ok(resp))
                && resp.user_id == id && resp.message@ == user_created_text()),
        },
        _ => register_failed(out, HttpStatus::InternalServerError),
    }
}

/// A registration is refused with `BadRequest` at its first step exactly
/// when its login has fewer than 3 UTF-8 bytes or its password fewer than 8,
/// whatever its e-mail; any other registration goes on to check that its
/// login and e-mail are free.
pub proof fn registration_first_step(
    req: RegisterRequest,
    salt: Option<Vec<u8>>,
    out: (RegisterStep, RegisterAction),
)
    requires
        register_next(RegisterStep::Start(req), RegisterEvent::Begin, salt, out),
    ensures
        encode_utf8(req.login@).len() < 3 || encode_utf8(req.password@).len() < 8 ==> (out.0 is Finished
            && out.1 == RegisterAction::Reply(Err(HttpStatus::BadRequest))),
        encode_utf8(req.login@).len() >= 3 && encode_utf8(req.password@).len() >= 8 ==> out.0
            == RegisterStep::CheckingUser(req) && out.1 == (RegisterAction::CheckUser {
            login: req.login,
            email: req.email,
        }),
{
}

/// One step of a registration, with the salt drawn for a new account given:
/// from where it stands and what the caller reports, where it goes and what
/// the caller must do next.
pub fn register_with_salt(state: RegisterStep, event: RegisterEvent, salt: Option<Vec<u8>>) -> (out: (
    RegisterStep,
    RegisterAction,
))
    ensures
        register_next(state, event, salt, out),
{
    match (state, event) {
        (RegisterStep::Start(req), RegisterEvent::Begin) => {
            if req.login.as_str().as_bytes().len() < 3 || req.password.as_str().as_bytes().len() < 8 {
                return (RegisterStep::Finished, RegisterAction::Reply(Err(HttpStatus::BadRequest)));
            }
            let login = req.login.clone();
            let email = clone_email(&req.email);
            (RegisterStep::CheckingUser(req), RegisterAction::CheckUser { login, email })
        },
        (RegisterStep::CheckingUser(req), RegisterEvent::UserCount(count)) => {
            match user_exists(count) {
                Err(st) => (RegisterStep::Finished, RegisterAction::Reply(Err(st))),
                Ok(true) => (RegisterStep::Finished, RegisterAction::Reply(Err(HttpStatus::Conflict))),
                Ok(false) => {
                    match salt {
                        None => (
                            RegisterStep::Finished,
                            RegisterAction::Reply(Err(HttpStatus::InternalServerError)),
                        ),
                        Some(salt) => {
                            let password = req.password.clone();
                            let salt_copy = salt.clone();
                            assert(salt_copy@ =~= salt@);
                            (
                                RegisterStep::DerivingKey { request: req, salt },
                                RegisterAction::DeriveMasterKey { password, salt: salt_copy },
                            )
                        },
                    }
                },
            }
        },
        (RegisterStep::DerivingKey { request, salt }, RegisterEvent::MasterKey(key)) => {
            match key {
                None => (
                    RegisterStep::Finished,
                    RegisterAction::Reply(Err(HttpStatus::InternalServerError)),
                ),
                Some(hash) => (RegisterStep::CreatingUser, RegisterAction::CreateUser {
                    login: request.login,
                    password_hash: hash,
                    email: request.email,
                    salt,
                }),
            }
        },
        (RegisterStep::CreatingUser, RegisterEvent::UserCreated(created)) => {
            match create_user(created) {
                Err(st) => (RegisterStep::Finished, RegisterAction::Reply(Err(st))),
                Ok(id) => {
                    let message = String::from_str("User created");
                    proof {
                        reveal_strlit("User created");
                    }
                    assert(message@ =~= user_created_text());
                    (
                        RegisterStep::Finished,
                        RegisterAction::Reply(Ok(RegisterResponse { user_id: id, message })),
                    )
                },
            }
        },
        _ => (RegisterStep::Finished, RegisterAction::Reply(Err(HttpStatus::InternalServerError))),
    }
}

/// One step of a registration: from where it stands and what the caller
/// reports, where it goes and what the caller must do next. A salt of 64
/// bytes is drawn only once the login and e-mail are known to be free; the
/// step is then the one `register_with_salt` takes for that salt. Which
/// bytes are drawn, and that they differ from other accounts' salts, rest on
/// the random source and are not stated.
pub fn register(state: RegisterStep, event: RegisterEvent) -> (out: (RegisterStep, RegisterAction))
    ensures
        exists|salt: Option<Vec<u8>>|
            (salt matches Some(b) ==> b@.len() == 64) && #[trigger] register_next(state, event, salt, out)
                && ((state is CheckingUser && (event matches RegisterEvent::UserCount(Some(n)) && n <= 0))
                ==> salt is Some),
{
    let free: bool = match (&state, &event) {
        (RegisterStep::CheckingUser(_), RegisterEvent::UserCount(Some(n))) => *n <= 0,
        _ => false,
    };
    let salt = if free {
        random_bytes(64)
    } else {
        None
    };
    register_with_salt(state, event, salt)
}

/// Where a login stands.
pub enum LoginStep {
    /// Nothing done yet.
    Start(LoginRequest),
    /// Waiting for the account row of the login.
    FetchingUser(LoginRequest),
    /// Waiting for the hash of the offered password.
    CheckingPassword { user_id: [u8; 16], stored_hash: Vec<u8> },
    /// Waiting for the database to record a session under `token`.
    CreatingSession { token: [u8; 16], user_id: [u8; 16] },
    /// The reply has been given.
    Finished,
}

/// What the caller reports back to a login.
pub enum LoginEvent {
    /// Start the flow.
    Begin,
    /// The account's id, salt and stored hash (`None`: no row or database error).
    UserRow(Option<([u8; 16], Vec<u8>, Vec<u8>)>),
    /// The hash of the offered password (`None`: the key derivation failed).
    MasterKey(Option<Vec<u8>>),
    /// The id of the new session row (`None`: database error).
    SessionInserted(Option<i32>),
}

/// What a login asks the caller to do next.
pub enum LoginAction {
    /// Fetch id, salt and password hash of the account with this login.
    FetchUser { login: String },
    /// Derive the hash of `password` with `salt`.
    DeriveMasterKey { password: String, salt: Vec<u8> },
    /// Insert a session row with this token for this user, returning its id.
    InsertSession { session_token: [u8; 16], user_id: [u8; 16] },
    /// Answer the client.
    Reply(Result<LoginResponse, HttpStatus>),
}

/// The login's answer once it has reached `Finished`.
pub open spec fn login_failed(out: (LoginStep, LoginAction), status: HttpStatus) -> bool {
    out.0 is Finished && out.1 == LoginAction::Reply(Err(status))
}

/// The step a login takes from where it stands and what the caller reports. The offered password is
/// accepted exactly when its hash equals the stored one.
pub open spec fn login_next(
    state: LoginStep,
    event: LoginEvent,
    drawn: Option<[u8; 16]>,
    out: (LoginStep, LoginAction),
) -> bool {
    match (state, event) {
        (LoginStep::Start(req), LoginEvent::Begin) => out == (
            LoginStep::FetchingUser(req),
            LoginAction::FetchUser { login: req.login },
        ),
        (LoginStep::FetchingUser(req), LoginEvent::UserRow(row)) => match row {
            None => login_failed(out, HttpStatus::InternalServerError),
            Some((id, salt, hash)) => out == (
                LoginStep::CheckingPassword { user_id: id, stored_hash: hash },
                LoginAction::DeriveMasterKey { password: req.password, salt },
            ),
        },
        (LoginStep::CheckingPassword { user_id, stored_hash }, LoginEvent::MasterKey(key)) => match key {
            None => login_failed(out, HttpStatus::InternalServerError),
            Some(hash) => if hash@ != stored_hash@ {
                login_failed(out, HttpStatus::Unauthorized)
            } else {
                match drawn {
                    None => login_failed(out, HttpStatus::InternalServerError),
                    Some(raw) => out.1 matches LoginAction::InsertSession { session_token, user_id: uid }
                        && (uid == user_id && session_token@ == uuid_v4_layout(raw@) && out.0
                        == LoginStep::CreatingSession { token: session_token, user_id }),
                }
            },
        },
        (LoginStep::CreatingSession { token, user_id }, LoginEvent::SessionInserted(inserted)) => match session_answer(
            token,
            user_id,
            inserted,
        ) {
            Err(st) => login_failed(out, st),
            Ok(session) => out.0 is Finished && (out.1 matches LoginAction::Reply(Ok(resp))
                && resp.session == session && resp.message@ == login_complete_text()),
        },
        _ => login_failed(out, HttpStatus::InternalServerError),
    }
}

/// A login records a session only for a password whose hash equals the
/// stored hash of the account fetched for its login, and for that account.
pub proof fn login_session_only_after_matching_hash(
    state: LoginStep,
    event: LoginEvent,
    drawn: Option<[u8; 16]>,
    out: (LoginStep, LoginAction),
)
    requires
        login_next(state, event, drawn, out),
        out.1 is InsertSession || out.0 is CreatingSession,
    ensures
        state matches LoginStep::CheckingPassword { user_id, stored_hash } && (event matches LoginEvent::MasterKey(
            Some(hash),
        ) && hash@ == stored_hash@ && (out.0 matches LoginStep::CreatingSession { token, user_id: uid }
            && uid == user_id)),
{
}

/// A login answers with a session only once the database has recorded it,
/// and the session is the one recorded, for the account that was checked.
pub proof fn login_succeeds_only_with_recorded_session(
    state: LoginStep,
    event: LoginEvent,
    drawn: Option<[u8; 16]>,
    out: (LoginStep, LoginAction),
)
    requires
        login_next(state, event, drawn, out),
        out.1 matches LoginAction::Reply(Ok(_)),
    ensures
        state matches LoginStep::CreatingSession { token, user_id } && (event matches LoginEvent::SessionInserted(
            Some(id),
        ) && (out.1 matches LoginAction::Reply(Ok(resp)) && resp.session == Session {
            session_token: token,
            session_id: id,
            user_id,
        })),
{
}

/// One step of a login, with the random bytes of a new session token given
/// (`None` when the random source failed): from where it stands and what the
/// caller reports, where it goes and what the caller must do next.
pub fn login_user_with(state: LoginStep, event: LoginEvent, drawn: Option<[u8; 16]>) -> (out: (
    LoginStep,
    LoginAction,
))
    ensures
        login_next(state, event, drawn, out),
{
    match (state, event) {
        (LoginStep::Start(req), LoginEvent::Begin) => {
            let login = req.login.clone();
            (LoginStep::FetchingUser(req), LoginAction::FetchUser { login })
        },
        (LoginStep::FetchingUser(req), LoginEvent::UserRow(row)) => match row {
            None => (LoginStep::Finished, LoginAction::Reply(Err(HttpStatus::InternalServerError))),
            Some((id, salt, hash)) => (
                LoginStep::CheckingPassword { user_id: id, stored_hash: hash },
                LoginAction::DeriveMasterKey { password: req.password, salt },
            ),
        },
        (LoginStep::CheckingPassword { user_id, stored_hash }, LoginEvent::MasterKey(key)) => {
            match key {
                None => (
                    LoginStep::Finished,
                    LoginAction::Reply(Err(HttpStatus::InternalServerError)),
                ),
                Some(hash) => {
                    if !bytes_equal(hash.as_slice(), stored_hash.as_slice()) {
                        return (
                            LoginStep::Finished,
                            LoginAction::Reply(Err(HttpStatus::Unauthorized)),
                        );
                    }
                    let token = match drawn {
                        Some(raw) => uuid_v4_from_random(raw),
                        None => {
                            return (
                                LoginStep::Finished,
                                LoginAction::Reply(Err(HttpStatus::InternalServerError)),
                            );
                        },
                    };
                    (
                        LoginStep::CreatingSession { token, user_id },
                        LoginAction::InsertSession { session_token: token, user_id },
                    )
                },
            }
        },
        (LoginStep::CreatingSession { token, user_id }, LoginEvent::SessionInserted(inserted)) => {
            match create_session(token, user_id, inserted) {
                Err(st) => (LoginStep::Finished, LoginAction::Reply(Err(st))),
                Ok(session) => {
                    let message = String::from_str("login complete");
                    proof {
                        reveal_strlit("login complete");
                    }
                    assert(message@ =~= login_complete_text());
                    (LoginStep::Finished, LoginAction::Reply(Ok(LoginResponse { session, message })))
                },
            }
        },
        _ => (LoginStep::Finished, LoginAction::Reply(Err(HttpStatus::InternalServerError))),
    }
}

/// One step of a login: from where it stands and what the caller reports,
/// where it goes and what the caller must do next. The 16 random bytes of a
/// new session token are drawn only once the password has matched; the step
/// is then the one `login_user_with` takes for them. Their freshness rests
/// on the random source and is not stated.
pub fn login_user(state: LoginStep, event: LoginEvent) -> (out: (LoginStep, LoginAction))
    ensures
        exists|drawn: Option<[u8; 16]>|
            #[trigger] login_next(state, event, drawn, out) && ((state is CheckingPassword
                && event matches LoginEvent::MasterKey(Some(_))) ==> drawn is Some),
{
    let matched: bool = match (&state, &event) {
        (LoginStep::CheckingPassword { .. }, LoginEvent::MasterKey(Some(_))) => true,
        _ => false,
    };
    let drawn: Option<[u8; 16]> = if matched {
        match random_bytes(16) {
            Some(raw) => bytes_to_array(raw.as_slice()),
            None => None,
        }
    } else {
        None
    };
    login_user_with(state, event, drawn)
}

/// A run of login steps for `req`: it starts at `Start(req)`, each step is
/// one the login takes (with the token bytes drawn for it), and each step
/// starts where the previous one ended.
pub open spec fn login_run(
    req: LoginRequest,
    steps: Seq<(LoginStep, LoginEvent, Option<[u8; 16]>, (LoginStep, LoginAction))>,
) -> bool {
    &&& steps.len() > 0
    &&& steps[0].0 == LoginStep::Start(req)
    &&& forall|i: int| 0 <= i < steps.len() ==> #[trigger] login_next(steps[i].0, steps[i].1, steps[i].2, steps[i].3)
    &&& forall|i: int| 0 < i < steps.len() ==> #[trigger] steps[i].0 == steps[i - 1].3.0
}

/// Step `k` of the run fetched, for the run's login, the account `uid` with
/// stored hash `stored_hash`.
pub open spec fn fetched_account(
    req: LoginRequest,
    steps: Seq<(LoginStep, LoginEvent, Option<[u8; 16]>, (LoginStep, LoginAction))>,
    k: int,
    uid: [u8; 16],
    stored_hash: Vec<u8>,
) -> bool {
    &&& steps[k].0 == LoginStep::FetchingUser(req)
    &&& steps[k].1 matches LoginEvent::UserRow(Some(row)) && row.0 == uid && row.2 == stored_hash
}

/// Step `j` of the run checked a password whose hash equals the stored hash
/// of account `uid`, fetched at an earlier step for the run's login.
pub open spec fn password_matched(
    req: LoginRequest,
    steps: Seq<(LoginStep, LoginEvent, Option<[u8; 16]>, (LoginStep, LoginAction))>,
    j: int,
    uid: [u8; 16],
) -> bool {
    exists|k: int, stored_hash: Vec<u8>|
        0 <= k < j && #[trigger] fetched_account(req, steps, k, uid, stored_hash) && steps[j].0
            == LoginStep::CheckingPassword { user_id: uid, stored_hash } && (steps[j].1 matches LoginEvent::MasterKey(
            Some(hash),
        ) && hash@ == stored_hash@)
}

proof fn lemma_login_run_states(
    req: LoginRequest,
    steps: Seq<(LoginStep, LoginEvent, Option<[u8; 16]>, (LoginStep, LoginAction))>,
    i: int,
)
    requires
        login_run(req, steps),
        0 <= i < steps.len(),
    ensures
        steps[i].0 is Start ==> i == 0,
        steps[i].0 matches LoginStep::FetchingUser(r) ==> r == req,
        steps[i].0 matches LoginStep::CheckingPassword { user_id, stored_hash } ==> exists|k: int|
            0 <= k < i && #[trigger] fetched_account(req, steps, k, user_id, stored_hash),
        steps[i].0 matches LoginStep::CreatingSession { token, user_id } ==> exists|j: int|
            0 <= j < i && #[trigger] password_matched(req, steps, j, user_id),
    decreases i,
{
    if i > 0 {
        lemma_login_run_states(req, steps, i - 1);
        let prev = steps[i - 1];
        assert(login_next(prev.0, prev.1, prev.2, prev.3));
        assert(steps[i].0 == prev.3.0);
        match steps[i].0 {
            LoginStep::CheckingPassword { user_id, stored_hash } => {
                assert(fetched_account(req, steps, i - 1, user_id, stored_hash));
            },
            LoginStep::CreatingSession { token, user_id } => {
                let sh = prev.0->CheckingPassword_stored_hash;
                let k = choose|k: int| 0 <= k < i - 1 && #[trigger] fetched_account(req, steps, k, user_id, sh);
                assert(fetched_account(req, steps, k, user_id, sh));
                assert(password_matched(req, steps, i - 1, user_id));
            },
            _ => {},
        }
    }
}

/// Over a whole login: a login that answers with a session has fetched the
/// account for the login it was given, has then checked a password whose
/// hash equals that account's stored hash, and answers with a session for
/// that account.
pub proof fn login_run_succeeds_only_after_matching_hash(
    req: LoginRequest,
    steps: Seq<(LoginStep, LoginEvent, Option<[u8; 16]>, (LoginStep, LoginAction))>,
)
    requires
        login_run(req, steps),
        steps.last().3.1 matches LoginAction::Reply(Ok(_)),
    ensures
        steps.last().3.1 matches LoginAction::Reply(Ok(resp)) && exists|j: int|
            0 <= j < steps.len() && #[trigger] password_matched(req, steps, j, resp.session.user_id),
{
    let n = steps.len() - 1;
    assert(steps.last() == steps[n]);
    assert(login_next(steps[n].0, steps[n].1, steps[n].2, steps[n].3));
    login_succeeds_only_with_recorded_session(steps[n].0, steps[n].1, steps[n].2, steps[n].3);
    lemma_login_run_states(req, steps, n);
    let user_id = steps[n].0->CreatingSession_user_id;
    let j = choose|j: int| 0 <= j < n && #[trigger] password_matched(req, steps, j, user_id);
    assert(password_matched(req, steps, j, user_id));
    match steps[n].3.1 {
        LoginAction::Reply(Ok(resp)) => {
            assert(resp.session.user_id == user_id);
        },
        _ => {},
    }
}

} // verus!
