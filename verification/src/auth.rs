//! Accounts and credentials: bearer tokens in request headers, role checks,
//! sign-in and registration input, password hashes and the seeded
//! administrator.
use vstd::prelude::*;
use crate::model::{AllowedRoles, ApiError, AuthContext, Status, UserRole, api_error};
use crate::text::{has_prefix, same_text, starts_with, trim, trimmed, chars_of, string_from};

verus! {

/// What a request carries in its `Authorization` header.
#[derive(Debug)]
pub enum HeaderText {
    /// No such header.
    Absent,
    /// A header whose value is not visible ASCII text.
    Unreadable,
    /// The header's text.
    Text(String),
}

/// The length in bytes of the UTF-8 encoding of a text, as `str::len`
/// reports it.
pub open spec fn utf8_len(s: Seq<char>) -> usize {
    vstd::utf8::encode_utf8(s).len() as usize
}

/// The scheme prefix of a bearer token.
pub open spec fn bearer_prefix() -> Seq<char> {
    "Bearer "@
}

/// `s` without its first `n` characters.
fn drop_prefix(s: &str, n: usize) -> (r: String)
    requires
        n <= s@.len(),
    ensures
        r@ == s@.subrange(n as int, s@.len() as int),
{
    let v = chars_of(s);
    string_from(&v, n, v.len())
}

/// The token of a request that must be authenticated: the text after
/// `Bearer `, which may not be empty. Every refusal is a 401.
pub fn bearer_token(header: &HeaderText) -> (r: Result<String, ApiError>)
    ensures
        match header {
            HeaderText::Absent => r matches Err(e) && e.status == Status::Unauthorized && e.message@
                == "缺少 Authorization 头"@,
            HeaderText::Unreadable => r matches Err(e) && e.status == Status::Unauthorized
                && e.message@ == "Authorization 头格式无效"@,
            HeaderText::Text(t) => if !has_prefix(t@, bearer_prefix()) {
                r matches Err(e) && e.status == Status::Unauthorized && e.message@
                    == "Authorization 必须是 Bearer Token"@
            } else if t@.len() == bearer_prefix().len() {
                r matches Err(e) && e.status == Status::Unauthorized && e.message@ == "Token 不能为空"@
            } else {
                r matches Ok(k) && k@ == t@.subrange(bearer_prefix().len() as int, t@.len() as int)
            },
        },
{
    match header {
        HeaderText::Absent => Err(api_error(Status::Unauthorized, "缺少 Authorization 头")),
        HeaderText::Unreadable => Err(api_error(Status::Unauthorized, "Authorization 头格式无效")),
        HeaderText::Text(t) => {
            if !starts_with(t.as_str(), "Bearer ") {
                return Err(api_error(Status::Unauthorized, "Authorization 必须是 Bearer Token"));
            }
            let p = "Bearer ";
            proof {
                reveal_strlit("Bearer ");
            }
            let token = drop_prefix(t.as_str(), p.unicode_len());
            if token.as_str().is_empty() {
                Err(api_error(Status::Unauthorized, "Token 不能为空"))
            } else {
                Ok(token)
            }
        },
    }
}

/// The token of a request on a public route that honours a caller who sends
/// one: the trimmed text after `Bearer `, or none when the header is absent,
/// unreadable, not a bearer token or blank.
pub fn optional_bearer_token(header: &HeaderText) -> (r: Option<String>)
    ensures
        match header {
            HeaderText::Text(t) => if !has_prefix(t@, bearer_prefix()) {
                r is None
            } else {
                let k = trimmed(t@.subrange(bearer_prefix().len() as int, t@.len() as int));
                if k.len() == 0 {
                    r is None
                } else {
                    r matches Some(s) && s@ == k
                }
            },
            _ => r is None,
        },
{
    match header {
        HeaderText::Text(t) => {
            if !starts_with(t.as_str(), "Bearer ") {
                return None;
            }
            let p = "Bearer ";
            proof {
                reveal_strlit("Bearer ");
            }
            let rest = drop_prefix(t.as_str(), p.unicode_len());
            let token = trim(rest.as_str());
            if token.as_str().is_empty() {
                None
            } else {
                Some(token)
            }
        },
        _ => None,
    }
}

/// A disabled account is refused (401) even with a valid token.
pub fn active_account(active: bool) -> (r: Result<(), ApiError>)
    ensures
        r is Ok <==> active,
        r matches Err(e) ==> e.status == Status::Unauthorized && e.message@ == "账号已被禁用"@,
{
    if active {
        Ok(())
    } else {
        Err(api_error(Status::Unauthorized, "账号已被禁用"))
    }
}

/// The role check of a route group: the group must declare its roles (500
/// otherwise), the request must be authenticated (401), and the caller's role
/// must be one of them (403).
pub fn role_check(allowed: &Option<AllowedRoles>, auth: &Option<AuthContext>) -> (r: Result<
    (),
    ApiError,
>)
    ensures
        allowed is None ==> (r matches Err(e) && e.status == Status::InternalServerError
            && e.message@ == "路由未声明允许角色集合"@),
        allowed is Some && auth is None ==> (r matches Err(e) && e.status == Status::Unauthorized
            && e.message@ == "未认证用户"@),
        allowed is Some && auth is Some ==> (r is Ok <==> allowed.unwrap()@.contains(
            auth.unwrap().role,
        )),
        allowed is Some && auth is Some && !allowed.unwrap()@.contains(auth.unwrap().role) ==> (
        r matches Err(e) && e.status == Status::Forbidden && e.message@ == "无权限访问该资源"@),
{
    let roles = match allowed {
        Some(a) => a,
        None => {
            return Err(api_error(Status::InternalServerError, "路由未声明允许角色集合"));
        },
    };
    let ctx = match auth {
        Some(c) => c,
        None => {
            return Err(api_error(Status::Unauthorized, "未认证用户"));
        },
    };
    if roles.contains(&ctx.role) {
        Ok(())
    } else {
        Err(api_error(Status::Forbidden, "无权限访问该资源"))
    }
}

/// A sign-in request: by user name or, failing that, by e-mail.
#[derive(Debug)]
pub struct LoginRequest {
    pub username: Option<String>,
    pub email: Option<String>,
    pub password: String,
}

/// How a sign-in finds the account.
#[derive(Debug)]
pub enum LoginLookup {
    ByUsername(String),
    ByEmail(String),
}

/// What a sign-in looks the account up by. The trimmed password must not be
/// empty; a given user name is used (trimmed, and must not then be empty),
/// else a given e-mail (the same); with neither the request is refused.
/// Every refusal is a 400.
pub fn login_lookup(req: &LoginRequest) -> (r: Result<LoginLookup, ApiError>)
    ensures
        trimmed(req.password@).len() == 0 ==> (r matches Err(e) && e.status == Status::BadRequest
            && e.message@ == "密码不能为空"@),
        trimmed(req.password@).len() > 0 ==> match req.username {
            Some(u) => if trimmed(u@).len() == 0 {
                r matches Err(e) && e.status == Status::BadRequest && e.message@ == "用户名不能为空"@
            } else {
                r matches Ok(LoginLookup::ByUsername(k)) && k@ == trimmed(u@)
            },
            None => match req.email {
                Some(m) => if trimmed(m@).len() == 0 {
                    r matches Err(e) && e.status == Status::BadRequest && e.message@ == "邮箱不能为空"@
                } else {
                    r matches Ok(LoginLookup::ByEmail(k)) && k@ == trimmed(m@)
                },
                None => r matches Err(e) && e.status == Status::BadRequest && e.message@
                    == "请提供 username 或 email"@,
            },
        },
{
    let password = trim(req.password.as_str());
    if password.as_str().is_empty() {
        return Err(api_error(Status::BadRequest, "密码不能为空"));
    }
    match &req.username {
        Some(u) => {
            let name = trim(u.as_str());
            if name.as_str().is_empty() {
                Err(api_error(Status::BadRequest, "用户名不能为空"))
            } else {
                Ok(LoginLookup::ByUsername(name))
            }
        },
        None => match &req.email {
            Some(m) => {
                let mail = trim(m.as_str());
                if mail.as_str().is_empty() {
                    Err(api_error(Status::BadRequest, "邮箱不能为空"))
                } else {
                    Ok(LoginLookup::ByEmail(mail))
                }
            },
            None => Err(api_error(Status::BadRequest, "请提供 username 或 email")),
        },
    }
}

/// An account as sign-in reads it.
#[derive(Debug)]
pub struct AccountRecord {
    pub id: u128,
    pub username: String,
    pub email: Option<String>,
    pub password_hash: String,
    pub role: UserRole,
    pub real_name: Option<String>,
    pub avatar_url: Option<String>,
    pub is_active: bool,
    pub password_reset_required: bool,
}

/// Whether `password` verifies against the stored PHC hash string `hash`, as
/// the Argon2 verifier decides.
pub uninterp spec fn password_matches(hash: Seq<char>, password: Seq<char>) -> bool;

/// Parses the stored hash with `argon2::password_hash::PasswordHash::new` and
/// checks the password with `Argon2::default()`'s `verify_password`; the
/// result is true exactly when both succeed, which is named by
/// `password_matches`.
#[verifier::external_body]
fn verify_password(hash: &str, password: &str) -> (r: bool)
    ensures
        r == password_matches(hash@, password@),
{
    match argon2::password_hash::PasswordHash::new(hash) {
        Ok(parsed) => argon2::password_hash::PasswordVerifier::verify_password(
            &argon2::Argon2::default(),
            password.as_bytes(),
            &parsed,
        ).is_ok(),
        Err(_) => false,
    }
}

/// The passwords Argon2 hashes with its default parameters: at most
/// `2^32 - 1` bytes of UTF-8 (longer ones are refused as too long).
pub open spec fn hashable(password: Seq<char>) -> bool {
    vstd::utf8::encode_utf8(password).len() <= 0xFFFF_FFFF
}

/// Hashes a password with `Argon2::default()` and a fresh salt from the
/// operating system's generator (`SaltString::generate` with `OsRng`), giving
/// the PHC string. The salt is random, so nothing names the string itself;
/// what holds of every outcome is that the verifier accepts the same password
/// against it. With the default parameters and a generated salt the hasher
/// fails only on a password longer than `2^32 - 1` bytes.
#[verifier::external_body]
fn hash_password(password: &str) -> (r: Result<String, String>)
    ensures
        r is Ok ==> password_matches(r.unwrap()@, password@),
        hashable(password@) ==> r is Ok,
{
    let salt = argon2::password_hash::SaltString::generate(
        &mut argon2::password_hash::rand_core::OsRng,
    );
    match argon2::password_hash::PasswordHasher::hash_password(
        &argon2::Argon2::default(),
        password.as_bytes(),
        &salt,
    ) {
        Ok(h) => Ok(h.to_string()),
        Err(e) => Err(e.to_string()),
    }
}

/// The account a sign-in may proceed with: it must exist and be enabled
/// (401 otherwise).
pub fn sign_in_account(account: Option<AccountRecord>) -> (r: Result<AccountRecord, ApiError>)
    ensures
        match account {
            None => r matches Err(e) && e.status == Status::Unauthorized && e.message@
                == "账号或密码错误"@,
            Some(a) => if !a.is_active {
                r matches Err(e) && e.status == Status::Unauthorized && e.message@ == "账号已被禁用"@
            } else {
                r == Ok::<AccountRecord, ApiError>(a)
            },
        },
{
    match account {
        None => Err(api_error(Status::Unauthorized, "账号或密码错误")),
        Some(a) => {
            if !a.is_active {
                Err(api_error(Status::Unauthorized, "账号已被禁用"))
            } else {
                Ok(a)
            }
        },
    }
}

/// The outcome of checking the password: a mismatch is answered exactly like
/// an unknown account.
pub fn password_outcome(matches: bool) -> (r: Result<(), ApiError>)
    ensures
        r is Ok <==> matches,
        r matches Err(e) ==> e.status == Status::Unauthorized && e.message@ == "账号或密码错误"@,
{
    if matches {
        Ok(())
    } else {
        Err(api_error(Status::Unauthorized, "账号或密码错误"))
    }
}

/// Signs in an account found for `req`: it must exist, be enabled and have a
/// stored hash that the request's trimmed password verifies against.
pub fn authenticate(req: &LoginRequest, account: Option<AccountRecord>) -> (r: Result<
    AccountRecord,
    ApiError,
>)
    ensures
        match account {
            None => r matches Err(e) && e.status == Status::Unauthorized && e.message@
                == "账号或密码错误"@,
            Some(a) => if !a.is_active {
                r matches Err(e) && e.status == Status::Unauthorized && e.message@ == "账号已被禁用"@
            } else if password_matches(a.password_hash@, trimmed(req.password@)) {
                r == Ok::<AccountRecord, ApiError>(a)
            } else {
                r matches Err(e) && e.status == Status::Unauthorized && e.message@ == "账号或密码错误"@
            },
        },
{
    let a = sign_in_account(account)?;
    let password = trim(req.password.as_str());
    let ok = verify_password(a.password_hash.as_str(), password.as_str());
    password_outcome(ok)?;
    Ok(a)
}

/// A new account's user name and password: the name may not be blank, and
/// the password must be at least 6 bytes long (UTF-8). Refusals are 400.
pub fn new_account_check(username: &str, password: &str) -> (r: Result<(), ApiError>)
    ensures
        trimmed(username@).len() == 0 ==> (r matches Err(e) && e.status == Status::BadRequest
            && e.message@ == "用户名不能为空"@),
        trimmed(username@).len() > 0 && utf8_len(password@) < 6 ==> (r matches Err(e)
            && e.status == Status::BadRequest && e.message@ == "密码长度不能少于 6 位"@),
        trimmed(username@).len() > 0 && utf8_len(password@) >= 6 ==> r is Ok,
{
    let name = trim(username);
    if name.as_str().is_empty() {
        return Err(api_error(Status::BadRequest, "用户名不能为空"));
    }
    if password.len() < 6 {
        return Err(api_error(Status::BadRequest, "密码长度不能少于 6 位"));
    }
    Ok(())
}

/// What hashing a new password gives: a hash that verifies against the
/// password, or, only for a password the hasher refuses, a 500.
pub open spec fn password_hashed(password: Seq<char>, r: Result<String, ApiError>) -> bool {
    match r {
        Ok(h) => password_matches(h@, password),
        Err(e) => e.status == Status::InternalServerError && !hashable(password),
    }
}

/// A password of any length the hasher takes is hashed: the outcome does not
/// depend on the password beyond the hasher's own limit, and the hash
/// verifies against it.
pub proof fn lemma_hashable_password_is_hashed(password: Seq<char>, r: Result<String, ApiError>)
    requires
        password_hashed(password, r),
        hashable(password),
    ensures
        r matches Ok(h) && password_matches(h@, password),
{
}

/// A new account's user name and password pass the checks of `new_account_check`.
pub open spec fn account_input_valid(username: Seq<char>, password: Seq<char>) -> bool {
    trimmed(username).len() > 0 && utf8_len(password) >= 6
}

/// What a registration gives: a student account with the requested user
/// name, e-mail and real name and a hash verifying the password; an error only
/// on input the checks refuse or on a password the hasher refuses.
pub open spec fn registration_outcome(req: RegisterRequest, r: Result<NewAccount, ApiError>) -> bool {
    match r {
        Ok(a) => a.role == UserRole::Student && a.username@ == req.username@ && a.email == req.email
            && a.real_name == req.real_name && password_matches(a.password_hash@, req.password@),
        Err(_) => !(account_input_valid(req.username@, req.password@) && hashable(req.password@)),
    }
}

/// A registration with a non-blank user name and a password of at least 6
/// bytes succeeds whenever the hasher takes the password (whatever the e-mail
/// and real name), as a student account carrying exactly what was requested.
pub proof fn lemma_valid_registration_succeeds(req: RegisterRequest, r: Result<NewAccount, ApiError>)
    requires
        registration_outcome(req, r),
        account_input_valid(req.username@, req.password@),
        hashable(req.password@),
    ensures
        r matches Ok(a) && a.role == UserRole::Student && a.username@ == req.username@
            && a.email == req.email && a.real_name == req.real_name && password_matches(
            a.password_hash@,
            req.password@,
        ),
{
}

/// What an administrator's account creation gives: an account with the
/// requested role, user name, e-mail and real name and a hash verifying the
/// password; an error only on input the checks refuse or on a password the
/// hasher refuses.
pub open spec fn creation_outcome(req: CreateUser, r: Result<NewAccount, ApiError>) -> bool {
    match r {
        Ok(a) => a.role == req.role && a.username@ == req.username@ && a.email == req.email
            && a.real_name == req.real_name && password_matches(a.password_hash@, req.password@),
        Err(_) => !(account_input_valid(req.username@, req.password@) && hashable(req.password@)),
    }
}

/// An administrator's creation of an account with a non-blank user name and
/// a password of at least 6 bytes succeeds for every role whenever the hasher
/// takes the password, and the account has the requested role.
pub proof fn lemma_valid_creation_succeeds(req: CreateUser, r: Result<NewAccount, ApiError>)
    requires
        creation_outcome(req, r),
        account_input_valid(req.username@, req.password@),
        hashable(req.password@),
    ensures
        r matches Ok(a) && a.role == req.role && a.username@ == req.username@ && a.email
            == req.email && a.real_name == req.real_name && password_matches(
            a.password_hash@,
            req.password@,
        ),
{
}

/// What ensuring the seeded administrator gives: nothing when its user name
/// is taken; otherwise an administrator account with the seed's user name,
/// e-mail and real name and a hash verifying its password, or, only for a
/// password the hasher refuses, a 500.
pub open spec fn admin_outcome(seed: AdminSeed, exists: bool, r: Option<Result<NewAccount, ApiError>>) -> bool {
    if exists {
        r is None
    } else {
        match r {
            Some(Ok(a)) => a.role == UserRole::Admin && a.username@ == seed.username@ && a.email
                == seed.email && (a.real_name matches Some(n) && n@ == seed.real_name@)
                && password_matches(a.password_hash@, seed.password@),
            Some(Err(e)) => e.status == Status::InternalServerError && !hashable(seed.password@),
            None => false,
        }
    }
}

/// When no account has the seed's user name, the administrator is created
/// whenever the hasher takes its password, whatever its optional e-mail.
pub proof fn lemma_missing_admin_is_created(
    seed: AdminSeed,
    r: Option<Result<NewAccount, ApiError>>,
)
    requires
        admin_outcome(seed, false, r),
        hashable(seed.password@),
    ensures
        r matches Some(Ok(a)) && a.role == UserRole::Admin && a.username@ == seed.username@
            && a.email == seed.email && password_matches(a.password_hash@, seed.password@),
{
}

/// The stored hash of a new password; a hashing failure is a 500 carrying the
/// hasher's message. Whatever hash comes back verifies against the password.
pub fn hash_new_password(password: &str) -> (r: Result<String, ApiError>)
    ensures
        r is Ok ==> password_matches(r.unwrap()@, password@),
        r matches Err(e) ==> e.status == Status::InternalServerError,
        password_hashed(password@, r),
{
    match hash_password(password) {
        Ok(h) => Ok(h),
        Err(m) => Err(ApiError { status: Status::InternalServerError, message: m }),
    }
}

/// A public registration: always a student account.
#[derive(Debug)]
pub struct RegisterRequest {
    pub username: String,
    pub email: Option<String>,
    pub password: String,
    pub real_name: Option<String>,
}

/// An account created by an administrator, with any role.
#[derive(Debug)]
pub struct CreateUser {
    pub username: String,
    pub email: Option<String>,
    pub password: String,
    pub role: UserRole,
    pub real_name: Option<String>,
}

/// An administrator's reset of a user's password.
#[derive(Debug)]
pub struct AdminResetPasswordRequest {
    pub new_password: String,
}

/// A user's change of their own password.
#[derive(Debug)]
pub struct ChangePasswordRequest {
    pub old_password: String,
    pub new_password: String,
}

/// A new account, checked and with its password hashed.
#[derive(Debug)]
pub struct NewAccount {
    pub username: String,
    pub email: Option<String>,
    pub password_hash: String,
    pub role: UserRole,
    pub real_name: Option<String>,
}

/// A registration becomes a student account, after the checks of
/// `new_account_check`, with the password hashed.
pub fn register_account(req: RegisterRequest) -> (r: Result<NewAccount, ApiError>)
    ensures
        trimmed(req.username@).len() == 0 ==> (r matches Err(e) && e.status == Status::BadRequest
            && e.message@ == "用户名不能为空"@),
        trimmed(req.username@).len() > 0 && utf8_len(req.password@) < 6 ==> (
        r matches Err(e) && e.status == Status::BadRequest && e.message@ == "密码长度不能少于 6 位"@),
        r matches Ok(a) ==> a.role == UserRole::Student && a.username@ == req.username@
            && a.email == req.email && a.real_name == req.real_name && password_matches(
            a.password_hash@,
            req.password@,
        ),
        r matches Err(e) ==> (e.status == Status::BadRequest || e.status
            == Status::InternalServerError),
        trimmed(req.username@).len() > 0 && utf8_len(req.password@) >= 6 ==> (r matches Err(
            e) ==> e.status == Status::InternalServerError),
        registration_outcome(req, r),
{
    new_account_check(req.username.as_str(), req.password.as_str())?;
    let hash = hash_new_password(req.password.as_str())?;
    Ok(
        NewAccount {
            username: req.username,
            email: req.email,
            password_hash: hash,
            role: UserRole::Student,
            real_name: req.real_name,
        },
    )
}

/// An account created by an administrator keeps the requested role, after the
/// same checks, with the password hashed.
pub fn create_account(req: CreateUser) -> (r: Result<NewAccount, ApiError>)
    ensures
        trimmed(req.username@).len() == 0 ==> (r matches Err(e) && e.status == Status::BadRequest
            && e.message@ == "用户名不能为空"@),
        trimmed(req.username@).len() > 0 && utf8_len(req.password@) < 6 ==> (
        r matches Err(e) && e.status == Status::BadRequest && e.message@ == "密码长度不能少于 6 位"@),
        r matches Ok(a) ==> a.role == req.role && a.username@ == req.username@ && a.email
            == req.email && a.real_name == req.real_name && password_matches(
            a.password_hash@,
            req.password@,
        ),
        trimmed(req.username@).len() > 0 && utf8_len(req.password@) >= 6 ==> (r matches Err(
            e) ==> e.status == Status::InternalServerError),
        creation_outcome(req, r),
{
    new_account_check(req.username.as_str(), req.password.as_str())?;
    let hash = hash_new_password(req.password.as_str())?;
    Ok(
        NewAccount {
            username: req.username,
            email: req.email,
            password_hash: hash,
            role: req.role,
            real_name: req.real_name,
        },
    )
}

/// A password set when an account was created signs in to that account once
/// it is stored and enabled, provided the password has no white space at its
/// ends (sign-in trims the password it is given; creation hashes it as sent).
pub proof fn lemma_created_password_signs_in(created: NewAccount, stored: AccountRecord, password: Seq<char>)
    requires
        password_matches(created.password_hash@, password),
        stored.password_hash@ == created.password_hash@,
        stored.is_active,
        trimmed(password) == password,
    ensures
        stored.is_active && password_matches(stored.password_hash@, trimmed(password)),
{
}

/// A failed insert of a new account: a unique violation (SQLSTATE `23505`) is
/// a 409; anything else a 500 carrying the database's message.
pub fn account_insert_error(code: &Option<String>, detail: String) -> (r: ApiError)
    ensures
        (code matches Some(c) && c@ == "23505"@) ==> r.status == Status::Conflict && r.message@
            == "用户名或邮箱已存在"@,
        !(code matches Some(c) && c@ == "23505"@) ==> r.status == Status::InternalServerError
            && r.message@ == detail@,
{
    match code {
        Some(c) => {
            if same_text(c.as_str(), "23505") {
                return api_error(Status::Conflict, "用户名或邮箱已存在");
            }
        },
        None => {},
    }
    ApiError { status: Status::InternalServerError, message: detail }
}

/// The administrator account ensured at start-up.
#[derive(Debug)]
pub struct AdminSeed {
    pub username: String,
    pub password: String,
    pub email: Option<String>,
    pub real_name: String,
    /// Whether the built-in password is used because none was configured.
    pub default_password: bool,
}

/// The seeded administrator from the configured values: user name `admin`,
/// password `admin123` (when none or a blank one is configured) and name
/// `系统管理员` unless configured; the e-mail only when configured.
pub fn admin_seed(
    username: Option<String>,
    password: Option<String>,
    email: Option<String>,
    real_name: Option<String>,
) -> (r: AdminSeed)
    ensures
        r.username@ == (match username {
            Some(u) => u@,
            None => "admin"@,
        }),
        (password matches Some(p) && trimmed(p@).len() > 0) ==> r.password@ == password.unwrap()@
            && !r.default_password,
        !(password matches Some(p) && trimmed(p@).len() > 0) ==> r.password@ == "admin123"@
            && r.default_password,
        r.email == email,
        r.real_name@ == (match real_name {
            Some(n) => n@,
            None => "系统管理员"@,
        }),
{
    let name = match username {
        Some(u) => u,
        None => String::from_str("admin"),
    };
    let (pw, default_password) = match password {
        Some(p) => {
            let t = trim(p.as_str());
            if t.as_str().is_empty() {
                (String::from_str("admin123"), true)
            } else {
                (p, false)
            }
        },
        None => (String::from_str("admin123"), true),
    };
    let display_name = match real_name {
        Some(n) => n,
        None => String::from_str("系统管理员"),
    };
    AdminSeed { username: name, password: pw, email, real_name: display_name, default_password }
}

/// The seeded administrator's account, to be created when no account with its
/// user name exists yet (`None` when one does).
pub fn admin_account(seed: AdminSeed, exists: bool) -> (r: Option<Result<NewAccount, ApiError>>)
    ensures
        exists ==> r is None,
        !exists ==> r is Some,
        r matches Some(Ok(a)) ==> a.role == UserRole::Admin && a.username@ == seed.username@
            && a.email == seed.email && (a.real_name matches Some(n) && n@ == seed.real_name@)
            && password_matches(a.password_hash@, seed.password@),
        r matches Some(Err(e)) ==> e.status == Status::InternalServerError,
        admin_outcome(seed, exists, r),
{
    if exists {
        return None;
    }
    match hash_new_password(seed.password.as_str()) {
        Ok(h) => Some(
            Ok(
                NewAccount {
                    username: seed.username,
                    email: seed.email,
                    password_hash: h,
                    role: UserRole::Admin,
                    real_name: Some(seed.real_name),
                },
            ),
        ),
        Err(e) => Some(Err(e)),
    }
}

} // verus!
