use microcourse::auth::{
    account_insert_error, active_account, admin_account, admin_seed, authenticate, bearer_token,
    create_account, hash_new_password, login_lookup, new_account_check, optional_bearer_token,
    password_outcome, register_account, role_check, sign_in_account, AccountRecord, CreateUser,
    HeaderText, LoginLookup, LoginRequest, RegisterRequest,
};
use microcourse::model::{AllowedRoles, AuthContext, Status, UserRole};

fn text(s: &str) -> HeaderText {
    HeaderText::Text(s.to_string())
}

#[test]
fn bearer_token_cases() {
    let e = bearer_token(&HeaderText::Absent).unwrap_err();
    assert_eq!((e.status, e.message.as_str()), (Status::Unauthorized, "缺少 Authorization 头"));
    let e = bearer_token(&HeaderText::Unreadable).unwrap_err();
    assert_eq!(e.message, "Authorization 头格式无效");
    let e = bearer_token(&text("Basic abc")).unwrap_err();
    assert_eq!(e.message, "Authorization 必须是 Bearer Token");
    let e = bearer_token(&text("Bearer ")).unwrap_err();
    assert_eq!(e.message, "Token 不能为空");
    assert_eq!(bearer_token(&text("Bearer abc.def")).unwrap(), "abc.def");
    assert_eq!(bearer_token(&text("Bearer  x ")).unwrap(), " x ");
    assert!(bearer_token(&text("bearer abc")).is_err());
}

#[test]
fn optional_bearer_cases() {
    assert_eq!(optional_bearer_token(&HeaderText::Absent), None);
    assert_eq!(optional_bearer_token(&HeaderText::Unreadable), None);
    assert_eq!(optional_bearer_token(&text("Token x")), None);
    assert_eq!(optional_bearer_token(&text("Bearer    ")), None);
    assert_eq!(optional_bearer_token(&text("Bearer  tok ")), Some("tok".to_string()));
}

#[test]
fn disabled_accounts_are_refused() {
    assert!(active_account(true).is_ok());
    let e = active_account(false).unwrap_err();
    assert_eq!((e.status, e.message.as_str()), (Status::Unauthorized, "账号已被禁用"));
}

#[test]
fn role_check_cases() {
    let teacher = AuthContext { user_id: 7, role: UserRole::Teacher };
    let staff = Some(AllowedRoles::new(vec![UserRole::Teacher, UserRole::Admin]));
    assert!(role_check(&staff, &Some(teacher)).is_ok());
    let e = role_check(&staff, &Some(AuthContext { user_id: 8, role: UserRole::Student })).unwrap_err();
    assert_eq!((e.status, e.message.as_str()), (Status::Forbidden, "无权限访问该资源"));
    let e = role_check(&staff, &None).unwrap_err();
    assert_eq!((e.status, e.message.as_str()), (Status::Unauthorized, "未认证用户"));
    let e = role_check(&None, &Some(teacher)).unwrap_err();
    assert_eq!(e.status, Status::InternalServerError);
    assert_eq!(e.message, "路由未声明允许角色集合");
}

fn login(username: Option<&str>, email: Option<&str>, password: &str) -> LoginRequest {
    LoginRequest {
        username: username.map(String::from),
        email: email.map(String::from),
        password: password.to_string(),
    }
}

#[test]
fn login_lookup_cases() {
    let e = login_lookup(&login(Some("a"), None, "  ")).unwrap_err();
    assert_eq!((e.status, e.message.as_str()), (Status::BadRequest, "密码不能为空"));
    let e = login_lookup(&login(Some(" "), Some("a@b"), "pw")).unwrap_err();
    assert_eq!(e.message, "用户名不能为空");
    let e = login_lookup(&login(None, Some(" "), "pw")).unwrap_err();
    assert_eq!(e.message, "邮箱不能为空");
    let e = login_lookup(&login(None, None, "pw")).unwrap_err();
    assert_eq!(e.message, "请提供 username 或 email");
    match login_lookup(&login(Some(" alice "), Some("x@y"), "pw")).unwrap() {
        LoginLookup::ByUsername(u) => assert_eq!(u, "alice"),
        _ => panic!("expected a lookup by user name"),
    }
    match login_lookup(&login(None, Some(" x@y "), "pw")).unwrap() {
        LoginLookup::ByEmail(m) => assert_eq!(m, "x@y"),
        _ => panic!("expected a lookup by e-mail"),
    }
}

fn account(hash: String, active: bool) -> AccountRecord {
    AccountRecord {
        id: 1,
        username: "alice".to_string(),
        email: None,
        password_hash: hash,
        role: UserRole::Student,
        real_name: None,
        avatar_url: None,
        is_active: active,
        password_reset_required: false,
    }
}

#[test]
fn created_password_signs_in() {
    let hash = hash_new_password("secret1").unwrap();
    assert_ne!(hash, "secret1");
    let ok = authenticate(&login(Some("alice"), None, " secret1 "), Some(account(hash.clone(), true)));
    assert_eq!(ok.unwrap().username, "alice");
    let e = authenticate(&login(Some("alice"), None, "secret2"), Some(account(hash.clone(), true)))
        .unwrap_err();
    assert_eq!((e.status, e.message.as_str()), (Status::Unauthorized, "账号或密码错误"));
    let e = authenticate(&login(Some("alice"), None, "secret1"), Some(account(hash, false))).unwrap_err();
    assert_eq!(e.message, "账号已被禁用");
    let e = authenticate(&login(Some("bob"), None, "secret1"), None).unwrap_err();
    assert_eq!(e.message, "账号或密码错误");
}

#[test]
fn password_with_spaces_does_not_sign_in() {
    let hash = hash_new_password(" secret1 ").unwrap();
    let e = authenticate(&login(Some("alice"), None, " secret1 "), Some(account(hash, true))).unwrap_err();
    assert_eq!(e.status, Status::Unauthorized);
}

#[test]
fn malformed_hash_never_verifies() {
    let e = authenticate(&login(Some("a"), None, "x"), Some(account("not-a-hash".to_string(), true)))
        .unwrap_err();
    assert_eq!(e.message, "账号或密码错误");
}

#[test]
fn sign_in_account_cases() {
    assert!(sign_in_account(None).is_err());
    assert!(sign_in_account(Some(account("h".to_string(), false))).is_err());
    assert!(sign_in_account(Some(account("h".to_string(), true))).is_ok());
    assert!(password_outcome(true).is_ok());
    assert!(password_outcome(false).is_err());
}

#[test]
fn new_account_rules() {
    let e = new_account_check("  ", "secret1").unwrap_err();
    assert_eq!((e.status, e.message.as_str()), (Status::BadRequest, "用户名不能为空"));
    let e = new_account_check("bob", "12345").unwrap_err();
    assert_eq!(e.message, "密码长度不能少于 6 位");
    assert!(new_account_check("bob", "123456").is_ok());
    assert!(new_account_check("bob", "密码").is_ok());
    assert!(new_account_check("bob", "密a").is_err());
}

#[test]
fn registration_makes_a_student() {
    let acc = register_account(RegisterRequest {
        username: "carol".to_string(),
        email: Some("c@x".to_string()),
        password: "hunter22".to_string(),
        real_name: None,
    })
    .unwrap();
    assert_eq!(acc.role, UserRole::Student);
    assert_eq!(acc.username, "carol");
    let ok = authenticate(&login(Some("carol"), None, "hunter22"), Some(account(acc.password_hash, true)));
    assert!(ok.is_ok());
}

#[test]
fn administrator_creates_any_role() {
    let acc = create_account(CreateUser {
        username: "dave".to_string(),
        email: None,
        password: "hunter22".to_string(),
        role: UserRole::Teacher,
        real_name: Some("Dave".to_string()),
    })
    .unwrap();
    assert_eq!(acc.role, UserRole::Teacher);
    let e = create_account(CreateUser {
        username: "dave".to_string(),
        email: None,
        password: "short".to_string(),
        role: UserRole::Teacher,
        real_name: None,
    })
    .unwrap_err();
    assert_eq!(e.status, Status::BadRequest);
}

#[test]
fn duplicate_account_is_a_conflict() {
    let e = account_insert_error(&Some("23505".to_string()), "dup".to_string());
    assert_eq!((e.status, e.message.as_str()), (Status::Conflict, "用户名或邮箱已存在"));
    assert_eq!(e.status.code(), 409);
    let e = account_insert_error(&Some("23503".to_string()), "fk".to_string());
    assert_eq!((e.status, e.message.as_str()), (Status::InternalServerError, "fk"));
    let e = account_insert_error(&None, "io".to_string());
    assert_eq!(e.status, Status::InternalServerError);
}

#[test]
fn admin_seed_defaults() {
    let s = admin_seed(None, None, None, None);
    assert_eq!((s.username.as_str(), s.password.as_str(), s.real_name.as_str()), ("admin", "admin123", "系统管理员"));
    assert!(s.default_password);
    assert_eq!(s.email, None);
    let s = admin_seed(Some("root".into()), Some("   ".into()), Some("r@x".into()), Some("Root".into()));
    assert_eq!(s.password, "admin123");
    assert!(s.default_password);
    let s = admin_seed(None, Some("Str0ng!".into()), None, None);
    assert_eq!(s.password, "Str0ng!");
    assert!(!s.default_password);
}

#[test]
fn admin_account_only_when_missing() {
    assert!(admin_account(admin_seed(None, None, None, None), true).is_none());
    let acc = admin_account(admin_seed(None, None, None, None), false).unwrap().unwrap();
    assert_eq!(acc.role, UserRole::Admin);
    assert_eq!(acc.real_name.as_deref(), Some("系统管理员"));
    assert!(authenticate(&login(Some("admin"), None, "admin123"), Some(account(acc.password_hash, true))).is_ok());
}
