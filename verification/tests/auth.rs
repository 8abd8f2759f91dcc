use photo_gallery::auth::{
    bcrypt_cost, bearer_token, login_accepted, AdminCredentials, Claims, Config, LoginRequest,
    LoginResponse, SESSION_SECONDS,
};

#[test]
fn the_work_factor_depends_on_the_environment() {
    assert_eq!(bcrypt_cost("production"), 12);
    assert_eq!(bcrypt_cost("development"), 4);
    assert_eq!(bcrypt_cost("staging"), 10);
    assert_eq!(bcrypt_cost(""), 10);
    assert_eq!(bcrypt_cost("Production"), 10);
}

#[test]
fn the_token_follows_the_word_bearer() {
    assert_eq!(bearer_token("Bearer abc.def"), Some("abc.def".to_string()));
    assert_eq!(bearer_token("Bearer "), Some(String::new()));
    assert_eq!(bearer_token("Bearer  x"), Some(" x".to_string()));
    assert_eq!(bearer_token("bearer abc"), None);
    assert_eq!(bearer_token("Bearer"), None);
    assert_eq!(bearer_token(""), None);
    assert_eq!(bearer_token("Basic abc"), None);
    assert_eq!(bearer_token("BearerX abc"), None);
}

#[test]
fn a_login_needs_the_name_and_the_password() {
    let admin = AdminCredentials { username: "admin".to_string(), password_hash: "h".to_string() };
    let config = Config { jwt_secret: "s".to_string(), admin_credentials: admin.clone() };
    assert_eq!(config.admin_credentials.username, "admin");
    let good = LoginRequest { username: "admin".to_string(), password: "p".to_string() };
    let other = LoginRequest { username: "root".to_string(), password: "p".to_string() };
    assert!(login_accepted(&good, &admin, true));
    assert!(!login_accepted(&good, &admin, false));
    assert!(!login_accepted(&other, &admin, true));
    assert!(!login_accepted(&other, &admin, false));
    let response = LoginResponse { token: "t".to_string() };
    assert_eq!(response.token, "t");
}

#[test]
fn a_session_lasts_an_hour() {
    assert_eq!(SESSION_SECONDS, 3600);
    let claims = Claims::for_session("admin".to_string(), 1_700_000_000, SESSION_SECONDS);
    assert_eq!(claims.sub, "admin");
    assert_eq!(claims.exp, 1_700_003_600);
    let late = Claims::for_session("admin".to_string(), u64::MAX, 10);
    assert_eq!(late.exp, usize::MAX);
}
