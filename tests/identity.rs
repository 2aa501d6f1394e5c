use bank_api::account::{callback_code, create_user, exchange_token, ExchangeError, SignupError};
use bank_api::config::{Config, CryptoService, Params};
use bank_api::error::AppErrorKind;
use bank_api::gate::{auth, authenticate, me, AuthenticatedUser};
use bank_api::oauth::{access_token_from_reply, encoded_url, token_request_form, AuthRequest};
use bank_api::token::{check_claims, TokenError, TOKEN_TTL_SECS};
use bank_api::sync::{plan_transactions, SyncStep};
use bank_api::trans::TransRepository;
use bank_api::users::{CreateError, InvalidField, NewUser, UserRepository};
use std::sync::Arc;

const NOW: i64 = 1_700_000_000;
const SALT: [u8; 16] = [7u8; 16];

fn config() -> Config {
    Config {
        host: "127.0.0.1".to_string(),
        port: 8080,
        database_url: "postgres://localhost/bank".to_string(),
        secret_key: "pepper".to_string(),
        jwt_secret: "jwt-secret".to_string(),
        client_id: "sandbox-client".to_string(),
        client_secret: "client-secret".to_string(),
        token_uri: "https://auth.example/connect/token".to_string(),
        redirect_uri: "http://localhost:8080/callback".to_string(),
        auth_uri: "https://auth.example".to_string(),
        api_uri: "https://api.example".to_string(),
    }
}

fn new_user(username: &str, password: &str, email: &str) -> NewUser {
    NewUser {
        username: username.to_string(),
        password: password.to_string(),
        email: email.to_string(),
    }
}

#[test]
fn params_and_hashing_copy_config() {
    let c = config();
    let p = c.params();
    assert_eq!(*p.client_id, "sandbox-client");
    assert_eq!(*p.client_secret, "client-secret");
    assert_eq!(*p.token_uri, "https://auth.example/connect/token");
    assert_eq!(*p.redirect_uri, "http://localhost:8080/callback");
    assert_eq!(*p.auth_uri, "https://auth.example");
    assert_eq!(*p.api_uri, "https://api.example");
    let h = c.hashing();
    assert_eq!(*h.key, "pepper");
    assert_eq!(*h.jwt_secret, "jwt-secret");
}

#[test]
fn authorization_url_is_exact_and_stable() {
    let p = config().params();
    let expected = "https://auth.example/?response_type=code&client_id=sandbox-client&scope=info%20accounts%20balance%20cards%20transactions%20direct_debits%20standing_orders%20offline_access&redirect_uri=http://localhost:8080/callback&providers=uk-ob-all%20uk-oauth-all%20uk-cs-mock";
    assert_eq!(encoded_url(&p), expected);
    assert_eq!(encoded_url(&p), encoded_url(&p.clone()));
}

#[test]
fn token_form_fields_in_order() {
    let p = config().params();
    let form = token_request_form(&p, "abc");
    let pairs: Vec<(&str, &str)> = form.iter().map(|(k, v)| (k.as_str(), v.as_str())).collect();
    assert_eq!(
        pairs,
        vec![
            ("grant_type", "authorization_code"),
            ("client_id", "sandbox-client"),
            ("client_secret", "client-secret"),
            ("redirect_uri", "http://localhost:8080/callback"),
            ("code", "abc"),
        ]
    );
}

#[test]
fn token_reply_parsing() {
    let ok = access_token_from_reply(200, "{\"access_token\":\"tok-1\",\"expires_in\":3600}");
    assert_eq!(ok.unwrap().access_token, "tok-1");
    let refused = access_token_from_reply(400, "{\"error\":\"invalid_grant\"}").unwrap_err();
    assert_eq!(refused.status, 400);
    assert_eq!(refused.body, "{\"error\":\"invalid_grant\"}");
    assert!(access_token_from_reply(200, "{\"token\":\"x\"}").is_err());
    assert!(access_token_from_reply(200, "not json").is_err());
}

#[test]
fn password_round_trip() {
    let c = config().hashing();
    let h = c.hash_password("secret123", &SALT).unwrap();
    assert_ne!(h, "secret123");
    assert!(h.starts_with("$argon2id$"));
    assert!(c.check_password("secret123", &h));
    assert!(!c.check_password("secret124", &h));
    assert!(!c.check_password("", &h));
    assert!(!c.check_password("secret123", "not a hash"));
    let other = CryptoService { key: Arc::new("other".to_string()), jwt_secret: c.jwt_secret.clone() };
    assert!(!other.check_password("secret123", &h));
}

#[test]
fn password_round_trip_printable_ascii() {
    let c = config().hashing();
    for p in ["abc", "~!@#$%^&*()_+", "a b c", "Z"] {
        let h = c.hash_password(p, &SALT).unwrap();
        assert!(c.check_password(p, &h));
        assert!(!c.check_password(&format!("{}x", p), &h));
    }
}

fn id_text(id: u128) -> String {
    uuid::Uuid::from_u128(id).to_string()
}

#[test]
fn token_subject_is_hyphenated_uuid() {
    let c = config().hashing();
    let id: u128 = 0x67e5_5044_10b1_426f_9247_bb68_0e5f_e0c8;
    let t = c.generate_jwt(id, NOW).unwrap();
    assert_eq!(c.check_jwt(&t, NOW), Ok("67e55044-10b1-426f-9247-bb680e5fe0c8".to_string()));
}

#[test]
fn bearer_token_lifetime() {
    let c = config().hashing();
    let id: u128 = 42;
    let t = c.generate_jwt(id, NOW).unwrap();
    assert_eq!(c.check_jwt(&t, NOW), Ok(id_text(id)));
    assert_eq!(c.check_jwt(&t, NOW + TOKEN_TTL_SECS), Ok(id_text(id)));
    assert_eq!(c.check_jwt(&t, NOW + TOKEN_TTL_SECS + 1), Err(TokenError::Expired));
    let forged = CryptoService { key: c.key.clone(), jwt_secret: Arc::new("another".to_string()) };
    assert_eq!(forged.check_jwt(&t, NOW), Err(TokenError::InvalidSignature));
    assert_eq!(c.check_jwt("garbage", NOW), Err(TokenError::Malformed));
}

#[test]
fn claims_verdicts() {
    assert_eq!(check_claims(Ok(("u".to_string(), 10)), 10), Ok("u".to_string()));
    assert_eq!(check_claims(Ok(("u".to_string(), 10)), 11), Err(TokenError::Expired));
    assert_eq!(check_claims(Err(TokenError::InvalidSignature), 0), Err(TokenError::InvalidSignature));
}

#[test]
fn signup_validation_errors() {
    let mut repo = UserRepository::new();
    let c = config().hashing();
    let r = create_user(&mut repo, &c, new_user("al", "secret123", "a@b.com"), 1, &SALT, NOW);
    assert_eq!(r.unwrap_err(), SignupError::Invalid(InvalidField::Username));
    let r = create_user(&mut repo, &c, new_user("alice", "secret123", "not-an-email"), 1, &SALT, NOW);
    assert_eq!(r.unwrap_err(), SignupError::Invalid(InvalidField::Email));
    let r = create_user(&mut repo, &c, new_user("alice", "pw", "a@b.com"), 1, &SALT, NOW);
    assert_eq!(r.unwrap_err(), SignupError::Invalid(InvalidField::Password));
    assert_eq!(SignupError::Invalid(InvalidField::Password).kind(), AppErrorKind::InvalidInput);
    assert_eq!(SignupError::HashFailed.kind(), AppErrorKind::InternalError);
    assert!(repo.find_by_id(1).is_none());
}

#[test]
fn signup_succeeds_once() {
    let mut repo = UserRepository::new();
    let c = config().hashing();
    let u = create_user(&mut repo, &c, new_user("alice123", "secret123", "a@b.com"), 1, &SALT, NOW).unwrap();
    assert_eq!(u.id, 1);
    assert_eq!(u.username, "alice123");
    assert!(u.active && u.code.is_none() && u.access_token.is_none());
    assert!(c.check_password("secret123", &u.password_hash));
    let same_email = create_user(&mut repo, &c, new_user("bob123", "secret123", "a@b.com"), 2, &SALT, NOW);
    assert_eq!(same_email.unwrap_err(), SignupError::Taken(CreateError::EmailTaken));
    let same_name = create_user(&mut repo, &c, new_user("alice123", "secret123", "b@b.com"), 2, &SALT, NOW);
    assert_eq!(same_name.unwrap_err(), SignupError::Taken(CreateError::UsernameTaken));
    let both = create_user(&mut repo, &c, new_user("alice123", "secret123", "a@b.com"), 2, &SALT, NOW);
    assert_eq!(both.unwrap_err(), SignupError::Taken(CreateError::UsernameOrEmailTaken));
    let same_id = create_user(&mut repo, &c, new_user("carol1", "secret123", "c@b.com"), 1, &SALT, NOW);
    assert_eq!(same_id.unwrap_err(), SignupError::Taken(CreateError::IdTaken));
    assert!(create_user(&mut repo, &c, new_user("carol1", "secret123", "c@b.com"), 3, &SALT, NOW).is_ok());
}

#[test]
fn login_and_gate() {
    let cfg = config();
    let c = cfg.hashing();
    let p: Params = cfg.params();
    let mut repo = UserRepository::new();
    create_user(&mut repo, &c, new_user("alice123", "secret123", "a@b.com"), 9, &SALT, NOW).unwrap();
    let a = auth(&repo, &c, &p, "alice123", Some("secret123"), NOW).unwrap();
    assert!(a.url.contains("client_id=sandbox-client"));
    assert_eq!(a.url, encoded_url(&p));
    let who = authenticate(&c, &repo, Some(&a.token), NOW).unwrap();
    assert_eq!(who.0, 9);
    let record = me(who, &repo).unwrap();
    assert_eq!(record.email, "a@b.com");
    assert_eq!(auth(&repo, &c, &p, "alice123", Some("wrong"), NOW).unwrap_err(), AppErrorKind::InvalidCredentials);
    assert_eq!(auth(&repo, &c, &p, "nobody", Some("secret123"), NOW).unwrap_err(), AppErrorKind::InvalidCredentials);
    assert_eq!(auth(&repo, &c, &p, "alice123", None, NOW).unwrap_err(), AppErrorKind::InvalidCredentials);
    assert_eq!(authenticate(&c, &repo, None, NOW).unwrap_err(), AppErrorKind::NotAuthorized);
    assert_eq!(authenticate(&c, &repo, Some(&a.token), NOW + TOKEN_TTL_SECS + 1).unwrap_err(), AppErrorKind::NotAuthorized);
    let stranger = c.generate_jwt(77, NOW).unwrap();
    assert_eq!(authenticate(&c, &repo, Some(&stranger), NOW).unwrap_err(), AppErrorKind::NotAuthorized);
    assert_eq!(me(AuthenticatedUser(77), &repo).unwrap_err(), AppErrorKind::InternalError);
}

#[test]
fn signup_login_me_scenario() {
    let cfg = config();
    let c = cfg.hashing();
    let p = cfg.params();
    let mut repo = UserRepository::new();
    let created = create_user(&mut repo, &c, new_user("alice123", "secret123", "a@b.com"), 11, &SALT, NOW).unwrap();
    assert_eq!(created.id, 11);
    let a = auth(&repo, &c, &p, "alice123", Some("secret123"), NOW).unwrap();
    assert!(a.url.contains("client_id=sandbox-client"));
    let who = authenticate(&c, &repo, Some(&a.token), NOW + 5).unwrap();
    let mine = me(who, &repo).unwrap();
    assert_eq!(mine.id, created.id);
    assert_eq!(mine.username, "alice123");
    assert_eq!(mine.email, "a@b.com");
    let cache = TransRepository::new();
    match plan_transactions(&repo, &cache, who.0) {
        SyncStep::Fail(k) => assert_eq!(k, AppErrorKind::InternalError),
        other => panic!("no upstream call may be planned without a token, got {:?}", other),
    }
}

#[test]
fn callback_stores_code_then_token() {
    let c = config().hashing();
    let mut repo = UserRepository::new();
    create_user(&mut repo, &c, new_user("alice123", "secret123", "a@b.com"), 5, &SALT, NOW).unwrap();
    let info = AuthRequest { code: "code-1".to_string() };
    let u = callback_code(&mut repo, 5, &info, NOW + 1).unwrap();
    assert_eq!(u.code.as_deref(), Some("code-1"));
    assert_eq!(u.updated_at, NOW + 1);
    assert_eq!(callback_code(&mut repo, 6, &info, NOW).unwrap_err(), AppErrorKind::NotAuthorized);
    let refused = exchange_token(&mut repo, 5, 401, "{\"error\":\"denied\"}", NOW).unwrap_err();
    assert_eq!(refused.kind(), AppErrorKind::UpstreamExchangeFailed);
    match refused {
        ExchangeError::Refused(f) => {
            assert_eq!(f.status, 401);
            assert_eq!(f.body, "{\"error\":\"denied\"}");
        }
        other => panic!("expected a refusal, got {:?}", other),
    }
    assert!(repo.get_token(5).is_none());
    let u = exchange_token(&mut repo, 5, 200, "{\"access_token\":\"tok-9\"}", NOW + 2).unwrap();
    assert_eq!(u.access_token.as_deref(), Some("tok-9"));
    assert_eq!(u.code.as_deref(), Some("code-1"));
    assert_eq!(repo.get_token(5).unwrap().access_token, "tok-9");
    let unknown = exchange_token(&mut repo, 8, 200, "{\"access_token\":\"t\"}", NOW).unwrap_err();
    assert!(matches!(unknown, ExchangeError::UnknownUser));
    assert_eq!(unknown.kind(), AppErrorKind::NotAuthorized);
}

#[test]
fn error_statuses() {
    assert_eq!(AppErrorKind::InvalidInput.status(), 400);
    assert_eq!(AppErrorKind::InvalidCredentials.status(), 401);
    assert_eq!(AppErrorKind::NotAuthorized.status(), 401);
    assert_eq!(AppErrorKind::UpstreamExchangeFailed.status(), 502);
    assert_eq!(AppErrorKind::InternalError.status(), 500);
}
