use appserv::errors::Error;
use appserv::proto::{SignInReq, SignUpReq};
use appserv::repo::MemRepo;
use appserv::service;
use appserv::verify_store::VerifyStore;

fn addr(local: &str) -> String {
    [local, "example.com"].join("\u{40}")
}

fn fresh() -> (VerifyStore, MemRepo) {
    let store = VerifyStore::new();
    let mut repo = MemRepo::new(15 * 86_400_000, 3_600_000);
    repo.add_product("radio".to_string(), "a radio app".to_string(), 1)
        .unwrap();
    (store, repo)
}

fn register(
    store: &mut VerifyStore,
    repo: &mut MemRepo,
    key: &str,
    email: &str,
    passwd: &str,
    now: i64,
) -> Result<appserv::model::User, Error> {
    let key = key.to_string();
    store.put_captcha(key.clone(), "AbC1".to_string(), now);
    let code = service::send_email_code(
        store,
        &key,
        &appserv::proto::SendEmailCodeReq {
            email: email.to_string(),
            captcha: "aBc1".to_string(),
        },
        now,
    )?;
    service::signup(
        store,
        repo,
        &key,
        &SignUpReq {
            product: "radio".to_string(),
            email: email.to_string(),
            passwd: passwd.to_string(),
            captcha: "ABC1".to_string(),
            code,
        },
        now,
    )
}

fn signin_req(email: &str, passwd: &str) -> SignInReq {
    SignInReq {
        product: "radio".to_string(),
        email: email.to_string(),
        passwd: passwd.to_string(),
        captcha: "x".to_string(),
        product_open_flag: false,
    }
}

#[test]
fn signup_then_signin_succeeds() {
    let (mut store, mut repo) = fresh();
    let user = register(&mut store, &mut repo, "k1", &addr("foo"), "secret1", 1000).unwrap();
    assert_eq!(user.email, addr("foo"));
    assert_eq!(user.user_name, "foo");
    let (u, p, s) = repo
        .signin_user(&signin_req(&addr("foo"), "secret1"), 2000)
        .unwrap();
    assert_eq!(u.email, addr("foo"));
    assert_eq!(p.product, "radio");
    assert_eq!(s.user_id, u.id.unwrap());
    assert_eq!(s.product_id, p.id.unwrap());
}

#[test]
fn duplicate_email_is_rejected_without_change() {
    let (mut store, mut repo) = fresh();
    register(&mut store, &mut repo, "k1", &addr("foo"), "secret1", 1000).unwrap();
    let users_before = repo.users.len();
    let r = register(&mut store, &mut repo, "k2", &addr("foo"), "other77", 2000);
    assert!(matches!(r, Err(Error::UserExists(_))));
    assert_eq!(repo.users.len(), users_before);
}

#[test]
fn wrong_password_creates_no_session() {
    let (mut store, mut repo) = fresh();
    register(&mut store, &mut repo, "k1", &addr("foo"), "secret1", 1000).unwrap();
    let r = repo.signin_user(&signin_req(&addr("foo"), "wrongpw"), 2000);
    assert!(matches!(r, Err(Error::UserPasswdError)));
    assert_eq!(repo.sessions.len(), 0);
}

#[test]
fn unknown_email_fails_signin() {
    let (_store, mut repo) = fresh();
    let r = repo.signin_user(&signin_req(&addr("foo"), "secret1"), 2000);
    assert!(matches!(r, Err(Error::UserNotExists)));
}

#[test]
fn unknown_product_fails_signup() {
    let (mut store, mut repo) = fresh();
    let key = "k1".to_string();
    store.put_captcha(key.clone(), "AbC1".to_string(), 1000);
    let code = service::send_email_code(
        &mut store,
        &key,
        &appserv::proto::SendEmailCodeReq {
            email: addr("foo"),
            captcha: "abc1".to_string(),
        },
        1000,
    )
    .unwrap();
    let r = service::signup(
        &mut store,
        &mut repo,
        &key,
        &SignUpReq {
            product: "nosuch".to_string(),
            email: addr("foo"),
            passwd: "secret1".to_string(),
            captcha: "abc1".to_string(),
            code,
        },
        1000,
    );
    assert!(matches!(r, Err(Error::ProductNotExists)));
}

#[test]
fn product_not_open_without_flag() {
    let (mut store, mut repo) = fresh();
    repo.add_product("tv".to_string(), "a tv app".to_string(), 1)
        .unwrap();
    register(&mut store, &mut repo, "k1", &addr("foo"), "secret1", 1000).unwrap();
    let mut req = signin_req(&addr("foo"), "secret1");
    req.product = "tv".to_string();
    let r = repo.signin_user(&req, 2000);
    assert!(matches!(r, Err(Error::ProductNotOpen)));
}

#[test]
fn lazy_provisioning_with_flag() {
    let (mut store, mut repo) = fresh();
    repo.add_product("tv".to_string(), "a tv app".to_string(), 1)
        .unwrap();
    register(&mut store, &mut repo, "k1", &addr("foo"), "secret1", 1000).unwrap();
    let memberships_before = repo.memberships.len();
    let mut req = signin_req(&addr("foo"), "secret1");
    req.product = "tv".to_string();
    req.product_open_flag = true;
    let (_u, p, _s) = repo.signin_user(&req, 2000).unwrap();
    assert_eq!(p.product, "tv");
    assert_eq!(repo.memberships.len(), memberships_before + 1);
}

#[test]
fn wrong_captcha_fails_signup() {
    let (mut store, mut repo) = fresh();
    let key = "k1".to_string();
    store.put_captcha(key.clone(), "AbC1".to_string(), 1000);
    let code = service::send_email_code(
        &mut store,
        &key,
        &appserv::proto::SendEmailCodeReq {
            email: addr("foo"),
            captcha: "abc1".to_string(),
        },
        1000,
    )
    .unwrap();
    let r = service::signup(
        &mut store,
        &mut repo,
        &key,
        &SignUpReq {
            product: "radio".to_string(),
            email: addr("foo"),
            passwd: "secret1".to_string(),
            captcha: "zzzz".to_string(),
            code,
        },
        1000,
    );
    assert!(matches!(r, Err(Error::Captcha)));
}

#[test]
fn wrong_code_fails_signup() {
    let (mut store, mut repo) = fresh();
    let key = "k1".to_string();
    store.put_captcha(key.clone(), "AbC1".to_string(), 1000);
    service::send_email_code(
        &mut store,
        &key,
        &appserv::proto::SendEmailCodeReq {
            email: addr("foo"),
            captcha: "abc1".to_string(),
        },
        1000,
    )
    .unwrap();
    let r = service::signup(
        &mut store,
        &mut repo,
        &key,
        &SignUpReq {
            product: "radio".to_string(),
            email: addr("foo"),
            passwd: "secret1".to_string(),
            captcha: "abc1".to_string(),
            code: "no-digits".to_string(),
        },
        1000,
    );
    assert!(matches!(r, Err(Error::EmailVerifyCode)));
}

#[test]
fn differing_email_fails_signup() {
    let (mut store, mut repo) = fresh();
    let key = "k1".to_string();
    store.put_captcha(key.clone(), "AbC1".to_string(), 1000);
    let code = service::send_email_code(
        &mut store,
        &key,
        &appserv::proto::SendEmailCodeReq {
            email: addr("foo"),
            captcha: "abc1".to_string(),
        },
        1000,
    )
    .unwrap();
    let r = service::signup(
        &mut store,
        &mut repo,
        &key,
        &SignUpReq {
            product: "radio".to_string(),
            email: addr("bar"),
            passwd: "secret1".to_string(),
            captcha: "abc1".to_string(),
            code,
        },
        1000,
    );
    assert!(matches!(r, Err(Error::EmailDiff)));
}

#[test]
fn short_password_fails_signup() {
    let (mut store, mut repo) = fresh();
    let r = register(&mut store, &mut repo, "k1", &addr("foo"), "abc", 1000);
    assert!(matches!(r, Err(Error::UserPasswordTooShort)));
}

#[test]
fn malformed_email_fails_signup() {
    let (mut store, mut repo) = fresh();
    let r = register(&mut store, &mut repo, "k1", "not-an-email", "secret1", 1000);
    assert!(matches!(r, Err(Error::ParseEmail)));
}

#[test]
fn frequent_resend_is_rejected() {
    let (mut store, _repo) = fresh();
    let key = "k1".to_string();
    store.put_captcha(key.clone(), "AbC1".to_string(), 1000);
    let req = appserv::proto::SendEmailCodeReq {
        email: addr("foo"),
        captcha: "abc1".to_string(),
    };
    service::send_email_code(&mut store, &key, &req, 1000).unwrap();
    let r = service::send_email_code(&mut store, &key, &req, 30_000);
    assert!(matches!(r, Err(Error::Frequent)));
    let r = service::send_email_code(&mut store, &key, &req, 62_000);
    assert!(r.is_ok());
}

#[test]
fn reset_passwd_changes_credentials() {
    let (mut store, mut repo) = fresh();
    register(&mut store, &mut repo, "k1", &addr("foo"), "secret1", 1000).unwrap();
    let key = "k2".to_string();
    store.put_captcha(key.clone(), "Qq12".to_string(), 5000);
    let code = service::send_email_code(
        &mut store,
        &key,
        &appserv::proto::SendEmailCodeReq {
            email: addr("foo"),
            captcha: "qq12".to_string(),
        },
        5000,
    )
    .unwrap();
    service::reset_passwd(
        &mut store,
        &mut repo,
        &key,
        &appserv::proto::ResetPasswdReq {
            email: addr("foo"),
            passwd: "fresh99".to_string(),
            captcha: "QQ12".to_string(),
            code,
        },
        6000,
    )
    .unwrap();
    assert!(matches!(
        repo.signin_user(&signin_req(&addr("foo"), "secret1"), 7000),
        Err(Error::UserPasswdError)
    ));
    assert!(repo
        .signin_user(&signin_req(&addr("foo"), "fresh99"), 8000)
        .is_ok());
}

#[test]
fn authorize_resolves_bearer_token() {
    let (mut store, mut repo) = fresh();
    register(&mut store, &mut repo, "k1", &addr("foo"), "secret1", 1000).unwrap();
    let (_u, _p, s) = repo
        .signin_user(&signin_req(&addr("foo"), "secret1"), 2000)
        .unwrap();
    let auth = repo.authorize(Some(&s.token), 3000).unwrap();
    assert_eq!(auth.user.email, addr("foo"));
    assert_eq!(auth.product.product, "radio");
    assert_eq!(auth.user_product.user_id, auth.user.id.unwrap());
    assert!(matches!(
        repo.authorize(None, 3000),
        Err(Error::TokenInvalid)
    ));
    assert!(matches!(
        repo.authorize(Some(&"nope".to_string()), 3000),
        Err(Error::TokenInvalid)
    ));
}

#[test]
fn modify_updates_name_and_password() {
    let (mut store, mut repo) = fresh();
    let user = register(&mut store, &mut repo, "k1", &addr("foo"), "secret1", 1000).unwrap();
    let uid = user.id.unwrap();
    let (_u, p, _s) = repo
        .signin_user(&signin_req(&addr("foo"), "secret1"), 2000)
        .unwrap();
    let pid = p.id.unwrap();
    let stored = repo.query_user(uid).unwrap().passwd;
    service::modify_user(
        &mut repo,
        &addr("foo"),
        &stored,
        uid,
        pid,
        appserv::proto::ModifyReq {
            user_name: Some("foo two".to_string()),
            password: None,
            new_password: None,
            avatar_path: Some("ava.png".to_string()),
        },
    )
    .unwrap();
    let u = repo.query_user(uid).unwrap();
    assert_eq!(u.user_name, "foo two");
    let m = repo.query_user_product(uid, pid).unwrap();
    assert_eq!(m.avatar, "ava.png");
    assert!(repo.avatar_in_use(&"ava.png".to_string()));
    assert!(!repo.avatar_in_use(&"other.png".to_string()));
    // a new password must come with the matching current one
    let r = service::modify_user(
        &mut repo,
        &addr("foo"),
        &stored,
        uid,
        pid,
        appserv::proto::ModifyReq {
            user_name: None,
            password: None,
            new_password: Some("fresh99".to_string()),
            avatar_path: None,
        },
    );
    assert!(matches!(r, Err(Error::UserPasswdError)));
}

#[test]
fn password_change_checks_stored_hash() {
    let (mut store, mut repo) = fresh();
    let user = register(&mut store, &mut repo, "k1", &addr("foo"), "secret1", 1000).unwrap();
    let uid = user.id.unwrap();
    let (_u, p, _s) = repo
        .signin_user(&signin_req(&addr("foo"), "secret1"), 2000)
        .unwrap();
    let pid = p.id.unwrap();
    let stored = repo.query_user(uid).unwrap().passwd;
    // a wrong current password is refused, whatever the new one
    let r = service::modify_user(
        &mut repo,
        &addr("foo"),
        &stored,
        uid,
        pid,
        appserv::proto::ModifyReq {
            user_name: None,
            password: Some("wrongpw".to_string()),
            new_password: Some("fresh99".to_string()),
            avatar_path: None,
        },
    );
    assert!(matches!(r, Err(Error::UserPasswdError)));
    assert!(repo
        .signin_user(&signin_req(&addr("foo"), "secret1"), 3000)
        .is_ok());
    // the matching current password lets the change through
    service::modify_user(
        &mut repo,
        &addr("foo"),
        &stored,
        uid,
        pid,
        appserv::proto::ModifyReq {
            user_name: None,
            password: Some("secret1".to_string()),
            new_password: Some("fresh99".to_string()),
            avatar_path: None,
        },
    )
    .unwrap();
    assert!(matches!(
        repo.signin_user(&signin_req(&addr("foo"), "secret1"), 4000),
        Err(Error::UserPasswdError)
    ));
    assert!(repo
        .signin_user(&signin_req(&addr("foo"), "fresh99"), 5000)
        .is_ok());
}

#[test]
fn empty_fields_report_parse_error() {
    let (mut store, mut repo) = fresh();
    let key = "k1".to_string();
    store.put_captcha(key.clone(), "AbC1".to_string(), 1000);
    // registration with an empty email is a Parse failure, code 400
    let r = service::signup(
        &mut store,
        &mut repo,
        &key,
        &SignUpReq {
            product: "radio".to_string(),
            email: String::new(),
            passwd: "secret1".to_string(),
            captcha: "abc1".to_string(),
            code: "123456".to_string(),
        },
        1000,
    );
    match r {
        Err(e @ Error::Parse(_)) => assert_eq!(e.code(), appserv::errors::E_PARSE_REQ),
        other => panic!("expected a Parse failure, got {:?}", other.map(|u| u.email)),
    }
    // and so is a sign-in with an empty password
    let r = service::signin(
        &mut store,
        &mut repo,
        &key,
        &SignInReq {
            product: "radio".to_string(),
            email: addr("foo"),
            passwd: String::new(),
            captcha: "abc1".to_string(),
            product_open_flag: false,
        },
        1000,
    );
    match r {
        Err(e @ Error::Parse(_)) => assert_eq!(e.code(), appserv::errors::E_PARSE_REQ),
        _ => panic!("expected a Parse failure"),
    }
}
