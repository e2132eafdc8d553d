use appserv::errors::Error;
use appserv::proto::{SignInReq, SignUpReq};
use appserv::repo::MemRepo;
use appserv::service;
use appserv::verify_store::VerifyStore;

fn addr(local: &str) -> String {
    [local, "example.com"].join("\u{40}")
}

fn small_windows() -> (VerifyStore, MemRepo) {
    let store = VerifyStore::new();
    // sessions live ten seconds and refresh inside the last nine
    let mut repo = MemRepo::new(10_000, 9_000);
    repo.add_product("radio".to_string(), "a radio app".to_string(), 1)
        .unwrap();
    (store, repo)
}

fn signed_in(store: &mut VerifyStore, repo: &mut MemRepo, now: i64) -> appserv::model::Session {
    let key = "k".to_string();
    store.put_captcha(key.clone(), "AbC1".to_string(), now);
    let code = service::send_email_code(
        store,
        &key,
        &appserv::proto::SendEmailCodeReq {
            email: addr("foo"),
            captcha: "abc1".to_string(),
        },
        now,
    )
    .unwrap();
    service::signup(
        store,
        repo,
        &key,
        &SignUpReq {
            product: "radio".to_string(),
            email: addr("foo"),
            passwd: "secret1".to_string(),
            captcha: "abc1".to_string(),
            code,
        },
        now,
    )
    .unwrap();
    let (_u, _p, s) = repo
        .signin_user(
            &SignInReq {
                product: "radio".to_string(),
                email: addr("foo"),
                passwd: "secret1".to_string(),
                captcha: "x".to_string(),
                product_open_flag: false,
            },
            now,
        )
        .unwrap();
    s
}

#[test]
fn session_refresh_extends_expiry() {
    let (mut store, mut repo) = small_windows();
    let s = signed_in(&mut store, &mut repo, 1000);
    assert_eq!(s.expire, 11_000);
    // at 3000 the remaining life (8000) is inside the refresh window
    let refreshed = repo.get_session(&s.token, 3000).unwrap();
    assert_eq!(refreshed.expire, 13_000);
    assert_eq!(repo.sessions[0].expire, 13_000);
}

#[test]
fn expired_session_is_deleted() {
    let (mut store, mut repo) = small_windows();
    let s = signed_in(&mut store, &mut repo, 1000);
    let r = repo.get_session(&s.token, 20_000);
    assert!(matches!(r, Err(Error::TokenInvalid)));
    assert_eq!(repo.sessions.len(), 0);
    // and a second lookup still reports the token invalid
    assert!(matches!(
        repo.get_session(&s.token, 20_001),
        Err(Error::TokenInvalid)
    ));
}

#[test]
fn live_session_outside_window_is_unchanged() {
    let (mut store, mut repo) = small_windows();
    // refresh only inside the last second of a ten-second life
    let mut repo2 = MemRepo::new(10_000, 1_000);
    repo2
        .add_product("radio".to_string(), "a radio app".to_string(), 1)
        .unwrap();
    std::mem::swap(&mut repo, &mut repo2);
    let s = signed_in(&mut store, &mut repo, 1000);
    let got = repo.get_session(&s.token, 3000).unwrap();
    assert_eq!(got.expire, 11_000);
    assert_eq!(repo.sessions[0].expire, 11_000);
}

#[test]
fn delete_session_is_idempotent() {
    let (mut store, mut repo) = small_windows();
    let s = signed_in(&mut store, &mut repo, 1000);
    repo.delete_session(&s.token).unwrap();
    assert_eq!(repo.sessions.len(), 0);
    repo.delete_session(&s.token).unwrap();
    assert_eq!(repo.sessions.len(), 0);
}

#[test]
fn clean_session_sweeps_expired_rows() {
    let (mut store, mut repo) = small_windows();
    let s1 = signed_in(&mut store, &mut repo, 1000);
    // a later sign-in gets its own session
    let (_u, _p, s2) = repo
        .signin_user(
            &SignInReq {
                product: "radio".to_string(),
                email: addr("foo"),
                passwd: "secret1".to_string(),
                captcha: "x".to_string(),
                product_open_flag: false,
            },
            8000,
        )
        .unwrap();
    assert_eq!(repo.sessions.len(), 2);
    // at 12000 the first (expire 11000) is gone, the second (18000) stays
    repo.clean_session(12_000).unwrap();
    assert_eq!(repo.sessions.len(), 1);
    assert_eq!(repo.sessions[0].token, s2.token);
    assert_ne!(repo.sessions[0].token, s1.token);
}

#[test]
fn verify_entries_expire_by_ttl() {
    let mut store = VerifyStore::new();
    let key = "k".to_string();
    store.put_captcha(key.clone(), "AbC1".to_string(), 1000);
    assert!(store.get(&key, 2000).is_some());
    // five minutes later the entry is logically absent even before a sweep
    assert!(store.get(&key, 302_000).is_none());
    store.sweep(302_000);
    assert_eq!(store.entries.len(), 0);
}
