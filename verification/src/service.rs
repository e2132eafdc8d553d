//! Use-case orchestration: the pre-authentication gates for registration,
//! sign-in, password reset and verification-code dispatch, and the
//! profile-update decision.  Each gate checks the request fields and the
//! ephemeral verification entry, in the order the endpoints check them,
//! then hands the repository a clean request.

use vstd::prelude::*;
use crate::codec::{eq_folded, gen_email_code, gen_passwd, matches_folded, passwd_hash};
use crate::errors::{AppResult, Error};
use crate::model::User;
use crate::proto::{ModifyReq, ResetPasswdReq, SendEmailCodeReq, SignInReq, SignUpReq};
use crate::repo::{create_user_ok, signin_ok, MemRepo};
use crate::validate::{is_valid_email, valid_email};
use crate::verify_store::{
    code_recorded, key_index, key_taken, remove_key, VerifyEntry, VerifyStore,
    RESEND_INTERVAL_MILLIS, VERIFY_TTL_MILLIS,
};

verus! {

/// The entry stored under a session key.
pub open spec fn entry_of(es: Seq<VerifyEntry>, key: Seq<char>) -> VerifyEntry {
    es[key_index(es, key)]
}

/// A live entry sits under the key at `now`.
pub open spec fn has_live_entry(es: Seq<VerifyEntry>, key: Seq<char>, now: i64) -> bool {
    key_taken(es, key) && entry_of(es, key).expire > now
}

/// A required field of the registration request is empty.
pub open spec fn signup_fields_missing(p: SignUpReq) -> bool {
    p.email@.len() == 0 || p.passwd@.len() == 0 || p.captcha@.len() == 0 || p.product@.len() == 0
}

/// The registration gate past the empty-field check, in the order the
/// endpoint checks: email shape, password length, then the verification
/// entry's captcha, code and address.  An empty required field fails
/// earlier still, with `Parse`.
pub open spec fn signup_gate(
    p: SignUpReq,
    es: Seq<VerifyEntry>,
    key: Seq<char>,
    now: i64,
) -> Option<Error> {
    if !valid_email(p.email@) {
        Some(Error::ParseEmail)
    } else if p.passwd@.len() < 6 {
        Some(Error::UserPasswordTooShort)
    } else if !has_live_entry(es, key, now) {
        Some(Error::Captcha)
    } else {
        let e = entry_of(es, key);
        if e.code is None || e.email is None {
            Some(Error::Captcha)
        } else if !eq_folded(e.captcha@, p.captcha@) {
            Some(Error::Captcha)
        } else if !eq_folded(e.code->0@, p.code@) {
            Some(Error::EmailVerifyCode)
        } else if e.email->0@ != p.email@ {
            Some(Error::EmailDiff)
        } else {
            None
        }
    }
}

/// Run the registration gate against the live verification entry.
fn check_signup_gate(
    store: &VerifyStore,
    key: &String,
    payload: &SignUpReq,
    now: i64,
) -> (r: Option<Error>)
    requires
        store.wf(),
    ensures
        r is None <==> signup_gate(*payload, store.entries@, key@, now) is None,
        r matches Some(e) ==> signup_gate(*payload, store.entries@, key@, now) == Some(e),
{
    if !is_valid_email(payload.email.as_str()) {
        return Some(Error::ParseEmail);
    }
    if payload.passwd.as_str().unicode_len() < 6 {
        return Some(Error::UserPasswordTooShort);
    }
    let entry = match store.get(key, now) {
        Some(entry) => entry,
        None => {
            return Some(Error::Captcha);
        },
    };
    let code = match &entry.code {
        Some(c) => c,
        None => {
            return Some(Error::Captcha);
        },
    };
    let email = match &entry.email {
        Some(e) => e,
        None => {
            return Some(Error::Captcha);
        },
    };
    if !matches_folded(entry.captcha.as_str(), payload.captcha.as_str()) {
        return Some(Error::Captcha);
    }
    if !matches_folded(code.as_str(), payload.code.as_str()) {
        return Some(Error::EmailVerifyCode);
    }
    if !(*email == payload.email) {
        return Some(Error::EmailDiff);
    }
    None
}

/// Register a user: validate the request against the verification entry
/// under the session key, consume the entry, and create the user with
/// their membership.  Gate failures leave both stores untouched.
pub fn signup(
    store: &mut VerifyStore,
    repo: &mut MemRepo,
    key: &String,
    payload: &SignUpReq,
    now: i64,
) -> (r: AppResult<User>)
    requires
        old(store).wf(),
        old(repo).wf(),
    ensures
        final(store).wf(),
        final(repo).wf(),
        old(repo).same_config(*final(repo)),
        signup_fields_missing(*payload) ==> ((r matches Err(Error::Parse(_))) && *final(store)
            == *old(store) && *final(repo) == *old(repo)),
        ({
            let gate = signup_gate(*payload, old(store).entries@, key@, now);
            let fields = signup_fields_missing(*payload);
            &&& !fields ==> (gate matches Some(e) ==> (r matches Err(e2) && e2 == e && *final(store) == *old(store) && *final(repo) == *old(repo)))
            &&& (!fields && gate is None) ==> final(store).entries@ == remove_key(
                old(store).entries@,
                key@,
            )
            &&& (!fields && gate is None && crate::repo::email_taken(
                old(repo).users@,
                payload.email@,
            )) ==> (r matches Err(Error::UserExists(_)) && *final(repo) == *old(repo))
            &&& (!fields && gate is None && !crate::repo::email_taken(
                old(repo).users@,
                payload.email@,
            ) && !crate::repo::product_known(old(repo).products@, payload.product@)) ==> (
            r matches Err(Error::ProductNotExists) && *final(repo) == *old(repo))
            &&& (r is Ok <==> (!fields && gate is None && !crate::repo::email_taken(
                old(repo).users@,
                payload.email@,
            ) && crate::repo::product_known(old(repo).products@, payload.product@) && old(repo).next_id <= i64::MAX - 2))
            &&& (r matches Ok(u) ==> create_user_ok(*old(repo), *final(repo), *payload, now, u))
        }),
{
    if payload.email.as_str().is_empty() || payload.passwd.as_str().is_empty()
        || payload.captcha.as_str().is_empty() || payload.product.as_str().is_empty() {
        return Err(Error::Parse(String::from_str("some field is empty, please check.")));
    }
    match check_signup_gate(store, key, payload, now) {
        Some(e) => Err(e),
        None => {
            store.destroy(key);
            repo.create_user(payload, now)
        },
    }
}

/// A required field of the sign-in request is empty.
pub open spec fn signin_fields_missing(p: SignInReq) -> bool {
    p.email@.len() == 0 || p.passwd@.len() == 0 || p.captcha@.len() == 0 || p.product@.len() == 0
}

/// The sign-in gate past the empty-field check: the captcha of the
/// verification entry under the session key.  An empty required field
/// fails earlier still, with `Parse`.
pub open spec fn signin_gate(
    p: SignInReq,
    es: Seq<VerifyEntry>,
    key: Seq<char>,
    now: i64,
) -> Option<Error> {
    if !has_live_entry(es, key, now) {
        Some(Error::Captcha)
    } else if !eq_folded(entry_of(es, key).captcha@, p.captcha@) {
        Some(Error::Captcha)
    } else {
        None
    }
}

/// Sign a user in: check the captcha under the session key, consume the
/// entry, verify the password and resolve the membership, and persist a
/// fresh session.  Gate failures leave both stores untouched.
pub fn signin(
    store: &mut VerifyStore,
    repo: &mut MemRepo,
    key: &String,
    payload: &SignInReq,
    now: i64,
) -> (r: AppResult<(User, crate::model::Product, crate::model::Session)>)
    requires
        old(store).wf(),
        old(repo).wf(),
        now <= i64::MAX - old(repo).expire_millis,
        old(repo).next_id <= i64::MAX - 2,
    ensures
        final(store).wf(),
        final(repo).wf(),
        old(repo).same_config(*final(repo)),
        signin_fields_missing(*payload) ==> ((r matches Err(Error::Parse(_))) && *final(store)
            == *old(store) && *final(repo) == *old(repo)),
        ({
            let gate = signin_gate(*payload, old(store).entries@, key@, now);
            let fields = signin_fields_missing(*payload);
            &&& !fields ==> (gate matches Some(e) ==> (r matches Err(e2) && e2 == e && *final(store) == *old(store) && *final(repo) == *old(repo)))
            &&& (!fields && gate is None) ==> final(store).entries@ == remove_key(
                old(store).entries@,
                key@,
            )
            &&& (!fields && gate is None && !crate::repo::email_taken(
                old(repo).users@,
                payload.email@,
            )) ==> (r matches Err(Error::UserNotExists) && *final(repo) == *old(repo))
            &&& r is Err ==> final(repo).sessions@ == old(repo).sessions@
            &&& ((r matches Err(Error::DatabaseException(_))) ==> old(repo).sessions@.len() > 0)
            &&& (r is Ok ==> final(repo).next_id <= old(repo).next_id + 2)
            &&& ({
                let u = old(repo).users@[crate::repo::user_index(
                    old(repo).users@,
                    payload.email@,
                )];
                (!fields && gate is None && crate::repo::email_taken(
                    old(repo).users@,
                    payload.email@,
                ) && u.passwd@ == passwd_hash(u.email@, payload.passwd@) && (
                crate::repo::open_membership(
                    old(repo).products@,
                    old(repo).memberships@,
                    u.id->0,
                    payload.product@,
                ) || (payload.product_open_flag && crate::repo::product_open(
                    old(repo).products@,
                    payload.product@,
                )))) ==> (r is Ok || (r matches Err(Error::DatabaseException(_))))
            })
            &&& (r matches Ok(t) ==> (!fields && gate is None && signin_ok(
                *old(repo),
                *final(repo),
                *payload,
                now,
                t,
            )))
        }),
{
    if payload.email.as_str().is_empty() || payload.passwd.as_str().is_empty()
        || payload.captcha.as_str().is_empty() || payload.product.as_str().is_empty() {
        return Err(Error::Parse(String::from_str("some field is empty, please check.")));
    }
    let entry = match store.get(key, now) {
        Some(entry) => entry,
        None => {
            return Err(Error::Captcha);
        },
    };
    if !matches_folded(entry.captcha.as_str(), payload.captcha.as_str()) {
        return Err(Error::Captcha);
    }
    store.destroy(key);
    repo.signin_user(payload, now)
}

/// A required field of the password-reset request is empty.
pub open spec fn reset_fields_missing(p: ResetPasswdReq) -> bool {
    p.email@.len() == 0 || p.passwd@.len() == 0 || p.captcha@.len() == 0 || p.code@.len() == 0
}

/// The password-reset gate past the empty-field check: the verification
/// entry's captcha, code and address.  An empty required field fails
/// earlier still, with `Parse`.
pub open spec fn reset_gate(
    p: ResetPasswdReq,
    es: Seq<VerifyEntry>,
    key: Seq<char>,
    now: i64,
) -> Option<Error> {
    if !has_live_entry(es, key, now) {
        Some(Error::Captcha)
    } else {
        let e = entry_of(es, key);
        if e.code is None || e.email is None {
            Some(Error::Captcha)
        } else if !eq_folded(e.captcha@, p.captcha@) {
            Some(Error::Captcha)
        } else if !eq_folded(e.code->0@, p.code@) {
            Some(Error::EmailVerifyCode)
        } else if e.email->0@ != p.email@ {
            Some(Error::EmailDiff)
        } else {
            None
        }
    }
}

/// Reset a password: validate the request against the verification entry,
/// consume the entry, and store the fresh hash.
pub fn reset_passwd(
    store: &mut VerifyStore,
    repo: &mut MemRepo,
    key: &String,
    payload: &ResetPasswdReq,
    now: i64,
) -> (r: AppResult<()>)
    requires
        old(store).wf(),
        old(repo).wf(),
    ensures
        final(store).wf(),
        final(repo).wf(),
        old(repo).same_config(*final(repo)),
        reset_fields_missing(*payload) ==> ((r matches Err(Error::Parse(_))) && *final(store)
            == *old(store) && *final(repo) == *old(repo)),
        ({
            let gate = reset_gate(*payload, old(store).entries@, key@, now);
            let fields = reset_fields_missing(*payload);
            &&& !fields ==> (gate matches Some(e) ==> (r matches Err(e2) && e2 == e && *final(store) == *old(store) && *final(repo) == *old(repo)))
            &&& (!fields && gate is None) ==> final(store).entries@ == remove_key(
                old(store).entries@,
                key@,
            )
            &&& ((!fields && gate is None) ==> (r is Ok <==> crate::repo::email_taken(
                old(repo).users@,
                payload.email@,
            )))
            &&& (!fields && gate is None && r is Ok) ==> ({
                let i = crate::repo::user_index(old(repo).users@, payload.email@);
                let u = old(repo).users@[i];
                let nu = final(repo).users@[i];
                &&& final(repo).users@ == old(repo).users@.update(i, nu)
                &&& nu.passwd@ == passwd_hash(u.email@, payload.passwd@)
                &&& nu.email == u.email
                &&& nu.update_time == now
            })
            &&& (!fields && gate is None && r is Err) ==> (r matches Err(Error::UserNotExists)
                && *final(repo) == *old(repo))
        }),
{
    if payload.email.as_str().is_empty() || payload.passwd.as_str().is_empty()
        || payload.captcha.as_str().is_empty() || payload.code.as_str().is_empty() {
        return Err(Error::Parse(String::from_str("some field is empty, please check.")));
    }
    let entry = match store.get(key, now) {
        Some(entry) => entry,
        None => {
            return Err(Error::Captcha);
        },
    };
    let code = match &entry.code {
        Some(c) => c,
        None => {
            return Err(Error::Captcha);
        },
    };
    let email = match &entry.email {
        Some(e) => e,
        None => {
            return Err(Error::Captcha);
        },
    };
    if !matches_folded(entry.captcha.as_str(), payload.captcha.as_str()) {
        return Err(Error::Captcha);
    }
    if !matches_folded(code.as_str(), payload.code.as_str()) {
        return Err(Error::EmailVerifyCode);
    }
    if !(*email == payload.email) {
        return Err(Error::EmailDiff);
    }
    store.destroy(key);
    repo.reset_user_passwd(payload, now)
}

/// A required field of the verification-code request is empty.
pub open spec fn send_code_fields_missing(p: SendEmailCodeReq) -> bool {
    p.email@.len() == 0 || p.captcha@.len() == 0
}

/// The verification-code gate past the empty-field check: email shape,
/// captcha, then the minimum resend interval.  An empty required field
/// fails earlier still, with `Parse`.
pub open spec fn send_code_gate(
    p: SendEmailCodeReq,
    es: Seq<VerifyEntry>,
    key: Seq<char>,
    now: i64,
) -> Option<Error> {
    if !valid_email(p.email@) {
        Some(Error::ParseEmail)
    } else if !has_live_entry(es, key, now) {
        Some(Error::Captcha)
    } else if !eq_folded(entry_of(es, key).captcha@, p.captcha@) {
        Some(Error::Captcha)
    } else if entry_of(es, key).send_time matches Some(t) && now - t < RESEND_INTERVAL_MILLIS {
        Some(Error::Frequent)
    } else {
        None
    }
}

/// Draw a verification code for the address and record it on the entry
/// under the session key.  The caller dispatches the email, fire and
/// forget.  A resend within sixty seconds of the last fails `Frequent`.
pub fn send_email_code(
    store: &mut VerifyStore,
    key: &String,
    payload: &SendEmailCodeReq,
    now: i64,
) -> (r: AppResult<String>)
    requires
        old(store).wf(),
        0 <= now <= i64::MAX - VERIFY_TTL_MILLIS,
    ensures
        final(store).wf(),
        send_code_fields_missing(*payload) ==> ((r matches Err(Error::Parse(_))) && *final(store) == *old(store)),
        ({
            let gate = send_code_gate(*payload, old(store).entries@, key@, now);
            let fields = send_code_fields_missing(*payload);
            &&& !fields ==> (gate matches Some(e) ==> (r matches Err(e2) && e2 == e && *final(store) == *old(store)))
            &&& (r is Ok <==> (!fields && gate is None))
            &&& r matches Ok(code) ==> ({
                &&& code@.len() == 6
                &&& (forall|i: int| 0 <= i < code@.len() ==> '0' <= #[trigger] code@[i] <= '9')
                &&& code_recorded(
                    old(store).entries@,
                    final(store).entries@,
                    key@,
                    code,
                    payload.email,
                    now,
                )
            })
        }),
{
    if payload.email.as_str().is_empty() || payload.captcha.as_str().is_empty() {
        return Err(Error::Parse(String::from_str("some field is empty, please check.")));
    }
    if !is_valid_email(payload.email.as_str()) {
        return Err(Error::ParseEmail);
    }
    let entry = match store.get(key, now) {
        Some(entry) => entry,
        None => {
            return Err(Error::Captcha);
        },
    };
    if !matches_folded(entry.captcha.as_str(), payload.captcha.as_str()) {
        return Err(Error::Captcha);
    }
    match entry.send_time {
        Some(t) => {
            if t > now || now - t < RESEND_INTERVAL_MILLIS {
                return Err(Error::Frequent);
            }
        },
        None => {},
    }
    let code = gen_email_code();
    let result = code.clone();
    store.set_code(key, code, payload.email.clone(), now);
    Ok(result)
}

/// The profile-update gate for a password change: a fresh password must
/// be long enough, accompanied by the current one, and the current one
/// must hash to the stored value — knowledge of the stored password is
/// demonstrated by recomputation.
pub open spec fn modify_gate(p: ModifyReq, email: Seq<char>, stored: Seq<char>) -> Option<Error> {
    if p.new_password matches Some(np) && np@.len() < 6 {
        Some(Error::UserPasswordTooShort)
    } else if p.new_password is Some && p.password is None {
        Some(Error::UserPasswdError)
    } else if p.new_password is Some && (p.password matches Some(op) && passwd_hash(email, op@)
        != stored) {
        Some(Error::UserPasswdError)
    } else {
        None
    }
}

/// Apply a profile update for the authenticated user: optional name and
/// avatar directly, an optional password change checked by `modify_gate`
/// against the stored hash.
pub fn modify_user(
    repo: &mut MemRepo,
    email: &String,
    stored_passwd: &String,
    user_id: i64,
    product_id: i64,
    payload: ModifyReq,
) -> (r: AppResult<()>)
    requires
        old(repo).wf(),
    ensures
        final(repo).wf(),
        old(repo).same_config(*final(repo)),
        ({
            let gate = modify_gate(payload, email@, stored_passwd@);
            &&& gate matches Some(e) ==> (r matches Err(e2) && e2 == e && *final(repo) == *old(repo))
            &&& (r is Ok <==> gate is None)
            &&& r is Ok ==> ({
                &&& final(repo).users@.len() == old(repo).users@.len()
                &&& (forall|i: int|
                    #![trigger old(repo).users@[i]]
                    0 <= i < old(repo).users@.len() ==> ({
                        let u = old(repo).users@[i];
                        let nu = final(repo).users@[i];
                        &&& nu.id == u.id
                        &&& nu.email == u.email
                        &&& nu.status == u.status
                        &&& nu.update_time == u.update_time
                        &&& nu.user_name == (if payload.user_name is Some && u.id == Some(user_id) {
                            payload.user_name->0
                        } else {
                            u.user_name
                        })
                        &&& nu.passwd@ == (if payload.new_password is Some && u.id == Some(
                            user_id,
                        ) {
                            passwd_hash(email@, payload.new_password->0@)
                        } else {
                            u.passwd@
                        })
                    }))
                &&& final(repo).memberships@.len() == old(repo).memberships@.len()
                &&& (forall|i: int|
                    0 <= i < old(repo).memberships@.len() ==> final(repo).memberships@[i]
                        == crate::repo::member_updated(
                        old(repo).memberships@[i],
                        user_id,
                        product_id,
                        payload.avatar_path,
                    ))
                &&& final(repo).sessions@ == old(repo).sessions@
                &&& final(repo).products@ == old(repo).products@
            })
        }),
{
    let mut new_pass: Option<String> = None;
    match &payload.new_password {
        Some(password) => {
            if password.as_str().unicode_len() < 6 {
                return Err(Error::UserPasswordTooShort);
            }
            match &payload.password {
                Some(old_password) => {
                    let old_pass = gen_passwd(email.as_str(), old_password.as_str());
                    if !(old_pass == *stored_passwd) {
                        return Err(Error::UserPasswdError);
                    }
                    new_pass = Some(gen_passwd(email.as_str(), password.as_str()));
                },
                None => {
                    return Err(Error::UserPasswdError);
                },
            }
        },
        None => {},
    }
    repo.update_user_info(user_id, product_id, payload.user_name, new_pass, payload.avatar_path)
}

} // verus!
