//! The per-request authorization resolver: a bearer credential is resolved
//! to the live (user, product, membership) triple, with expiry and sliding
//! refresh handled by the session lookup itself.

use vstd::prelude::*;
use crate::errors::{AppResult, Error};
use crate::model::{status_normal, Product, ProductUser, User};
use crate::repo::{token_index, token_taken, MemRepo};

verus! {

/// The authenticated context a handler runs under.
#[derive(Debug)]
pub struct AuthUser {
    pub token: String,
    pub product: Product,
    pub user: User,
    pub user_product: ProductUser,
}

impl MemRepo {
    /// Resolve a bearer credential: a missing or unknown or expired token
    /// fails with `TokenInvalid` (deleting an expired row); then the
    /// session's product, user and membership rows are loaded.  The
    /// session row's sliding refresh is applied as a side effect.
    pub fn authorize(&mut self, bearer: Option<&String>, now: i64) -> (r: AppResult<AuthUser>)
        requires
            old(self).wf(),
            0 <= now <= i64::MAX - old(self).expire_millis,
        ensures
            final(self).wf(),
            old(self).same_config(*final(self)),
            final(self).users@ == old(self).users@,
            final(self).products@ == old(self).products@,
            final(self).memberships@ == old(self).memberships@,
            final(self).recently@ == old(self).recently@,
            final(self).groups@ == old(self).groups@,
            final(self).favorites@ == old(self).favorites@,
            bearer is None ==> ((r matches Err(Error::TokenInvalid)) && *final(self) == *old(
                self,
            )),
            (bearer is Some && !token_taken(old(self).sessions@, bearer->0@)) ==> ((r matches Err(
                Error::TokenInvalid,
            )) && *final(self) == *old(self)),
            (bearer is Some && token_taken(old(self).sessions@, bearer->0@) && old(
                self,
            ).sessions@[token_index(old(self).sessions@, bearer->0@)].expire < now) ==> ((
            r matches Err(Error::TokenInvalid)) && final(self).sessions@ == old(
                self,
            ).sessions@.remove(token_index(old(self).sessions@, bearer->0@))),
            r matches Err(e) ==> (e is TokenInvalid || e is ProductNotExists || e is UserNotExists
                || e is ProductNotOpen),
            // success is owed for a live token whose user, product and
            // membership rows are all present with normal status
            ({
                let t = bearer->0;
                let s = old(self).sessions@[token_index(old(self).sessions@, t@)];
                (bearer is Some && token_taken(old(self).sessions@, t@) && s.expire >= now && (
                exists|i: int|
                    0 <= i < old(self).products@.len() && old(self).products@[i].id == Some(
                        s.product_id,
                    ) && old(self).products@[i].status@ == status_normal()) && (exists|i: int|
                    0 <= i < old(self).users@.len() && old(self).users@[i].id == Some(s.user_id)
                        && old(self).users@[i].status@ == status_normal())
                    && crate::repo::mem_normal(old(self).memberships@, s.user_id, s.product_id))
                    ==> r is Ok
            }),
            r matches Ok(a) ==> ({
                let t = bearer->0;
                let s = old(self).sessions@[token_index(old(self).sessions@, t@)];
                &&& bearer is Some
                &&& token_taken(old(self).sessions@, t@)
                &&& s.expire >= now
                &&& a.token == s.token
                &&& a.user.id == Some(s.user_id)
                &&& a.user.status@ == status_normal()
                &&& a.product.id == Some(s.product_id)
                &&& a.product.status@ == status_normal()
                &&& a.user_product.user_id == s.user_id
                &&& a.user_product.product_id == s.product_id
                &&& a.user_product.status@ == status_normal()
                &&& (exists|i: int|
                    0 <= i < old(self).users@.len() && old(self).users@[i] == a.user)
                &&& (exists|i: int|
                    0 <= i < old(self).products@.len() && old(self).products@[i] == a.product)
            }),
    {
        let token = match bearer {
            Some(token) => token,
            None => {
                return Err(Error::TokenInvalid);
            },
        };
        let session = match self.get_session(token, now) {
            Ok(session) => session,
            Err(e) => {
                return Err(e);
            },
        };
        let product = match self.query_product(session.product_id) {
            Ok(product) => product,
            Err(e) => {
                return Err(e);
            },
        };
        let user = match self.query_user(session.user_id) {
            Ok(user) => user,
            Err(e) => {
                return Err(e);
            },
        };
        let user_product = match self.query_user_product(session.user_id, session.product_id) {
            Ok(m) => m,
            Err(e) => {
                return Err(e);
            },
        };
        Ok(AuthUser { token: session.token, product, user, user_product })
    }
}

} // verus!
