//! Persisted entities of the relational store: users, products, memberships,
//! sessions, and the preference family (recently played, favorite groups,
//! favorites).  Timestamps are integer epoch milliseconds; row status is the
//! two-character code `"00"` (normal) or `"99"` (cancelled).

use vstd::prelude::*;

verus! {

pub const USER_STATUS_NORMAL: &'static str = "00";
pub const USER_STATUS_CANCEL: &'static str = "99";

pub const PRODUCT_STATUS_NORMAL: &'static str = "00";
pub const PRODUCT_STATUS_CANCEL: &'static str = "99";

pub const USER_PRODUCT_STATUS_NORMAL: &'static str = "00";
pub const USER_PRODUCT_STATUS_CANCEL: &'static str = "99";

/// The view of the status code every row is created with.
pub open spec fn status_normal() -> Seq<char> {
    "00"@
}

/// A registered identity.  The email is unique across the user table.
#[derive(Debug)]
pub struct User {
    pub id: Option<i64>,
    pub user_name: String,
    pub email: String,
    pub passwd: String,
    pub status: String,
    pub update_time: i64,
}

/// A tenant/application a user can join; the code is unique and human-chosen.
#[derive(Debug)]
pub struct Product {
    pub id: Option<i64>,
    pub product: String,
    pub desc: String,
    pub status: String,
    pub update_time: i64,
}

/// The membership row tying a user to a product, carrying the
/// product-scoped avatar.  At most one per (user, product) pair.
#[derive(Debug)]
pub struct ProductUser {
    pub id: Option<i64>,
    pub user_id: i64,
    pub product_id: i64,
    pub avatar: String,
    pub status: String,
    pub update_time: i64,
}

/// An authenticated session: an opaque unique token bound to a user and a
/// product, valid until `expire`.
#[derive(Debug)]
pub struct Session {
    pub id: Option<i64>,
    pub token: String,
    pub user_id: i64,
    pub product_id: i64,
    pub expire: i64,
}

/// One recently-played record of a user.
#[derive(Debug)]
pub struct Recently {
    pub id: Option<i64>,
    pub user_id: i64,
    pub stationuuid: String,
    pub start_time: i64,
    pub end_time: Option<i64>,
}

/// A favorite group of a user; `is_def == 1` marks the single default group.
#[derive(Debug)]
pub struct FavGroup {
    pub id: Option<i64>,
    pub user_id: i64,
    pub create_time: i64,
    pub name: String,
    pub desc: String,
    pub is_def: i64,
}

/// One favorite station of a user, filed under a group.
#[derive(Debug)]
pub struct Favorite {
    pub id: Option<i64>,
    pub user_id: i64,
    pub stationuuid: String,
    pub group_id: i64,
    pub create_time: i64,
}

/// The payload of a self-contained signed credential: the authenticated
/// (user, product) pair and its expiry.  Signing and verification live
/// with the transport; expired claims must be rejected.
#[derive(Debug, Clone, Copy, PartialEq, Eq, Structural)]
pub struct Claims {
    pub product_id: i64,
    pub user_id: i64,
    pub exp: i64,
}

impl Claims {
    /// A claim is live while its expiry lies in the future.
    pub open spec fn spec_live(self, now: i64) -> bool {
        self.exp > now
    }

    /// Whether the claim is still live at `now`; an expired claim must
    /// not authenticate.
    pub fn is_live(&self, now: i64) -> (r: bool)
        ensures
            r == self.spec_live(now),
    {
        self.exp > now
    }
}

/// A favorite joined with the name of its group, as clients submit and
/// receive favorites.
#[derive(Debug)]
pub struct StationGroup {
    pub group_name: String,
    pub stationuuid: String,
    pub create_time: i64,
}

impl Clone for User {
    fn clone(&self) -> (r: Self)
        ensures
            r == *self,
    {
        User {
            id: self.id,
            user_name: self.user_name.clone(),
            email: self.email.clone(),
            passwd: self.passwd.clone(),
            status: self.status.clone(),
            update_time: self.update_time,
        }
    }
}

impl Clone for Product {
    fn clone(&self) -> (r: Self)
        ensures
            r == *self,
    {
        Product {
            id: self.id,
            product: self.product.clone(),
            desc: self.desc.clone(),
            status: self.status.clone(),
            update_time: self.update_time,
        }
    }
}

impl Clone for ProductUser {
    fn clone(&self) -> (r: Self)
        ensures
            r == *self,
    {
        ProductUser {
            id: self.id,
            user_id: self.user_id,
            product_id: self.product_id,
            avatar: self.avatar.clone(),
            status: self.status.clone(),
            update_time: self.update_time,
        }
    }
}

impl Clone for Session {
    fn clone(&self) -> (r: Self)
        ensures
            r == *self,
    {
        Session {
            id: self.id,
            token: self.token.clone(),
            user_id: self.user_id,
            product_id: self.product_id,
            expire: self.expire,
        }
    }
}

impl Clone for Recently {
    fn clone(&self) -> (r: Self)
        ensures
            r == *self,
    {
        Recently {
            id: self.id,
            user_id: self.user_id,
            stationuuid: self.stationuuid.clone(),
            start_time: self.start_time,
            end_time: self.end_time,
        }
    }
}

impl Clone for FavGroup {
    fn clone(&self) -> (r: Self)
        ensures
            r == *self,
    {
        FavGroup {
            id: self.id,
            user_id: self.user_id,
            create_time: self.create_time,
            name: self.name.clone(),
            desc: self.desc.clone(),
            is_def: self.is_def,
        }
    }
}

impl Clone for Favorite {
    fn clone(&self) -> (r: Self)
        ensures
            r == *self,
    {
        Favorite {
            id: self.id,
            user_id: self.user_id,
            stationuuid: self.stationuuid.clone(),
            group_id: self.group_id,
            create_time: self.create_time,
        }
    }
}

impl Clone for StationGroup {
    fn clone(&self) -> (r: Self)
        ensures
            r == *self,
    {
        StationGroup {
            group_name: self.group_name.clone(),
            stationuuid: self.stationuuid.clone(),
            create_time: self.create_time,
        }
    }
}

} // verus!
