//! Request and response shapes of the service API.  The transport layer
//! carries them as JSON; here they are plain data the core operates on.

use vstd::prelude::*;
use crate::model::{FavGroup, Product, Recently, StationGroup};

verus! {

/// The plain acknowledgement most endpoints answer with.
#[derive(Debug, Clone)]
pub struct BaseRsp {
    pub error: usize,
    pub message: String,
}

/// A freshly drawn captcha, base64-encoded.
#[derive(Debug, Clone)]
pub struct CaptchaRsp {
    pub error: usize,
    pub captcha: String,
}

/// Ask for a verification code to be emailed.
#[derive(Debug, Clone)]
pub struct SendEmailCodeReq {
    pub email: String,
    pub captcha: String,
}

pub type SendEmailCodeRsp = BaseRsp;

/// A registration attempt.
#[derive(Debug, Clone)]
pub struct SignUpReq {
    pub product: String,
    pub email: String,
    pub passwd: String,
    pub captcha: String,
    pub code: String,
}

pub type SignUpRsp = BaseRsp;

/// A sign-in attempt; `product_open_flag` asks for lazy provisioning of the
/// membership when the user has none for the product yet.
#[derive(Debug, Clone)]
pub struct SignInReq {
    pub product: String,
    pub email: String,
    pub passwd: String,
    pub captcha: String,
    pub product_open_flag: bool,
}

/// The bearer token handed out on a successful sign-in.
#[derive(Debug, Clone)]
pub struct SignInRsp {
    pub error: usize,
    pub message: String,
    pub token: String,
}

/// Ask for a password to be reset to a new one.
#[derive(Debug, Clone)]
pub struct ResetPasswdReq {
    pub email: String,
    pub passwd: String,
    pub captcha: String,
    pub code: String,
}

/// The products a user may see.
#[derive(Debug, Clone)]
pub struct ProductsRsp {
    pub error: usize,
    pub message: String,
    pub products: Vec<Product>,
}

/// The profile of the authenticated user within the current product.
#[derive(Debug, Clone)]
pub struct UserInfoRsp {
    pub error: usize,
    pub message: String,
    pub user_name: String,
    pub email: String,
    pub avatar: Option<String>,
    pub product: String,
    pub product_desc: String,
}

/// The stored name of a freshly uploaded avatar.
#[derive(Debug, Clone)]
pub struct UploadRsp {
    pub error: usize,
    pub message: String,
    pub avatar_path: String,
}

/// A partial profile update; only the present fields are applied.
#[derive(Debug, Clone)]
pub struct ModifyReq {
    pub user_name: Option<String>,
    pub password: Option<String>,
    pub new_password: Option<String>,
    pub avatar_path: Option<String>,
}

/// Open a membership for a further product.
#[derive(Debug, Clone)]
pub struct OpenProductReq {
    pub product: String,
}

/// The recently-played records of a user.
#[derive(Debug, Clone)]
pub struct RecentlyRsp {
    pub error: usize,
    pub message: String,
    pub recently: Vec<Recently>,
}

/// One recently-played record as a client submits it.
#[derive(Debug, Clone)]
pub struct RecentlyNew {
    pub stationuuid: String,
    pub start_time: i64,
    pub end_time: Option<i64>,
}

#[derive(Debug, Clone)]
pub struct RecentlyNewReq {
    pub new_recently: Vec<RecentlyNew>,
}

/// Close an open recently-played record.
#[derive(Debug, Clone)]
pub struct RecentlyModifyReq {
    pub stationuuid: String,
    pub start_time: i64,
    pub end_time: i64,
}

/// An optional filter on group names.
#[derive(Debug, Clone)]
pub struct GroupsReq {
    pub groups: Option<Vec<String>>,
}

#[derive(Debug, Clone)]
pub struct GroupsRsp {
    pub error: usize,
    pub message: String,
    pub groups: Vec<FavGroup>,
}

#[derive(Debug, Clone)]
pub struct GroupDeleteReq {
    pub groups: Vec<String>,
}

/// One favorite group as a client submits it; `create_time` arbitrates
/// conflicting default groups.
#[derive(Debug, Clone)]
pub struct GroupNew {
    pub create_time: i64,
    pub name: String,
    pub desc: String,
    pub is_def: i64,
}

#[derive(Debug, Clone)]
pub struct GroupNewReq {
    pub new_group: Vec<GroupNew>,
}

#[derive(Debug, Clone)]
pub struct GroupModifyReq {
    pub old_name: String,
    pub name: String,
    pub desc: String,
}

#[derive(Debug, Clone)]
pub struct FavoritesRsp {
    pub error: usize,
    pub message: String,
    pub favorites: Vec<StationGroup>,
}

#[derive(Debug, Clone)]
pub struct FavoriteNewReq {
    pub new_favorite: Vec<StationGroup>,
}

/// Delete favorites by station list, by group-name list, or both.
#[derive(Debug, Clone)]
pub struct FavoriteDeleteReq {
    pub favorites: Option<Vec<String>>,
    pub group_names: Option<Vec<String>>,
}

/// Refile one station under the given groups.
#[derive(Debug, Clone)]
pub struct FavoriteModifyReq {
    pub stationuuid: String,
    pub group_names: Vec<String>,
}

/// Incremental sync: everything at or after `start_time`.
#[derive(Debug, Clone)]
pub struct SyncReq {
    pub start_time: i64,
}

#[derive(Debug, Clone)]
pub struct SyncRsp {
    pub error: usize,
    pub message: String,
    pub groups: Vec<FavGroup>,
    pub recently: Vec<Recently>,
    pub favorites: Vec<StationGroup>,
}

} // verus!
