//! The repository capability: the operation set every backend must offer,
//! each operation preserving the backend's own invariant.  One concrete
//! backend is in scope, the in-memory store; a second backend is an
//! extension point, not a current requirement.  Exact behaviour is stated
//! on the concrete type's inherent methods.

use vstd::prelude::*;
use crate::errors::AppResult;
use crate::model::{FavGroup, Product, ProductUser, Recently, Session, StationGroup, User};
use crate::proto::{GroupNew, RecentlyNew, SignInReq, SignUpReq};
use crate::repo::MemRepo;

verus! {

/// The transactional repository interface: user and membership
/// registration, credential checks, session lifecycle, and the
/// preference collections.
pub trait AppServRepo: Sized {
    /// The backend's well-formedness, preserved by every operation.
    spec fn inv(&self) -> bool;

    /// The widest timestamp the backend's expiry arithmetic carries.
    spec fn max_now(&self) -> int;

    /// The room left in the backend's id space.
    spec fn ids_left(&self) -> int;

    fn create_user(&mut self, signup: &SignUpReq, now: i64) -> (r: AppResult<User>)
        requires
            old(self).inv(),
        ensures
            final(self).inv(),
    ;

    fn signin_user(&mut self, signin: &SignInReq, now: i64) -> (r: AppResult<
        (User, Product, Session),
    >)
        requires
            old(self).inv(),
            now <= old(self).max_now(),
            old(self).ids_left() >= 2,
        ensures
            final(self).inv(),
    ;

    fn get_session(&mut self, token: &String, now: i64) -> (r: AppResult<Session>)
        requires
            old(self).inv(),
            0 <= now <= old(self).max_now(),
        ensures
            final(self).inv(),
    ;

    fn delete_session(&mut self, token: &String) -> (r: AppResult<()>)
        requires
            old(self).inv(),
        ensures
            final(self).inv(),
            r is Ok,
    ;

    fn update_user_info(
        &mut self,
        user_id: i64,
        product_id: i64,
        user_name: Option<String>,
        passwd: Option<String>,
        avatar: Option<String>,
    ) -> (r: AppResult<()>)
        requires
            old(self).inv(),
        ensures
            final(self).inv(),
            r is Ok,
    ;

    fn query_user_products(&self, user_id: i64) -> (r: AppResult<Vec<Product>>)
        requires
            self.inv(),
        ensures
            r is Ok,
    ;

    fn query_products(&self) -> (r: AppResult<Vec<Product>>)
        requires
            self.inv(),
        ensures
            r is Ok,
    ;

    fn query_product(&self, product_id: i64) -> (r: AppResult<Product>)
        requires
            self.inv(),
    ;

    fn query_user(&self, user_id: i64) -> (r: AppResult<User>)
        requires
            self.inv(),
    ;

    fn query_user_product(&self, user_id: i64, product_id: i64) -> (r: AppResult<ProductUser>)
        requires
            self.inv(),
    ;

    fn query_recently(&self, user_id: i64) -> (r: AppResult<Vec<Recently>>)
        requires
            self.inv(),
        ensures
            r is Ok,
    ;

    fn delete_recently(&mut self, user_id: i64) -> (r: AppResult<()>)
        requires
            old(self).inv(),
        ensures
            final(self).inv(),
            r is Ok,
    ;

    fn new_recently(&mut self, user_id: i64, recently: &Vec<RecentlyNew>) -> (r: AppResult<()>)
        requires
            old(self).inv(),
        ensures
            final(self).inv(),
    ;

    fn query_groups(&self, user_id: i64) -> (r: AppResult<Vec<FavGroup>>)
        requires
            self.inv(),
        ensures
            r is Ok,
    ;

    fn delete_groups(&mut self, user_id: i64, groups: &Vec<String>) -> (r: AppResult<()>)
        requires
            old(self).inv(),
        ensures
            final(self).inv(),
    ;

    fn new_groups(&mut self, user_id: i64, groups: &Vec<GroupNew>) -> (r: AppResult<()>)
        requires
            old(self).inv(),
        ensures
            final(self).inv(),
    ;

    fn modify_group(
        &mut self,
        user_id: i64,
        old_name: &String,
        name: &String,
        desc: &String,
    ) -> (r: AppResult<()>)
        requires
            old(self).inv(),
        ensures
            final(self).inv(),
            r is Ok,
    ;

    fn query_favorites(&self, user_id: i64) -> (r: AppResult<Vec<StationGroup>>)
        requires
            self.inv(),
        ensures
            r is Ok,
    ;

    fn new_favorite(&mut self, user_id: i64, stations: &Vec<StationGroup>) -> (r: AppResult<()>)
        requires
            old(self).inv(),
        ensures
            final(self).inv(),
    ;

    fn delete_favorite(
        &mut self,
        user_id: i64,
        favorites: &Option<Vec<String>>,
        group_names: &Option<Vec<String>>,
    ) -> (r: AppResult<()>)
        requires
            old(self).inv(),
        ensures
            final(self).inv(),
            r is Ok,
    ;

    fn modify_favorite(
        &mut self,
        user_id: i64,
        stationuuid: &String,
        groups: &Vec<String>,
        now: i64,
    ) -> (r: AppResult<()>)
        requires
            old(self).inv(),
        ensures
            final(self).inv(),
    ;

    fn query_sync(&self, user_id: i64, start_time: i64) -> (r: AppResult<
        (Vec<FavGroup>, Vec<Recently>, Vec<StationGroup>),
    >)
        requires
            self.inv(),
        ensures
            r is Ok,
    ;

    fn clean_session(&mut self, now: i64) -> (r: AppResult<()>)
        requires
            old(self).inv(),
        ensures
            final(self).inv(),
            r is Ok,
    ;
}

impl AppServRepo for MemRepo {
    open spec fn inv(&self) -> bool {
        self.wf()
    }

    open spec fn max_now(&self) -> int {
        i64::MAX - self.expire_millis
    }

    open spec fn ids_left(&self) -> int {
        i64::MAX - self.next_id
    }

    fn create_user(&mut self, signup: &SignUpReq, now: i64) -> (r: AppResult<User>) {
        MemRepo::create_user(self, signup, now)
    }

    fn signin_user(&mut self, signin: &SignInReq, now: i64) -> (r: AppResult<
        (User, Product, Session),
    >) {
        MemRepo::signin_user(self, signin, now)
    }

    fn get_session(&mut self, token: &String, now: i64) -> (r: AppResult<Session>) {
        MemRepo::get_session(self, token, now)
    }

    fn delete_session(&mut self, token: &String) -> (r: AppResult<()>) {
        MemRepo::delete_session(self, token)
    }

    fn update_user_info(
        &mut self,
        user_id: i64,
        product_id: i64,
        user_name: Option<String>,
        passwd: Option<String>,
        avatar: Option<String>,
    ) -> (r: AppResult<()>) {
        MemRepo::update_user_info(self, user_id, product_id, user_name, passwd, avatar)
    }

    fn query_user_products(&self, user_id: i64) -> (r: AppResult<Vec<Product>>) {
        MemRepo::query_user_products(self, user_id)
    }

    fn query_products(&self) -> (r: AppResult<Vec<Product>>) {
        MemRepo::query_products(self)
    }

    fn query_product(&self, product_id: i64) -> (r: AppResult<Product>) {
        MemRepo::query_product(self, product_id)
    }

    fn query_user(&self, user_id: i64) -> (r: AppResult<User>) {
        MemRepo::query_user(self, user_id)
    }

    fn query_user_product(&self, user_id: i64, product_id: i64) -> (r: AppResult<ProductUser>) {
        MemRepo::query_user_product(self, user_id, product_id)
    }

    fn query_recently(&self, user_id: i64) -> (r: AppResult<Vec<Recently>>) {
        MemRepo::query_recently(self, user_id)
    }

    fn delete_recently(&mut self, user_id: i64) -> (r: AppResult<()>) {
        MemRepo::delete_recently(self, user_id)
    }

    fn new_recently(&mut self, user_id: i64, recently: &Vec<RecentlyNew>) -> (r: AppResult<()>) {
        MemRepo::new_recently(self, user_id, recently)
    }

    fn query_groups(&self, user_id: i64) -> (r: AppResult<Vec<FavGroup>>) {
        MemRepo::query_groups(self, user_id)
    }

    fn delete_groups(&mut self, user_id: i64, groups: &Vec<String>) -> (r: AppResult<()>) {
        MemRepo::delete_groups(self, user_id, groups)
    }

    fn new_groups(&mut self, user_id: i64, groups: &Vec<GroupNew>) -> (r: AppResult<()>) {
        MemRepo::new_groups(self, user_id, groups)
    }

    fn modify_group(
        &mut self,
        user_id: i64,
        old_name: &String,
        name: &String,
        desc: &String,
    ) -> (r: AppResult<()>) {
        MemRepo::modify_group(self, user_id, old_name, name, desc)
    }

    fn query_favorites(&self, user_id: i64) -> (r: AppResult<Vec<StationGroup>>) {
        MemRepo::query_favorites(self, user_id)
    }

    fn new_favorite(&mut self, user_id: i64, stations: &Vec<StationGroup>) -> (r: AppResult<()>) {
        MemRepo::new_favorite(self, user_id, stations)
    }

    fn delete_favorite(
        &mut self,
        user_id: i64,
        favorites: &Option<Vec<String>>,
        group_names: &Option<Vec<String>>,
    ) -> (r: AppResult<()>) {
        MemRepo::delete_favorite(self, user_id, favorites, group_names)
    }

    fn modify_favorite(
        &mut self,
        user_id: i64,
        stationuuid: &String,
        groups: &Vec<String>,
        now: i64,
    ) -> (r: AppResult<()>) {
        MemRepo::modify_favorite(self, user_id, stationuuid, groups, now)
    }

    fn query_sync(&self, user_id: i64, start_time: i64) -> (r: AppResult<
        (Vec<FavGroup>, Vec<Recently>, Vec<StationGroup>),
    >) {
        MemRepo::query_sync(self, user_id, start_time)
    }

    fn clean_session(&mut self, now: i64) -> (r: AppResult<()>) {
        MemRepo::clean_session(self, now)
    }
}

} // verus!
