//! The transactional repository over the relational store, held in memory:
//! four entity families (user, product, membership, session) and the
//! preference family (recently played, favorite groups, favorites).  Every
//! operation either applies all of its writes or, on a business error,
//! leaves the store unchanged, as a rolled-back transaction would; bulk
//! inserts commit in chunks of fifty rows.

use vstd::prelude::*;
use vstd::string::{StringExecFns, StrSliceExecFns};
use crate::codec::{gen_passwd, gen_token, passwd_hash, TOKEN_LEN};
use crate::errors::{AppResult, Error};
use crate::model::{
    status_normal, FavGroup, Favorite, Product, ProductUser, Recently, Session, StationGroup,
    User,
};
use crate::proto::{GroupNew, RecentlyNew, ResetPasswdReq, SignInReq, SignUpReq};

verus! {

/// The prefix of an email before the first `'@'`; the whole email when it
/// holds none.  Registration derives the initial user name from it.
pub open spec fn local_part(email: Seq<char>) -> Seq<char>
    decreases email.len(),
{
    if email.len() == 0 {
        Seq::empty()
    } else if email[0] == '@' {
        Seq::empty()
    } else {
        seq![email[0]] + local_part(email.drop_first())
    }
}

/// Some user row carries this email.
pub open spec fn email_taken(users: Seq<User>, email: Seq<char>) -> bool {
    exists|i: int| 0 <= i < users.len() && users[i].email@ == email
}

/// Some product row carries this code, whatever its status.
pub open spec fn product_known(products: Seq<Product>, code: Seq<char>) -> bool {
    exists|i: int| 0 <= i < products.len() && products[i].product@ == code
}

/// Some product row with normal status carries this code.
pub open spec fn product_open(products: Seq<Product>, code: Seq<char>) -> bool {
    exists|i: int|
        0 <= i < products.len() && products[i].product@ == code && products[i].status@
            == status_normal()
}

/// The index of the product row carrying this code.
pub open spec fn product_index(products: Seq<Product>, code: Seq<char>) -> int {
    choose|i: int| 0 <= i < products.len() && products[i].product@ == code
}

/// The index of the normal-status product row carrying this code.
pub open spec fn open_product_index(products: Seq<Product>, code: Seq<char>) -> int {
    choose|i: int|
        0 <= i < products.len() && products[i].product@ == code && products[i].status@
            == status_normal()
}

/// A user row with this id exists.
pub open spec fn user_id_exists(users: Seq<User>, uid: i64) -> bool {
    exists|i: int| 0 <= i < users.len() && users[i].id == Some(uid)
}

/// A product row with this id exists.
pub open spec fn product_id_exists(products: Seq<Product>, pid: i64) -> bool {
    exists|i: int| 0 <= i < products.len() && products[i].id == Some(pid)
}

/// A membership row for this (user, product) pair exists.
pub open spec fn has_membership(ms: Seq<ProductUser>, uid: i64, pid: i64) -> bool {
    exists|i: int| 0 <= i < ms.len() && ms[i].user_id == uid && ms[i].product_id == pid
}

/// The index of the user row carrying this email.
pub open spec fn user_index(users: Seq<User>, email: Seq<char>) -> int {
    choose|i: int| 0 <= i < users.len() && users[i].email@ == email
}

/// The user holds a normal-status membership for a normal-status product
/// row carrying this code: the join sign-in resolves.
pub open spec fn open_membership(
    products: Seq<Product>,
    ms: Seq<ProductUser>,
    uid: i64,
    code: Seq<char>,
) -> bool {
    exists|i: int, j: int|
        0 <= i < products.len() && 0 <= j < ms.len() && products[i].product@ == code
            && products[i].status@ == status_normal() && ms[j].user_id == uid && products[i].id
            == Some(ms[j].product_id) && ms[j].status@ == status_normal()
}

/// How many groups of this user carry the default flag.
pub open spec fn count_defaults(gs: Seq<FavGroup>, uid: i64) -> nat
    decreases gs.len(),
{
    if gs.len() == 0 {
        0
    } else {
        count_defaults(gs.drop_last(), uid) + (if gs.last().user_id == uid && gs.last().is_def
            == 1 {
            1nat
        } else {
            0nat
        })
    }
}

/// A normal-status membership row ties this user to this product id.
pub open spec fn mem_normal(ms: Seq<ProductUser>, uid: i64, pid: i64) -> bool {
    exists|j: int|
        0 <= j < ms.len() && ms[j].user_id == uid && ms[j].product_id == pid && ms[j].status@
            == status_normal()
}

/// The products a user sees: normal-status products joined with the
/// user's normal-status memberships, in table order.
pub open spec fn user_products_of(
    products: Seq<Product>,
    ms: Seq<ProductUser>,
    uid: i64,
) -> Seq<Product>
    decreases products.len(),
{
    if products.len() == 0 {
        Seq::empty()
    } else {
        let prefix = user_products_of(products.drop_last(), ms, uid);
        let p = products.last();
        if p.status@ == status_normal() && p.id is Some && mem_normal(ms, uid, p.id->0) {
            prefix.push(p)
        } else {
            prefix
        }
    }
}

/// The normal-status products, in table order.
pub open spec fn normal_products(products: Seq<Product>) -> Seq<Product>
    decreases products.len(),
{
    if products.len() == 0 {
        Seq::empty()
    } else {
        let prefix = normal_products(products.drop_last());
        if products.last().status@ == status_normal() {
            prefix.push(products.last())
        } else {
            prefix
        }
    }
}

/// One user row after a partial profile update aimed at `uid`.
pub open spec fn user_updated(u: User, uid: i64, name: Option<String>, passwd: Option<String>) -> User {
    if u.id == Some(uid) {
        User {
            id: u.id,
            user_name: if name is Some { name->0 } else { u.user_name },
            email: u.email,
            passwd: if passwd is Some { passwd->0 } else { u.passwd },
            status: u.status,
            update_time: u.update_time,
        }
    } else {
        u
    }
}

/// One membership row after a partial profile update aimed at the
/// (user, product) pair.
pub open spec fn member_updated(m: ProductUser, uid: i64, pid: i64, avatar: Option<String>) -> ProductUser {
    if m.user_id == uid && m.product_id == pid && avatar is Some {
        ProductUser {
            id: m.id,
            user_id: m.user_id,
            product_id: m.product_id,
            avatar: avatar->0,
            status: m.status,
            update_time: m.update_time,
        }
    } else {
        m
    }
}

/// The recently-played rows of a user, in table order.
pub open spec fn recently_of(rs: Seq<Recently>, uid: i64) -> Seq<Recently>
    decreases rs.len(),
{
    if rs.len() == 0 {
        Seq::empty()
    } else {
        let prefix = recently_of(rs.drop_last(), uid);
        if rs.last().user_id == uid {
            prefix.push(rs.last())
        } else {
            prefix
        }
    }
}

/// Insert one record into a list sorted by descending start time, after
/// every record that starts no earlier.
pub open spec fn insert_desc(rs: Seq<Recently>, x: Recently) -> Seq<Recently>
    decreases rs.len(),
{
    if rs.len() == 0 {
        seq![x]
    } else if rs[0].start_time >= x.start_time {
        seq![rs[0]] + insert_desc(rs.drop_first(), x)
    } else {
        seq![x] + rs
    }
}

/// Insertion sort by descending start time, as the store orders
/// recently-played records.
pub open spec fn sort_desc(rs: Seq<Recently>) -> Seq<Recently>
    decreases rs.len(),
{
    if rs.len() == 0 {
        Seq::empty()
    } else {
        insert_desc(sort_desc(rs.drop_last()), rs.last())
    }
}

/// The user already has a recently-played row under this
/// (station, start-time) key.
pub open spec fn recently_present(rs: Seq<Recently>, uid: i64, station: Seq<char>, start: i64) -> bool {
    exists|i: int|
        0 <= i < rs.len() && rs[i].user_id == uid && rs[i].stationuuid@ == station
            && rs[i].start_time == start
}

/// The recently-played table and the id counter after a bulk insert: a
/// record duplicating a stored (user, station, start-time) row is
/// silently skipped; the rest are appended with consecutive ids.
pub open spec fn add_recently(rs: Seq<Recently>, items: Seq<RecentlyNew>, uid: i64, next: int) -> (
    Seq<Recently>,
    int,
)
    decreases items.len(),
{
    if items.len() == 0 {
        (rs, next)
    } else {
        let r = add_recently(rs, items.drop_last(), uid, next);
        let e = items.last();
        if recently_present(r.0, uid, e.stationuuid@, e.start_time) {
            r
        } else {
            (
                r.0.push(
                    Recently {
                        id: Some(r.1 as i64),
                        user_id: uid,
                        stationuuid: e.stationuuid,
                        start_time: e.start_time,
                        end_time: e.end_time,
                    },
                ),
                r.1 + 1,
            )
        }
    }
}

/// One recently-played row after closing the records that match the
/// (user, station, start) key.
pub open spec fn recently_closed(x: Recently, uid: i64, station: Seq<char>, start_time: i64, end_time: i64) -> Recently {
    if x.user_id == uid && x.stationuuid@ == station && x.start_time == start_time {
        Recently {
            id: x.id,
            user_id: x.user_id,
            stationuuid: x.stationuuid,
            start_time: x.start_time,
            end_time: Some(end_time),
        }
    } else {
        x
    }
}

/// Inserting at the position found by a front-to-back scan is what
/// `insert_desc` does.
proof fn lemma_insert_desc_at(rs: Seq<Recently>, x: Recently, p: int)
    requires
        0 <= p <= rs.len(),
        forall|j: int| 0 <= j < p ==> rs[j].start_time >= x.start_time,
        p < rs.len() ==> rs[p].start_time < x.start_time,
    ensures
        insert_desc(rs, x) == rs.insert(p, x),
    decreases p,
{
    if p == 0 {
        if rs.len() == 0 {
            assert(seq![x] =~= rs.insert(0, x));
        } else {
            assert(seq![x] + rs =~= rs.insert(0, x));
        }
    } else {
        lemma_insert_desc_at(rs.drop_first(), x, p - 1);
        assert(seq![rs[0]] + rs.drop_first().insert(p - 1, x) =~= rs.insert(p, x));
    }
}

/// The favorite groups of a user, in table order.
pub open spec fn groups_of(gs: Seq<FavGroup>, uid: i64) -> Seq<FavGroup>
    decreases gs.len(),
{
    if gs.len() == 0 {
        Seq::empty()
    } else {
        let prefix = groups_of(gs.drop_last(), uid);
        if gs.last().user_id == uid {
            prefix.push(gs.last())
        } else {
            prefix
        }
    }
}

/// The user already has a group under this name.
pub open spec fn group_name_exists(gs: Seq<FavGroup>, uid: i64, name: Seq<char>) -> bool {
    exists|i: int| 0 <= i < gs.len() && gs[i].user_id == uid && gs[i].name@ == name
}

/// The user has a default group.
pub open spec fn has_default(gs: Seq<FavGroup>, uid: i64) -> bool {
    exists|i: int| 0 <= i < gs.len() && gs[i].user_id == uid && gs[i].is_def == 1
}

/// The index of the user's default group.
pub open spec fn default_index(gs: Seq<FavGroup>, uid: i64) -> int {
    choose|i: int| 0 <= i < gs.len() && gs[i].user_id == uid && gs[i].is_def == 1
}

/// The group table without the user's default groups.
pub open spec fn remove_default(gs: Seq<FavGroup>, uid: i64) -> Seq<FavGroup>
    decreases gs.len(),
{
    if gs.len() == 0 {
        Seq::empty()
    } else {
        let prefix = remove_default(gs.drop_last(), uid);
        if gs.last().user_id == uid && gs.last().is_def == 1 {
            prefix
        } else {
            prefix.push(gs.last())
        }
    }
}

/// The stored row for one submitted group; the default flag is kept as
/// exactly zero or one.
pub open spec fn group_row(e: GroupNew, uid: i64, id: int) -> FavGroup {
    FavGroup {
        id: Some(id as i64),
        user_id: uid,
        create_time: e.create_time,
        name: e.name,
        desc: e.desc,
        is_def: if e.is_def > 0 {
            1
        } else {
            0
        },
    }
}

/// The group table and the id counter after a bulk group insert: each
/// submitted group is skipped when its name is taken; a submitted default
/// group loses against an existing default of equal or later creation
/// time and otherwise replaces it.
pub open spec fn add_groups(gs: Seq<FavGroup>, items: Seq<GroupNew>, uid: i64, next: int) -> (
    Seq<FavGroup>,
    int,
)
    decreases items.len(),
{
    if items.len() == 0 {
        (gs, next)
    } else {
        let r = add_groups(gs, items.drop_last(), uid, next);
        let gs1 = r.0;
        let n1 = r.1;
        let e = items.last();
        if group_name_exists(gs1, uid, e.name@) {
            (gs1, n1)
        } else if e.is_def > 0 && has_default(gs1, uid) && gs1[default_index(gs1, uid)].create_time
            >= e.create_time {
            (gs1, n1)
        } else if e.is_def > 0 && has_default(gs1, uid) {
            (remove_default(gs1, uid).push(group_row(e, uid, n1)), n1 + 1)
        } else {
            (gs1.push(group_row(e, uid, n1)), n1 + 1)
        }
    }
}

/// Appending one group changes exactly its owner's default count.
proof fn lemma_count_defaults_push(gs: Seq<FavGroup>, x: FavGroup, uid: i64)
    ensures
        count_defaults(gs.push(x), uid) == count_defaults(gs, uid) + (if x.user_id == uid
            && x.is_def == 1 {
            1nat
        } else {
            0nat
        }),
{
    assert(gs.push(x).drop_last() =~= gs);
}

/// Dropping a user's default groups zeroes their count and keeps every
/// other user's, along with assigned ids.
proof fn lemma_remove_default_counts(gs: Seq<FavGroup>, uid: i64, uid2: i64)
    ensures
        count_defaults(remove_default(gs, uid), uid) == 0,
        uid2 != uid ==> count_defaults(remove_default(gs, uid), uid2) == count_defaults(gs, uid2),
        (forall|i: int| 0 <= i < gs.len() ==> (#[trigger] gs[i].id) is Some) ==> (forall|i: int|
            0 <= i < remove_default(gs, uid).len() ==> (#[trigger] remove_default(gs, uid)[i].id)
                is Some),
    decreases gs.len(),
{
    if gs.len() > 0 {
        lemma_remove_default_counts(gs.drop_last(), uid, uid2);
        if !(gs.last().user_id == uid && gs.last().is_def == 1) {
            lemma_count_defaults_push(remove_default(gs.drop_last(), uid), gs.last(), uid);
            lemma_count_defaults_push(remove_default(gs.drop_last(), uid), gs.last(), uid2);
        }
    }
}

/// A default group at some index means the count is at least one.
proof fn lemma_count_default_at(gs: Seq<FavGroup>, uid: i64, i: int)
    requires
        0 <= i < gs.len(),
        gs[i].user_id == uid,
        gs[i].is_def == 1,
    ensures
        count_defaults(gs, uid) >= 1,
    decreases gs.len(),
{
    if i < gs.len() - 1 {
        lemma_count_default_at(gs.drop_last(), uid, i);
    }
}

/// Two default groups at distinct indexes mean the count is at least two.
proof fn lemma_count_default_two(gs: Seq<FavGroup>, uid: i64, i: int, j: int)
    requires
        0 <= i < j < gs.len(),
        gs[i].user_id == uid && gs[i].is_def == 1,
        gs[j].user_id == uid && gs[j].is_def == 1,
    ensures
        count_defaults(gs, uid) >= 2,
    decreases gs.len(),
{
    if j == gs.len() - 1 {
        lemma_count_default_at(gs.drop_last(), uid, i);
    } else {
        lemma_count_default_two(gs.drop_last(), uid, i, j);
    }
}

/// Rows committed per transaction by a chunked bulk operation.
pub const CHUNK_ROWS: usize = 50;

/// The index of the first group row of the user under this name.
pub open spec fn first_group_index(gs: Seq<FavGroup>, uid: i64, name: Seq<char>) -> int
    decreases gs.len(),
{
    if gs.len() == 0 {
        0
    } else if gs[0].user_id == uid && gs[0].name@ == name {
        0
    } else {
        1 + first_group_index(gs.drop_first(), uid, name)
    }
}

/// The group table without the user's groups under this name.
pub open spec fn remove_group_named(gs: Seq<FavGroup>, uid: i64, name: Seq<char>) -> Seq<FavGroup>
    decreases gs.len(),
{
    if gs.len() == 0 {
        Seq::empty()
    } else {
        let prefix = remove_group_named(gs.drop_last(), uid, name);
        if gs.last().user_id == uid && gs.last().name@ == name {
            prefix
        } else {
            prefix.push(gs.last())
        }
    }
}

/// The favorite table without the rows filed under this group id.
pub open spec fn remove_favs_in_group(fs: Seq<Favorite>, gid: i64) -> Seq<Favorite>
    decreases fs.len(),
{
    if fs.len() == 0 {
        Seq::empty()
    } else {
        let prefix = remove_favs_in_group(fs.drop_last(), gid);
        if fs.last().group_id == gid {
            prefix
        } else {
            prefix.push(fs.last())
        }
    }
}

/// The running state of a chunked group deletion: the tables as the
/// operation sees them, the tables as of the last committed chunk, and
/// the rows deleted in the open chunk.
pub struct DeleteGroupsState {
    pub ok: bool,
    pub groups: Seq<FavGroup>,
    pub favorites: Seq<Favorite>,
    pub snap_groups: Seq<FavGroup>,
    pub snap_favorites: Seq<Favorite>,
    pub cnt: nat,
}

/// Chunked deletion of named groups with their favorites: names are
/// processed in order; a name with no group fails the open chunk, which
/// rolls back to the last committed state; every full chunk of fifty
/// names commits.
pub open spec fn delete_groups_fold(
    gs: Seq<FavGroup>,
    fs: Seq<Favorite>,
    names: Seq<String>,
    uid: i64,
) -> DeleteGroupsState
    decreases names.len(),
{
    if names.len() == 0 {
        DeleteGroupsState {
            ok: true,
            groups: gs,
            favorites: fs,
            snap_groups: gs,
            snap_favorites: fs,
            cnt: 0,
        }
    } else {
        let st = delete_groups_fold(gs, fs, names.drop_last(), uid);
        if !st.ok {
            st
        } else {
            let name = names.last()@;
            if !group_name_exists(st.groups, uid, name) {
                DeleteGroupsState {
                    ok: false,
                    groups: st.snap_groups,
                    favorites: st.snap_favorites,
                    snap_groups: st.snap_groups,
                    snap_favorites: st.snap_favorites,
                    cnt: st.cnt,
                }
            } else {
                let gid = st.groups[first_group_index(st.groups, uid, name)].id->0;
                let gs2 = remove_group_named(st.groups, uid, name);
                let fs2 = remove_favs_in_group(st.favorites, gid);
                if st.cnt + 1 >= CHUNK_ROWS {
                    DeleteGroupsState {
                        ok: true,
                        groups: gs2,
                        favorites: fs2,
                        snap_groups: gs2,
                        snap_favorites: fs2,
                        cnt: 0,
                    }
                } else {
                    DeleteGroupsState {
                        ok: true,
                        groups: gs2,
                        favorites: fs2,
                        snap_groups: st.snap_groups,
                        snap_favorites: st.snap_favorites,
                        cnt: st.cnt + 1,
                    }
                }
            }
        }
    }
}

/// Once a chunked group deletion has failed, the remaining names leave
/// its state untouched.
proof fn lemma_delete_groups_fold_fail(
    gs: Seq<FavGroup>,
    fs: Seq<Favorite>,
    names: Seq<String>,
    uid: i64,
    j: int,
)
    requires
        0 <= j <= names.len(),
        !delete_groups_fold(gs, fs, names.take(j), uid).ok,
    ensures
        delete_groups_fold(gs, fs, names, uid) == delete_groups_fold(gs, fs, names.take(j), uid),
    decreases names.len() - j,
{
    if j == names.len() {
        assert(names.take(j) =~= names);
    } else {
        assert(names.take(j + 1).drop_last() =~= names.take(j));
        lemma_delete_groups_fold_fail(gs, fs, names, uid, j + 1);
    }
}

/// A first match found by a front-to-back scan is what
/// `first_group_index` names.
proof fn lemma_first_group_index_at(gs: Seq<FavGroup>, uid: i64, name: Seq<char>, i: int)
    requires
        0 <= i < gs.len(),
        gs[i].user_id == uid && gs[i].name@ == name,
        forall|j: int| 0 <= j < i ==> !(gs[j].user_id == uid && gs[j].name@ == name),
    ensures
        first_group_index(gs, uid, name) == i,
    decreases i,
{
    if i > 0 {
        lemma_first_group_index_at(gs.drop_first(), uid, name, i - 1);
    }
}

/// Deleting named groups can only lower default counts, and keeps ids
/// assigned.
proof fn lemma_remove_group_named_facts(gs: Seq<FavGroup>, uid: i64, name: Seq<char>, u: i64)
    ensures
        count_defaults(remove_group_named(gs, uid, name), u) <= count_defaults(gs, u),
        (forall|i: int| 0 <= i < gs.len() ==> (#[trigger] gs[i].id) is Some) ==> (forall|i: int|
            0 <= i < remove_group_named(gs, uid, name).len() ==> (#[trigger] remove_group_named(
                gs,
                uid,
                name,
            )[i].id) is Some),
    decreases gs.len(),
{
    if gs.len() > 0 {
        lemma_remove_group_named_facts(gs.drop_last(), uid, name, u);
        if !(gs.last().user_id == uid && gs.last().name@ == name) {
            lemma_count_defaults_push(remove_group_named(gs.drop_last(), uid, name), gs.last(), u);
        }
    }
}

/// The user already has this station filed under this group.
pub open spec fn fav_exists(fs: Seq<Favorite>, uid: i64, gid: i64, station: Seq<char>) -> bool {
    exists|i: int|
        0 <= i < fs.len() && fs[i].user_id == uid && fs[i].group_id == gid && fs[i].stationuuid@
            == station
}

/// The running state of a chunked favorite insert: the table and the id
/// counter as the operation sees them, both as of the last committed
/// chunk, and the rows inserted in the open chunk.
pub struct NewFavoritesState {
    pub ok: bool,
    pub favorites: Seq<Favorite>,
    pub next: int,
    pub snap_favorites: Seq<Favorite>,
    pub snap_next: int,
    pub cnt: nat,
}

/// Chunked insertion of submitted favorites: each is filed under the
/// user's group of that name; a duplicate (user, group, station) row is
/// silently skipped; a missing group fails the open chunk, which rolls
/// back to the last committed state; every full chunk of fifty inserted
/// rows commits.
pub open spec fn new_favorites_fold(
    fs: Seq<Favorite>,
    gs: Seq<FavGroup>,
    items: Seq<StationGroup>,
    uid: i64,
    next: int,
) -> NewFavoritesState
    decreases items.len(),
{
    if items.len() == 0 {
        NewFavoritesState {
            ok: true,
            favorites: fs,
            next: next,
            snap_favorites: fs,
            snap_next: next,
            cnt: 0,
        }
    } else {
        let st = new_favorites_fold(fs, gs, items.drop_last(), uid, next);
        if !st.ok {
            st
        } else {
            let e = items.last();
            if !group_name_exists(gs, uid, e.group_name@) {
                NewFavoritesState {
                    ok: false,
                    favorites: st.snap_favorites,
                    next: st.snap_next,
                    snap_favorites: st.snap_favorites,
                    snap_next: st.snap_next,
                    cnt: st.cnt,
                }
            } else {
                let gid = gs[first_group_index(gs, uid, e.group_name@)].id->0;
                if fav_exists(st.favorites, uid, gid, e.stationuuid@) {
                    st
                } else {
                    let fs2 = st.favorites.push(
                        Favorite {
                            id: Some(st.next as i64),
                            user_id: uid,
                            stationuuid: e.stationuuid,
                            group_id: gid,
                            create_time: e.create_time,
                        },
                    );
                    if st.cnt + 1 >= CHUNK_ROWS {
                        NewFavoritesState {
                            ok: true,
                            favorites: fs2,
                            next: st.next + 1,
                            snap_favorites: fs2,
                            snap_next: st.next + 1,
                            cnt: 0,
                        }
                    } else {
                        NewFavoritesState {
                            ok: true,
                            favorites: fs2,
                            next: st.next + 1,
                            snap_favorites: st.snap_favorites,
                            snap_next: st.snap_next,
                            cnt: st.cnt + 1,
                        }
                    }
                }
            }
        }
    }
}

/// Once a chunked favorite insert has failed, the remaining items leave
/// its state untouched.
proof fn lemma_new_favorites_fold_fail(
    fs: Seq<Favorite>,
    gs: Seq<FavGroup>,
    items: Seq<StationGroup>,
    uid: i64,
    next: int,
    j: int,
)
    requires
        0 <= j <= items.len(),
        !new_favorites_fold(fs, gs, items.take(j), uid, next).ok,
    ensures
        new_favorites_fold(fs, gs, items, uid, next) == new_favorites_fold(
            fs,
            gs,
            items.take(j),
            uid,
            next,
        ),
    decreases items.len() - j,
{
    if j == items.len() {
        assert(items.take(j) =~= items);
    } else {
        assert(items.take(j + 1).drop_last() =~= items.take(j));
        lemma_new_favorites_fold_fail(fs, gs, items, uid, next, j + 1);
    }
}

/// A group of the user with this id exists.
pub open spec fn gid_named(gs: Seq<FavGroup>, uid: i64, gid: i64) -> bool {
    exists|i: int| 0 <= i < gs.len() && gs[i].user_id == uid && gs[i].id == Some(gid)
}

/// The index of the first group row of the user with this id.
pub open spec fn first_gid_index(gs: Seq<FavGroup>, uid: i64, gid: i64) -> int
    decreases gs.len(),
{
    if gs.len() == 0 {
        0
    } else if gs[0].user_id == uid && gs[0].id == Some(gid) {
        0
    } else {
        1 + first_gid_index(gs.drop_first(), uid, gid)
    }
}

/// A first match found by a front-to-back scan is what
/// `first_gid_index` names.
proof fn lemma_first_gid_index_at(gs: Seq<FavGroup>, uid: i64, gid: i64, i: int)
    requires
        0 <= i < gs.len(),
        gs[i].user_id == uid && gs[i].id == Some(gid),
        forall|j: int| 0 <= j < i ==> !(gs[j].user_id == uid && gs[j].id == Some(gid)),
    ensures
        first_gid_index(gs, uid, gid) == i,
    decreases i,
{
    if i > 0 {
        lemma_first_gid_index_at(gs.drop_first(), uid, gid, i - 1);
    }
}

/// The user's favorites joined with the names of their groups, restricted
/// to rows created at or after `since`, in table order.
pub open spec fn favorites_joined(
    fs: Seq<Favorite>,
    gs: Seq<FavGroup>,
    uid: i64,
    since: i64,
) -> Seq<StationGroup>
    decreases fs.len(),
{
    if fs.len() == 0 {
        Seq::empty()
    } else {
        let prefix = favorites_joined(fs.drop_last(), gs, uid, since);
        let f = fs.last();
        if f.user_id == uid && f.create_time >= since && gid_named(gs, uid, f.group_id) {
            prefix.push(
                StationGroup {
                    group_name: gs[first_gid_index(gs, uid, f.group_id)].name,
                    stationuuid: f.stationuuid,
                    create_time: f.create_time,
                },
            )
        } else {
            prefix
        }
    }
}

/// Some string in the list reads as this station id.
pub open spec fn station_listed(list: Seq<String>, s: Seq<char>) -> bool {
    exists|i: int| 0 <= i < list.len() && list[i]@ == s
}

/// Some group row carrying this id, of any user, bears a listed name, as
/// the store resolves group names during favorite deletion.
pub open spec fn fav_group_named_in(gs: Seq<FavGroup>, gid: i64, names: Seq<String>) -> bool {
    exists|i: int, n: int|
        0 <= i < gs.len() && 0 <= n < names.len() && gs[i].id == Some(gid) && gs[i].name@
            == names[n]@
}

/// The favorite table after deleting the user's rows whose station is
/// listed or whose group bears a listed name.
pub open spec fn delete_favs(
    fs: Seq<Favorite>,
    gs: Seq<FavGroup>,
    uid: i64,
    stations: Seq<String>,
    names: Seq<String>,
) -> Seq<Favorite>
    decreases fs.len(),
{
    if fs.len() == 0 {
        Seq::empty()
    } else {
        let prefix = delete_favs(fs.drop_last(), gs, uid, stations, names);
        let f = fs.last();
        if f.user_id == uid && (station_listed(stations, f.stationuuid@) || fav_group_named_in(
            gs,
            f.group_id,
            names,
        )) {
            prefix
        } else {
            prefix.push(f)
        }
    }
}

/// The user has this station among their favorites, in any group.
pub open spec fn fav_station_exists(fs: Seq<Favorite>, uid: i64, station: Seq<char>) -> bool {
    exists|i: int| 0 <= i < fs.len() && fs[i].user_id == uid && fs[i].stationuuid@ == station
}

/// The favorite table without the user's rows for this station.
pub open spec fn remove_station_favs(fs: Seq<Favorite>, uid: i64, station: Seq<char>) -> Seq<
    Favorite,
>
    decreases fs.len(),
{
    if fs.len() == 0 {
        Seq::empty()
    } else {
        let prefix = remove_station_favs(fs.drop_last(), uid, station);
        let f = fs.last();
        if f.user_id == uid && f.stationuuid@ == station {
            prefix
        } else {
            prefix.push(f)
        }
    }
}

/// The favorite rows refiling one station under each of the user's
/// groups bearing a listed name, with consecutively allocated ids.
pub open spec fn favs_for_groups(
    gs: Seq<FavGroup>,
    names: Seq<String>,
    uid: i64,
    station: String,
    now: i64,
    next: int,
) -> (Seq<Favorite>, int)
    decreases gs.len(),
{
    if gs.len() == 0 {
        (Seq::empty(), next)
    } else {
        let r = favs_for_groups(gs.drop_last(), names, uid, station, now, next);
        let g = gs.last();
        if g.user_id == uid && station_listed(names, g.name@) {
            (
                r.0.push(
                    Favorite {
                        id: Some(r.1 as i64),
                        user_id: uid,
                        stationuuid: station,
                        group_id: g.id->0,
                        create_time: now,
                    },
                ),
                r.1 + 1,
            )
        } else {
            r
        }
    }
}

/// The favorite groups of a user created at or after `since`, in table
/// order.
pub open spec fn groups_since(gs: Seq<FavGroup>, uid: i64, since: i64) -> Seq<FavGroup>
    decreases gs.len(),
{
    if gs.len() == 0 {
        Seq::empty()
    } else {
        let prefix = groups_since(gs.drop_last(), uid, since);
        if gs.last().user_id == uid && gs.last().create_time >= since {
            prefix.push(gs.last())
        } else {
            prefix
        }
    }
}

/// The recently-played rows of a user started at or after `since`, in
/// table order.
pub open spec fn recently_since(rs: Seq<Recently>, uid: i64, since: i64) -> Seq<Recently>
    decreases rs.len(),
{
    if rs.len() == 0 {
        Seq::empty()
    } else {
        let prefix = recently_since(rs.drop_last(), uid, since);
        if rs.last().user_id == uid && rs.last().start_time >= since {
            prefix.push(rs.last())
        } else {
            prefix
        }
    }
}

/// A session row with this token exists.
pub open spec fn token_taken(sessions: Seq<Session>, token: Seq<char>) -> bool {
    exists|i: int| 0 <= i < sessions.len() && sessions[i].token@ == token
}

/// The index of the session row with this token.
pub open spec fn token_index(sessions: Seq<Session>, token: Seq<char>) -> int {
    choose|i: int| 0 <= i < sessions.len() && sessions[i].token@ == token
}

/// A sequence without `'@'` is its own local part.
proof fn lemma_local_part_no_at(s: Seq<char>)
    requires
        forall|i: int| 0 <= i < s.len() ==> s[i] != '@',
    ensures
        local_part(s) == s,
    decreases s.len(),
{
    if s.len() > 0 {
        lemma_local_part_no_at(s.drop_first());
        assert(seq![s[0]] + s.drop_first() =~= s);
    }
}

/// With the first `'@'` at `k`, the local part is the prefix before it.
proof fn lemma_local_part_at(s: Seq<char>, k: int)
    requires
        0 <= k < s.len(),
        s[k] == '@',
        forall|i: int| 0 <= i < k ==> s[i] != '@',
    ensures
        local_part(s) == s.take(k),
    decreases k,
{
    if k == 0 {
        assert(s.take(0) =~= Seq::<char>::empty());
    } else {
        lemma_local_part_at(s.drop_first(), k - 1);
        assert(s.drop_first().take(k - 1) == local_part(s.drop_first()));
        assert(seq![s[0]] + s.drop_first().take(k - 1) =~= s.take(k));
    }
}

/// Appending a user row keeps every previously present user id present.
proof fn lemma_push_keeps_user_id(users: Seq<User>, u: User, uid: i64)
    requires
        user_id_exists(users, uid),
    ensures
        user_id_exists(users.push(u), uid),
{
    let w = choose|w: int| 0 <= w < users.len() && users[w].id == Some(uid);
    assert(users.push(u)[w].id == Some(uid));
}

/// Appending a membership row keeps every previously present pair present.
proof fn lemma_push_keeps_membership(ms: Seq<ProductUser>, m: ProductUser, uid: i64, pid: i64)
    requires
        has_membership(ms, uid, pid),
    ensures
        has_membership(ms.push(m), uid, pid),
{
    let w = choose|w: int| 0 <= w < ms.len() && ms[w].user_id == uid && ms[w].product_id == pid;
    assert(ms.push(m)[w].user_id == uid && ms.push(m)[w].product_id == pid);
}

/// The sessions kept by the expiry sweep: those not yet expired at `now`.
pub open spec fn live_sessions(ss: Seq<Session>, now: i64) -> Seq<Session>
    decreases ss.len(),
{
    if ss.len() == 0 {
        Seq::empty()
    } else {
        let prefix = live_sessions(ss.drop_last(), now);
        if ss.last().expire <= now {
            prefix
        } else {
            prefix.push(ss.last())
        }
    }
}

/// What survives the sweep comes from the original table, and distinct
/// tokens stay distinct.
proof fn lemma_live_sessions_facts(ss: Seq<Session>, now: i64)
    requires
        forall|i: int, j: int| 0 <= i < j < ss.len() ==> ss[i].token@ != ss[j].token@,
    ensures
        forall|j: int|
            0 <= j < live_sessions(ss, now).len() ==> (exists|o: int|
                0 <= o < ss.len() && #[trigger] live_sessions(ss, now)[j] == ss[o]),
        forall|i: int, j: int|
            0 <= i < j < live_sessions(ss, now).len() ==> live_sessions(ss, now)[i].token@
                != live_sessions(ss, now)[j].token@,
    decreases ss.len(),
{
    if ss.len() > 0 {
        let rest = ss.drop_last();
        let live = live_sessions(ss, now);
        let prefix = live_sessions(rest, now);
        lemma_live_sessions_facts(rest, now);
        assert forall|j: int| 0 <= j < live.len() implies (exists|o: int|
            0 <= o < ss.len() && #[trigger] live[j] == ss[o]) by {
            if j < prefix.len() {
                let o = choose|o: int| 0 <= o < rest.len() && prefix[j] == rest[o];
                assert(live[j] == ss[o]);
            } else {
                assert(live[j] == ss[ss.len() - 1]);
            }
        }
        assert forall|i: int, j: int| 0 <= i < j < live.len() implies live[i].token@
            != live[j].token@ by {
            if j == prefix.len() && live.len() > prefix.len() {
                let o = choose|o: int| 0 <= o < rest.len() && prefix[i] == rest[o];
                assert(live[i] == ss[o]);
                assert(live[j] == ss[ss.len() - 1]);
            }
        }
    }
}

/// The recently-played rows kept when a user clears their history:
/// everyone else's.
pub open spec fn recently_without(rs: Seq<Recently>, uid: i64) -> Seq<Recently>
    decreases rs.len(),
{
    if rs.len() == 0 {
        Seq::empty()
    } else {
        let prefix = recently_without(rs.drop_last(), uid);
        if rs.last().user_id == uid {
            prefix
        } else {
            prefix.push(rs.last())
        }
    }
}

/// Rewriting user rows without touching ids or emails preserves every
/// store invariant.
proof fn lemma_users_field_update_wf(pre: MemRepo, post: MemRepo)
    requires
        pre.wf(),
        post.users@.len() == pre.users@.len(),
        forall|j: int|
            0 <= j < pre.users@.len() ==> (#[trigger] post.users@[j]).id == pre.users@[j].id
                && post.users@[j].email@ == pre.users@[j].email@,
        post.products@ == pre.products@,
        post.memberships@ == pre.memberships@,
        post.sessions@ == pre.sessions@,
        post.recently@ == pre.recently@,
        post.groups@ == pre.groups@,
        post.favorites@ == pre.favorites@,
        post.next_id == pre.next_id,
        post.expire_millis == pre.expire_millis,
        post.refresh_millis == pre.refresh_millis,
    ensures
        post.wf(),
{
    assert forall|uid: i64|
        user_id_exists(pre.users@, uid) implies #[trigger] user_id_exists(post.users@, uid) by {
        let w = choose|w: int| 0 <= w < pre.users@.len() && pre.users@[w].id == Some(uid);
        assert(post.users@[w].id == Some(uid));
    }
    assert forall|i: int|
        0 <= i < post.memberships@.len() implies user_id_exists(
        post.users@,
        (#[trigger] post.memberships@[i]).user_id,
    ) by {
        assert(user_id_exists(pre.users@, pre.memberships@[i].user_id));
    }
    assert forall|i: int|
        0 <= i < post.sessions@.len() implies user_id_exists(
        post.users@,
        (#[trigger] post.sessions@[i]).user_id,
    ) by {
        assert(user_id_exists(pre.users@, pre.sessions@[i].user_id));
    }
}

/// Rewriting membership rows without touching ids, keys or statuses
/// preserves every store invariant.
proof fn lemma_memberships_field_update_wf(pre: MemRepo, post: MemRepo)
    requires
        pre.wf(),
        post.memberships@.len() == pre.memberships@.len(),
        forall|j: int|
            0 <= j < pre.memberships@.len() ==> (#[trigger] post.memberships@[j]).id
                == pre.memberships@[j].id && post.memberships@[j].user_id
                == pre.memberships@[j].user_id && post.memberships@[j].product_id
                == pre.memberships@[j].product_id && post.memberships@[j].status@
                == pre.memberships@[j].status@,
        post.users@ == pre.users@,
        post.products@ == pre.products@,
        post.sessions@ == pre.sessions@,
        post.recently@ == pre.recently@,
        post.groups@ == pre.groups@,
        post.favorites@ == pre.favorites@,
        post.next_id == pre.next_id,
        post.expire_millis == pre.expire_millis,
        post.refresh_millis == pre.refresh_millis,
    ensures
        post.wf(),
{
    assert forall|uid: i64, pid: i64|
        has_membership(pre.memberships@, uid, pid) implies #[trigger] has_membership(
        post.memberships@,
        uid,
        pid,
    ) by {
        let w = choose|w: int|
            0 <= w < pre.memberships@.len() && pre.memberships@[w].user_id == uid
                && pre.memberships@[w].product_id == pid;
        assert(post.memberships@[w].user_id == uid && post.memberships@[w].product_id == pid);
    }
    assert forall|i: int|
        0 <= i < post.sessions@.len() implies has_membership(
        post.memberships@,
        (#[trigger] post.sessions@[i]).user_id,
        post.sessions@[i].product_id,
    ) by {
        assert(has_membership(
            pre.memberships@,
            pre.sessions@[i].user_id,
            pre.sessions@[i].product_id,
        ));
    }
}

/// Removing one session row preserves every store invariant.
proof fn lemma_sessions_remove_wf(pre: MemRepo, post: MemRepo, i: int)
    requires
        pre.wf(),
        0 <= i < pre.sessions@.len(),
        post.sessions@ == pre.sessions@.remove(i),
        post.users@ == pre.users@,
        post.products@ == pre.products@,
        post.memberships@ == pre.memberships@,
        post.recently@ == pre.recently@,
        post.groups@ == pre.groups@,
        post.favorites@ == pre.favorites@,
        post.next_id == pre.next_id,
        post.expire_millis == pre.expire_millis,
        post.refresh_millis == pre.refresh_millis,
    ensures
        post.wf(),
{
    assert forall|j: int| 0 <= j < post.sessions@.len() implies ((#[trigger] post.sessions@[j]).id
        is Some && 0 < post.sessions@[j].id->0 < post.next_id && user_id_exists(
        post.users@,
        post.sessions@[j].user_id,
    ) && has_membership(
        post.memberships@,
        post.sessions@[j].user_id,
        post.sessions@[j].product_id,
    )) by {
        if j < i {
            assert(post.sessions@[j] == pre.sessions@[j]);
        } else {
            assert(post.sessions@[j] == pre.sessions@[j + 1]);
        }
    }
    assert forall|j1: int, j2: int| 0 <= j1 < j2 < post.sessions@.len() implies post.sessions@[
    j1].token@ != post.sessions@[j2].token@ by {
        let o1 = if j1 < i { j1 } else { j1 + 1 };
        let o2 = if j2 < i { j2 } else { j2 + 1 };
        assert(post.sessions@[j1] == pre.sessions@[o1]);
        assert(post.sessions@[j2] == pre.sessions@[o2]);
    }
}

/// The executable form of `local_part`: everything before the first `'@'`.
#[verifier::loop_isolation(false)]
fn local_part_exec(email: &str) -> (r: String)
    ensures
        r@ == local_part(email@),
{
    let n = email.unicode_len();
    let mut out = String::new();
    let mut k: usize = 0;
    while k < n
        invariant
            k <= n,
            n == email@.len(),
            out@ == email@.take(k as int),
            forall|i: int| 0 <= i < k ==> email@[i] != '@',
        decreases n - k,
    {
        let c = email.get_char(k);
        if c == '@' {
            proof {
                lemma_local_part_at(email@, k as int);
            }
            return out;
        }
        crate::codec::push_char(&mut out, c);
        proof {
            assert(email@.take(k as int).push(c) =~= email@.take(k as int + 1));
        }
        k = k + 1;
    }
    proof {
        lemma_local_part_no_at(email@);
        assert(email@.take(n as int) =~= email@);
    }
    out
}

/// First user row carrying this email, scanning from the front.
#[verifier::loop_isolation(false)]
fn find_user_by_email(users: &Vec<User>, email: &String) -> (r: Option<usize>)
    ensures
        r matches Some(i) ==> i < users@.len() && users@[i as int].email@ == email@,
        r is None ==> !email_taken(users@, email@),
        r is Some <==> email_taken(users@, email@),
{
    let mut k: usize = 0;
    while k < users.len()
        invariant
            k <= users@.len(),
            forall|j: int| 0 <= j < k ==> users@[j].email@ != email@,
        decreases users@.len() - k,
    {
        if users[k].email == *email {
            return Some(k);
        }
        k = k + 1;
    }
    None
}

/// First product row carrying this code, whatever its status.
#[verifier::loop_isolation(false)]
fn find_product_by_code(products: &Vec<Product>, code: &String) -> (r: Option<usize>)
    ensures
        r matches Some(i) ==> i < products@.len() && products@[i as int].product@ == code@,
        r is Some <==> product_known(products@, code@),
{
    let mut k: usize = 0;
    while k < products.len()
        invariant
            k <= products@.len(),
            forall|j: int| 0 <= j < k ==> products@[j].product@ != code@,
        decreases products@.len() - k,
    {
        if products[k].product == *code {
            return Some(k);
        }
        k = k + 1;
    }
    None
}

/// Whether a status column holds the normal code.
fn status_is_normal(s: &String) -> (r: bool)
    ensures
        r == (s@ == status_normal()),
{
    let normal = String::from_str(crate::model::USER_STATUS_NORMAL);
    *s == normal
}

/// First normal-status product row carrying this code.
#[verifier::loop_isolation(false)]
fn find_open_product_by_code(products: &Vec<Product>, code: &String) -> (r: Option<usize>)
    ensures
        r matches Some(i) ==> i < products@.len() && products@[i as int].product@ == code@
            && products@[i as int].status@ == status_normal(),
        r is Some <==> product_open(products@, code@),
{
    let mut k: usize = 0;
    while k < products.len()
        invariant
            k <= products@.len(),
            forall|j: int|
                0 <= j < k ==> !(products@[j].product@ == code@ && products@[j].status@
                    == status_normal()),
        decreases products@.len() - k,
    {
        if products[k].product == *code && status_is_normal(&products[k].status) {
            return Some(k);
        }
        k = k + 1;
    }
    None
}

/// First session row carrying this token.
#[verifier::loop_isolation(false)]
fn find_session_by_token(sessions: &Vec<Session>, token: &String) -> (r: Option<usize>)
    ensures
        r matches Some(i) ==> i < sessions@.len() && sessions@[i as int].token@ == token@,
        r is Some <==> token_taken(sessions@, token@),
{
    let mut k: usize = 0;
    while k < sessions.len()
        invariant
            k <= sessions@.len(),
            forall|j: int| 0 <= j < k ==> sessions@[j].token@ != token@,
        decreases sessions@.len() - k,
    {
        if sessions[k].token == *token {
            return Some(k);
        }
        k = k + 1;
    }
    None
}

/// The index of a normal-status product row with this code for which the
/// user holds a normal-status membership.
#[verifier::loop_isolation(false)]
fn find_open_membership_product(
    products: &Vec<Product>,
    ms: &Vec<ProductUser>,
    uid: i64,
    code: &String,
) -> (r: Option<usize>)
    ensures
        r matches Some(i) ==> i < products@.len() && products@[i as int].product@ == code@
            && products@[i as int].status@ == status_normal() && (exists|j: int|
            0 <= j < ms@.len() && ms@[j].user_id == uid && products@[i as int].id == Some(
                ms@[j].product_id,
            ) && ms@[j].status@ == status_normal()),
        r is Some <==> open_membership(products@, ms@, uid, code@),
{
    let mut k: usize = 0;
    while k < products.len()
        invariant
            k <= products@.len(),
            forall|i: int, j: int|
                0 <= i < k && 0 <= j < ms@.len() ==> !(products@[i].product@ == code@
                    && products@[i].status@ == status_normal() && ms@[j].user_id == uid
                    && products@[i].id == Some(ms@[j].product_id) && ms@[j].status@
                    == status_normal()),
        decreases products@.len() - k,
    {
        if products[k].product == *code && status_is_normal(&products[k].status) {
            let mut j: usize = 0;
            while j < ms.len()
                invariant
                    k < products@.len(),
                    j <= ms@.len(),
                    products@[k as int].product@ == code@,
                    products@[k as int].status@ == status_normal(),
                    forall|j2: int|
                        0 <= j2 < j ==> !(ms@[j2].user_id == uid && products@[k as int].id == Some(
                            ms@[j2].product_id,
                        ) && ms@[j2].status@ == status_normal()),
                decreases ms@.len() - j,
            {
                if ms[j].user_id == uid && products[k].id == Some(ms[j].product_id)
                    && status_is_normal(&ms[j].status) {
                    return Some(k);
                }
                j = j + 1;
            }
        }
        k = k + 1;
    }
    None
}

/// What a successful registration did: the user row appended with the
/// hashed password and the name taken from the email's local part, and a
/// fresh membership row for the named product, everything else untouched.
pub open spec fn create_user_ok(
    pre: MemRepo,
    post: MemRepo,
    signup: SignUpReq,
    now: i64,
    u: User,
) -> bool {
    let m = post.memberships@.last();
    &&& u == post.users@.last()
    &&& post.users@ == pre.users@.push(u)
    &&& u.id == Some(pre.next_id)
    &&& u.email == signup.email
    &&& u.user_name@ == local_part(signup.email@)
    &&& u.passwd@ == passwd_hash(signup.email@, signup.passwd@)
    &&& u.status@ == status_normal()
    &&& u.update_time == now
    &&& post.memberships@ == pre.memberships@.push(m)
    &&& m.id == Some((pre.next_id + 1) as i64)
    &&& m.user_id == pre.next_id
    &&& Some(m.product_id) == pre.products@[product_index(pre.products@, signup.product@)].id
    &&& m.avatar@.len() == 0
    &&& m.status@ == status_normal()
    &&& m.update_time == now
    &&& post.next_id == pre.next_id + 2
    &&& post.products@ == pre.products@
    &&& post.sessions@ == pre.sessions@
    &&& post.recently@ == pre.recently@
    &&& post.groups@ == pre.groups@
    &&& post.favorites@ == pre.favorites@
}

/// What a successful sign-in did: the stored user returned, the open
/// product resolved, and one fresh session row persisted with a sliding
/// expiry, everything else untouched but for a lazily provisioned
/// membership.
pub open spec fn signin_ok(
    pre: MemRepo,
    post: MemRepo,
    signin: SignInReq,
    now: i64,
    t: (User, Product, Session),
) -> bool {
    let u = pre.users@[user_index(pre.users@, signin.email@)];
    let s = post.sessions@.last();
    &&& email_taken(pre.users@, signin.email@)
    &&& u.passwd@ == passwd_hash(u.email@, signin.passwd@)
    &&& t.0 == u
    &&& t.1.product@ == signin.product@
    &&& t.1.status@ == status_normal()
    &&& t.1.id is Some
    &&& t.2 == s
    &&& post.sessions@ == pre.sessions@.push(s)
    &&& s.user_id == u.id->0
    &&& Some(s.product_id) == t.1.id
    &&& s.expire == now + pre.expire_millis
    &&& s.token@.len() == TOKEN_LEN
    &&& s.id is Some
    &&& open_membership(post.products@, post.memberships@, u.id->0, signin.product@)
    &&& post.users@ == pre.users@
    &&& post.products@ == pre.products@
    &&& post.recently@ == pre.recently@
    &&& post.groups@ == pre.groups@
    &&& post.favorites@ == pre.favorites@
    &&& (open_membership(pre.products@, pre.memberships@, u.id->0, signin.product@)
        ==> post.memberships@ == pre.memberships@)
}

/// The single relational store plus the session-expiry configuration.
/// It is the sole owner of all persisted state.
pub struct MemRepo {
    pub users: Vec<User>,
    pub products: Vec<Product>,
    pub memberships: Vec<ProductUser>,
    pub sessions: Vec<Session>,
    pub recently: Vec<Recently>,
    pub groups: Vec<FavGroup>,
    pub favorites: Vec<Favorite>,
    pub next_id: i64,
    pub expire_millis: i64,
    pub refresh_millis: i64,
}

impl MemRepo {
    /// Every row id is assigned, below the allocation counter, and unique
    /// within its table.
    pub open spec fn ids_ok(self) -> bool {
        &&& 1 <= self.next_id
        &&& forall|i: int|
            0 <= i < self.users@.len() ==> (#[trigger] self.users@[i].id) is Some && 0
                < self.users@[i].id->0 < self.next_id
        &&& forall|i: int, j: int|
            0 <= i < j < self.users@.len() ==> self.users@[i].id != self.users@[j].id
        &&& forall|i: int|
            0 <= i < self.products@.len() ==> (#[trigger] self.products@[i].id) is Some && 0
                < self.products@[i].id->0 < self.next_id
        &&& forall|i: int, j: int|
            0 <= i < j < self.products@.len() ==> self.products@[i].id != self.products@[j].id
        &&& forall|i: int|
            0 <= i < self.memberships@.len() ==> (#[trigger] self.memberships@[i].id) is Some && 0
                < self.memberships@[i].id->0 < self.next_id
        &&& forall|i: int|
            0 <= i < self.sessions@.len() ==> (#[trigger] self.sessions@[i].id) is Some && 0
                < self.sessions@[i].id->0 < self.next_id
        &&& forall|i: int| 0 <= i < self.groups@.len() ==> (#[trigger] self.groups@[i].id) is Some
    }

    /// Emails identify users; product codes identify products.
    pub open spec fn keys_unique(self) -> bool {
        &&& forall|i: int, j: int|
            0 <= i < j < self.users@.len() ==> self.users@[i].email@ != self.users@[j].email@
        &&& forall|i: int, j: int|
            0 <= i < j < self.products@.len() ==> self.products@[i].product@
                != self.products@[j].product@
        &&& forall|i: int, j: int|
            0 <= i < j < self.sessions@.len() ==> self.sessions@[i].token@
                != self.sessions@[j].token@
    }

    /// At most one membership row per (user, product) pair, and each row
    /// references an existing user and product.
    pub open spec fn memberships_ok(self) -> bool {
        &&& forall|i: int, j: int|
            0 <= i < j < self.memberships@.len() ==> !(self.memberships@[i].user_id
                == self.memberships@[j].user_id && self.memberships@[i].product_id
                == self.memberships@[j].product_id)
        &&& forall|i: int|
            0 <= i < self.memberships@.len() ==> user_id_exists(
                self.users@,
                (#[trigger] self.memberships@[i]).user_id,
            ) && product_id_exists(self.products@, self.memberships@[i].product_id)
        &&& forall|i: int|
            0 <= i < self.memberships@.len() ==> (#[trigger] self.memberships@[i]).status@
                == status_normal()
    }

    /// A live session always references an existing user and an existing
    /// membership for its product.
    pub open spec fn sessions_ok(self) -> bool {
        forall|i: int|
            0 <= i < self.sessions@.len() ==> user_id_exists(
                self.users@,
                (#[trigger] self.sessions@[i]).user_id,
            ) && has_membership(
                self.memberships@,
                self.sessions@[i].user_id,
                self.sessions@[i].product_id,
            )
    }

    /// At most one default favorite group per user.
    pub open spec fn one_default_ok(self) -> bool {
        forall|uid: i64| #[trigger] count_defaults(self.groups@, uid) <= 1
    }

    /// Expiry configuration sane: nonnegative windows that cannot overflow
    /// any representable timestamp when added to it.
    pub open spec fn config_ok(self) -> bool {
        &&& 0 <= self.refresh_millis
        &&& 0 <= self.expire_millis
    }

    /// The well-formedness every operation preserves.
    pub open spec fn wf(self) -> bool {
        &&& self.ids_ok()
        &&& self.keys_unique()
        &&& self.memberships_ok()
        &&& self.sessions_ok()
        &&& self.one_default_ok()
        &&& self.config_ok()
    }

    /// The configuration fields are untouched.
    pub open spec fn same_config(self, other: MemRepo) -> bool {
        &&& self.expire_millis == other.expire_millis
        &&& self.refresh_millis == other.refresh_millis
    }

    /// An empty store with the given session expiry and refresh windows,
    /// in milliseconds.
    pub fn new(expire_millis: i64, refresh_millis: i64) -> (r: MemRepo)
        requires
            0 <= refresh_millis,
            0 <= expire_millis,
        ensures
            r.wf(),
            r.users@.len() == 0,
            r.products@.len() == 0,
            r.memberships@.len() == 0,
            r.sessions@.len() == 0,
            r.recently@.len() == 0,
            r.groups@.len() == 0,
            r.favorites@.len() == 0,
            r.next_id == 1,
            r.expire_millis == expire_millis,
            r.refresh_millis == refresh_millis,
    {
        MemRepo {
            users: Vec::new(),
            products: Vec::new(),
            memberships: Vec::new(),
            sessions: Vec::new(),
            recently: Vec::new(),
            groups: Vec::new(),
            favorites: Vec::new(),
            next_id: 1,
            expire_millis,
            refresh_millis,
        }
    }

    /// Seed one product definition, as done out of band in deployment.
    /// Fails with `Custom` when the code is already present.
    #[verifier::loop_isolation(false)]
    pub fn add_product(&mut self, code: String, desc: String, now: i64) -> (r: AppResult<i64>)
        requires
            old(self).wf(),
            old(self).next_id < i64::MAX,
        ensures
            final(self).wf(),
            old(self).same_config(*final(self)),
            r is Ok <==> !product_known(old(self).products@, code@),
            r is Err ==> *final(self) == *old(self),
            r matches Ok(pid) ==> ({
                let p = final(self).products@.last();
                &&& pid == old(self).next_id
                &&& final(self).products@ == old(self).products@.push(p)
                &&& p.id == Some(pid)
                &&& p.product == code
                &&& p.desc == desc
                &&& p.status@ == status_normal()
                &&& p.update_time == now
                &&& final(self).next_id == old(self).next_id + 1
                &&& final(self).users@ == old(self).users@
                &&& final(self).memberships@ == old(self).memberships@
                &&& final(self).sessions@ == old(self).sessions@
                &&& final(self).recently@ == old(self).recently@
                &&& final(self).groups@ == old(self).groups@
                &&& final(self).favorites@ == old(self).favorites@
            }),
    {
        let mut k: usize = 0;
        while k < self.products.len()
            invariant
                k <= self.products@.len(),
                forall|j: int| 0 <= j < k ==> self.products@[j].product@ != code@,
            decreases self.products@.len() - k,
        {
            if self.products[k].product == code {
                return Err(Error::Custom(self.products[k].product.clone()));
            }
            k = k + 1;
        }
        let pid = self.next_id;
        self.next_id = self.next_id + 1;
        let row = Product {
            id: Some(pid),
            product: code,
            desc: desc,
            status: String::from_str(crate::model::PRODUCT_STATUS_NORMAL),
            update_time: now,
        };
        self.products.push(row);
        proof {
            assert forall|i: int|
                0 <= i < self.memberships@.len() implies product_id_exists(
                self.products@,
                (#[trigger] self.memberships@[i]).product_id,
            ) by {
                assert(product_id_exists(old(self).products@, self.memberships@[i].product_id));
                let w = choose|w: int|
                    0 <= w < old(self).products@.len() && old(self).products@[w].id == Some(
                        self.memberships@[i].product_id,
                    );
                assert(self.products@[w].id == Some(self.memberships@[i].product_id));
            }
        }
        Ok(pid)
    }

    /// Register a new user and their membership for the named product, in
    /// one transaction.  Fails with `UserExists` when the email is already
    /// registered and with `ProductNotExists` when the product code is
    /// unknown; on failure nothing is persisted.
    #[verifier::loop_isolation(false)]
    pub fn create_user(&mut self, signup: &SignUpReq, now: i64) -> (r: AppResult<User>)
        requires
            old(self).wf(),
        ensures
            final(self).wf(),
            old(self).same_config(*final(self)),
            r is Err ==> *final(self) == *old(self),
            email_taken(old(self).users@, signup.email@) ==> r matches Err(
                Error::UserExists(_),
            ),
            !email_taken(old(self).users@, signup.email@) && !product_known(
                old(self).products@,
                signup.product@,
            ) ==> r matches Err(Error::ProductNotExists),
            !email_taken(old(self).users@, signup.email@) && product_known(
                old(self).products@,
                signup.product@,
            ) && old(self).next_id > i64::MAX - 2 ==> r matches Err(Error::DatabaseException(_)),
            r is Ok <==> (!email_taken(old(self).users@, signup.email@) && product_known(
                old(self).products@,
                signup.product@,
            ) && old(self).next_id <= i64::MAX - 2),
            r matches Ok(u) ==> create_user_ok(*old(self), *final(self), *signup, now, u),
    {
        if find_user_by_email(&self.users, &signup.email).is_some() {
            return Err(Error::UserExists(signup.email.clone()));
        }
        let pi = match find_product_by_code(&self.products, &signup.product) {
            Some(pi) => pi,
            None => {
                return Err(Error::ProductNotExists);
            },
        };
        if self.next_id > i64::MAX - 2 {
            return Err(Error::DatabaseException(String::from_str("id space exhausted")));
        }
        proof {
            assert(self.products@[pi as int].id is Some);
            let ci = product_index(self.products@, signup.product@);
            assert(self.products@[ci].product@ == signup.product@);
            assert(ci == pi as int);
        }
        let pid = self.products[pi].id.unwrap();
        let uid = self.next_id;
        let passwd = gen_passwd(signup.email.as_str(), signup.passwd.as_str());
        let user = User {
            id: Some(uid),
            user_name: local_part_exec(signup.email.as_str()),
            email: signup.email.clone(),
            passwd,
            status: String::from_str(crate::model::USER_STATUS_NORMAL),
            update_time: now,
        };
        let member = ProductUser {
            id: Some(uid + 1),
            user_id: uid,
            product_id: pid,
            avatar: String::new(),
            status: String::from_str(crate::model::USER_PRODUCT_STATUS_NORMAL),
            update_time: now,
        };
        let result = user.clone();
        self.users.push(user);
        self.memberships.push(member);
        self.next_id = self.next_id + 2;
        proof {
            let post = *self;
            let pre = *old(self);
            assert forall|i: int|
                0 <= i < post.memberships@.len() implies user_id_exists(
                post.users@,
                (#[trigger] post.memberships@[i]).user_id,
            ) && product_id_exists(post.products@, post.memberships@[i].product_id) by {
                if i < pre.memberships@.len() {
                    lemma_push_keeps_user_id(
                        pre.users@,
                        post.users@.last(),
                        pre.memberships@[i].user_id,
                    );
                } else {
                    assert(post.users@.last().id == Some(uid));
                    assert(post.users@[post.users@.len() - 1].id == Some(uid));
                }
            }
            // the fresh membership pair cannot collide: every older row's
            // user id belongs to a user whose id is below the fresh one
            assert forall|i: int, j: int|
                0 <= i < j < post.memberships@.len() implies !(post.memberships@[i].user_id
                == post.memberships@[j].user_id && post.memberships@[i].product_id
                == post.memberships@[j].product_id) by {
                if j == post.memberships@.len() - 1 {
                    let w = choose|w: int|
                        0 <= w < pre.users@.len() && pre.users@[w].id == Some(
                            pre.memberships@[i].user_id,
                        );
                    assert(pre.users@[w].id->0 < pre.next_id);
                }
            }
            assert forall|i: int|
                0 <= i < post.sessions@.len() implies user_id_exists(
                post.users@,
                (#[trigger] post.sessions@[i]).user_id,
            ) && has_membership(
                post.memberships@,
                post.sessions@[i].user_id,
                post.sessions@[i].product_id,
            ) by {
                lemma_push_keeps_user_id(pre.users@, post.users@.last(), pre.sessions@[i].user_id);
                lemma_push_keeps_membership(
                    pre.memberships@,
                    post.memberships@.last(),
                    pre.sessions@[i].user_id,
                    pre.sessions@[i].product_id,
                );
            }
        }
        Ok(result)
    }

    /// Append one membership row for an existing user; shared by sign-in
    /// provisioning and `open_product`.
    fn push_membership(&mut self, uid: i64, pid: i64, now: i64)
        requires
            old(self).wf(),
            old(self).next_id < i64::MAX,
            user_id_exists(old(self).users@, uid),
            product_id_exists(old(self).products@, pid),
            !has_membership(old(self).memberships@, uid, pid),
        ensures
            final(self).wf(),
            old(self).same_config(*final(self)),
            final(self).memberships@ == old(self).memberships@.push(
                final(self).memberships@.last(),
            ),
            ({
                let m = final(self).memberships@.last();
                &&& m.id == Some(old(self).next_id)
                &&& m.user_id == uid
                &&& m.product_id == pid
                &&& m.avatar@.len() == 0
                &&& m.status@ == status_normal()
                &&& m.update_time == now
            }),
            final(self).next_id == old(self).next_id + 1,
            final(self).users@ == old(self).users@,
            final(self).products@ == old(self).products@,
            final(self).sessions@ == old(self).sessions@,
            final(self).recently@ == old(self).recently@,
            final(self).groups@ == old(self).groups@,
            final(self).favorites@ == old(self).favorites@,
    {
        let member = ProductUser {
            id: Some(self.next_id),
            user_id: uid,
            product_id: pid,
            avatar: String::new(),
            status: String::from_str(crate::model::USER_PRODUCT_STATUS_NORMAL),
            update_time: now,
        };
        self.memberships.push(member);
        self.next_id = self.next_id + 1;
        proof {
            let post = *self;
            let pre = *old(self);
            assert forall|i: int|
                0 <= i < post.sessions@.len() implies user_id_exists(
                post.users@,
                (#[trigger] post.sessions@[i]).user_id,
            ) && has_membership(
                post.memberships@,
                post.sessions@[i].user_id,
                post.sessions@[i].product_id,
            ) by {
                lemma_push_keeps_membership(
                    pre.memberships@,
                    post.memberships@.last(),
                    pre.sessions@[i].user_id,
                    pre.sessions@[i].product_id,
                );
            }
        }
    }

    /// Sign a user in: verify the password, resolve (or, when asked,
    /// lazily provision) the membership for the named product, and persist
    /// a fresh session token.  Wrong credentials and missing memberships
    /// leave the store unchanged; in particular no session row is created.
    #[verifier::loop_isolation(false)]
    pub fn signin_user(&mut self, signin: &SignInReq, now: i64) -> (r: AppResult<
        (User, Product, Session),
    >)
        requires
            old(self).wf(),
            now <= i64::MAX - old(self).expire_millis,
            old(self).next_id <= i64::MAX - 2,
        ensures
            final(self).wf(),
            old(self).same_config(*final(self)),
            r matches Err(e) ==> (e is DatabaseException || *final(self) == *old(self)),
            !email_taken(old(self).users@, signin.email@) ==> r matches Err(Error::UserNotExists),
            ({
                let u = old(self).users@[user_index(old(self).users@, signin.email@)];
                &&& email_taken(old(self).users@, signin.email@) && u.passwd@ != passwd_hash(
                    u.email@,
                    signin.passwd@,
                ) ==> (r matches Err(Error::UserPasswdError))
                &&& email_taken(old(self).users@, signin.email@) && u.passwd@ == passwd_hash(
                    u.email@,
                    signin.passwd@,
                ) && !open_membership(
                    old(self).products@,
                    old(self).memberships@,
                    u.id->0,
                    signin.product@,
                ) ==> {
                    &&& !signin.product_open_flag ==> (r matches Err(Error::ProductNotOpen))
                    &&& signin.product_open_flag && !product_open(
                        old(self).products@,
                        signin.product@,
                    ) ==> (r matches Err(Error::ProductNotExists))
                }
            }),
            // success is owed whenever the business conditions hold; only
            // the freshly drawn token colliding with a stored one can then
            // fail, as an infrastructure error
            ({
                let u = old(self).users@[user_index(old(self).users@, signin.email@)];
                (email_taken(old(self).users@, signin.email@) && u.passwd@ == passwd_hash(
                    u.email@,
                    signin.passwd@,
                ) && (open_membership(
                    old(self).products@,
                    old(self).memberships@,
                    u.id->0,
                    signin.product@,
                ) || (signin.product_open_flag && product_open(
                    old(self).products@,
                    signin.product@,
                )))) ==> (r is Ok || (r matches Err(Error::DatabaseException(_))))
            }),
            // an infrastructure failure can only be a token collision,
            // which needs a stored session to collide with
            (r matches Err(Error::DatabaseException(_))) ==> old(self).sessions@.len() > 0,
            // a successful sign-in allocates at most two ids: one for a
            // lazily provisioned membership and one for the session
            r is Ok ==> final(self).next_id <= old(self).next_id + 2,
            // no session row appears unless the whole operation succeeded
            r is Err ==> ({
                &&& final(self).sessions@ == old(self).sessions@
                &&& final(self).users@ == old(self).users@
                &&& final(self).products@ == old(self).products@
                &&& final(self).recently@ == old(self).recently@
                &&& final(self).groups@ == old(self).groups@
                &&& final(self).favorites@ == old(self).favorites@
            }),
            r matches Ok(t) ==> signin_ok(*old(self), *final(self), *signin, now, t),
    {
        let ui = match find_user_by_email(&self.users, &signin.email) {
            Some(ui) => ui,
            None => {
                return Err(Error::UserNotExists);
            },
        };
        proof {
            let ci = user_index(self.users@, signin.email@);
            assert(self.users@[ci].email@ == signin.email@);
            assert(ci == ui as int);
        }
        let user = self.users[ui].clone();
        let hash = gen_passwd(user.email.as_str(), signin.passwd.as_str());
        if hash != user.passwd {
            return Err(Error::UserPasswdError);
        }
        proof {
            assert(self.users@[ui as int].id is Some);
        }
        let uid = user.id.unwrap();
        let pi = match find_open_membership_product(
            &self.products,
            &self.memberships,
            uid,
            &signin.product,
        ) {
            Some(pi) => pi,
            None => {
                if signin.product_open_flag {
                    let pi = match find_open_product_by_code(&self.products, &signin.product) {
                        Some(pi) => pi,
                        None => {
                            return Err(Error::ProductNotExists);
                        },
                    };
                    proof {
                        assert(self.products@[pi as int].id is Some);
                    }
                    let pid = self.products[pi].id.unwrap();
                    self.push_membership(uid, pid, now);
                    pi
                } else {
                    return Err(Error::ProductNotOpen);
                }
            },
        };
        let ghost mid = *self;
        proof {
            assert(mid.wf());
        }
        let product = self.products[pi].clone();
        proof {
            assert(self.products@[pi as int].id is Some);
        }
        let pid = self.products[pi].id.unwrap();
        proof {
            assert(has_membership(mid.memberships@, uid, pid)) by {
                if exists|j: int|
                    0 <= j < mid.memberships@.len() && mid.memberships@[j].user_id == uid
                        && mid.products@[pi as int].id == Some(mid.memberships@[j].product_id)
                        && mid.memberships@[j].status@ == status_normal() {
                    let j = choose|j: int|
                        0 <= j < mid.memberships@.len() && mid.memberships@[j].user_id == uid
                            && mid.products@[pi as int].id == Some(mid.memberships@[j].product_id)
                            && mid.memberships@[j].status@ == status_normal();
                    assert(mid.memberships@[j].user_id == uid && mid.memberships@[j].product_id
                        == pid);
                } else {
                    assert(mid.memberships@.last().user_id == uid
                        && mid.memberships@.last().product_id == pid);
                }
            }
            assert(open_membership(mid.products@, mid.memberships@, uid, signin.product@)) by {
                let j = choose|j: int|
                    0 <= j < mid.memberships@.len() && mid.memberships@[j].user_id == uid
                        && mid.memberships@[j].product_id == pid;
                assert(mid.memberships@[j].status@ == status_normal());
                assert(mid.products@[pi as int].product@ == signin.product@ && mid.products@[
                pi as int].status@ == status_normal() && mid.products@[pi as int].id == Some(
                    mid.memberships@[j].product_id,
                ));
            }
        }
        let tok = Session::token(pid, uid, now, self.expire_millis);
        if find_session_by_token(&self.sessions, &tok.token).is_some() {
            return Err(Error::DatabaseException(String::from_str("token collision")));
        }
        let srow = Session {
            id: Some(self.next_id),
            token: tok.token,
            user_id: tok.user_id,
            product_id: tok.product_id,
            expire: tok.expire,
        };
        let result = srow.clone();
        self.sessions.push(srow);
        self.next_id = self.next_id + 1;
        proof {
            let post = *self;
            assert(post.users@[ui as int].id == Some(uid));
            assert forall|i: int|
                0 <= i < post.sessions@.len() implies user_id_exists(
                post.users@,
                (#[trigger] post.sessions@[i]).user_id,
            ) && has_membership(
                post.memberships@,
                post.sessions@[i].user_id,
                post.sessions@[i].product_id,
            ) by {
                if i < post.sessions@.len() - 1 {
                    assert(post.sessions@[i] == mid.sessions@[i]);
                } else {
                    assert(has_membership(post.memberships@, uid, pid));
                }
            }
        }
        Ok((user, product, result))
    }

    /// Resolve a bearer token in one atomic read-modify-write: unknown
    /// tokens fail with `TokenInvalid`; an expired row is deleted and also
    /// fails with `TokenInvalid`; a row inside the refresh window has its
    /// expiry extended in place; any other live row is returned unchanged.
    pub fn get_session(&mut self, token: &String, now: i64) -> (r: AppResult<Session>)
        requires
            old(self).wf(),
            0 <= now <= i64::MAX - old(self).expire_millis,
        ensures
            final(self).wf(),
            old(self).same_config(*final(self)),
            final(self).users@ == old(self).users@,
            final(self).products@ == old(self).products@,
            final(self).memberships@ == old(self).memberships@,
            final(self).recently@ == old(self).recently@,
            final(self).groups@ == old(self).groups@,
            final(self).favorites@ == old(self).favorites@,
            final(self).next_id == old(self).next_id,
            !token_taken(old(self).sessions@, token@) ==> ((r matches Err(Error::TokenInvalid))
                && *final(self) == *old(self)),
            ({
                let i = token_index(old(self).sessions@, token@);
                let s = old(self).sessions@[i];
                &&& (token_taken(old(self).sessions@, token@) && s.expire < now) ==> ((
                r matches Err(Error::TokenInvalid)) && final(self).sessions@ == old(
                    self,
                ).sessions@.remove(i))
                &&& (token_taken(old(self).sessions@, token@) && s.expire >= now && s.expire - now
                    < old(self).refresh_millis) ==> (r matches Ok(s2) ==> {
                    &&& s2.id == s.id
                    &&& s2.token == s.token
                    &&& s2.user_id == s.user_id
                    &&& s2.product_id == s.product_id
                    &&& s2.expire == now + old(self).expire_millis
                    &&& final(self).sessions@ == old(self).sessions@.update(i, s2)
                }) && r is Ok
                &&& (token_taken(old(self).sessions@, token@) && s.expire >= now && s.expire - now
                    >= old(self).refresh_millis) ==> ((r matches Ok(s2) && s2 == s) && *final(self)
                    == *old(self))
            }),
    {
        let i = match find_session_by_token(&self.sessions, token) {
            Some(i) => i,
            None => {
                return Err(Error::TokenInvalid);
            },
        };
        proof {
            let ci = token_index(self.sessions@, token@);
            assert(self.sessions@[ci].token@ == token@);
            assert(ci == i as int);
        }
        let s = self.sessions[i].clone();
        if s.expire < now {
            let ghost pre = *self;
            self.sessions.remove(i);
            proof {
                lemma_sessions_remove_wf(pre, *self, i as int);
            }
            return Err(Error::TokenInvalid);
        }
        if s.expire - now < self.refresh_millis {
            let ns = Session {
                id: s.id,
                token: s.token.clone(),
                user_id: s.user_id,
                product_id: s.product_id,
                expire: now + self.expire_millis,
            };
            let result = ns.clone();
            let ghost pre = *self;
            self.sessions[i] = ns;
            proof {
                let post = *self;
                assert forall|j: int|
                    0 <= j < post.sessions@.len() implies ((#[trigger] post.sessions@[j]).id
                    is Some && 0 < post.sessions@[j].id->0 < post.next_id && user_id_exists(
                    post.users@,
                    post.sessions@[j].user_id,
                ) && has_membership(
                    post.memberships@,
                    post.sessions@[j].user_id,
                    post.sessions@[j].product_id,
                )) by {
                    if j != i as int {
                        assert(post.sessions@[j] == pre.sessions@[j]);
                    }
                }
                assert forall|j1: int, j2: int|
                    0 <= j1 < j2 < post.sessions@.len() implies post.sessions@[j1].token@
                    != post.sessions@[j2].token@ by {
                    assert(post.sessions@[j1].token@ == pre.sessions@[j1].token@);
                    assert(post.sessions@[j2].token@ == pre.sessions@[j2].token@);
                }
            }
            return Ok(result);
        }
        Ok(s)
    }

    /// Remove the session carrying this token; absence is not an error.
    pub fn delete_session(&mut self, token: &String) -> (r: AppResult<()>)
        requires
            old(self).wf(),
        ensures
            final(self).wf(),
            old(self).same_config(*final(self)),
            r is Ok,
            final(self).users@ == old(self).users@,
            final(self).products@ == old(self).products@,
            final(self).memberships@ == old(self).memberships@,
            final(self).recently@ == old(self).recently@,
            final(self).groups@ == old(self).groups@,
            final(self).favorites@ == old(self).favorites@,
            final(self).next_id == old(self).next_id,
            !token_taken(old(self).sessions@, token@) ==> *final(self) == *old(self),
            token_taken(old(self).sessions@, token@) ==> final(self).sessions@ == old(
                self,
            ).sessions@.remove(token_index(old(self).sessions@, token@)),
            !token_taken(final(self).sessions@, token@),
    {
        let i = match find_session_by_token(&self.sessions, token) {
            Some(i) => i,
            None => {
                return Ok(());
            },
        };
        proof {
            let ci = token_index(self.sessions@, token@);
            assert(self.sessions@[ci].token@ == token@);
            assert(ci == i as int);
        }
        let ghost pre = *self;
        self.sessions.remove(i);
        proof {
            lemma_sessions_remove_wf(pre, *self, i as int);
            assert forall|j: int| 0 <= j < self.sessions@.len() implies (
            #[trigger] self.sessions@[j]).token@ != token@ by {
                if j < i as int {
                    assert(self.sessions@[j] == pre.sessions@[j]);
                } else {
                    assert(self.sessions@[j] == pre.sessions@[j + 1]);
                }
            }
        }
        Ok(())
    }

    /// The periodic sweep: delete every session already expired at `now`.
    #[verifier::loop_isolation(false)]
    pub fn clean_session(&mut self, now: i64) -> (r: AppResult<()>)
        requires
            old(self).wf(),
        ensures
            final(self).wf(),
            old(self).same_config(*final(self)),
            r is Ok,
            final(self).sessions@ == live_sessions(old(self).sessions@, now),
            final(self).users@ == old(self).users@,
            final(self).products@ == old(self).products@,
            final(self).memberships@ == old(self).memberships@,
            final(self).recently@ == old(self).recently@,
            final(self).groups@ == old(self).groups@,
            final(self).favorites@ == old(self).favorites@,
            final(self).next_id == old(self).next_id,
    {
        let ghost pre = *self;
        let mut kept: Vec<Session> = Vec::new();
        let mut k: usize = 0;
        while k < self.sessions.len()
            invariant
                *self == pre,
                k <= pre.sessions@.len(),
                kept@ == live_sessions(pre.sessions@.take(k as int), now),
                forall|j: int|
                    0 <= j < kept@.len() ==> (exists|o: int|
                        0 <= o < k && #[trigger] kept@[j] == pre.sessions@[o]),
            decreases pre.sessions@.len() - k,
        {
            proof {
                assert(pre.sessions@.take(k as int + 1).drop_last() =~= pre.sessions@.take(
                    k as int,
                ));
                assert(pre.sessions@.take(k as int + 1).last() == pre.sessions@[k as int]);
            }
            if self.sessions[k].expire > now {
                let row = self.sessions[k].clone();
                kept.push(row);
            }
            k = k + 1;
        }
        proof {
            assert(pre.sessions@.take(pre.sessions@.len() as int) =~= pre.sessions@);
        }
        self.sessions = kept;
        proof {
            let post = *self;
            lemma_live_sessions_facts(pre.sessions@, now);
            assert forall|j: int| 0 <= j < post.sessions@.len() implies ((
            #[trigger] post.sessions@[j]).id is Some && 0 < post.sessions@[j].id->0 < post.next_id
                && user_id_exists(post.users@, post.sessions@[j].user_id) && has_membership(
                post.memberships@,
                post.sessions@[j].user_id,
                post.sessions@[j].product_id,
            )) by {
                let o = choose|o: int|
                    0 <= o < pre.sessions@.len() && #[trigger] post.sessions@[j]
                        == pre.sessions@[o];
                assert(pre.sessions@[o].id is Some);
            }
            assert(forall|j1: int, j2: int|
                0 <= j1 < j2 < post.sessions@.len() ==> post.sessions@[j1].token@
                    != post.sessions@[j2].token@);
        }
        Ok(())
    }

    /// Whether this user holds a normal-status membership for product `pid`.
    #[verifier::loop_isolation(false)]
    fn has_normal_membership(&self, uid: i64, pid: i64) -> (r: bool)
        ensures
            r == mem_normal(self.memberships@, uid, pid),
    {
        let ms = &self.memberships;
        let mut j: usize = 0;
        while j < ms.len()
            invariant
                j <= ms@.len(),
                forall|j2: int|
                    0 <= j2 < j ==> !(ms@[j2].user_id == uid && ms@[j2].product_id == pid
                        && ms@[j2].status@ == status_normal()),
            decreases ms@.len() - j,
        {
            if ms[j].user_id == uid && ms[j].product_id == pid && status_is_normal(&ms[j].status) {
                return true;
            }
            j = j + 1;
        }
        false
    }

    /// The products this user has open: the join of normal products with
    /// the user's normal memberships.
    #[verifier::loop_isolation(false)]
    pub fn query_user_products(&self, user_id: i64) -> (r: AppResult<Vec<Product>>)
        requires
            self.wf(),
        ensures
            r is Ok,
            r matches Ok(v) ==> v@ == user_products_of(self.products@, self.memberships@, user_id),
    {
        let mut out: Vec<Product> = Vec::new();
        let mut k: usize = 0;
        while k < self.products.len()
            invariant
                k <= self.products@.len(),
                out@ == user_products_of(
                    self.products@.take(k as int),
                    self.memberships@,
                    user_id,
                ),
            decreases self.products@.len() - k,
        {
            proof {
                assert(self.products@.take(k as int + 1).drop_last() =~= self.products@.take(
                    k as int,
                ));
            }
            let p = &self.products[k];
            if status_is_normal(&p.status) {
                proof {
                    assert(self.products@[k as int].id is Some);
                }
                if self.has_normal_membership(user_id, p.id.unwrap()) {
                    let row = self.products[k].clone();
                    out.push(row);
                }
            }
            k = k + 1;
        }
        proof {
            assert(self.products@.take(self.products@.len() as int) =~= self.products@);
        }
        Ok(out)
    }

    /// All products with normal status.
    #[verifier::loop_isolation(false)]
    pub fn query_products(&self) -> (r: AppResult<Vec<Product>>)
        requires
            self.wf(),
        ensures
            r is Ok,
            r matches Ok(v) ==> v@ == normal_products(self.products@),
    {
        let mut out: Vec<Product> = Vec::new();
        let mut k: usize = 0;
        while k < self.products.len()
            invariant
                k <= self.products@.len(),
                out@ == normal_products(self.products@.take(k as int)),
            decreases self.products@.len() - k,
        {
            proof {
                assert(self.products@.take(k as int + 1).drop_last() =~= self.products@.take(
                    k as int,
                ));
            }
            if status_is_normal(&self.products[k].status) {
                let row = self.products[k].clone();
                out.push(row);
            }
            k = k + 1;
        }
        proof {
            assert(self.products@.take(self.products@.len() as int) =~= self.products@);
        }
        Ok(out)
    }

    /// The normal-status product with this id; `ProductNotExists` otherwise.
    #[verifier::loop_isolation(false)]
    pub fn query_product(&self, product_id: i64) -> (r: AppResult<Product>)
        requires
            self.wf(),
        ensures
            r is Ok <==> (exists|i: int|
                0 <= i < self.products@.len() && self.products@[i].id == Some(product_id)
                    && self.products@[i].status@ == status_normal()),
            r matches Ok(p) ==> p.id == Some(product_id) && p.status@ == status_normal() && (
            exists|i: int| 0 <= i < self.products@.len() && self.products@[i] == p),
            r matches Err(e) ==> e is ProductNotExists,
    {
        let mut k: usize = 0;
        while k < self.products.len()
            invariant
                k <= self.products@.len(),
                forall|j: int|
                    0 <= j < k ==> !(self.products@[j].id == Some(product_id)
                        && self.products@[j].status@ == status_normal()),
            decreases self.products@.len() - k,
        {
            if self.products[k].id == Some(product_id) && status_is_normal(
                &self.products[k].status,
            ) {
                let row = self.products[k].clone();
                return Ok(row);
            }
            k = k + 1;
        }
        Err(Error::ProductNotExists)
    }

    /// The normal-status user with this id; `UserNotExists` otherwise.
    #[verifier::loop_isolation(false)]
    pub fn query_user(&self, user_id: i64) -> (r: AppResult<User>)
        requires
            self.wf(),
        ensures
            r is Ok <==> (exists|i: int|
                0 <= i < self.users@.len() && self.users@[i].id == Some(user_id)
                    && self.users@[i].status@ == status_normal()),
            r matches Ok(u) ==> u.id == Some(user_id) && u.status@ == status_normal() && (
            exists|i: int| 0 <= i < self.users@.len() && self.users@[i] == u),
            r matches Err(e) ==> e is UserNotExists,
    {
        let mut k: usize = 0;
        while k < self.users.len()
            invariant
                k <= self.users@.len(),
                forall|j: int|
                    0 <= j < k ==> !(self.users@[j].id == Some(user_id) && self.users@[j].status@
                        == status_normal()),
            decreases self.users@.len() - k,
        {
            if self.users[k].id == Some(user_id) && status_is_normal(&self.users[k].status) {
                let row = self.users[k].clone();
                return Ok(row);
            }
            k = k + 1;
        }
        Err(Error::UserNotExists)
    }

    /// The normal-status membership for this (user, product) pair;
    /// `ProductNotOpen` otherwise.
    #[verifier::loop_isolation(false)]
    pub fn query_user_product(&self, user_id: i64, product_id: i64) -> (r: AppResult<ProductUser>)
        requires
            self.wf(),
        ensures
            r is Ok <==> mem_normal(self.memberships@, user_id, product_id),
            r matches Ok(m) ==> m.user_id == user_id && m.product_id == product_id && m.status@
                == status_normal() && (exists|i: int|
                0 <= i < self.memberships@.len() && self.memberships@[i] == m),
            r matches Err(e) ==> e is ProductNotOpen,
    {
        let mut k: usize = 0;
        while k < self.memberships.len()
            invariant
                k <= self.memberships@.len(),
                forall|j: int|
                    0 <= j < k ==> !(self.memberships@[j].user_id == user_id
                        && self.memberships@[j].product_id == product_id
                        && self.memberships@[j].status@ == status_normal()),
            decreases self.memberships@.len() - k,
        {
            if self.memberships[k].user_id == user_id && self.memberships[k].product_id
                == product_id && status_is_normal(&self.memberships[k].status) {
                let row = self.memberships[k].clone();
                return Ok(row);
            }
            k = k + 1;
        }
        Err(Error::ProductNotOpen)
    }

    /// Some membership row stores this avatar file name.
    #[verifier::loop_isolation(false)]
    pub fn avatar_in_use(&self, path: &String) -> (r: bool)
        ensures
            r == exists|i: int|
                0 <= i < self.memberships@.len() && self.memberships@[i].avatar@ == path@,
    {
        let mut k: usize = 0;
        while k < self.memberships.len()
            invariant
                k <= self.memberships@.len(),
                forall|j: int| 0 <= j < k ==> self.memberships@[j].avatar@ != path@,
            decreases self.memberships@.len() - k,
        {
            if self.memberships[k].avatar == *path {
                return true;
            }
            k = k + 1;
        }
        false
    }

    /// Open a membership on an existing product for this user; doing
    /// nothing when one is already open.
    #[verifier::loop_isolation(false)]
    pub fn open_product(&mut self, user_id: i64, product: &String, now: i64) -> (r: AppResult<()>)
        requires
            old(self).wf(),
            old(self).next_id < i64::MAX,
            user_id_exists(old(self).users@, user_id),
        ensures
            final(self).wf(),
            old(self).same_config(*final(self)),
            r is Err ==> *final(self) == *old(self),
            open_membership(old(self).products@, old(self).memberships@, user_id, product@) ==> (r
                is Ok && *final(self) == *old(self)),
            !open_membership(old(self).products@, old(self).memberships@, user_id, product@)
                && !product_open(old(self).products@, product@) ==> (r matches Err(
                Error::ProductNotExists,
            )),
            r is Ok <==> (open_membership(old(self).products@, old(self).memberships@, user_id, product@)
                || product_open(old(self).products@, product@)),
            (!open_membership(old(self).products@, old(self).memberships@, user_id, product@)
                && product_open(old(self).products@, product@)) ==> ({
                let m = final(self).memberships@.last();
                &&& final(self).memberships@ == old(self).memberships@.push(m)
                &&& m.user_id == user_id
                &&& Some(m.product_id) == old(self).products@[open_product_index(
                    old(self).products@,
                    product@,
                )].id
                &&& m.status@ == status_normal()
                &&& m.update_time == now
                &&& final(self).next_id == old(self).next_id + 1
                &&& final(self).users@ == old(self).users@
                &&& final(self).products@ == old(self).products@
                &&& final(self).sessions@ == old(self).sessions@
                &&& final(self).recently@ == old(self).recently@
                &&& final(self).groups@ == old(self).groups@
                &&& final(self).favorites@ == old(self).favorites@
            }),
    {
        if find_open_membership_product(
            &self.products,
            &self.memberships,
            user_id,
            product,
        ).is_some() {
            return Ok(());
        }
        let pi = match find_open_product_by_code(&self.products, product) {
            Some(pi) => pi,
            None => {
                return Err(Error::ProductNotExists);
            },
        };
        proof {
            assert(self.products@[pi as int].id is Some);
            let ci = open_product_index(self.products@, product@);
            assert(self.products@[ci].product@ == product@);
            assert(ci == pi as int);
        }
        let pid = self.products[pi].id.unwrap();
        self.push_membership(user_id, pid, now);
        Ok(())
    }

    /// Reset a user's password to a fresh hash of the submitted one.
    #[verifier::loop_isolation(false)]
    pub fn reset_user_passwd(&mut self, reset: &ResetPasswdReq, now: i64) -> (r: AppResult<()>)
        requires
            old(self).wf(),
        ensures
            final(self).wf(),
            old(self).same_config(*final(self)),
            r is Ok <==> email_taken(old(self).users@, reset.email@),
            r is Err ==> (r matches Err(Error::UserNotExists)) && *final(self) == *old(self),
            r is Ok ==> ({
                let i = user_index(old(self).users@, reset.email@);
                let u = old(self).users@[i];
                let nu = final(self).users@[i];
                &&& final(self).users@ == old(self).users@.update(i, nu)
                &&& nu.id == u.id
                &&& nu.user_name == u.user_name
                &&& nu.email == u.email
                &&& nu.passwd@ == passwd_hash(u.email@, reset.passwd@)
                &&& nu.status == u.status
                &&& nu.update_time == now
                &&& final(self).products@ == old(self).products@
                &&& final(self).memberships@ == old(self).memberships@
                &&& final(self).sessions@ == old(self).sessions@
                &&& final(self).recently@ == old(self).recently@
                &&& final(self).groups@ == old(self).groups@
                &&& final(self).favorites@ == old(self).favorites@
                &&& final(self).next_id == old(self).next_id
            }),
    {
        let i = match find_user_by_email(&self.users, &reset.email) {
            Some(i) => i,
            None => {
                return Err(Error::UserNotExists);
            },
        };
        proof {
            let ci = user_index(self.users@, reset.email@);
            assert(self.users@[ci].email@ == reset.email@);
            assert(ci == i as int);
        }
        let u = self.users[i].clone();
        let passwd = gen_passwd(u.email.as_str(), reset.passwd.as_str());
        let nu = User {
            id: u.id,
            user_name: u.user_name,
            email: u.email,
            passwd,
            status: u.status,
            update_time: now,
        };
        let ghost pre = *self;
        self.users[i] = nu;
        proof {
            lemma_users_field_update_wf(pre, *self);
        }
        Ok(())
    }

    /// Apply the provided optional profile fields: name and password hash
    /// to the user row, the avatar to the membership row scoped to the
    /// product, all in one transaction.
    #[verifier::loop_isolation(false)]
    pub fn update_user_info(
        &mut self,
        user_id: i64,
        product_id: i64,
        user_name: Option<String>,
        passwd: Option<String>,
        avatar: Option<String>,
    ) -> (r: AppResult<()>)
        requires
            old(self).wf(),
        ensures
            final(self).wf(),
            old(self).same_config(*final(self)),
            r is Ok,
            final(self).users@.len() == old(self).users@.len(),
            forall|i: int|
                0 <= i < old(self).users@.len() ==> final(self).users@[i] == user_updated(
                    old(self).users@[i],
                    user_id,
                    user_name,
                    passwd,
                ),
            final(self).memberships@.len() == old(self).memberships@.len(),
            forall|i: int|
                0 <= i < old(self).memberships@.len() ==> final(self).memberships@[i]
                    == member_updated(old(self).memberships@[i], user_id, product_id, avatar),
            final(self).products@ == old(self).products@,
            final(self).sessions@ == old(self).sessions@,
            final(self).recently@ == old(self).recently@,
            final(self).groups@ == old(self).groups@,
            final(self).favorites@ == old(self).favorites@,
            final(self).next_id == old(self).next_id,
    {
        let ghost pre = *self;
        let mut k: usize = 0;
        while k < self.users.len()
            invariant
                k <= self.users@.len(),
                self.users@.len() == pre.users@.len(),
                forall|j: int|
                    0 <= j < k ==> self.users@[j] == user_updated(
                        pre.users@[j],
                        user_id,
                        user_name,
                        passwd,
                    ),
                forall|j: int| k <= j < self.users@.len() ==> self.users@[j] == pre.users@[j],
                self.products@ == pre.products@,
                self.memberships@ == pre.memberships@,
                self.sessions@ == pre.sessions@,
                self.recently@ == pre.recently@,
                self.groups@ == pre.groups@,
                self.favorites@ == pre.favorites@,
                self.next_id == pre.next_id,
                self.expire_millis == pre.expire_millis,
                self.refresh_millis == pre.refresh_millis,
            decreases self.users@.len() - k,
        {
            if self.users[k].id == Some(user_id) {
                let mut row = self.users[k].clone();
                match &user_name {
                    Some(n) => {
                        row.user_name = n.clone();
                    },
                    None => {},
                }
                match &passwd {
                    Some(p) => {
                        row.passwd = p.clone();
                    },
                    None => {},
                }
                self.users[k] = row;
            }
            k = k + 1;
        }
        let ghost mid = *self;
        let mut k2: usize = 0;
        while k2 < self.memberships.len()
            invariant
                k2 <= self.memberships@.len(),
                self.memberships@.len() == pre.memberships@.len(),
                forall|j: int|
                    0 <= j < k2 ==> self.memberships@[j] == member_updated(
                        pre.memberships@[j],
                        user_id,
                        product_id,
                        avatar,
                    ),
                forall|j: int|
                    k2 <= j < self.memberships@.len() ==> self.memberships@[j]
                        == pre.memberships@[j],
                self.users@ == mid.users@,
                self.products@ == pre.products@,
                self.sessions@ == pre.sessions@,
                self.recently@ == pre.recently@,
                self.groups@ == pre.groups@,
                self.favorites@ == pre.favorites@,
                self.next_id == pre.next_id,
                self.expire_millis == pre.expire_millis,
                self.refresh_millis == pre.refresh_millis,
            decreases self.memberships@.len() - k2,
        {
            if self.memberships[k2].user_id == user_id && self.memberships[k2].product_id
                == product_id {
                match &avatar {
                    Some(a) => {
                        let mut row = self.memberships[k2].clone();
                        row.avatar = a.clone();
                        self.memberships[k2] = row;
                    },
                    None => {},
                }
            }
            k2 = k2 + 1;
        }
        proof {
            lemma_users_field_update_wf(pre, mid);
            lemma_memberships_field_update_wf(mid, *self);
        }
        Ok(())
    }

    /// The user's recently-played records, most recently started first.
    #[verifier::loop_isolation(false)]
    pub fn query_recently(&self, user_id: i64) -> (r: AppResult<Vec<Recently>>)
        requires
            self.wf(),
        ensures
            r is Ok,
            r matches Ok(v) ==> v@ == sort_desc(recently_of(self.recently@, user_id)),
    {
        let mut picked: Vec<Recently> = Vec::new();
        let mut k: usize = 0;
        while k < self.recently.len()
            invariant
                k <= self.recently@.len(),
                picked@ == recently_of(self.recently@.take(k as int), user_id),
            decreases self.recently@.len() - k,
        {
            proof {
                assert(self.recently@.take(k as int + 1).drop_last() =~= self.recently@.take(
                    k as int,
                ));
            }
            if self.recently[k].user_id == user_id {
                let row = self.recently[k].clone();
                picked.push(row);
            }
            k = k + 1;
        }
        proof {
            assert(self.recently@.take(self.recently@.len() as int) =~= self.recently@);
        }
        Ok(sort_recently_desc(picked))
    }

    /// Clear the user's recently-played history.
    #[verifier::loop_isolation(false)]
    pub fn delete_recently(&mut self, user_id: i64) -> (r: AppResult<()>)
        requires
            old(self).wf(),
        ensures
            final(self).wf(),
            old(self).same_config(*final(self)),
            r is Ok,
            final(self).recently@ == recently_without(old(self).recently@, user_id),
            final(self).users@ == old(self).users@,
            final(self).products@ == old(self).products@,
            final(self).memberships@ == old(self).memberships@,
            final(self).sessions@ == old(self).sessions@,
            final(self).groups@ == old(self).groups@,
            final(self).favorites@ == old(self).favorites@,
            final(self).next_id == old(self).next_id,
    {
        let ghost pre = *self;
        let mut kept: Vec<Recently> = Vec::new();
        let mut k: usize = 0;
        while k < self.recently.len()
            invariant
                *self == pre,
                k <= pre.recently@.len(),
                kept@ == recently_without(pre.recently@.take(k as int), user_id),
            decreases pre.recently@.len() - k,
        {
            proof {
                assert(pre.recently@.take(k as int + 1).drop_last() =~= pre.recently@.take(
                    k as int,
                ));
            }
            if self.recently[k].user_id != user_id {
                let row = self.recently[k].clone();
                kept.push(row);
            }
            k = k + 1;
        }
        proof {
            assert(pre.recently@.take(pre.recently@.len() as int) =~= pre.recently@);
        }
        self.recently = kept;
        Ok(())
    }

    /// Bulk-insert recently-played records for a user.  A record that
    /// would duplicate a stored (user, station, start-time) row is
    /// silently skipped.  The store commits in chunks of fifty rows; with
    /// ids available for the whole batch no chunk can fail, so every
    /// fresh record is applied.
    #[verifier::loop_isolation(false)]
    pub fn new_recently(&mut self, user_id: i64, recently: &Vec<RecentlyNew>) -> (r: AppResult<()>)
        requires
            old(self).wf(),
        ensures
            final(self).wf(),
            old(self).same_config(*final(self)),
            r is Ok <==> recently@.len() <= i64::MAX - old(self).next_id,
            r is Err ==> (r matches Err(Error::DatabaseException(_))) && *final(self) == *old(
                self,
            ),
            r is Ok ==> ({
                let ar = add_recently(
                    old(self).recently@,
                    recently@,
                    user_id,
                    old(self).next_id as int,
                );
                &&& final(self).recently@ == ar.0
                &&& final(self).next_id == ar.1
                &&& final(self).users@ == old(self).users@
                &&& final(self).products@ == old(self).products@
                &&& final(self).memberships@ == old(self).memberships@
                &&& final(self).sessions@ == old(self).sessions@
                &&& final(self).groups@ == old(self).groups@
                &&& final(self).favorites@ == old(self).favorites@
            }),
    {
        if recently.len() as u64 > (i64::MAX - self.next_id) as u64 {
            return Err(Error::DatabaseException(String::from_str("id space exhausted")));
        }
        let ghost pre = *self;
        let mut k: usize = 0;
        while k < recently.len()
            invariant
                k <= recently@.len(),
                recently@.len() <= i64::MAX - pre.next_id,
                pre.next_id <= self.next_id <= pre.next_id + k,
                (self.recently@, self.next_id as int) == add_recently(
                    pre.recently@,
                    recently@.take(k as int),
                    user_id,
                    pre.next_id as int,
                ),
                self.users@ == pre.users@,
                self.products@ == pre.products@,
                self.memberships@ == pre.memberships@,
                self.sessions@ == pre.sessions@,
                self.groups@ == pre.groups@,
                self.favorites@ == pre.favorites@,
                self.expire_millis == pre.expire_millis,
                self.refresh_millis == pre.refresh_millis,
            decreases recently@.len() - k,
        {
            proof {
                assert(recently@.take(k as int + 1).drop_last() =~= recently@.take(k as int));
            }
            let e = &recently[k];
            if !recently_row_present(&self.recently, user_id, &e.stationuuid, e.start_time) {
                let row = Recently {
                    id: Some(self.next_id),
                    user_id,
                    stationuuid: e.stationuuid.clone(),
                    start_time: e.start_time,
                    end_time: e.end_time,
                };
                self.recently.push(row);
                self.next_id = self.next_id + 1;
            }
            k = k + 1;
        }
        proof {
            assert(recently@.take(recently@.len() as int) =~= recently@);
        }
        Ok(())
    }

    /// Close the recently-played records matching (user, station, start)
    /// by setting their end time.
    #[verifier::loop_isolation(false)]
    pub fn modify_recently(
        &mut self,
        user_id: i64,
        stationuuid: &String,
        start_time: i64,
        end_time: i64,
    ) -> (r: AppResult<()>)
        requires
            old(self).wf(),
        ensures
            final(self).wf(),
            old(self).same_config(*final(self)),
            r is Ok,
            final(self).recently@.len() == old(self).recently@.len(),
            forall|i: int|
                0 <= i < old(self).recently@.len() ==> final(self).recently@[i]
                    == recently_closed(
                    old(self).recently@[i],
                    user_id,
                    stationuuid@,
                    start_time,
                    end_time,
                ),
            final(self).users@ == old(self).users@,
            final(self).products@ == old(self).products@,
            final(self).memberships@ == old(self).memberships@,
            final(self).sessions@ == old(self).sessions@,
            final(self).groups@ == old(self).groups@,
            final(self).favorites@ == old(self).favorites@,
            final(self).next_id == old(self).next_id,
    {
        let ghost pre = *self;
        let mut k: usize = 0;
        while k < self.recently.len()
            invariant
                k <= self.recently@.len(),
                self.recently@.len() == pre.recently@.len(),
                forall|j: int|
                    0 <= j < k ==> self.recently@[j] == recently_closed(
                        pre.recently@[j],
                        user_id,
                        stationuuid@,
                        start_time,
                        end_time,
                    ),
                forall|j: int|
                    k <= j < self.recently@.len() ==> self.recently@[j] == pre.recently@[j],
                self.users@ == pre.users@,
                self.products@ == pre.products@,
                self.memberships@ == pre.memberships@,
                self.sessions@ == pre.sessions@,
                self.groups@ == pre.groups@,
                self.favorites@ == pre.favorites@,
                self.next_id == pre.next_id,
                self.expire_millis == pre.expire_millis,
                self.refresh_millis == pre.refresh_millis,
            decreases self.recently@.len() - k,
        {
            if self.recently[k].user_id == user_id && self.recently[k].stationuuid == *stationuuid
                && self.recently[k].start_time == start_time {
                let mut row = self.recently[k].clone();
                row.end_time = Some(end_time);
                self.recently[k] = row;
            }
            k = k + 1;
        }
        Ok(())
    }

    /// The user's favorite groups, optionally useful to callers that
    /// filter by name afterwards.
    #[verifier::loop_isolation(false)]
    pub fn query_groups(&self, user_id: i64) -> (r: AppResult<Vec<FavGroup>>)
        requires
            self.wf(),
        ensures
            r is Ok,
            r matches Ok(v) ==> v@ == groups_of(self.groups@, user_id),
    {
        let mut out: Vec<FavGroup> = Vec::new();
        let mut k: usize = 0;
        while k < self.groups.len()
            invariant
                k <= self.groups@.len(),
                out@ == groups_of(self.groups@.take(k as int), user_id),
            decreases self.groups@.len() - k,
        {
            proof {
                assert(self.groups@.take(k as int + 1).drop_last() =~= self.groups@.take(
                    k as int,
                ));
            }
            if self.groups[k].user_id == user_id {
                let row = self.groups[k].clone();
                out.push(row);
            }
            k = k + 1;
        }
        proof {
            assert(self.groups@.take(self.groups@.len() as int) =~= self.groups@);
        }
        Ok(out)
    }

    /// How many default groups the user currently has; the store keeps
    /// this at most one.
    #[verifier::loop_isolation(false)]
    pub fn count_default_groups(&self, user_id: i64) -> (r: usize)
        requires
            self.groups@.len() < usize::MAX,
        ensures
            r == count_defaults(self.groups@, user_id),
    {
        let mut n: usize = 0;
        let mut k: usize = 0;
        while k < self.groups.len()
            invariant
                k <= self.groups@.len(),
                n == count_defaults(self.groups@.take(k as int), user_id),
                n <= k,
            decreases self.groups@.len() - k,
        {
            proof {
                assert(self.groups@.take(k as int + 1).drop_last() =~= self.groups@.take(
                    k as int,
                ));
            }
            if self.groups[k].user_id == user_id && self.groups[k].is_def == 1 {
                n = n + 1;
            }
            k = k + 1;
        }
        proof {
            assert(self.groups@.take(self.groups@.len() as int) =~= self.groups@);
        }
        n
    }

    /// Rename a group of the user and replace its description.
    #[verifier::loop_isolation(false)]
    pub fn modify_group(
        &mut self,
        user_id: i64,
        old_name: &String,
        name: &String,
        desc: &String,
    ) -> (r: AppResult<()>)
        requires
            old(self).wf(),
        ensures
            final(self).wf(),
            old(self).same_config(*final(self)),
            r is Ok,
            final(self).groups@.len() == old(self).groups@.len(),
            forall|i: int|
                0 <= i < old(self).groups@.len() ==> final(self).groups@[i] == ({
                    let g = old(self).groups@[i];
                    if g.user_id == user_id && g.name@ == old_name@ {
                        FavGroup {
                            id: g.id,
                            user_id: g.user_id,
                            create_time: g.create_time,
                            name: *name,
                            desc: *desc,
                            is_def: g.is_def,
                        }
                    } else {
                        g
                    }
                }),
            final(self).users@ == old(self).users@,
            final(self).products@ == old(self).products@,
            final(self).memberships@ == old(self).memberships@,
            final(self).sessions@ == old(self).sessions@,
            final(self).recently@ == old(self).recently@,
            final(self).favorites@ == old(self).favorites@,
            final(self).next_id == old(self).next_id,
    {
        let ghost pre = *self;
        let mut k: usize = 0;
        while k < self.groups.len()
            invariant
                k <= self.groups@.len(),
                self.groups@.len() == pre.groups@.len(),
                forall|j: int|
                    0 <= j < k ==> self.groups@[j] == ({
                        let g = pre.groups@[j];
                        if g.user_id == user_id && g.name@ == old_name@ {
                            FavGroup {
                                id: g.id,
                                user_id: g.user_id,
                                create_time: g.create_time,
                                name: *name,
                                desc: *desc,
                                is_def: g.is_def,
                            }
                        } else {
                            g
                        }
                    }),
                forall|j: int| k <= j < self.groups@.len() ==> self.groups@[j] == pre.groups@[j],
                self.users@ == pre.users@,
                self.products@ == pre.products@,
                self.memberships@ == pre.memberships@,
                self.sessions@ == pre.sessions@,
                self.recently@ == pre.recently@,
                self.favorites@ == pre.favorites@,
                self.next_id == pre.next_id,
                self.expire_millis == pre.expire_millis,
                self.refresh_millis == pre.refresh_millis,
            decreases self.groups@.len() - k,
        {
            if self.groups[k].user_id == user_id && self.groups[k].name == *old_name {
                let mut row = self.groups[k].clone();
                row.name = name.clone();
                row.desc = desc.clone();
                self.groups[k] = row;
            }
            k = k + 1;
        }
        proof {
            lemma_count_defaults_pointwise(pre.groups@, self.groups@);
        }
        Ok(())
    }

    /// Bulk-insert favorite groups: an insert that would duplicate an
    /// existing (user, name) pair is silently skipped, and default-group
    /// conflicts are arbitrated by declared creation time.
    #[verifier::loop_isolation(false)]
    pub fn new_groups(&mut self, user_id: i64, groups: &Vec<GroupNew>) -> (r: AppResult<()>)
        requires
            old(self).wf(),
        ensures
            final(self).wf(),
            old(self).same_config(*final(self)),
            r is Ok <==> groups@.len() <= i64::MAX - old(self).next_id,
            r is Err ==> (r matches Err(Error::DatabaseException(_))) && *final(self) == *old(
                self,
            ),
            r is Ok ==> ({
                let ag = add_groups(old(self).groups@, groups@, user_id, old(self).next_id as int);
                &&& final(self).groups@ == ag.0
                &&& final(self).next_id == ag.1
                &&& final(self).users@ == old(self).users@
                &&& final(self).products@ == old(self).products@
                &&& final(self).memberships@ == old(self).memberships@
                &&& final(self).sessions@ == old(self).sessions@
                &&& final(self).recently@ == old(self).recently@
                &&& final(self).favorites@ == old(self).favorites@
            }),
    {
        if groups.len() as u64 > (i64::MAX - self.next_id) as u64 {
            return Err(Error::DatabaseException(String::from_str("id space exhausted")));
        }
        let ghost pre = *self;
        let mut k: usize = 0;
        while k < groups.len()
            invariant
                k <= groups@.len(),
                groups@.len() <= i64::MAX - pre.next_id,
                pre.next_id <= self.next_id <= pre.next_id + k,
                (self.groups@, self.next_id as int) == add_groups(
                    pre.groups@,
                    groups@.take(k as int),
                    user_id,
                    pre.next_id as int,
                ),
                forall|u: i64| #[trigger] count_defaults(self.groups@, u) <= 1,
                forall|i: int| 0 <= i < self.groups@.len() ==> (#[trigger] self.groups@[i].id) is Some,
                self.users@ == pre.users@,
                self.products@ == pre.products@,
                self.memberships@ == pre.memberships@,
                self.sessions@ == pre.sessions@,
                self.recently@ == pre.recently@,
                self.favorites@ == pre.favorites@,
                self.expire_millis == pre.expire_millis,
                self.refresh_millis == pre.refresh_millis,
            decreases groups@.len() - k,
        {
            proof {
                assert(groups@.take(k as int + 1).drop_last() =~= groups@.take(k as int));
            }
            let e = &groups[k];
            if find_group_by_name(&self.groups, user_id, &e.name).is_none() {
                let is_def = e.is_def > 0;
                let mut skip = false;
                if is_def {
                    match find_default_group(&self.groups, user_id) {
                        Some(di) => {
                            proof {
                                let ci = default_index(self.groups@, user_id);
                                if ci != di as int {
                                    if ci < di as int {
                                        lemma_count_default_two(
                                            self.groups@,
                                            user_id,
                                            ci,
                                            di as int,
                                        );
                                    } else {
                                        lemma_count_default_two(
                                            self.groups@,
                                            user_id,
                                            di as int,
                                            ci,
                                        );
                                    }
                                }
                            }
                            if self.groups[di].create_time >= e.create_time {
                                skip = true;
                            } else {
                                let ghost before = self.groups@;
                                let kept = remove_default_vec(&self.groups, user_id);
                                self.groups = kept;
                                proof {
                                    assert forall|u: i64| #[trigger] count_defaults(
                                        self.groups@,
                                        u,
                                    ) <= 1 by {
                                        lemma_remove_default_counts(before, user_id, u);
                                    }
                                    lemma_remove_default_counts(before, user_id, user_id);
                                }
                            }
                        },
                        None => {},
                    }
                }
                if !skip {
                    let row = FavGroup {
                        id: Some(self.next_id),
                        user_id,
                        create_time: e.create_time,
                        name: e.name.clone(),
                        desc: e.desc.clone(),
                        is_def: if is_def {
                            1
                        } else {
                            0
                        },
                    };
                    let ghost before_push = self.groups@;
                    self.groups.push(row);
                    self.next_id = self.next_id + 1;
                    proof {
                        assert forall|u: i64| #[trigger] count_defaults(self.groups@, u)
                            <= 1 by {
                            lemma_count_defaults_push(before_push, self.groups@.last(), u);
                            if u == user_id && is_def {
                                if has_default(before_push, user_id) {
                                    assert(count_defaults(before_push, user_id) == 0);
                                } else {
                                    lemma_no_default_count_zero(before_push, user_id);
                                }
                            }
                        }
                    }
                }
            }
            k = k + 1;
        }
        proof {
            assert(groups@.take(groups@.len() as int) =~= groups@);
        }
        Ok(())
    }

    /// Delete the named groups of the user, cascading to the favorites
    /// filed under each.  Names are handled in order and committed in
    /// chunks of fifty; a name without a group fails the operation and
    /// rolls back only the open chunk, leaving earlier chunks applied.
    #[verifier::loop_isolation(false)]
    pub fn delete_groups(&mut self, user_id: i64, groups: &Vec<String>) -> (r: AppResult<()>)
        requires
            old(self).wf(),
        ensures
            final(self).wf(),
            old(self).same_config(*final(self)),
            ({
                let st = delete_groups_fold(
                    old(self).groups@,
                    old(self).favorites@,
                    groups@,
                    user_id,
                );
                &&& (r is Ok <==> st.ok)
                &&& (r is Err ==> (r matches Err(Error::DatabaseException(_))))
                &&& final(self).groups@ == st.groups
                &&& final(self).favorites@ == st.favorites
            }),
            final(self).users@ == old(self).users@,
            final(self).products@ == old(self).products@,
            final(self).memberships@ == old(self).memberships@,
            final(self).sessions@ == old(self).sessions@,
            final(self).recently@ == old(self).recently@,
            final(self).next_id == old(self).next_id,
    {
        let ghost pre = *self;
        let mut snap_groups = copy_groups(&self.groups);
        let mut snap_favs = copy_favorites(&self.favorites);
        let mut cnt: usize = 0;
        let mut k: usize = 0;
        while k < groups.len()
            invariant
                k <= groups@.len(),
                ({
                    let st = delete_groups_fold(
                        pre.groups@,
                        pre.favorites@,
                        groups@.take(k as int),
                        user_id,
                    );
                    &&& st.ok
                    &&& self.groups@ == st.groups
                    &&& self.favorites@ == st.favorites
                    &&& snap_groups@ == st.snap_groups
                    &&& snap_favs@ == st.snap_favorites
                    &&& cnt == st.cnt
                }),
                cnt < CHUNK_ROWS,
                forall|u: i64| #[trigger] count_defaults(self.groups@, u) <= 1,
                forall|i: int|
                    0 <= i < self.groups@.len() ==> (#[trigger] self.groups@[i].id) is Some,
                forall|u: i64| #[trigger] count_defaults(snap_groups@, u) <= 1,
                forall|i: int|
                    0 <= i < snap_groups@.len() ==> (#[trigger] snap_groups@[i].id) is Some,
                self.users@ == pre.users@,
                self.products@ == pre.products@,
                self.memberships@ == pre.memberships@,
                self.sessions@ == pre.sessions@,
                self.recently@ == pre.recently@,
                self.next_id == pre.next_id,
                self.expire_millis == pre.expire_millis,
                self.refresh_millis == pre.refresh_millis,
            decreases groups@.len() - k,
        {
            proof {
                assert(groups@.take(k as int + 1).drop_last() =~= groups@.take(k as int));
            }
            let gi = match find_group_by_name(&self.groups, user_id, &groups[k]) {
                Some(gi) => gi,
                None => {
                    proof {
                        lemma_delete_groups_fold_fail(
                            pre.groups@,
                            pre.favorites@,
                            groups@,
                            user_id,
                            k as int + 1,
                        );
                    }
                    self.groups = snap_groups;
                    self.favorites = snap_favs;
                    return Err(Error::DatabaseException(String::from_str("group not found")));
                },
            };
            proof {
                lemma_first_group_index_at(self.groups@, user_id, groups@[k as int]@, gi as int);
                assert(self.groups@[gi as int].id is Some);
            }
            let gid = self.groups[gi].id.unwrap();
            let ghost before_groups = self.groups@;
            let kept_favs = remove_favs_by_group_vec(&self.favorites, gid);
            self.favorites = kept_favs;
            let kept_groups = remove_groups_named_vec(&self.groups, user_id, &groups[k]);
            self.groups = kept_groups;
            proof {
                assert forall|u: i64| #[trigger] count_defaults(self.groups@, u) <= 1 by {
                    lemma_remove_group_named_facts(before_groups, user_id, groups@[k as int]@, u);
                }
                lemma_remove_group_named_facts(
                    before_groups,
                    user_id,
                    groups@[k as int]@,
                    user_id,
                );
            }
            cnt = cnt + 1;
            if cnt >= CHUNK_ROWS {
                snap_groups = copy_groups(&self.groups);
                snap_favs = copy_favorites(&self.favorites);
                cnt = 0;
            }
            k = k + 1;
        }
        proof {
            assert(groups@.take(groups@.len() as int) =~= groups@);
        }
        Ok(())
    }

    /// The user's favorites, each with the name of its group.
    #[verifier::loop_isolation(false)]
    pub fn query_favorites(&self, user_id: i64) -> (r: AppResult<Vec<StationGroup>>)
        requires
            self.wf(),
        ensures
            r is Ok,
            r matches Ok(v) ==> v@ == favorites_joined(
                self.favorites@,
                self.groups@,
                user_id,
                i64::MIN,
            ),
    {
        self.favorites_since(user_id, i64::MIN)
    }

    /// The user's favorites created at or after `since`, each with the
    /// name of its group.
    #[verifier::loop_isolation(false)]
    fn favorites_since(&self, user_id: i64, since: i64) -> (r: AppResult<Vec<StationGroup>>)
        requires
            self.wf(),
        ensures
            r is Ok,
            r matches Ok(v) ==> v@ == favorites_joined(
                self.favorites@,
                self.groups@,
                user_id,
                since,
            ),
    {
        let mut out: Vec<StationGroup> = Vec::new();
        let mut k: usize = 0;
        while k < self.favorites.len()
            invariant
                k <= self.favorites@.len(),
                out@ == favorites_joined(
                    self.favorites@.take(k as int),
                    self.groups@,
                    user_id,
                    since,
                ),
            decreases self.favorites@.len() - k,
        {
            proof {
                assert(self.favorites@.take(k as int + 1).drop_last() =~= self.favorites@.take(
                    k as int,
                ));
            }
            let f = &self.favorites[k];
            if f.user_id == user_id && f.create_time >= since {
                match find_group_by_id(&self.groups, user_id, f.group_id) {
                    Some(gi) => {
                        proof {
                            lemma_first_gid_index_at(
                                self.groups@,
                                user_id,
                                self.favorites@[k as int].group_id,
                                gi as int,
                            );
                        }
                        let row = StationGroup {
                            group_name: self.groups[gi].name.clone(),
                            stationuuid: f.stationuuid.clone(),
                            create_time: f.create_time,
                        };
                        out.push(row);
                    },
                    None => {},
                }
            }
            k = k + 1;
        }
        proof {
            assert(self.favorites@.take(self.favorites@.len() as int) =~= self.favorites@);
        }
        Ok(out)
    }

    /// Bulk-insert favorites for a user, filing each under the user's
    /// group of the submitted name.  Inserts are committed in chunks of
    /// fifty; a duplicate row is skipped; a missing group fails the
    /// operation and rolls back only the open chunk.
    #[verifier::loop_isolation(false)]
    pub fn new_favorite(&mut self, user_id: i64, stations: &Vec<StationGroup>) -> (r: AppResult<
        (),
    >)
        requires
            old(self).wf(),
        ensures
            final(self).wf(),
            old(self).same_config(*final(self)),
            stations@.len() > i64::MAX - old(self).next_id ==> ((r matches Err(
                Error::DatabaseException(_),
            )) && *final(self) == *old(self)),
            stations@.len() <= i64::MAX - old(self).next_id ==> ({
                let st = new_favorites_fold(
                    old(self).favorites@,
                    old(self).groups@,
                    stations@,
                    user_id,
                    old(self).next_id as int,
                );
                &&& (r is Ok <==> st.ok)
                &&& (r is Err ==> (r matches Err(Error::DatabaseException(_))))
                &&& final(self).favorites@ == st.favorites
                &&& final(self).next_id == st.next
            }),
            final(self).users@ == old(self).users@,
            final(self).products@ == old(self).products@,
            final(self).memberships@ == old(self).memberships@,
            final(self).sessions@ == old(self).sessions@,
            final(self).recently@ == old(self).recently@,
            final(self).groups@ == old(self).groups@,
    {
        if stations.len() as u64 > (i64::MAX - self.next_id) as u64 {
            return Err(Error::DatabaseException(String::from_str("id space exhausted")));
        }
        let ghost pre = *self;
        let mut snap_favs = copy_favorites(&self.favorites);
        let mut snap_next = self.next_id;
        let mut cnt: usize = 0;
        let mut k: usize = 0;
        while k < stations.len()
            invariant
                k <= stations@.len(),
                stations@.len() <= i64::MAX - pre.next_id,
                pre.next_id <= self.next_id <= pre.next_id + k,
                pre.next_id <= snap_next <= self.next_id,
                ({
                    let st = new_favorites_fold(
                        pre.favorites@,
                        pre.groups@,
                        stations@.take(k as int),
                        user_id,
                        pre.next_id as int,
                    );
                    &&& st.ok
                    &&& self.favorites@ == st.favorites
                    &&& self.next_id as int == st.next
                    &&& snap_favs@ == st.snap_favorites
                    &&& snap_next as int == st.snap_next
                    &&& cnt == st.cnt
                }),
                cnt < CHUNK_ROWS,
                self.users@ == pre.users@,
                self.products@ == pre.products@,
                self.memberships@ == pre.memberships@,
                self.sessions@ == pre.sessions@,
                self.recently@ == pre.recently@,
                self.groups@ == pre.groups@,
                self.expire_millis == pre.expire_millis,
                self.refresh_millis == pre.refresh_millis,
            decreases stations@.len() - k,
        {
            proof {
                assert(stations@.take(k as int + 1).drop_last() =~= stations@.take(k as int));
            }
            let e = &stations[k];
            let gi = match find_group_by_name(&self.groups, user_id, &e.group_name) {
                Some(gi) => gi,
                None => {
                    proof {
                        lemma_new_favorites_fold_fail(
                            pre.favorites@,
                            pre.groups@,
                            stations@,
                            user_id,
                            pre.next_id as int,
                            k as int + 1,
                        );
                    }
                    self.favorites = snap_favs;
                    self.next_id = snap_next;
                    return Err(Error::DatabaseException(String::from_str("group not found")));
                },
            };
            proof {
                lemma_first_group_index_at(
                    self.groups@,
                    user_id,
                    stations@[k as int].group_name@,
                    gi as int,
                );
                assert(self.groups@[gi as int].id is Some);
            }
            let gid = self.groups[gi].id.unwrap();
            if !favorite_present(&self.favorites, user_id, gid, &e.stationuuid) {
                let row = Favorite {
                    id: Some(self.next_id),
                    user_id,
                    stationuuid: e.stationuuid.clone(),
                    group_id: gid,
                    create_time: e.create_time,
                };
                self.favorites.push(row);
                self.next_id = self.next_id + 1;
                cnt = cnt + 1;
                if cnt >= CHUNK_ROWS {
                    snap_favs = copy_favorites(&self.favorites);
                    snap_next = self.next_id;
                    cnt = 0;
                }
            }
            k = k + 1;
        }
        proof {
            assert(stations@.take(stations@.len() as int) =~= stations@);
        }
        Ok(())
    }

    /// Delete favorites of the user by station list, by group-name list,
    /// or both, in one transaction.
    #[verifier::loop_isolation(false)]
    pub fn delete_favorite(
        &mut self,
        user_id: i64,
        favorites: &Option<Vec<String>>,
        group_names: &Option<Vec<String>>,
    ) -> (r: AppResult<()>)
        requires
            old(self).wf(),
        ensures
            final(self).wf(),
            old(self).same_config(*final(self)),
            r is Ok,
            ({
                let stations = match favorites {
                    Some(v) => v@,
                    None => Seq::empty(),
                };
                let names = match group_names {
                    Some(v) => v@,
                    None => Seq::empty(),
                };
                final(self).favorites@ == delete_favs(
                    old(self).favorites@,
                    old(self).groups@,
                    user_id,
                    stations,
                    names,
                )
            }),
            final(self).users@ == old(self).users@,
            final(self).products@ == old(self).products@,
            final(self).memberships@ == old(self).memberships@,
            final(self).sessions@ == old(self).sessions@,
            final(self).recently@ == old(self).recently@,
            final(self).groups@ == old(self).groups@,
            final(self).next_id == old(self).next_id,
    {
        let ghost pre = *self;
        let empty: Vec<String> = Vec::new();
        let stations = match favorites {
            Some(v) => v,
            None => &empty,
        };
        let names = match group_names {
            Some(v) => v,
            None => &empty,
        };
        let mut kept: Vec<Favorite> = Vec::new();
        let mut k: usize = 0;
        while k < self.favorites.len()
            invariant
                k <= self.favorites@.len(),
                *self == pre,
                stations@ == (match favorites {
                    Some(v) => v@,
                    None => Seq::<String>::empty(),
                }),
                names@ == (match group_names {
                    Some(v) => v@,
                    None => Seq::<String>::empty(),
                }),
                kept@ == delete_favs(
                    pre.favorites@.take(k as int),
                    pre.groups@,
                    user_id,
                    stations@,
                    names@,
                ),
            decreases self.favorites@.len() - k,
        {
            proof {
                assert(pre.favorites@.take(k as int + 1).drop_last() =~= pre.favorites@.take(
                    k as int,
                ));
            }
            let f = &self.favorites[k];
            let doomed = f.user_id == user_id && (list_contains(stations, &f.stationuuid)
                || group_bears_listed_name(&self.groups, f.group_id, names));
            if !doomed {
                let row = self.favorites[k].clone();
                kept.push(row);
            }
            k = k + 1;
        }
        proof {
            assert(pre.favorites@.take(pre.favorites@.len() as int) =~= pre.favorites@);
        }
        self.favorites = kept;
        Ok(())
    }

    /// Refile one favorite station of the user under exactly the listed
    /// groups: its rows are deleted and one row per named group of the
    /// user is inserted with `now` as creation time.  A station the user
    /// never favored fails with `DatabaseException`.
    #[verifier::loop_isolation(false)]
    pub fn modify_favorite(
        &mut self,
        user_id: i64,
        stationuuid: &String,
        groups: &Vec<String>,
        now: i64,
    ) -> (r: AppResult<()>)
        requires
            old(self).wf(),
        ensures
            final(self).wf(),
            old(self).same_config(*final(self)),
            r is Err ==> (r matches Err(Error::DatabaseException(_))) && *final(self) == *old(
                self,
            ),
            r is Ok <==> (fav_station_exists(old(self).favorites@, user_id, stationuuid@) && old(
                self,
            ).groups@.len() <= i64::MAX - old(self).next_id),
            r is Ok ==> ({
                let fg = favs_for_groups(
                    old(self).groups@,
                    groups@,
                    user_id,
                    *stationuuid,
                    now,
                    old(self).next_id as int,
                );
                &&& final(self).favorites@ == remove_station_favs(
                    old(self).favorites@,
                    user_id,
                    stationuuid@,
                ) + fg.0
                &&& final(self).next_id == fg.1
            }),
            final(self).users@ == old(self).users@,
            final(self).products@ == old(self).products@,
            final(self).memberships@ == old(self).memberships@,
            final(self).sessions@ == old(self).sessions@,
            final(self).recently@ == old(self).recently@,
            final(self).groups@ == old(self).groups@,
    {
        if !station_favored(&self.favorites, user_id, stationuuid) {
            return Err(Error::DatabaseException(String::from_str("station not found")));
        }
        if self.groups.len() as u64 > (i64::MAX - self.next_id) as u64 {
            return Err(Error::DatabaseException(String::from_str("id space exhausted")));
        }
        let ghost pre = *self;
        let kept = remove_station_favs_vec(&self.favorites, user_id, stationuuid);
        self.favorites = kept;
        let ghost base = self.favorites@;
        let mut k: usize = 0;
        while k < self.groups.len()
            invariant
                k <= self.groups@.len(),
                pre.groups@.len() <= i64::MAX - pre.next_id,
                pre.next_id <= self.next_id <= pre.next_id + k,
                ({
                    let fg = favs_for_groups(
                        pre.groups@.take(k as int),
                        groups@,
                        user_id,
                        *stationuuid,
                        now,
                        pre.next_id as int,
                    );
                    &&& self.favorites@ == base + fg.0
                    &&& self.next_id as int == fg.1
                }),
                self.users@ == pre.users@,
                self.products@ == pre.products@,
                self.memberships@ == pre.memberships@,
                self.sessions@ == pre.sessions@,
                self.recently@ == pre.recently@,
                self.groups@ == pre.groups@,
                self.expire_millis == pre.expire_millis,
                self.refresh_millis == pre.refresh_millis,
            decreases self.groups@.len() - k,
        {
            proof {
                assert(pre.groups@.take(k as int + 1).drop_last() =~= pre.groups@.take(k as int));
            }
            let g = &self.groups[k];
            if g.user_id == user_id && list_contains(groups, &g.name) {
                proof {
                    assert(self.groups@[k as int].id is Some);
                }
                let row = Favorite {
                    id: Some(self.next_id),
                    user_id,
                    stationuuid: stationuuid.clone(),
                    group_id: g.id.unwrap(),
                    create_time: now,
                };
                self.favorites.push(row);
                self.next_id = self.next_id + 1;
            }
            k = k + 1;
        }
        proof {
            assert(pre.groups@.take(pre.groups@.len() as int) =~= pre.groups@);
        }
        Ok(())
    }

    /// Incremental sync: the user's groups, recently-played records and
    /// joined favorites from `start_time` on; the recently-played records
    /// come most recently started first.
    #[verifier::loop_isolation(false)]
    pub fn query_sync(&self, user_id: i64, start_time: i64) -> (r: AppResult<
        (Vec<FavGroup>, Vec<Recently>, Vec<StationGroup>),
    >)
        requires
            self.wf(),
        ensures
            r is Ok,
            r matches Ok(t) ==> ({
                &&& t.0@ == groups_since(self.groups@, user_id, start_time)
                &&& t.1@ == sort_desc(recently_since(self.recently@, user_id, start_time))
                &&& t.2@ == favorites_joined(self.favorites@, self.groups@, user_id, start_time)
            }),
    {
        let mut gs: Vec<FavGroup> = Vec::new();
        let mut k: usize = 0;
        while k < self.groups.len()
            invariant
                k <= self.groups@.len(),
                gs@ == groups_since(self.groups@.take(k as int), user_id, start_time),
            decreases self.groups@.len() - k,
        {
            proof {
                assert(self.groups@.take(k as int + 1).drop_last() =~= self.groups@.take(
                    k as int,
                ));
            }
            if self.groups[k].user_id == user_id && self.groups[k].create_time >= start_time {
                let row = self.groups[k].clone();
                gs.push(row);
            }
            k = k + 1;
        }
        proof {
            assert(self.groups@.take(self.groups@.len() as int) =~= self.groups@);
        }
        let mut rs: Vec<Recently> = Vec::new();
        let mut k2: usize = 0;
        while k2 < self.recently.len()
            invariant
                k2 <= self.recently@.len(),
                rs@ == recently_since(self.recently@.take(k2 as int), user_id, start_time),
            decreases self.recently@.len() - k2,
        {
            proof {
                assert(self.recently@.take(k2 as int + 1).drop_last() =~= self.recently@.take(
                    k2 as int,
                ));
            }
            if self.recently[k2].user_id == user_id && self.recently[k2].start_time >= start_time {
                let row = self.recently[k2].clone();
                rs.push(row);
            }
            k2 = k2 + 1;
        }
        proof {
            assert(self.recently@.take(self.recently@.len() as int) =~= self.recently@);
        }
        let rs = sort_recently_desc(rs);
        let favs = match self.favorites_since(user_id, start_time) {
            Ok(v) => v,
            Err(e) => {
                return Err(e);
            },
        };
        Ok((gs, rs, favs))
    }
}

/// Whether any string in the list equals this one.
#[verifier::loop_isolation(false)]
fn list_contains(list: &Vec<String>, s: &String) -> (r: bool)
    ensures
        r == station_listed(list@, s@),
{
    let mut k: usize = 0;
    while k < list.len()
        invariant
            k <= list@.len(),
            forall|j: int| 0 <= j < k ==> list@[j]@ != s@,
        decreases list@.len() - k,
    {
        if list[k] == *s {
            return true;
        }
        k = k + 1;
    }
    false
}

/// Whether some group row with this id, of any user, bears a listed name.
#[verifier::loop_isolation(false)]
fn group_bears_listed_name(gs: &Vec<FavGroup>, gid: i64, names: &Vec<String>) -> (r: bool)
    ensures
        r == fav_group_named_in(gs@, gid, names@),
{
    let mut k: usize = 0;
    while k < gs.len()
        invariant
            k <= gs@.len(),
            forall|i: int, n: int|
                0 <= i < k && 0 <= n < names@.len() ==> !(gs@[i].id == Some(gid) && gs@[i].name@
                    == names@[n]@),
        decreases gs@.len() - k,
    {
        if gs[k].id == Some(gid) {
            if list_contains(names, &gs[k].name) {
                return true;
            }
        }
        k = k + 1;
    }
    false
}

/// First group row of the user with this id.
#[verifier::loop_isolation(false)]
fn find_group_by_id(gs: &Vec<FavGroup>, uid: i64, gid: i64) -> (r: Option<usize>)
    ensures
        r matches Some(i) ==> i < gs@.len() && gs@[i as int].user_id == uid && gs@[i as int].id
            == Some(gid) && (forall|j: int|
            0 <= j < i ==> !(gs@[j].user_id == uid && gs@[j].id == Some(gid))),
        r is Some <==> gid_named(gs@, uid, gid),
{
    let mut k: usize = 0;
    while k < gs.len()
        invariant
            k <= gs@.len(),
            forall|j: int| 0 <= j < k ==> !(gs@[j].user_id == uid && gs@[j].id == Some(gid)),
        decreases gs@.len() - k,
    {
        if gs[k].user_id == uid && gs[k].id == Some(gid) {
            return Some(k);
        }
        k = k + 1;
    }
    None
}

/// Whether the user already has this station filed under this group.
#[verifier::loop_isolation(false)]
fn favorite_present(fs: &Vec<Favorite>, uid: i64, gid: i64, station: &String) -> (r: bool)
    ensures
        r == fav_exists(fs@, uid, gid, station@),
{
    let mut k: usize = 0;
    while k < fs.len()
        invariant
            k <= fs@.len(),
            forall|j: int|
                0 <= j < k ==> !(fs@[j].user_id == uid && fs@[j].group_id == gid
                    && fs@[j].stationuuid@ == station@),
        decreases fs@.len() - k,
    {
        if fs[k].user_id == uid && fs[k].group_id == gid && fs[k].stationuuid == *station {
            return true;
        }
        k = k + 1;
    }
    false
}

/// Whether the user has this station among their favorites at all.
#[verifier::loop_isolation(false)]
fn station_favored(fs: &Vec<Favorite>, uid: i64, station: &String) -> (r: bool)
    ensures
        r == fav_station_exists(fs@, uid, station@),
{
    let mut k: usize = 0;
    while k < fs.len()
        invariant
            k <= fs@.len(),
            forall|j: int|
                0 <= j < k ==> !(fs@[j].user_id == uid && fs@[j].stationuuid@ == station@),
        decreases fs@.len() - k,
    {
        if fs[k].user_id == uid && fs[k].stationuuid == *station {
            return true;
        }
        k = k + 1;
    }
    false
}

/// Drop the user's favorites for this station, keeping everything else.
#[verifier::loop_isolation(false)]
fn remove_station_favs_vec(fs: &Vec<Favorite>, uid: i64, station: &String) -> (r: Vec<Favorite>)
    ensures
        r@ == remove_station_favs(fs@, uid, station@),
{
    let mut out: Vec<Favorite> = Vec::new();
    let mut k: usize = 0;
    while k < fs.len()
        invariant
            k <= fs@.len(),
            out@ == remove_station_favs(fs@.take(k as int), uid, station@),
        decreases fs@.len() - k,
    {
        proof {
            assert(fs@.take(k as int + 1).drop_last() =~= fs@.take(k as int));
        }
        if !(fs[k].user_id == uid && fs[k].stationuuid == *station) {
            let row = fs[k].clone();
            out.push(row);
        }
        k = k + 1;
    }
    proof {
        assert(fs@.take(fs@.len() as int) =~= fs@);
    }
    out
}

/// Whether the user already has a recently-played row under this
/// (station, start-time) key.
#[verifier::loop_isolation(false)]
fn recently_row_present(rs: &Vec<Recently>, uid: i64, station: &String, start: i64) -> (r: bool)
    ensures
        r == recently_present(rs@, uid, station@, start),
{
    let mut k: usize = 0;
    while k < rs.len()
        invariant
            k <= rs@.len(),
            forall|j: int|
                0 <= j < k ==> !(rs@[j].user_id == uid && rs@[j].stationuuid@ == station@
                    && rs@[j].start_time == start),
        decreases rs@.len() - k,
    {
        if rs[k].user_id == uid && rs[k].stationuuid == *station && rs[k].start_time == start {
            return true;
        }
        k = k + 1;
    }
    false
}

/// An element-wise copy of the group table, taken at a chunk commit.
#[verifier::loop_isolation(false)]
fn copy_groups(gs: &Vec<FavGroup>) -> (r: Vec<FavGroup>)
    ensures
        r@ == gs@,
{
    let mut out: Vec<FavGroup> = Vec::new();
    let mut k: usize = 0;
    while k < gs.len()
        invariant
            k <= gs@.len(),
            out@ == gs@.take(k as int),
        decreases gs@.len() - k,
    {
        let row = gs[k].clone();
        out.push(row);
        proof {
            assert(gs@.take(k as int).push(gs@[k as int]) =~= gs@.take(k as int + 1));
        }
        k = k + 1;
    }
    proof {
        assert(gs@.take(gs@.len() as int) =~= gs@);
    }
    out
}

/// An element-wise copy of the favorite table, taken at a chunk commit.
#[verifier::loop_isolation(false)]
fn copy_favorites(fs: &Vec<Favorite>) -> (r: Vec<Favorite>)
    ensures
        r@ == fs@,
{
    let mut out: Vec<Favorite> = Vec::new();
    let mut k: usize = 0;
    while k < fs.len()
        invariant
            k <= fs@.len(),
            out@ == fs@.take(k as int),
        decreases fs@.len() - k,
    {
        let row = fs[k].clone();
        out.push(row);
        proof {
            assert(fs@.take(k as int).push(fs@[k as int]) =~= fs@.take(k as int + 1));
        }
        k = k + 1;
    }
    proof {
        assert(fs@.take(fs@.len() as int) =~= fs@);
    }
    out
}

/// Drop the user's groups under this name, keeping everything else.
#[verifier::loop_isolation(false)]
fn remove_groups_named_vec(gs: &Vec<FavGroup>, uid: i64, name: &String) -> (r: Vec<FavGroup>)
    ensures
        r@ == remove_group_named(gs@, uid, name@),
{
    let mut out: Vec<FavGroup> = Vec::new();
    let mut k: usize = 0;
    while k < gs.len()
        invariant
            k <= gs@.len(),
            out@ == remove_group_named(gs@.take(k as int), uid, name@),
        decreases gs@.len() - k,
    {
        proof {
            assert(gs@.take(k as int + 1).drop_last() =~= gs@.take(k as int));
        }
        if !(gs[k].user_id == uid && gs[k].name == *name) {
            let row = gs[k].clone();
            out.push(row);
        }
        k = k + 1;
    }
    proof {
        assert(gs@.take(gs@.len() as int) =~= gs@);
    }
    out
}

/// Drop the favorites filed under this group id, keeping everything else.
#[verifier::loop_isolation(false)]
fn remove_favs_by_group_vec(fs: &Vec<Favorite>, gid: i64) -> (r: Vec<Favorite>)
    ensures
        r@ == remove_favs_in_group(fs@, gid),
{
    let mut out: Vec<Favorite> = Vec::new();
    let mut k: usize = 0;
    while k < fs.len()
        invariant
            k <= fs@.len(),
            out@ == remove_favs_in_group(fs@.take(k as int), gid),
        decreases fs@.len() - k,
    {
        proof {
            assert(fs@.take(k as int + 1).drop_last() =~= fs@.take(k as int));
        }
        if fs[k].group_id != gid {
            let row = fs[k].clone();
            out.push(row);
        }
        k = k + 1;
    }
    proof {
        assert(fs@.take(fs@.len() as int) =~= fs@);
    }
    out
}

/// Drop every default group of this user, keeping everything else.
#[verifier::loop_isolation(false)]
fn remove_default_vec(gs: &Vec<FavGroup>, uid: i64) -> (r: Vec<FavGroup>)
    ensures
        r@ == remove_default(gs@, uid),
{
    let mut out: Vec<FavGroup> = Vec::new();
    let mut k: usize = 0;
    while k < gs.len()
        invariant
            k <= gs@.len(),
            out@ == remove_default(gs@.take(k as int), uid),
        decreases gs@.len() - k,
    {
        proof {
            assert(gs@.take(k as int + 1).drop_last() =~= gs@.take(k as int));
        }
        if !(gs[k].user_id == uid && gs[k].is_def == 1) {
            let row = gs[k].clone();
            out.push(row);
        }
        k = k + 1;
    }
    proof {
        assert(gs@.take(gs@.len() as int) =~= gs@);
    }
    out
}

/// First group row of the user under this name.
#[verifier::loop_isolation(false)]
fn find_group_by_name(gs: &Vec<FavGroup>, uid: i64, name: &String) -> (r: Option<usize>)
    ensures
        r matches Some(i) ==> i < gs@.len() && gs@[i as int].user_id == uid && gs@[i as int].name@
            == name@ && (forall|j: int|
            0 <= j < i ==> !(gs@[j].user_id == uid && gs@[j].name@ == name@)),
        r is Some <==> group_name_exists(gs@, uid, name@),
{
    let mut k: usize = 0;
    while k < gs.len()
        invariant
            k <= gs@.len(),
            forall|j: int| 0 <= j < k ==> !(gs@[j].user_id == uid && gs@[j].name@ == name@),
        decreases gs@.len() - k,
    {
        if gs[k].user_id == uid && gs[k].name == *name {
            return Some(k);
        }
        k = k + 1;
    }
    None
}

/// First default group row of the user.
#[verifier::loop_isolation(false)]
fn find_default_group(gs: &Vec<FavGroup>, uid: i64) -> (r: Option<usize>)
    ensures
        r matches Some(i) ==> i < gs@.len() && gs@[i as int].user_id == uid && gs@[i as int].is_def
            == 1,
        r is Some <==> has_default(gs@, uid),
{
    let mut k: usize = 0;
    while k < gs.len()
        invariant
            k <= gs@.len(),
            forall|j: int| 0 <= j < k ==> !(gs@[j].user_id == uid && gs@[j].is_def == 1),
        decreases gs@.len() - k,
    {
        if gs[k].user_id == uid && gs[k].is_def == 1 {
            return Some(k);
        }
        k = k + 1;
    }
    None
}

/// Counts agree on tables whose owners and default flags agree pointwise.
proof fn lemma_count_defaults_pointwise(gs1: Seq<FavGroup>, gs2: Seq<FavGroup>)
    requires
        gs1.len() == gs2.len(),
        forall|i: int|
            0 <= i < gs1.len() ==> (#[trigger] gs2[i]).user_id == gs1[i].user_id && gs2[i].is_def
                == gs1[i].is_def,
    ensures
        forall|u: i64| #[trigger] count_defaults(gs2, u) == count_defaults(gs1, u),
    decreases gs1.len(),
{
    if gs1.len() > 0 {
        assert forall|i: int|
            0 <= i < gs1.drop_last().len() implies (#[trigger] gs2.drop_last()[i]).user_id
            == gs1.drop_last()[i].user_id && gs2.drop_last()[i].is_def
            == gs1.drop_last()[i].is_def by {
            assert(gs2.drop_last()[i] == gs2[i]);
        }
        lemma_count_defaults_pointwise(gs1.drop_last(), gs2.drop_last());
        assert forall|u: i64| #[trigger] count_defaults(gs2, u) == count_defaults(gs1, u) by {
            assert(gs2.last().user_id == gs1.last().user_id && gs2.last().is_def
                == gs1.last().is_def);
            assert(count_defaults(gs2, u) == count_defaults(gs2.drop_last(), u) + (if gs2.last().user_id
                == u && gs2.last().is_def == 1 {
                1nat
            } else {
                0nat
            }));
        }
    } else {
        assert forall|u: i64| #[trigger] count_defaults(gs2, u) == count_defaults(gs1, u) by {
            assert(count_defaults(gs2, u) == 0);
            assert(count_defaults(gs1, u) == 0);
        }
    }
}

/// A user without a default group has a default count of zero.
proof fn lemma_no_default_count_zero(gs: Seq<FavGroup>, uid: i64)
    requires
        !has_default(gs, uid),
    ensures
        count_defaults(gs, uid) == 0,
    decreases gs.len(),
{
    if gs.len() > 0 {
        assert(!has_default(gs.drop_last(), uid)) by {
            if has_default(gs.drop_last(), uid) {
                let w = choose|w: int|
                    0 <= w < gs.drop_last().len() && gs.drop_last()[w].user_id == uid
                        && gs.drop_last()[w].is_def == 1;
                assert(gs[w].user_id == uid && gs[w].is_def == 1);
            }
        }
        lemma_no_default_count_zero(gs.drop_last(), uid);
    }
}

/// Insertion sort of recently-played records by descending start time.
#[verifier::loop_isolation(false)]
fn sort_recently_desc(v: Vec<Recently>) -> (r: Vec<Recently>)
    ensures
        r@ == sort_desc(v@),
{
    let mut out: Vec<Recently> = Vec::new();
    let mut k: usize = 0;
    while k < v.len()
        invariant
            k <= v@.len(),
            out@ == sort_desc(v@.take(k as int)),
        decreases v@.len() - k,
    {
        proof {
            assert(v@.take(k as int + 1).drop_last() =~= v@.take(k as int));
        }
        let x = v[k].clone();
        let mut p: usize = 0;
        while p < out.len() && out[p].start_time >= x.start_time
            invariant
                p <= out@.len(),
                forall|j: int| 0 <= j < p ==> out@[j].start_time >= x.start_time,
            decreases out@.len() - p,
        {
            p = p + 1;
        }
        proof {
            lemma_insert_desc_at(out@, x, p as int);
        }
        out.insert(p, x);
        k = k + 1;
    }
    proof {
        assert(v@.take(v@.len() as int) =~= v@);
    }
    out
}

} // verus!
