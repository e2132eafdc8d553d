//! The laws the repository contracts combine into: a successful
//! registration enables a sign-in with the same credentials, favorite
//! insertion is idempotent, each user keeps at most one default group,
//! and synchronised recently-played records come ordered by start time.

use vstd::prelude::*;
use crate::model::{FavGroup, Favorite, Recently, StationGroup, User};
use crate::proto::SignUpReq;
use crate::repo::{
    count_defaults, create_user_ok, email_taken, fav_exists, first_group_index,
    group_name_exists, insert_desc, new_favorites_fold, open_membership, open_product_index,
    product_index, product_open, sort_desc, user_index, MemRepo,
};

verus! {

/// After a successful registration against an open product, the same
/// credentials satisfy everything a sign-in for that product demands: the
/// email resolves to the new user, the stored hash matches the password,
/// and an open membership for the product exists.  `signin_user`'s
/// contract then owes a session on these facts.
pub proof fn law_signup_then_signin(pre: MemRepo, post: MemRepo, signup: SignUpReq, now: i64, u: User)
    requires
        pre.wf(),
        !email_taken(pre.users@, signup.email@),
        product_open(pre.products@, signup.product@),
        create_user_ok(pre, post, signup, now, u),
    ensures
        email_taken(post.users@, signup.email@),
        post.users@[user_index(post.users@, signup.email@)] == u,
        u.passwd@ == crate::codec::passwd_hash(signup.email@, signup.passwd@),
        open_membership(post.products@, post.memberships@, u.id->0, signup.product@),
{
    let users = post.users@;
    assert(users[users.len() - 1].email@ == signup.email@);
    let i = user_index(users, signup.email@);
    assert(users[i].email@ == signup.email@);
    if i < users.len() - 1 {
        assert(pre.users@[i].email@ == signup.email@);
        assert(email_taken(pre.users@, signup.email@));
    }
    assert(i == users.len() - 1);
    let pi = open_product_index(pre.products@, signup.product@);
    assert(pre.products@[pi].product@ == signup.product@ && pre.products@[pi].status@
        == crate::model::status_normal());
    let ci = product_index(pre.products@, signup.product@);
    assert(pre.products@[ci].product@ == signup.product@);
    if ci < pi {
        assert(pre.products@[ci].product@ != pre.products@[pi].product@);
    } else if pi < ci {
        assert(pre.products@[pi].product@ != pre.products@[ci].product@);
    }
    assert(ci == pi);
    let m = post.memberships@.last();
    assert(m.user_id == u.id->0);
    assert(post.products@[pi].id == Some(m.product_id));
    assert(post.memberships@[post.memberships@.len() - 1] == m);
    assert(open_membership(post.products@, post.memberships@, u.id->0, signup.product@));
}

/// Inserting the same favorite twice stores it once: a second bulk
/// insert of one already-present row leaves the favorite table and the
/// id counter exactly as they were.
pub proof fn law_new_favorite_idempotent(
    fs: Seq<Favorite>,
    gs: Seq<FavGroup>,
    e: StationGroup,
    uid: i64,
    next: int,
)
    requires
        group_name_exists(gs, uid, e.group_name@),
    ensures
        ({
            let st1 = new_favorites_fold(fs, gs, seq![e], uid, next);
            let st2 = new_favorites_fold(st1.favorites, gs, seq![e], uid, st1.next);
            &&& st1.ok
            &&& st2.ok
            &&& st2.favorites == st1.favorites
            &&& st2.next == st1.next
        }),
{
    let items = seq![e];
    assert(items.drop_last() =~= Seq::<StationGroup>::empty());
    assert(items.last() == e);
    let gid = gs[first_group_index(gs, uid, e.group_name@)].id->0;
    let st0 = new_favorites_fold(fs, gs, items.drop_last(), uid, next);
    assert(st0.ok && st0.favorites == fs && st0.next == next && st0.cnt == 0);
    let st1 = new_favorites_fold(fs, gs, items, uid, next);
    if fav_exists(fs, uid, gid, e.stationuuid@) {
        assert(st1 == st0);
        assert(fav_exists(st1.favorites, uid, gid, e.stationuuid@));
    } else {
        assert(st1.favorites == fs.push(
            Favorite {
                id: Some(next as i64),
                user_id: uid,
                stationuuid: e.stationuuid,
                group_id: gid,
                create_time: e.create_time,
            },
        ));
        let row = st1.favorites.last();
        assert(row.user_id == uid && row.group_id == gid && row.stationuuid@ == e.stationuuid@);
        assert(fav_exists(st1.favorites, uid, gid, e.stationuuid@));
    }
    let st0b = new_favorites_fold(st1.favorites, gs, items.drop_last(), uid, st1.next);
    assert(st0b.ok && st0b.favorites == st1.favorites && st0b.next == st1.next && st0b.cnt == 0);
    let st2 = new_favorites_fold(st1.favorites, gs, items, uid, st1.next);
    assert(st2.favorites == st1.favorites && st2.next == st1.next && st2.ok);
}

/// Every well-formed store keeps at most one default favorite group per
/// user; every repository operation preserves this.
pub proof fn law_one_default_group(repo: MemRepo, uid: i64)
    requires
        repo.wf(),
    ensures
        count_defaults(repo.groups@, uid) <= 1,
{
}

/// Whether recently-played records come most recently started first.
pub open spec fn sorted_by_start_desc(rs: Seq<Recently>) -> bool {
    forall|i: int, j: int| 0 <= i < j < rs.len() ==> rs[i].start_time >= rs[j].start_time
}

/// Descending insertion keeps a descending list descending, adding
/// nothing but the inserted record.
proof fn lemma_insert_desc_sorted(rs: Seq<Recently>, x: Recently)
    requires
        sorted_by_start_desc(rs),
    ensures
        sorted_by_start_desc(insert_desc(rs, x)),
        insert_desc(rs, x).len() == rs.len() + 1,
        forall|k: int|
            0 <= k < insert_desc(rs, x).len() ==> (insert_desc(rs, x)[k] == x || rs.contains(
                #[trigger] insert_desc(rs, x)[k],
            )),
    decreases rs.len(),
{
    let out = insert_desc(rs, x);
    if rs.len() == 0 {
    } else if rs[0].start_time >= x.start_time {
        let rest = rs.drop_first();
        assert(sorted_by_start_desc(rest)) by {
            assert(forall|i: int, j: int|
                0 <= i < j < rest.len() ==> rest[i] == rs[i + 1] && rest[j] == rs[j + 1]);
        }
        lemma_insert_desc_sorted(rest, x);
        let inner = insert_desc(rest, x);
        assert(out == seq![rs[0]] + inner);
        assert forall|i: int, j: int| 0 <= i < j < out.len() implies out[i].start_time
            >= out[j].start_time by {
            if i == 0 {
                assert(out[0] == rs[0]);
                assert(out[j] == inner[j - 1]);
                if inner[j - 1] == x {
                } else {
                    let w = choose|w: int| 0 <= w < rest.len() && rest[w] == inner[j - 1];
                    assert(rs[w + 1] == inner[j - 1]);
                }
            } else {
                assert(out[i] == inner[i - 1] && out[j] == inner[j - 1]);
            }
        }
        assert forall|k: int| 0 <= k < out.len() implies (out[k] == x || rs.contains(
            #[trigger] out[k],
        )) by {
            if k == 0 {
                assert(rs[0] == out[0]);
            } else {
                assert(out[k] == inner[k - 1]);
                if inner[k - 1] != x {
                    let w = choose|w: int| 0 <= w < rest.len() && rest[w] == inner[k - 1];
                    assert(rs[w + 1] == out[k]);
                }
            }
        }
    } else {
        assert(out == seq![x] + rs);
        assert forall|k: int| 0 <= k < out.len() implies (out[k] == x || rs.contains(
            #[trigger] out[k],
        )) by {
            if k > 0 {
                assert(rs[k - 1] == out[k]);
            }
        }
    }
}

/// The sort the store applies to recently-played records really orders
/// them by descending start time.
pub proof fn law_recently_sorted(rs: Seq<Recently>)
    ensures
        sorted_by_start_desc(sort_desc(rs)),
    decreases rs.len(),
{
    if rs.len() > 0 {
        law_recently_sorted(rs.drop_last());
        lemma_insert_desc_sorted(sort_desc(rs.drop_last()), rs.last());
    }
}

} // verus!
