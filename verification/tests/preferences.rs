use appserv::errors::Error;
use appserv::repo_trait::AppServRepo;
use appserv::model::StationGroup;
use appserv::proto::{GroupNew, RecentlyNew};
use appserv::repo::MemRepo;

fn addr(local: &str) -> String {
    [local, "example.com"].join("\u{40}")
}

fn repo_with_user() -> (MemRepo, i64) {
    let mut repo = MemRepo::new(15 * 86_400_000, 3_600_000);
    repo.add_product("radio".to_string(), "a radio app".to_string(), 1)
        .unwrap();
    let u = repo
        .create_user(
            &appserv::proto::SignUpReq {
                product: "radio".to_string(),
                email: addr("foo"),
                passwd: "secret1".to_string(),
                captcha: "x".to_string(),
                code: "1".to_string(),
            },
            1,
        )
        .unwrap();
    let uid = u.id.unwrap();
    (repo, uid)
}

fn group(name: &str, create_time: i64, is_def: i64) -> GroupNew {
    GroupNew {
        create_time,
        name: name.to_string(),
        desc: String::new(),
        is_def,
    }
}

fn fav(group_name: &str, station: &str, create_time: i64) -> StationGroup {
    StationGroup {
        group_name: group_name.to_string(),
        stationuuid: station.to_string(),
        create_time,
    }
}

#[test]
fn new_favorite_is_idempotent() {
    let (mut repo, uid) = repo_with_user();
    repo.new_groups(uid, &vec![group("g", 10, 0)]).unwrap();
    let item = vec![fav("g", "station-1", 20)];
    repo.new_favorite(uid, &item).unwrap();
    repo.new_favorite(uid, &item).unwrap();
    assert_eq!(repo.favorites.len(), 1);
    let listed = repo.query_favorites(uid).unwrap();
    assert_eq!(listed.len(), 1);
    assert_eq!(listed[0].stationuuid, "station-1");
    assert_eq!(listed[0].group_name, "g");
}

#[test]
fn default_group_arbitration_by_create_time() {
    let (mut repo, uid) = repo_with_user();
    repo.new_groups(uid, &vec![group("first", 100, 1)]).unwrap();
    assert_eq!(repo.count_default_groups(uid), 1);

    // an older default is discarded, the existing one retained
    repo.new_groups(uid, &vec![group("older", 50, 1)]).unwrap();
    assert_eq!(repo.count_default_groups(uid), 1);
    let names: Vec<String> = repo
        .query_groups(uid)
        .unwrap()
        .into_iter()
        .filter(|g| g.is_def == 1)
        .map(|g| g.name)
        .collect();
    assert_eq!(names, vec!["first".to_string()]);

    // a newer default replaces it: old removed, new inserted
    repo.new_groups(uid, &vec![group("newer", 150, 1)]).unwrap();
    assert_eq!(repo.count_default_groups(uid), 1);
    let names: Vec<String> = repo
        .query_groups(uid)
        .unwrap()
        .into_iter()
        .filter(|g| g.is_def == 1)
        .map(|g| g.name)
        .collect();
    assert_eq!(names, vec!["newer".to_string()]);
}

#[test]
fn duplicate_group_names_are_skipped() {
    let (mut repo, uid) = repo_with_user();
    repo.new_groups(uid, &vec![group("g", 10, 0), group("g", 20, 0)])
        .unwrap();
    assert_eq!(repo.query_groups(uid).unwrap().len(), 1);
}

#[test]
fn modify_group_renames() {
    let (mut repo, uid) = repo_with_user();
    repo.new_groups(uid, &vec![group("old", 10, 0)]).unwrap();
    repo.modify_group(
        uid,
        &"old".to_string(),
        &"new".to_string(),
        &"described".to_string(),
    )
    .unwrap();
    let gs = repo.query_groups(uid).unwrap();
    assert_eq!(gs.len(), 1);
    assert_eq!(gs[0].name, "new");
    assert_eq!(gs[0].desc, "described");
}

#[test]
fn delete_groups_cascades_to_favorites() {
    let (mut repo, uid) = repo_with_user();
    repo.new_groups(uid, &vec![group("g1", 10, 0), group("g2", 11, 0)])
        .unwrap();
    repo.new_favorite(uid, &vec![fav("g1", "s1", 20), fav("g2", "s2", 21)])
        .unwrap();
    repo.delete_groups(uid, &vec!["g1".to_string()]).unwrap();
    assert_eq!(repo.query_groups(uid).unwrap().len(), 1);
    let left = repo.query_favorites(uid).unwrap();
    assert_eq!(left.len(), 1);
    assert_eq!(left[0].stationuuid, "s2");
}

#[test]
fn delete_favorite_by_station_and_group() {
    let (mut repo, uid) = repo_with_user();
    repo.new_groups(uid, &vec![group("g1", 10, 0), group("g2", 11, 0)])
        .unwrap();
    repo.new_favorite(
        uid,
        &vec![fav("g1", "s1", 20), fav("g1", "s2", 21), fav("g2", "s3", 22)],
    )
    .unwrap();
    repo.delete_favorite(uid, &Some(vec!["s1".to_string()]), &None)
        .unwrap();
    assert_eq!(repo.favorites.len(), 2);
    repo.delete_favorite(uid, &None, &Some(vec!["g2".to_string()]))
        .unwrap();
    let left = repo.query_favorites(uid).unwrap();
    assert_eq!(left.len(), 1);
    assert_eq!(left[0].stationuuid, "s2");
}

#[test]
fn modify_favorite_refiles_station() {
    let (mut repo, uid) = repo_with_user();
    repo.new_groups(uid, &vec![group("g1", 10, 0), group("g2", 11, 0)])
        .unwrap();
    repo.new_favorite(uid, &vec![fav("g1", "s1", 20)]).unwrap();
    repo.modify_favorite(uid, &"s1".to_string(), &vec!["g2".to_string()], 30)
        .unwrap();
    let listed = repo.query_favorites(uid).unwrap();
    assert_eq!(listed.len(), 1);
    assert_eq!(listed[0].group_name, "g2");
    assert_eq!(listed[0].create_time, 30);
    // a station never favored cannot be refiled
    let r = repo.modify_favorite(uid, &"s9".to_string(), &vec!["g2".to_string()], 31);
    assert!(matches!(r, Err(Error::DatabaseException(_))));
}

#[test]
fn recently_is_sorted_by_start_desc() {
    let (mut repo, uid) = repo_with_user();
    repo.new_recently(
        uid,
        &vec![
            RecentlyNew {
                stationuuid: "a".to_string(),
                start_time: 100,
                end_time: Some(150),
            },
            RecentlyNew {
                stationuuid: "b".to_string(),
                start_time: 300,
                end_time: None,
            },
            RecentlyNew {
                stationuuid: "c".to_string(),
                start_time: 200,
                end_time: None,
            },
        ],
    )
    .unwrap();
    let rs = repo.query_recently(uid).unwrap();
    let stations: Vec<String> = rs.into_iter().map(|r| r.stationuuid).collect();
    assert_eq!(
        stations,
        vec!["b".to_string(), "c".to_string(), "a".to_string()]
    );
}

#[test]
fn duplicate_recently_records_are_skipped() {
    let (mut repo, uid) = repo_with_user();
    let one = vec![RecentlyNew {
        stationuuid: "a".to_string(),
        start_time: 100,
        end_time: None,
    }];
    repo.new_recently(uid, &one).unwrap();
    // the same (station, start-time) record again is silently skipped
    repo.new_recently(uid, &one).unwrap();
    assert_eq!(repo.recently.len(), 1);
    // a batch repeating one key stores it once
    let batch = vec![
        RecentlyNew {
            stationuuid: "b".to_string(),
            start_time: 200,
            end_time: None,
        },
        RecentlyNew {
            stationuuid: "b".to_string(),
            start_time: 200,
            end_time: Some(250),
        },
    ];
    repo.new_recently(uid, &batch).unwrap();
    assert_eq!(repo.recently.len(), 2);
}

#[test]
fn modify_recently_closes_record() {
    let (mut repo, uid) = repo_with_user();
    repo.new_recently(
        uid,
        &vec![RecentlyNew {
            stationuuid: "a".to_string(),
            start_time: 100,
            end_time: None,
        }],
    )
    .unwrap();
    repo.modify_recently(uid, &"a".to_string(), 100, 180).unwrap();
    let rs = repo.query_recently(uid).unwrap();
    assert_eq!(rs[0].end_time, Some(180));
}

#[test]
fn delete_recently_clears_only_this_user() {
    let (mut repo, uid) = repo_with_user();
    let other = repo
        .create_user(
            &appserv::proto::SignUpReq {
                product: "radio".to_string(),
                email: addr("other"),
                passwd: "secret1".to_string(),
                captcha: "x".to_string(),
                code: "1".to_string(),
            },
            2,
        )
        .unwrap()
        .id
        .unwrap();
    let one = vec![RecentlyNew {
        stationuuid: "a".to_string(),
        start_time: 100,
        end_time: None,
    }];
    repo.new_recently(uid, &one).unwrap();
    repo.new_recently(other, &one).unwrap();
    repo.delete_recently(uid).unwrap();
    assert_eq!(repo.query_recently(uid).unwrap().len(), 0);
    assert_eq!(repo.query_recently(other).unwrap().len(), 1);
}

#[test]
fn sync_returns_collections_from_lower_bound() {
    let (mut repo, uid) = repo_with_user();
    let (gs, rs, fs) = repo.query_sync(uid, 0).unwrap();
    assert!(gs.is_empty() && rs.is_empty() && fs.is_empty());
    repo.new_recently(
        uid,
        &vec![RecentlyNew {
            stationuuid: "s1".to_string(),
            start_time: 1000,
            end_time: None,
        }],
    )
    .unwrap();
    let (gs, rs, fs) = repo.query_sync(uid, 0).unwrap();
    assert!(gs.is_empty() && fs.is_empty());
    assert_eq!(rs.len(), 1);
    assert_eq!(rs[0].stationuuid, "s1");
    // the lower bound filters out older records
    let (_gs, rs, _fs) = repo.query_sync(uid, 2000).unwrap();
    assert!(rs.is_empty());
}

#[test]
fn query_user_products_lists_open_products() {
    let (mut repo, uid) = repo_with_user();
    repo.add_product("tv".to_string(), "a tv app".to_string(), 1)
        .unwrap();
    let ps = repo.query_user_products(uid).unwrap();
    assert_eq!(ps.len(), 1);
    assert_eq!(ps[0].product, "radio");
    repo.open_product(uid, &"tv".to_string(), 5).unwrap();
    let ps = repo.query_user_products(uid).unwrap();
    assert_eq!(ps.len(), 2);
    // opening again changes nothing
    repo.open_product(uid, &"tv".to_string(), 6).unwrap();
    assert_eq!(repo.query_user_products(uid).unwrap().len(), 2);
    assert_eq!(repo.query_products().unwrap().len(), 2);
}

#[test]
fn repo_capability_dispatches() {
    let (repo, uid) = repo_with_user();
    let ps = AppServRepo::query_user_products(&repo, uid).unwrap();
    assert_eq!(ps.len(), 1);
    assert_eq!(AppServRepo::query_products(&repo).unwrap().len(), 1);
}
