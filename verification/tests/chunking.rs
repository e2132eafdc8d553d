use appserv::bulk::{chunk_commit_count, chunk_size_at, committed_before_failure};
use appserv::errors::Error;
use appserv::model::StationGroup;
use appserv::proto::{GroupNew, RecentlyNew};
use appserv::repo::MemRepo;

fn addr(local: &str) -> String {
    [local, "example.com"].join("\u{40}")
}

fn repo_with_user() -> (MemRepo, i64) {
    let mut repo = MemRepo::new(15 * 86_400_000, 3_600_000);
    repo.add_product("radio".to_string(), "a radio app".to_string(), 1)
        .unwrap();
    let u = repo
        .create_user(
            &appserv::proto::SignUpReq {
                product: "radio".to_string(),
                email: addr("foo"),
                passwd: "secret1".to_string(),
                captcha: "x".to_string(),
                code: "1".to_string(),
            },
            1,
        )
        .unwrap();
    let uid = u.id.unwrap();
    (repo, uid)
}

#[test]
fn hundred_twenty_records_commit_in_three_chunks() {
    let (mut repo, uid) = repo_with_user();
    let batch: Vec<RecentlyNew> = (0..120)
        .map(|i| RecentlyNew {
            stationuuid: format!("s{}", i),
            start_time: 1000 + i,
            end_time: None,
        })
        .collect();
    repo.new_recently(uid, &batch).unwrap();
    assert_eq!(repo.recently.len(), 120);
    // the chunk plan for 120 rows: three transactions of 50, 50 and 20
    assert_eq!(chunk_commit_count(120), 3);
    assert_eq!(chunk_size_at(120, 0), 50);
    assert_eq!(chunk_size_at(120, 1), 50);
    assert_eq!(chunk_size_at(120, 2), 20);
}

#[test]
fn failure_mid_chunk_keeps_committed_chunks_only() {
    // after 74 successful inserts a failure on the next row leaves the
    // first full chunk of fifty committed and the open chunk rolled back
    assert_eq!(committed_before_failure(74), 50);
    assert_eq!(committed_before_failure(50), 50);
    assert_eq!(committed_before_failure(49), 0);
    assert_eq!(committed_before_failure(120), 100);

    let (mut repo, uid) = repo_with_user();
    repo.new_groups(
        uid,
        &vec![GroupNew {
            create_time: 10,
            name: "g".to_string(),
            desc: String::new(),
            is_def: 0,
        }],
    )
    .unwrap();
    // 120 favorites, but the 75th names a group that does not exist:
    // the operation fails and only the first committed chunk survives
    let batch: Vec<StationGroup> = (0..120)
        .map(|i| StationGroup {
            group_name: if i == 74 { "missing".to_string() } else { "g".to_string() },
            stationuuid: format!("s{}", i),
            create_time: 100 + i,
        })
        .collect();
    let r = repo.new_favorite(uid, &batch);
    assert!(matches!(r, Err(Error::DatabaseException(_))));
    assert_eq!(repo.favorites.len(), 50);
}

#[test]
fn delete_groups_rolls_back_open_chunk() {
    let (mut repo, uid) = repo_with_user();
    let groups: Vec<GroupNew> = (0..60)
        .map(|i| GroupNew {
            create_time: i,
            name: format!("g{}", i),
            desc: String::new(),
            is_def: 0,
        })
        .collect();
    repo.new_groups(uid, &groups).unwrap();
    assert_eq!(repo.groups.len(), 60);
    // delete 52 names, the 52nd unknown: the first chunk of fifty
    // deletions commits, the open chunk of one rolls back
    let mut names: Vec<String> = (0..51).map(|i| format!("g{}", i)).collect();
    names.push("missing".to_string());
    let r = repo.delete_groups(uid, &names);
    assert!(matches!(r, Err(Error::DatabaseException(_))));
    assert_eq!(repo.groups.len(), 10);
}
