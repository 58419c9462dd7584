use slack_reader::auth::{Auth, CookieAuth};
use slack_reader::cache::InMemoryCache;
use slack_reader::model::domain::{Channel, User};
use slack_reader::slack;

fn client() -> slack::Slack {
    slack::new(
        "myteam",
        Auth::Cookie(CookieAuth {
            cookie: "ck".to_string(),
            token: Some("tok".to_string()),
        }),
    )
}

#[test]
fn resolver_is_deterministic_per_run() {
    let mut s = client();
    let first = s.get_user_name(None, "U100".to_string());
    let second = s.get_user_name(None, "U100".to_string());
    assert_eq!(first, second);
    assert_eq!(s.user_map.len(), 1);
}

#[test]
fn resolver_memoizes_each_id_separately() {
    let mut s = client();
    let a1 = s.get_user_name(None, "UA".to_string());
    let b1 = s.get_user_name(None, "UB".to_string());
    assert_eq!(s.user_map.len(), 2);
    assert_eq!(s.get_user_name(None, "UA".to_string()), a1);
    assert_eq!(s.get_user_name(None, "UB".to_string()), b1);
    assert_eq!(s.user_map.len(), 2);
}

#[test]
fn resolver_cache_hit_is_returned_unchanged() {
    let mut s = client();
    let cached = User {
        id: "U7".to_string(),
        name: "alice".to_string(),
    };
    let name = s.get_user_name(Some(cached), "U7".to_string());
    assert_eq!(name, "alice");
    assert!(s.user_map.is_empty());
}

#[test]
fn channel_name_prefers_supplied_then_cache_then_id() {
    let s = client();
    let cached = Channel {
        id: "C9".to_string(),
        name: "general".to_string(),
        is_channel: true,
    };
    assert_eq!(s.get_channel("inline", "C9", Some(cached)), "inline");
    let cached = Channel {
        id: "C9".to_string(),
        name: "general".to_string(),
        is_channel: true,
    };
    assert_eq!(s.get_channel("", "C9", Some(cached)), "general");
    assert_eq!(s.get_channel("", "C9", None), "C9");
}

#[test]
fn sync_same_channel_twice_keeps_latest_name() {
    let mut cache = InMemoryCache::new();
    cache
        .sync_channels(
            "t1",
            vec![Channel {
                id: "C1".to_string(),
                name: "old-name".to_string(),
                is_channel: true,
            }],
        )
        .unwrap();
    cache
        .sync_channels(
            "t1",
            vec![Channel {
                id: "C1".to_string(),
                name: "new-name".to_string(),
                is_channel: true,
            }],
        )
        .unwrap();
    let got = cache.get_channel("t1", "C1").unwrap();
    assert_eq!(got.name, "new-name");
    assert_eq!(got.id, "C1");
}

#[test]
fn sync_users_writes_and_reads_back() {
    let mut cache = InMemoryCache::new();
    cache
        .sync_users(
            "t1",
            vec![
                User {
                    id: "U1".to_string(),
                    name: "ann".to_string(),
                },
                User {
                    id: "U2".to_string(),
                    name: "bob".to_string(),
                },
            ],
        )
        .unwrap();
    assert_eq!(cache.get_user("t1", "U1").unwrap().name, "ann");
    assert_eq!(cache.get_user("t1", "U2").unwrap().name, "bob");
    assert!(cache.get_user("t1", "U3").is_none());
    assert!(cache.get_user("t2", "U1").is_none());
}

#[test]
fn cache_tables_are_scoped_by_team() {
    let mut cache = InMemoryCache::new();
    cache
        .sync_users(
            "t1",
            vec![User {
                id: "U1".to_string(),
                name: "ann".to_string(),
            }],
        )
        .unwrap();
    cache
        .sync_users(
            "t2",
            vec![User {
                id: "U1".to_string(),
                name: "anna".to_string(),
            }],
        )
        .unwrap();
    assert_eq!(cache.get_user("t1", "U1").unwrap().name, "ann");
    assert_eq!(cache.get_user("t2", "U1").unwrap().name, "anna");
}

#[test]
fn migrate_always_succeeds() {
    let cache = InMemoryCache::new();
    assert!(cache.migrate().is_ok());
    assert!(cache.migrate().is_ok());
}

#[test]
fn generated_names_exist() {
    let name = slack::generate_random_name();
    assert!(!name.is_empty());
}
