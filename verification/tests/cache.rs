use docker_fuse::containers::ContainerInfo;
use docker_fuse::docker::Docker;
use docker_fuse::docker::TTL_MS;

fn info(id: &str, names: &[&str], created: i64) -> ContainerInfo {
    ContainerInfo {
        id: Some(id.to_string()),
        names: Some(names.iter().map(|n| n.to_string()).collect()),
        created: Some(created),
    }
}

#[test]
fn ttl_two_calls_within_window_issue_one_query() {
    let mut cache = Docker::new();
    let mut queries = 0u32;

    let r = cache.update_containers(1000u64, || {
        queries += 1;
        Ok::<Vec<ContainerInfo>, ()>(vec![info("abc123ef", &["/web"], 7)])
    });
    assert_eq!(r, Ok(true));
    assert_eq!(queries, 1);

    // Second call within the window: served from the cache, no query.
    let r = cache.update_containers(1000 + TTL_MS - 1, || {
        queries += 1;
        Ok::<Vec<ContainerInfo>, ()>(vec![])
    });
    assert_eq!(r, Ok(false));
    assert_eq!(queries, 1);
    assert_eq!(cache.get_containers().len(), 1);
}

#[test]
fn ttl_call_after_window_issues_second_query() {
    let mut cache = Docker::new();
    let mut queries = 0u32;

    let r = cache.update_containers(1000u64, || {
        queries += 1;
        Ok::<Vec<ContainerInfo>, ()>(vec![])
    });
    assert_eq!(r, Ok(true));

    let r = cache.update_containers(1000 + TTL_MS, || {
        queries += 1;
        Ok::<Vec<ContainerInfo>, ()>(vec![])
    });
    assert_eq!(r, Ok(true));
    assert_eq!(queries, 2);
}

#[test]
fn first_access_refreshes_a_new_cache() {
    let mut cache = Docker::new();
    assert_eq!(cache.get_containers().len(), 0);
    assert!(cache.needs_refresh(0));
    let mut queries = 0u32;
    let r = cache.update_containers(0u64, || {
        queries += 1;
        Ok::<Vec<ContainerInfo>, ()>(vec![])
    });
    assert_eq!(r, Ok(true));
    assert_eq!(queries, 1);
}

// Callers serialize on the cache's lock, so N "simultaneous" stale callers
// become one caller that refreshes followed by a queue of callers that find
// the cache fresh: one outbound query in total, every caller observing the
// snapshot that query produced.
#[test]
fn single_flight_n_stale_callers_one_query() {
    let mut cache = Docker::new();
    let mut queries = 0u32;
    let now = 42_000u64;

    let mut seen: Vec<Vec<String>> = Vec::new();
    for _ in 0..5 {
        let _ = cache.update_containers(now, || {
            queries += 1;
            Ok::<Vec<ContainerInfo>, ()>(vec![info("abc123ef", &["/web"], 7)])
        });
        let names: Vec<String> = cache
            .get_containers()
            .iter()
            .map(|c| c.get_name().clone())
            .collect();
        seen.push(names);
    }

    assert_eq!(queries, 1);
    for names in &seen {
        assert_eq!(names, &vec!["web".to_string()]);
    }
}

#[test]
fn failed_refresh_keeps_snapshot_and_retries_immediately() {
    let mut cache = Docker::new();
    let mut queries = 0u32;

    let r = cache.update_containers(1000u64, || {
        queries += 1;
        Ok::<Vec<ContainerInfo>, &str>(vec![info("abc123ef", &["/web"], 7)])
    });
    assert_eq!(r, Ok(true));

    // Past the window the daemon fails: the old snapshot stays in place.
    let t = 1000 + TTL_MS;
    let r = cache.update_containers(t, || {
        queries += 1;
        Err::<Vec<ContainerInfo>, &str>("unreachable")
    });
    assert_eq!(r, Err("unreachable"));
    assert_eq!(cache.get_containers().len(), 1);
    assert_eq!(cache.get_containers()[0].get_name().as_str(), "web");

    // The refresh instant was not advanced, so the very next call retries
    // instead of waiting out a new window.
    assert!(cache.needs_refresh(t));
    let r = cache.update_containers(t, || {
        queries += 1;
        Ok::<Vec<ContainerInfo>, &str>(vec![info("abc123gh", &["/db"], 9)])
    });
    assert_eq!(r, Ok(true));
    assert_eq!(queries, 3);
    assert_eq!(cache.get_containers()[0].get_name().as_str(), "db");
}

#[test]
fn refresh_admits_records_with_identity_and_nonempty_names() {
    let mut cache = Docker::new();
    let listing = vec![
        info("abc123ef", &["/web"], 1),
        ContainerInfo {
            id: None,
            names: Some(vec!["/ghost".to_string()]),
            created: Some(2),
        },
        ContainerInfo {
            id: Some("deadbeef".to_string()),
            names: None,
            created: Some(3),
        },
        ContainerInfo {
            id: Some("feedc0de".to_string()),
            names: Some(vec![]),
            created: Some(4),
        },
        info("0123beef", &["bare-name"], 5),
        info("abc123gh", &["/db"], 6),
    ];
    let r = cache.update_containers(0u64, || Ok::<Vec<ContainerInfo>, ()>(listing));
    assert_eq!(r, Ok(true));
    let names: Vec<&str> = cache
        .get_containers()
        .iter()
        .map(|c| c.get_name().as_str())
        .collect();
    assert_eq!(names, vec!["web", "bare-name", "db"]);
}

#[test]
fn display_name_takes_first_name_with_leading_slashes_stripped() {
    let mut cache = Docker::new();
    let listing = vec![
        info("abc123ef", &["//web", "/web-alias"], 1),
        info("abc123gh", &["plain", "/slashed"], 2),
    ];
    let r = cache.update_containers(0u64, || Ok::<Vec<ContainerInfo>, ()>(listing));
    assert_eq!(r, Ok(true));
    let snap = cache.get_containers();
    assert_eq!(snap[0].get_name().as_str(), "web");
    // The first name wins; one with no separator is kept as it is.
    assert_eq!(snap[1].get_name().as_str(), "plain");
}

#[test]
fn refresh_replaces_snapshot_wholesale() {
    let mut cache = Docker::new();
    let r = cache.update_containers(0u64, || {
        Ok::<Vec<ContainerInfo>, ()>(vec![info("abc123ef", &["/web"], 1)])
    });
    assert_eq!(r, Ok(true));
    let r = cache.update_containers(TTL_MS, || {
        Ok::<Vec<ContainerInfo>, ()>(vec![info("abc123gh", &["/db"], 2)])
    });
    assert_eq!(r, Ok(true));
    let names: Vec<&str> = cache
        .get_containers()
        .iter()
        .map(|c| c.get_name().as_str())
        .collect();
    assert_eq!(names, vec!["db"]);
}

#[test]
fn get_child_finds_cached_container_by_ino() {
    let mut cache = Docker::new();
    let r = cache.update_containers(0u64, || {
        Ok::<Vec<ContainerInfo>, ()>(vec![info("abc123ef", &["/web"], 1)])
    });
    assert_eq!(r, Ok(true));
    let ino = 0x6162633132336566u64;
    let c = cache.get_child(ino).expect("cached container");
    assert_eq!(c.get_ino(), ino);
    assert_eq!(c.get_id().as_str(), "abc123ef");
    assert!(cache.get_child(0xdead).is_none());
}

#[test]
fn find_by_name_prefix_returns_matches_in_snapshot_order() {
    let mut cache = Docker::new();
    let listing = vec![
        info("abc123ef", &["/web"], 1),
        info("abc123gh", &["/db"], 2),
        info("0123beef", &["/web-older"], 3),
    ];
    let r = cache.update_containers(0u64, || Ok::<Vec<ContainerInfo>, ()>(listing));
    assert_eq!(r, Ok(true));
    let hits = cache.find_by_name_prefix("web");
    let names: Vec<&str> = hits.iter().map(|c| c.get_name().as_str()).collect();
    assert_eq!(names, vec!["web", "web-older"]);
    assert!(cache.find_by_name_prefix("zzz").is_empty());
    assert_eq!(cache.find_by_name_prefix("").len(), 3);
}
