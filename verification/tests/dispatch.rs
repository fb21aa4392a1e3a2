use docker_fuse::containers::ContainerInfo;
use docker_fuse::docker::Docker;
use docker_fuse::docker_strategy::getattr;
use docker_fuse::docker_strategy::init;
use docker_fuse::docker_strategy::lookup;
use docker_fuse::docker_strategy::open;
use docker_fuse::docker_strategy::readdir;
use docker_fuse::docker_strategy::FsError;
use docker_fuse::parent_directories::ParentDirectories;

fn info(id: &str, names: &[&str], created: i64) -> ContainerInfo {
    ContainerInfo {
        id: Some(id.to_string()),
        names: Some(names.iter().map(|n| n.to_string()).collect()),
        created: Some(created),
    }
}

fn two_container_cache() -> Docker {
    let mut cache = Docker::new();
    let listing = vec![info("abc123ef", &["/web"], 100), info("abc123gh", &["/db"], 200)];
    let r = cache.update_containers(0u64, || Ok::<Vec<ContainerInfo>, ()>(listing));
    assert_eq!(r, Ok(true));
    cache
}

#[test]
fn root_listing_has_fixed_order() {
    let cache = Docker::new();
    let entries = readdir(&cache, 1, 0).expect("root listing");
    let names: Vec<&str> = entries.iter().map(|e| e.name.as_str()).collect();
    assert_eq!(
        names,
        vec![".", "..", "containers", "images", "volumes", "networks"]
    );
    let inos: Vec<u64> = entries.iter().map(|e| e.ino).collect();
    assert_eq!(inos, vec![1, 1, 2, 3, 4, 5]);
    let offsets: Vec<i64> = entries.iter().map(|e| e.offset).collect();
    assert_eq!(offsets, vec![1, 2, 3, 4, 5, 6]);
}

// Daemon reports two containers; listing `Containers` yields `.`, `..` and
// one directory per container, identified by its encoded identity.
#[test]
fn end_to_end_two_containers() {
    let cache = two_container_cache();

    let entries = readdir(&cache, 2, 0).expect("containers listing");
    assert_eq!(entries.len(), 4);
    let names: Vec<&str> = entries.iter().map(|e| e.name.as_str()).collect();
    assert_eq!(names, vec![".", "..", "web", "db"]);
    assert_eq!(entries[0].ino, 2);
    assert_eq!(entries[1].ino, 1);
    assert_eq!(entries[2].ino, ParentDirectories::ino_from_docker_id("abc123ef"));
    assert_eq!(entries[3].ino, ParentDirectories::ino_from_docker_id("abc123gh"));

    let attr = lookup(&cache, 2, "we").expect("prefix match");
    assert_eq!(attr.ino, ParentDirectories::ino_from_docker_id("abc123ef"));
    assert_eq!(attr.mtime_secs, 100);

    assert_eq!(lookup(&cache, 2, "zzz"), Err(FsError::NotFound));
}

// Two consecutive listing calls with increasing offsets and no refresh in
// between concatenate to exactly one full listing: no duplicates, no gaps.
#[test]
fn listing_resumes_at_offset_without_duplicates_or_gaps() {
    let cache = two_container_cache();

    let full = readdir(&cache, 2, 0).expect("full listing");
    for cut in 0..=full.len() {
        let head = readdir(&cache, 2, 0).expect("first call");
        let tail = readdir(&cache, 2, cut as i64).expect("second call");
        let mut glued: Vec<(u64, String)> = Vec::new();
        for e in head.iter().take(cut) {
            glued.push((e.ino, e.name.clone()));
        }
        for e in tail.iter() {
            glued.push((e.ino, e.name.clone()));
        }
        let whole: Vec<(u64, String)> =
            full.iter().map(|e| (e.ino, e.name.clone())).collect();
        assert_eq!(glued, whole);
    }
    assert!(readdir(&cache, 2, 100).expect("past the end").is_empty());
}

// Two distinct identities sharing an eight-character prefix alias to the
// same inode: a known limitation of the lossy codec.  Both entries appear
// in the listing under one inode, and inode resolution answers with the
// first of them in snapshot order.
#[test]
fn colliding_identity_prefixes_alias_to_one_inode() {
    let mut cache = Docker::new();
    let listing = vec![
        info("abcd1234first", &["/one"], 1),
        info("abcd1234second", &["/two"], 2),
    ];
    let r = cache.update_containers(0u64, || Ok::<Vec<ContainerInfo>, ()>(listing));
    assert_eq!(r, Ok(true));

    let ino_one = ParentDirectories::ino_from_docker_id("abcd1234first");
    let ino_two = ParentDirectories::ino_from_docker_id("abcd1234second");
    assert_eq!(ino_one, ino_two);

    let entries = readdir(&cache, 2, 0).expect("listing");
    assert_eq!(entries.len(), 4);
    assert_eq!(entries[2].ino, entries[3].ino);

    let c = cache.get_child(ino_one).expect("aliased inode resolves");
    assert_eq!(c.get_name().as_str(), "one");
    let attr = getattr(&cache, ino_one).expect("aliased attributes");
    assert_eq!(attr.mtime_secs, 1);
}

#[test]
fn unpopulated_categories_list_as_empty_directories() {
    let cache = two_container_cache();
    for ino in 3u64..=5 {
        let entries = readdir(&cache, ino, 0).expect("stub listing");
        let names: Vec<&str> = entries.iter().map(|e| e.name.as_str()).collect();
        assert_eq!(names, vec![".", ".."]);
        assert_eq!(entries[0].ino, ino);
        assert_eq!(entries[1].ino, 1);
        assert_eq!(lookup(&cache, ino, "anything"), Err(FsError::NotFound));
    }
}

#[test]
fn entity_directory_lists_only_dot_entries() {
    let cache = two_container_cache();
    let web = ParentDirectories::ino_from_docker_id("abc123ef");
    let entries = readdir(&cache, web, 0).expect("entity listing");
    assert_eq!(entries.len(), 2);
    assert_eq!(entries[0].name, ".");
    assert_eq!(entries[0].ino, web);
    assert_eq!(entries[1].name, "..");
    assert_eq!(entries[1].ino, 2);
}

#[test]
fn readdir_rejects_unknown_inodes() {
    let cache = two_container_cache();
    assert_eq!(readdir(&cache, 0xdeadbeef, 0), Err(FsError::NotFound));
    assert_eq!(readdir(&cache, 0, 0), Err(FsError::NotFound));
}

#[test]
fn getattr_answers_categories_and_entities() {
    let cache = two_container_cache();

    let root = getattr(&cache, 1).expect("root attributes");
    assert_eq!(root.ino, 1);
    assert_eq!(root.nlink, 4);
    assert_eq!(root.size, 5);
    assert_eq!(root.perm, 0o777);

    let containers = getattr(&cache, 2).expect("containers attributes");
    assert_eq!(containers.ino, 2);
    assert_eq!(containers.nlink, 1);
    assert_eq!(containers.size, 0);

    let web = ParentDirectories::ino_from_docker_id("abc123ef");
    let attr = getattr(&cache, web).expect("entity attributes");
    assert_eq!(attr.ino, web);
    assert_eq!(attr.perm, 0o755);
    assert_eq!(attr.mtime_secs, 100);
    assert_eq!(attr.ctime_secs, 100);
    assert_eq!(attr.crtime_secs, 100);

    assert_eq!(getattr(&cache, 0xbadbad), Err(FsError::NotFound));
}

#[test]
fn root_lookup_recognizes_exactly_the_category_names() {
    let cache = Docker::new();
    let attr = lookup(&cache, 1, "containers").expect("containers under root");
    assert_eq!(attr.ino, 2);
    assert_eq!(lookup(&cache, 1, "images").expect("images").ino, 3);
    assert_eq!(lookup(&cache, 1, "volumes").expect("volumes").ino, 4);
    assert_eq!(lookup(&cache, 1, "networks").expect("networks").ino, 5);
    assert_eq!(lookup(&cache, 1, "root"), Err(FsError::NotFound));
    assert_eq!(lookup(&cache, 1, "Containers"), Err(FsError::NotFound));
    assert_eq!(lookup(&cache, 1, "zzz"), Err(FsError::NotFound));
}

#[test]
fn lookup_rejects_non_directory_parents() {
    let cache = two_container_cache();
    let web = ParentDirectories::ino_from_docker_id("abc123ef");
    assert_eq!(lookup(&cache, web, "anything"), Err(FsError::NotFound));
    assert_eq!(lookup(&cache, 999, "web"), Err(FsError::NotFound));
}

#[test]
fn containers_lookup_takes_first_prefix_match_in_snapshot_order() {
    let mut cache = Docker::new();
    let listing = vec![
        info("abc123ef", &["/web-one"], 1),
        info("abc123gh", &["/web-two"], 2),
    ];
    let r = cache.update_containers(0u64, || Ok::<Vec<ContainerInfo>, ()>(listing));
    assert_eq!(r, Ok(true));
    let attr = lookup(&cache, 2, "web").expect("first match");
    assert_eq!(attr.ino, ParentDirectories::ino_from_docker_id("abc123ef"));
}

#[test]
fn init_maps_ping_outcome_to_access_error() {
    assert_eq!(init(Ok::<(), i32>(())), Ok(()));
    assert_eq!(init(Err::<(), i32>(13)), Err(FsError::AccessDenied));
}

#[test]
fn open_always_succeeds_with_zero_handle() {
    assert_eq!(open(), (0, 0));
}
