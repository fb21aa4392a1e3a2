//! Directory-resolution dispatch: classifies an inode or a name against the
//! fixed categories and the cache snapshot, and answers attribute, lookup
//! and listing requests.
//!
//! The caller (the kernel-transport adapter) refreshes the cache before
//! dispatching a `Containers` request and holds the cache's exclusive lock
//! across the refresh and the dispatch, so every answer here is computed
//! against one consistent snapshot.

use vstd::prelude::*;
use vstd::string::StringExecFns;

use crate::containers::Container;
use crate::docker::first_index_with_ino;
use crate::docker::name_prefix_pred;
use crate::docker::Docker;

use crate::parent_directories::ParentDirectories;

verus! {

/// An inode or a name that does not belong to any of the fixed top-level
/// directories.
#[derive(Clone, Copy, Debug, PartialEq, Eq, Structural)]
pub enum DockerError {
    UnknownParentDirectory,
}

/// A recoverable outcome surfaced to the kernel transport: an unknown name
/// or inode, or a daemon that cannot be reached at startup.
#[derive(Clone, Copy, Debug, PartialEq, Eq, Structural)]
pub enum FsError {
    NotFound,
    AccessDenied,
}

/// The attributes of a node of the projected tree.  Every node is a
/// directory; times are seconds since the epoch.
#[derive(Clone, Copy, Debug, PartialEq, Eq, Structural)]
pub struct FileAttr {
    pub ino: u64,
    pub size: u64,
    pub perm: u16,
    pub nlink: u32,
    pub atime_secs: i64,
    pub mtime_secs: i64,
    pub ctime_secs: i64,
    pub crtime_secs: i64,
}

/// One entry of a directory listing: the entry's inode, the resumption
/// cookie (its position in the full listing plus one), and its name.
#[derive(Debug, PartialEq, Eq)]
pub struct DirEntry {
    pub ino: u64,
    pub offset: i64,
    pub name: String,
}

impl Clone for DirEntry {
    fn clone(&self) -> (r: Self)
        ensures
            r == *self,
    {
        DirEntry { ino: self.ino, offset: self.offset, name: self.name.clone() }
    }
}

/// The fixed attributes of a category directory: the root advertises its
/// four children in its link count and the size of the fixed taxonomy; the
/// other categories are plain empty directories.
pub open spec fn spec_category_attr(d: ParentDirectories) -> FileAttr {
    FileAttr {
        ino: d.spec_ino(),
        size: if d is Root {
            5
        } else {
            0
        },
        perm: 0o777,
        nlink: if d is Root {
            4
        } else {
            1
        },
        atime_secs: 0,
        mtime_secs: 0,
        ctime_secs: 0,
        crtime_secs: 0,
    }
}

/// The attributes of a container entity: a directory whose modification and
/// creation times are the container's creation time.
pub open spec fn spec_container_attr(c: Container) -> FileAttr {
    FileAttr {
        ino: c.ino,
        size: 0,
        perm: 0o755,
        nlink: 0,
        atime_secs: 0,
        mtime_secs: c.created,
        ctime_secs: c.created,
        crtime_secs: c.created,
    }
}

impl ParentDirectories {
    /// The attributes of this category directory.
    pub fn attr(&self) -> (a: FileAttr)
        ensures
            a == spec_category_attr(*self),
    {
        match self {
            ParentDirectories::Root => {
                let n = ParentDirectories::iterator().len() as u64;
                FileAttr {
                    ino: 1,
                    size: n,
                    perm: 0o777,
                    nlink: 4,
                    atime_secs: 0,
                    mtime_secs: 0,
                    ctime_secs: 0,
                    crtime_secs: 0,
                }
            },
            _ => FileAttr {
                ino: self.ino(),
                size: 0,
                perm: 0o777,
                nlink: 1,
                atime_secs: 0,
                mtime_secs: 0,
                ctime_secs: 0,
                crtime_secs: 0,
            },
        }
    }
}

impl Container {
    /// The attributes of this container's directory.
    pub fn getattr(&self) -> (a: FileAttr)
        ensures
            a == spec_container_attr(*self),
    {
        FileAttr {
            ino: self.ino,
            size: 0,
            perm: 0o755,
            nlink: 0,
            atime_secs: 0,
            mtime_secs: self.created,
            ctime_secs: self.created,
            crtime_secs: self.created,
        }
    }
}

/// The attributes the tree answers for an inode: a category's fixed
/// attributes, a cached container's attributes, or nothing.  Category
/// inodes take priority; among colliding containers the first in snapshot
/// order answers.
pub open spec fn attr_of(snap: Seq<Container>, ino: u64) -> Option<FileAttr> {
    if ino == 1 {
        Some(spec_category_attr(ParentDirectories::Root))
    } else if ino == 2 {
        Some(spec_category_attr(ParentDirectories::Containers))
    } else if ino == 3 {
        Some(spec_category_attr(ParentDirectories::Images))
    } else if ino == 4 {
        Some(spec_category_attr(ParentDirectories::Volumes))
    } else if ino == 5 {
        Some(spec_category_attr(ParentDirectories::Networks))
    } else if first_index_with_ino(snap, ino) >= 0 {
        Some(spec_container_attr(snap[first_index_with_ino(snap, ino)]))
    } else {
        None
    }
}

/// Answers an attribute query against the snapshot.
pub fn getattr(d: &Docker, ino: u64) -> (r: Result<FileAttr, FsError>)
    ensures
        attr_of(d.snapshot(), ino) matches Some(a) ==> r == Ok::<FileAttr, FsError>(a),
        attr_of(d.snapshot(), ino) is None ==> r == Err::<FileAttr, FsError>(FsError::NotFound),
{
    match ParentDirectories::try_from_ino(ino) {
        Ok(dir) => Ok(dir.attr()),
        Err(_) => match d.get_child(ino) {
            Some(c) => Ok(c.getattr()),
            None => Err(FsError::NotFound),
        },
    }
}

/// The entry a name resolves to under a parent inode: under the root,
/// exactly the four literal category names; under `Containers`, the first
/// cached container whose display name starts with the given name; under
/// every other inode, nothing.
pub open spec fn lookup_result(snap: Seq<Container>, parent: u64, name: Seq<char>) -> Option<
    FileAttr,
> {
    if parent == 1 {
        if name == "containers"@ {
            Some(spec_category_attr(ParentDirectories::Containers))
        } else if name == "images"@ {
            Some(spec_category_attr(ParentDirectories::Images))
        } else if name == "volumes"@ {
            Some(spec_category_attr(ParentDirectories::Volumes))
        } else if name == "networks"@ {
            Some(spec_category_attr(ParentDirectories::Networks))
        } else {
            None
        }
    } else if parent == 2 {
        let matching = snap.filter(name_prefix_pred(name));
        if matching.len() > 0 {
            Some(spec_container_attr(matching[0]))
        } else {
            None
        }
    } else {
        None
    }
}

/// Resolves a name under the root directory.
pub fn root_lookup(name: &str) -> (r: Result<FileAttr, FsError>)
    ensures
        lookup_result(Seq::<Container>::empty(), 1, name@) matches Some(a) ==> r == Ok::<
            FileAttr,
            FsError,
        >(a),
        lookup_result(Seq::<Container>::empty(), 1, name@) is None ==> r == Err::<
            FileAttr,
            FsError,
        >(FsError::NotFound),
{
    proof {
        reveal_strlit("root");
        reveal_strlit("containers");
        reveal_strlit("images");
        reveal_strlit("volumes");
        reveal_strlit("networks");
        assert("root"@.len() == 4);
        assert("containers"@.len() == 10);
        assert("images"@.len() == 6);
        assert("volumes"@.len() == 7);
        assert("networks"@.len() == 8);
    }
    match ParentDirectories::try_from_name(name) {
        Ok(dir) => match dir {
            ParentDirectories::Root => Err(FsError::NotFound),
            _ => Ok(dir.attr()),
        },
        Err(_) => Err(FsError::NotFound),
    }
}

/// Resolves a name under `Containers`: the first cached container whose
/// display name starts with the given name, in snapshot order.
pub fn containers_lookup(d: &Docker, name: &str) -> (r: Result<FileAttr, FsError>)
    ensures
        lookup_result(d.snapshot(), 2, name@) matches Some(a) ==> r == Ok::<FileAttr, FsError>(a),
        lookup_result(d.snapshot(), 2, name@) is None ==> r == Err::<FileAttr, FsError>(
            FsError::NotFound,
        ),
{
    let matching = d.find_by_name_prefix(name);
    if matching.len() > 0 {
        Ok(matching[0].getattr())
    } else {
        Err(FsError::NotFound)
    }
}

/// Resolves a name under a parent inode.
pub fn lookup(d: &Docker, parent: u64, name: &str) -> (r: Result<FileAttr, FsError>)
    ensures
        lookup_result(d.snapshot(), parent, name@) matches Some(a) ==> r == Ok::<FileAttr, FsError>(
            a,
        ),
        lookup_result(d.snapshot(), parent, name@) is None ==> r == Err::<FileAttr, FsError>(
            FsError::NotFound,
        ),
{
    if parent == 1 {
        root_lookup(name)
    } else if parent == 2 {
        containers_lookup(d, name)
    } else {
        Err(FsError::NotFound)
    }
}

/// The full listing of the root directory, in its fixed order.
pub open spec fn root_listing() -> Seq<(u64, Seq<char>)> {
    seq![
        (1u64, "."@),
        (1u64, ".."@),
        (2u64, "containers"@),
        (3u64, "images"@),
        (4u64, "volumes"@),
        (5u64, "networks"@),
    ]
}

/// The full listing of `Containers`: the two dot entries, then one entry
/// per cached container in snapshot order, named by its display name.
pub open spec fn containers_listing(snap: Seq<Container>) -> Seq<(u64, Seq<char>)> {
    seq![(2u64, "."@), (1u64, ".."@)] + snap.map(|i: int, c: Container| (c.ino, c.name@))
}

/// The listing of a container's own directory: only the dot entries, for
/// the tree advertises no descendants below an entity yet.
pub open spec fn entity_listing(c: Container) -> Seq<(u64, Seq<char>)> {
    seq![(c.ino, "."@), (2u64, ".."@)]
}

/// The listing of a recognized but unpopulated category: an empty
/// directory.
pub open spec fn stub_listing(ino: u64) -> Seq<(u64, Seq<char>)> {
    seq![(ino, "."@), (1u64, ".."@)]
}

/// The full listing of the directory at `ino`, or nothing when the inode
/// is neither a category nor a cached container.
pub open spec fn listing_of(snap: Seq<Container>, ino: u64) -> Option<Seq<(u64, Seq<char>)>> {
    if ino == 1 {
        Some(root_listing())
    } else if ino == 2 {
        Some(containers_listing(snap))
    } else if ino == 3 || ino == 4 || ino == 5 {
        Some(stub_listing(ino))
    } else if first_index_with_ino(snap, ino) >= 0 {
        Some(entity_listing(snap[first_index_with_ino(snap, ino)]))
    } else {
        None
    }
}

/// The reply to a listing request resumed at `off`: the tail of the full
/// listing from that position, each entry carrying its inode, its name and
/// the cookie position-plus-one under which the enumeration resumes.
pub open spec fn entries_match(es: Seq<DirEntry>, full: Seq<(u64, Seq<char>)>, off: int) -> bool {
    &&& es.len() == if off <= full.len() {
        full.len() - off
    } else {
        0int
    }
    &&& forall|j: int|
        0 <= j < es.len() ==> {
            &&& (#[trigger] es[j]).ino == full[off + j].0
            &&& es[j].name@ == full[off + j].1
            &&& es[j].offset == off + j + 1
        }
}

/// A materialized full listing: entry `j` carries the listing's `j`-th
/// inode and name, under cookie `j + 1`.
pub open spec fn full_entries_ok(es: Seq<DirEntry>, full: Seq<(u64, Seq<char>)>) -> bool {
    &&& es.len() == full.len()
    &&& forall|j: int|
        0 <= j < es.len() ==> {
            &&& (#[trigger] es[j]).ino == full[j].0
            &&& es[j].name@ == full[j].1
            &&& es[j].offset == j + 1
        }
}

/// Copies the tail of a materialized listing from position `off` on.
fn skip_entries(full: &Vec<DirEntry>, off: i64) -> (v: Vec<DirEntry>)
    requires
        0 <= off,
        full@.len() <= i64::MAX,
    ensures
        v@.len() == if off <= full@.len() {
            full@.len() - off
        } else {
            0int
        },
        forall|j: int| 0 <= j < v@.len() ==> #[trigger] v@[j] == full@[off + j],
{
    let mut v: Vec<DirEntry> = Vec::new();
    let mut i: usize = 0;
    while i < full.len()
        invariant
            i <= full@.len(),
            full@.len() <= i64::MAX,
            0 <= off,
            v@.len() == if off <= i {
                i - off
            } else {
                0int
            },
            forall|j: int| 0 <= j < v@.len() ==> #[trigger] v@[j] == full@[off + j],
        decreases full@.len() - i,
    {
        if (i as i64) >= off {
            v.push(full[i].clone());
        }
        i += 1;
    }
    v
}

/// Lists the root directory from the given offset.
pub fn root_read_dir(offset: i64) -> (v: Vec<DirEntry>)
    requires
        0 <= offset,
    ensures
        entries_match(v@, root_listing(), offset as int),
{
    let mut full: Vec<DirEntry> = Vec::new();
    full.push(DirEntry { ino: 1, offset: 1, name: String::from_str(".") });
    full.push(DirEntry { ino: 1, offset: 2, name: String::from_str("..") });
    full.push(DirEntry { ino: 2, offset: 3, name: ParentDirectories::Containers.to_string() });
    full.push(DirEntry { ino: 3, offset: 4, name: ParentDirectories::Images.to_string() });
    full.push(DirEntry { ino: 4, offset: 5, name: ParentDirectories::Volumes.to_string() });
    full.push(DirEntry { ino: 5, offset: 6, name: ParentDirectories::Networks.to_string() });
    proof {
        assert(full_entries_ok(full@, root_listing()));
    }
    skip_entries(&full, offset)
}

/// Lists `Containers` from the given offset, against the current snapshot.
pub fn containers_read_dir(d: &Docker, offset: i64) -> (v: Vec<DirEntry>)
    requires
        0 <= offset,
        d.snapshot().len() + 3 <= i64::MAX,
    ensures
        entries_match(v@, containers_listing(d.snapshot()), offset as int),
{
    let mut full: Vec<DirEntry> = Vec::new();
    full.push(DirEntry { ino: 2, offset: 1, name: String::from_str(".") });
    full.push(DirEntry { ino: 1, offset: 2, name: String::from_str("..") });
    let snap = d.get_containers();
    let mut i: usize = 0;
    while i < snap.len()
        invariant
            i <= d.snapshot().len(),
            snap@ == d.snapshot(),
            d.snapshot().len() + 3 <= i64::MAX,
            full@.len() == i + 2,
            forall|j: int|
                0 <= j < full@.len() ==> {
                    &&& (#[trigger] full@[j]).ino == containers_listing(d.snapshot())[j].0
                    &&& full@[j].name@ == containers_listing(d.snapshot())[j].1
                    &&& full@[j].offset == j + 1
                },
        decreases snap@.len() - i,
    {
        let c = &snap[i];
        let cookie: i64 = (i as i64) + 3;
        full.push(DirEntry { ino: c.ino, offset: cookie, name: c.name.clone() });
        i += 1;
    }
    proof {
        assert(full_entries_ok(full@, containers_listing(d.snapshot())));
    }
    skip_entries(&full, offset)
}

impl Container {
    /// Lists this container's own directory: only the dot entries.
    pub fn read_dir(&self, offset: i64) -> (v: Vec<DirEntry>)
        requires
            0 <= offset,
        ensures
            entries_match(v@, entity_listing(*self), offset as int),
    {
        let mut full: Vec<DirEntry> = Vec::new();
        full.push(DirEntry { ino: self.ino, offset: 1, name: String::from_str(".") });
        full.push(DirEntry { ino: 2, offset: 2, name: String::from_str("..") });
        proof {
            assert(full_entries_ok(full@, entity_listing(*self)));
        }
        skip_entries(&full, offset)
    }
}

/// Lists a recognized but unpopulated category as an empty directory.
pub fn empty_read_dir(ino: u64, offset: i64) -> (v: Vec<DirEntry>)
    requires
        0 <= offset,
    ensures
        entries_match(v@, stub_listing(ino), offset as int),
{
    let mut full: Vec<DirEntry> = Vec::new();
    full.push(DirEntry { ino, offset: 1, name: String::from_str(".") });
    full.push(DirEntry { ino: 1, offset: 2, name: String::from_str("..") });
    proof {
        assert(full_entries_ok(full@, stub_listing(ino)));
    }
    skip_entries(&full, offset)
}

/// Answers a listing request against the snapshot: a resumable enumeration
/// of the directory at `ino` starting at `offset`.
pub fn readdir(d: &Docker, ino: u64, offset: i64) -> (r: Result<Vec<DirEntry>, FsError>)
    requires
        0 <= offset,
        d.snapshot().len() + 3 <= i64::MAX,
    ensures
        listing_of(d.snapshot(), ino) matches Some(full) ==> r matches Ok(es) && entries_match(
            es@,
            full,
            offset as int,
        ),
        listing_of(d.snapshot(), ino) is None ==> r == Err::<Vec<DirEntry>, FsError>(
            FsError::NotFound,
        ),
{
    if ino == 1 {
        Ok(root_read_dir(offset))
    } else if ino == 2 {
        Ok(containers_read_dir(d, offset))
    } else if ino == 3 || ino == 4 || ino == 5 {
        Ok(empty_read_dir(ino, offset))
    } else {
        match d.get_child(ino) {
            Some(c) => Ok(c.read_dir(offset)),
            None => Err(FsError::NotFound),
        }
    }
}

/// Listing order stability: within one snapshot, a full listing cut at any
/// point `k` and resumed from offset `k` concatenates back to exactly the
/// one full listing — no duplicates, no gaps.
pub proof fn lemma_listing_resumable(full: Seq<(u64, Seq<char>)>, k: int)
    requires
        0 <= k <= full.len(),
    ensures
        full.take(k) + full.skip(k) == full,
{
    assert(full.take(k) + full.skip(k) =~= full);
}

/// Startup contract: the engine must reach the daemon once; a failed ping
/// is fatal to the mount and surfaces as an access error.
pub fn init<E>(ping: Result<(), E>) -> (r: Result<(), FsError>)
    ensures
        ping is Ok <==> r is Ok,
        r matches Err(e) ==> e == FsError::AccessDenied,
{
    match ping {
        Ok(_) => Ok(()),
        Err(_) => Err(FsError::AccessDenied),
    }
}

/// Opening any node always succeeds with a zero handle and zero flags:
/// the projected tree is directories-only and no content is ever read.
pub fn open() -> (r: (u64, u32))
    ensures
        r == (0u64, 0u32),
{
    (0, 0)
}

} // verus!
