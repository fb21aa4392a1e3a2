//! Container records: the raw listing entries the daemon reports, and the
//! entities admitted into the cache snapshot.

use vstd::prelude::*;
use vstd::pervasive::unreached;

use crate::parent_directories::encode_id;
use crate::parent_directories::ParentDirectories;
use crate::text::strip_leading_slashes;
use crate::text::strip_leading_slashes_str;

verus! {

/// One entry of the daemon's container listing, with the fields the
/// projection reads.  Every field is optional on the wire.
pub struct ContainerInfo {
    pub id: Option<String>,
    pub names: Option<Vec<String>>,
    pub created: Option<i64>,
}

/// A container admitted into the cache snapshot: its opaque identity, its
/// display name (first reported name, leading path separators stripped), the
/// filesystem identifier derived from the identity, and its creation time in
/// seconds.
pub struct Container {
    pub id: String,
    pub name: String,
    pub ino: u64,
    pub created: i64,
}

/// A daemon record is admitted into the snapshot when it carries an identity
/// and at least one name.
pub open spec fn admissible(info: ContainerInfo) -> bool {
    &&& info.id is Some
    &&& info.names is Some
    &&& info.names->0@.len() > 0
}

/// How a snapshot entry is derived from the admissible record it came from.
pub open spec fn container_from(c: Container, info: ContainerInfo) -> bool {
    &&& c.id@ == info.id->0@
    &&& c.name@ == strip_leading_slashes(info.names->0@[0]@)
    &&& c.ino == encode_id(info.id->0@)
    &&& c.created == if info.created is Some {
        info.created->0
    } else {
        0
    }
}

/// A well-formed snapshot entry: its filesystem identifier is the one the
/// codec derives from its identity.
pub open spec fn wf_container(c: Container) -> bool {
    c.ino == encode_id(c.id@)
}

impl Container {
    /// Admits one daemon record: `None` exactly for records that carry no
    /// identity or an absent or empty name list.
    pub fn try_from_info(info: &ContainerInfo) -> (r: Option<Container>)
        ensures
            match r {
                Some(c) => admissible(*info) && container_from(c, *info),
                None => !admissible(*info),
            },
    {
        if let Some(id) = &info.id {
            if let Some(names) = &info.names {
                if names.len() > 0 {
                    let name = strip_leading_slashes_str(names[0].as_str());
                    let ino = ParentDirectories::ino_from_docker_id(id.as_str());
                    let created = match &info.created {
                        Some(c) => *c,
                        None => 0,
                    };
                    Some(Container { id: id.clone(), name, ino, created })
                } else {
                    None
                }
            } else {
                None
            }
        } else {
            None
        }
    }

    /// The filesystem identifier of this container's directory.
    pub fn get_ino(&self) -> (r: u64)
        ensures
            r == self.ino,
    {
        self.ino
    }

    /// The opaque identity the daemon reported for this container.
    pub fn get_id(&self) -> (r: &String)
        ensures
            r == &self.id,
    {
        &self.id
    }

    /// The display name under which this container is listed.
    pub fn get_name(&self) -> (r: &String)
        ensures
            r == &self.name,
    {
        &self.name
    }

    /// The category directory this entity lives under.
    pub fn get_parent(&self) -> (r: ParentDirectories)
        ensures
            r == ParentDirectories::Containers,
    {
        ParentDirectories::Containers
    }

    /// Builds the snapshot entry for an admissible daemon record.
    pub fn new(info: ContainerInfo) -> (c: Container)
        requires
            admissible(info),
        ensures
            container_from(c, info),
    {
        match Container::try_from_info(&info) {
            Some(c) => c,
            None => unreached(),
        }
    }
}

impl Clone for Container {
    fn clone(&self) -> (r: Self)
        ensures
            r == *self,
    {
        Container {
            id: self.id.clone(),
            name: self.name.clone(),
            ino: self.ino,
            created: self.created,
        }
    }
}

} // verus!
