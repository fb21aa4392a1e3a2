//! The fixed top-level directories of the projected tree, and the identifier
//! codec that maps a container's identity string to a 64-bit filesystem
//! identifier and back.

use vstd::prelude::*;
use vstd::string::StrSliceExecFns;
use vstd::string::StringExecFns;

use crate::docker_strategy::DockerError;
use crate::text::push_char;
use crate::text::str_eq;

verus! {

/// The five fixed top-level directories.  Each owns a small positive inode,
/// assigned once and never reused; `Root`'s children are exactly the other
/// four.
#[derive(Clone, Copy, Debug, PartialEq, Eq, Structural)]
pub enum ParentDirectories {
    Root,
    Containers,
    Images,
    Volumes,
    Networks,
}

/// The byte packed for position `i` of an identity string: the low byte of
/// the `i`-th character, or zero past the end of the string.
pub open spec fn char_byte(s: Seq<char>, i: int) -> u64 {
    if 0 <= i < s.len() {
        (s[i] as u64) & 0xff
    } else {
        0
    }
}

/// The 64-bit filesystem identifier of an identity string: its first eight
/// characters packed big-endian, one byte per character, the first character
/// in the most-significant byte.  Shorter identities leave the low-order
/// bytes zero; characters beyond the eighth are ignored.
///
/// Known limitation: the mapping is lossy — two identities that share an
/// eight-character prefix receive the same identifier.
pub open spec fn encode_id(s: Seq<char>) -> u64 {
    (char_byte(s, 0) << 56) | (char_byte(s, 1) << 48) | (char_byte(s, 2) << 40) | (char_byte(
        s,
        3,
    ) << 32) | (char_byte(s, 4) << 24) | (char_byte(s, 5) << 16) | (char_byte(s, 6) << 8)
        | char_byte(s, 7)
}

/// Byte `i` of a 64-bit identifier, counting from the most-significant byte.
pub open spec fn byte_of(ino: u64, i: int) -> u64 {
    (ino >> ((56 - 8 * i) as u64)) & 0xff
}

/// The characters recovered from an identifier starting at byte position
/// `i`: one character per byte, from most-significant to least-significant,
/// stopping at (and excluding) any zero byte.
pub open spec fn decode_from(ino: u64, i: int) -> Seq<char>
    decreases 8 - i,
{
    if i < 0 || 8 <= i {
        Seq::empty()
    } else if byte_of(ino, i) == 0 {
        Seq::empty()
    } else {
        seq![(byte_of(ino, i) as u8) as char] + decode_from(ino, i + 1)
    }
}

/// The best-effort inverse of `encode_id`.
pub open spec fn decode_id(ino: u64) -> Seq<char> {
    decode_from(ino, 0)
}

proof fn lemma_mask_byte_identity(x: u64)
    requires
        x < 256,
    ensures
        x & 0xff == x,
{
    assert(x < 256 ==> x & 0xff == x) by (bit_vector);
}

proof fn lemma_packed_bytes(b0: u64, b1: u64, b2: u64, b3: u64, b4: u64, b5: u64, b6: u64, b7: u64)
    requires
        b0 < 256,
        b1 < 256,
        b2 < 256,
        b3 < 256,
        b4 < 256,
        b5 < 256,
        b6 < 256,
        b7 < 256,
    ensures
        ({
            let e = (b0 << 56) | (b1 << 48) | (b2 << 40) | (b3 << 32) | (b4 << 24) | (b5 << 16) | (
            b6 << 8) | b7;
            &&& byte_of(e, 0) == b0
            &&& byte_of(e, 1) == b1
            &&& byte_of(e, 2) == b2
            &&& byte_of(e, 3) == b3
            &&& byte_of(e, 4) == b4
            &&& byte_of(e, 5) == b5
            &&& byte_of(e, 6) == b6
            &&& byte_of(e, 7) == b7
        }),
{
    let e = (b0 << 56) | (b1 << 48) | (b2 << 40) | (b3 << 32) | (b4 << 24) | (b5 << 16) | (b6
        << 8) | b7;
    assert({
        &&& (e >> 56) & 0xff == b0
        &&& (e >> 48) & 0xff == b1
        &&& (e >> 40) & 0xff == b2
        &&& (e >> 32) & 0xff == b3
        &&& (e >> 24) & 0xff == b4
        &&& (e >> 16) & 0xff == b5
        &&& (e >> 8) & 0xff == b6
        &&& (e >> 0) & 0xff == b7
    }) by (bit_vector)
        requires
            e == (b0 << 56) | (b1 << 48) | (b2 << 40) | (b3 << 32) | (b4 << 24) | (b5 << 16) | (b6
                << 8) | b7,
            b0 < 256,
            b1 < 256,
            b2 < 256,
            b3 < 256,
            b4 < 256,
            b5 < 256,
            b6 < 256,
            b7 < 256,
    ;
}

proof fn lemma_decode_from_matches(x: u64, s: Seq<char>, m: int, i: int)
    requires
        0 <= i <= m <= 8,
        m == if s.len() < 8 {
            s.len() as int
        } else {
            8
        },
        forall|j: int| 0 <= j < m ==> byte_of(x, j) == (s[j] as u64) && 1 <= (s[j] as u64) < 256,
        m < 8 ==> byte_of(x, m) == 0,
    ensures
        decode_from(x, i) == s.subrange(i, m),
    decreases m - i,
{
    if i == m {
        assert(s.subrange(i, m) =~= Seq::<char>::empty());
    } else {
        assert(byte_of(x, i) == (s[i] as u64));
        vstd::utf8::char_is_scalar(s[i]);
        vstd::utf8::char_u32_cast(s[i], s[i] as u32);
        assert(((s[i] as u64) as u8) as char == s[i]);
        lemma_decode_from_matches(x, s, m, i + 1);
        assert(seq![s[i]] + s.subrange(i + 1, m) =~= s.subrange(i, m));
    }
}

/// Codec round-trip: for an identity whose first eight characters are
/// nonzero single-byte values, decoding the encoded identifier recovers the
/// identity itself when it is at most eight characters long, and its first
/// eight characters otherwise.
pub proof fn lemma_decode_encode(s: Seq<char>)
    requires
        forall|i: int| 0 <= i < s.len() && i < 8 ==> 1 <= (#[trigger] s[i] as u64) < 256,
    ensures
        decode_id(encode_id(s)) == if s.len() <= 8 {
            s
        } else {
            s.take(8)
        },
{
    let m: int = if s.len() < 8 {
        s.len() as int
    } else {
        8
    };
    let b0 = char_byte(s, 0);
    let b1 = char_byte(s, 1);
    let b2 = char_byte(s, 2);
    let b3 = char_byte(s, 3);
    let b4 = char_byte(s, 4);
    let b5 = char_byte(s, 5);
    let b6 = char_byte(s, 6);
    let b7 = char_byte(s, 7);
    assert forall|i: int| 0 <= i < 8 implies char_byte(s, i) < 256 by {
        if 0 <= i < s.len() {
            lemma_mask_byte_identity((s[i] as u64));
        }
    }
    lemma_packed_bytes(b0, b1, b2, b3, b4, b5, b6, b7);
    let e = encode_id(s);
    assert forall|j: int| 0 <= j < m implies byte_of(e, j) == (s[j] as u64) && 1 <= (s[j] as u64)
        < 256 by {
        lemma_mask_byte_identity((s[j] as u64));
        assert(char_byte(s, j) == (s[j] as u64));
    }
    if m < 8 {
        assert(byte_of(e, m) == char_byte(s, m));
        assert(char_byte(s, m) == 0);
    }
    lemma_decode_from_matches(e, s, m, 0);
    if s.len() <= 8 {
        assert(s.subrange(0, m) =~= s);
    } else {
        assert(s.subrange(0, m) =~= s.take(8));
    }
}

/// Category disjointness: the five fixed directories carry pairwise distinct
/// inodes, each a fixed small positive value.
pub proof fn lemma_category_inos_distinct(a: ParentDirectories, b: ParentDirectories)
    ensures
        1 <= a.spec_ino() <= 5,
        a != b ==> a.spec_ino() != b.spec_ino(),
{
}

/// The low byte of character `i` of `s`, or zero past the end; `len` must be
/// the character length of `s`.
fn char_byte_at(s: &str, len: usize, i: usize) -> (b: u64)
    requires
        len == s@.len(),
        i < 8,
    ensures
        b == char_byte(s@, i as int),
        b < 256,
{
    if i < len {
        let c64: u64 = s.get_char(i) as u64;
        let b = c64 & 0xff;
        proof {
            assert(c64 & 0xff < 256) by (bit_vector);
        }
        b
    } else {
        0
    }
}

impl ParentDirectories {
    /// The fixed inode of this directory.
    pub open spec fn spec_ino(self) -> u64 {
        match self {
            ParentDirectories::Root => 1,
            ParentDirectories::Containers => 2,
            ParentDirectories::Images => 3,
            ParentDirectories::Volumes => 4,
            ParentDirectories::Networks => 5,
        }
    }

    /// The name under which this directory appears in listings.
    pub open spec fn spec_name(self) -> Seq<char> {
        match self {
            ParentDirectories::Root => "/"@,
            ParentDirectories::Containers => "containers"@,
            ParentDirectories::Images => "images"@,
            ParentDirectories::Volumes => "volumes"@,
            ParentDirectories::Networks => "networks"@,
        }
    }

    /// The fixed inode of this directory.
    pub fn ino(&self) -> (ino: u64)
        ensures
            ino == self.spec_ino(),
    {
        match self {
            ParentDirectories::Root => 1,
            ParentDirectories::Containers => 2,
            ParentDirectories::Images => 3,
            ParentDirectories::Volumes => 4,
            ParentDirectories::Networks => 5,
        }
    }

    /// Classifies an inode as one of the fixed top-level directories.
    pub fn try_from_ino(value: u64) -> (r: Result<ParentDirectories, DockerError>)
        ensures
            r matches Ok(d) ==> d.spec_ino() == value,
            1 <= value <= 5 ==> r is Ok,
            !(1 <= value <= 5) ==> r == Err::<ParentDirectories, DockerError>(
                DockerError::UnknownParentDirectory,
            ),
    {
        if value == 1 {
            Ok(ParentDirectories::Root)
        } else if value == 2 {
            Ok(ParentDirectories::Containers)
        } else if value == 3 {
            Ok(ParentDirectories::Images)
        } else if value == 4 {
            Ok(ParentDirectories::Volumes)
        } else if value == 5 {
            Ok(ParentDirectories::Networks)
        } else {
            Err(DockerError::UnknownParentDirectory)
        }
    }

    /// Recognizes the literal names of the fixed directories,
    /// case-sensitively.
    pub fn try_from_name(value: &str) -> (r: Result<ParentDirectories, DockerError>)
        ensures
            value@ == "root"@ ==> r == Ok::<ParentDirectories, DockerError>(
                ParentDirectories::Root,
            ),
            value@ == "containers"@ ==> r == Ok::<ParentDirectories, DockerError>(
                ParentDirectories::Containers,
            ),
            value@ == "images"@ ==> r == Ok::<ParentDirectories, DockerError>(
                ParentDirectories::Images,
            ),
            value@ == "volumes"@ ==> r == Ok::<ParentDirectories, DockerError>(
                ParentDirectories::Volumes,
            ),
            value@ == "networks"@ ==> r == Ok::<ParentDirectories, DockerError>(
                ParentDirectories::Networks,
            ),
            r is Err <==> !(value@ == "root"@ || value@ == "containers"@ || value@ == "images"@
                || value@ == "volumes"@ || value@ == "networks"@),
            r matches Err(e) ==> e == DockerError::UnknownParentDirectory,
    {
        proof {
            reveal_strlit("root");
            reveal_strlit("containers");
            reveal_strlit("images");
            reveal_strlit("volumes");
            reveal_strlit("networks");
            assert("root"@.len() == 4);
            assert("containers"@.len() == 10);
            assert("images"@.len() == 6);
            assert("volumes"@.len() == 7);
            assert("networks"@.len() == 8);
        }
        if str_eq(value, "root") {
            Ok(ParentDirectories::Root)
        } else if str_eq(value, "containers") {
            Ok(ParentDirectories::Containers)
        } else if str_eq(value, "images") {
            Ok(ParentDirectories::Images)
        } else if str_eq(value, "volumes") {
            Ok(ParentDirectories::Volumes)
        } else if str_eq(value, "networks") {
            Ok(ParentDirectories::Networks)
        } else {
            Err(DockerError::UnknownParentDirectory)
        }
    }

    /// All five fixed directories, in their fixed order.
    pub fn iterator() -> (v: Vec<ParentDirectories>)
        ensures
            v@ == seq![
                ParentDirectories::Root,
                ParentDirectories::Containers,
                ParentDirectories::Images,
                ParentDirectories::Volumes,
                ParentDirectories::Networks,
            ],
    {
        let mut v: Vec<ParentDirectories> = Vec::new();
        v.push(ParentDirectories::Root);
        v.push(ParentDirectories::Containers);
        v.push(ParentDirectories::Images);
        v.push(ParentDirectories::Volumes);
        v.push(ParentDirectories::Networks);
        proof {
            assert(v@ =~= seq![
                ParentDirectories::Root,
                ParentDirectories::Containers,
                ParentDirectories::Images,
                ParentDirectories::Volumes,
                ParentDirectories::Networks,
            ]);
        }
        v
    }

    /// The directory's display name as an owned string.
    pub fn to_string(&self) -> (s: String)
        ensures
            s@ == self.spec_name(),
    {
        match self {
            ParentDirectories::Root => String::from_str("/"),
            ParentDirectories::Containers => String::from_str("containers"),
            ParentDirectories::Images => String::from_str("images"),
            ParentDirectories::Volumes => String::from_str("volumes"),
            ParentDirectories::Networks => String::from_str("networks"),
        }
    }

    /// The filesystem identifier derived from a container's display name or
    /// identity string.
    pub fn ino_from_docker_name(name: &str) -> (ino: u64)
        ensures
            ino == encode_id(name@),
    {
        let len = name.unicode_len();
        let b0 = char_byte_at(name, len, 0);
        let b1 = char_byte_at(name, len, 1);
        let b2 = char_byte_at(name, len, 2);
        let b3 = char_byte_at(name, len, 3);
        let b4 = char_byte_at(name, len, 4);
        let b5 = char_byte_at(name, len, 5);
        let b6 = char_byte_at(name, len, 6);
        let b7 = char_byte_at(name, len, 7);
        (b0 << 56) | (b1 << 48) | (b2 << 40) | (b3 << 32) | (b4 << 24) | (b5 << 16) | (b6 << 8)
            | b7
    }

    /// The filesystem identifier derived from a container's identity string.
    pub fn ino_from_docker_id(id: &str) -> (ino: u64)
        ensures
            ino == encode_id(id@),
    {
        Self::ino_from_docker_name(id)
    }

    /// The best-effort recovery of an identity string from a filesystem
    /// identifier: one character per nonzero byte, most-significant first,
    /// stopping at the first zero byte.
    pub fn docker_name_from_ino(ino: u64) -> (name: String)
        ensures
            name@ == decode_id(ino),
    {
        let mut name = String::new();
        let mut i: usize = 0;
        let mut stop = false;
        while i < 8 && !stop
            invariant
                i <= 8,
                !stop ==> decode_id(ino) == name@ + decode_from(ino, i as int),
                stop ==> name@ == decode_id(ino),
            decreases 8 - i + (if stop { 0int } else { 1int }),
        {
            let sh: u64 = 56 - 8 * (i as u64);
            let b: u64 = (ino >> sh) & 0xff;
            proof {
                assert(b == byte_of(ino, i as int));
                assert((ino >> sh) & 0xff < 256) by (bit_vector);
            }
            if b == 0 {
                proof {
                    assert(decode_from(ino, i as int) =~= Seq::<char>::empty());
                    assert(name@ =~= decode_id(ino));
                }
                stop = true;
            } else {
                let c = (b as u8) as char;
                proof {
                    assert(decode_from(ino, i as int) == seq![c] + decode_from(ino, i as int + 1));
                    assert(name@ + decode_from(ino, i as int) =~= name@.push(c) + decode_from(
                        ino,
                        i as int + 1,
                    ));
                }
                push_char(&mut name, c);
                i += 1;
            }
        }
        proof {
            if !stop {
                assert(decode_from(ino, 8) =~= Seq::<char>::empty());
                assert(name@ =~= decode_id(ino));
            }
        }
        name
    }
}

} // verus!
