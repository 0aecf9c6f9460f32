//! The virtual-filesystem projection layer: the immutable in-memory
//! namespace built once at mount time, and the three request handlers
//! that serve it — entry lookup by parent and name, attribute
//! retrieval by identifier, and directory-content enumeration.
//!
//! The namespace is an ordered sequence of entries, one per discovered
//! table, with identifiers assigned by position: the entry at position
//! `i` has identifier `i + 2`, the value `1` being permanently reserved
//! for the root directory. Every served record describes a directory
//! with fixed metadata; the only error a handler produces is
//! [`FsError::NotFound`].

use vstd::prelude::*;
use vstd::string::*;

use crate::naming::{spec_is_table_name, spec_stem, str_eq, table_stem};

verus! {

/// Identifier permanently reserved for the filesystem root directory.
pub const ROOT_INO: u64 = 1;

/// How long, in seconds, a caller may cache a returned record before
/// re-validating it.
pub const TTL_SECONDS: u64 = 1;

/// Largest value the namespace length plus the two leading listing
/// items may take, so that identifiers and enumeration offsets fit
/// the host protocol's 64-bit signed cursors.
pub const MAX_LISTING: u64 = 0x7fff_ffff_ffff_ffff;

/// The kind of a served filesystem object. This layer only ever
/// serves directories; regular files never appear in its records.
#[derive(Debug, Clone, Copy, PartialEq, Eq, Structural)]
pub enum FileKind {
    RegularFile,
    Directory,
}

/// The one error kind the handlers produce: the requested parent,
/// name or identifier names nothing in the namespace.
#[derive(Debug, Clone, Copy, PartialEq, Eq, Structural)]
pub enum FsError {
    NotFound,
}

/// A synthesized attribute record, covering every field the host
/// protocol requires. Timestamps are seconds since the epoch and are
/// always zero here; ownership and permissions are fixed placeholder
/// values.
#[derive(Debug, Clone, Copy, PartialEq, Eq, Structural)]
pub struct FileAttr {
    pub ino: u64,
    pub size: u64,
    pub blocks: u64,
    pub atime: u64,
    pub mtime: u64,
    pub ctime: u64,
    pub crtime: u64,
    pub kind: FileKind,
    pub perm: u16,
    pub nlink: u32,
    pub uid: u32,
    pub gid: u32,
    pub rdev: u32,
    pub flags: u32,
    pub blksize: u32,
}

/// One discovered table: a stable identifier and the display name
/// under which it appears in the root directory.
#[derive(Debug, Clone)]
pub struct Entry {
    pub id: u64,
    pub name: String,
}

/// One item of a directory listing: the identifier and name of the
/// listed object, and the offset at which enumeration resumes after
/// this item has been consumed.
#[derive(Debug, Clone)]
pub struct DirEntry {
    pub ino: u64,
    pub next_offset: i64,
    pub kind: FileKind,
    pub name: String,
}

/// The identifier assigned to the entry at position `i` of the
/// namespace.
pub open spec fn spec_entry_id(i: int) -> int {
    i + 2
}

/// The display names held by an entry sequence, in order.
pub open spec fn names_of(entries: Seq<Entry>) -> Seq<Seq<char>> {
    Seq::new(entries.len(), |i: int| entries[i].name@)
}

/// The fixed directory attribute record served for identifier `ino`.
pub open spec fn spec_attr(ino: u64) -> FileAttr {
    FileAttr {
        ino,
        size: 0,
        blocks: 0,
        atime: 0,
        mtime: 0,
        ctime: 0,
        crtime: 0,
        kind: FileKind::Directory,
        perm: 0o755,
        nlink: 2,
        uid: 501,
        gid: 20,
        rdev: 0,
        flags: 0,
        blksize: 512,
    }
}

/// Whether `ino` is the identifier of some entry of a namespace with
/// the given names.
pub open spec fn spec_is_entry_id(ns: Seq<Seq<char>>, ino: u64) -> bool {
    2 <= ino && ino < ns.len() + 2
}

/// What attribute retrieval answers: the root and every entry get the
/// fixed directory record under their own identifier, everything else
/// is `NotFound`.
pub open spec fn spec_getattr(ns: Seq<Seq<char>>, ino: u64) -> Result<FileAttr, FsError> {
    if ino == ROOT_INO {
        Ok(spec_attr(ROOT_INO))
    } else if spec_is_entry_id(ns, ino) {
        Ok(spec_attr(ino))
    } else {
        Err(FsError::NotFound)
    }
}

/// Position of the first name equal to `name`, if any.
pub open spec fn spec_find(ns: Seq<Seq<char>>, name: Seq<char>) -> Option<int>
    decreases ns.len(),
{
    if ns.len() == 0 {
        None
    } else if ns[0] == name {
        Some(0int)
    } else {
        match spec_find(ns.drop_first(), name) {
            Some(i) => Some(i + 1),
            None => None,
        }
    }
}

/// What lookup answers: under the root, the first entry carrying the
/// requested name, as a directory record under that entry's
/// identifier; under any other parent, or for an unknown name,
/// `NotFound`.
pub open spec fn spec_lookup(ns: Seq<Seq<char>>, parent: u64, name: Seq<char>) -> Result<
    FileAttr,
    FsError,
> {
    if parent != ROOT_INO {
        Err(FsError::NotFound)
    } else {
        match spec_find(ns, name) {
            Some(i) => Ok(spec_attr(spec_entry_id(i) as u64)),
            None => Err(FsError::NotFound),
        }
    }
}

/// The complete listing of the root directory: `.` and `..` under the
/// root's identifier, then every entry in namespace order under its
/// own identifier.
pub open spec fn full_listing(ns: Seq<Seq<char>>) -> Seq<(u64, Seq<char>)> {
    seq![(1u64, "."@), (1u64, ".."@)] + Seq::new(ns.len(), |i: int| ((spec_entry_id(i) as u64, ns[i])))
}

/// The listing position at which an enumeration with the given resume
/// cursor starts; a cursor outside the listing yields the empty
/// remainder.
pub open spec fn spec_start(len: int, offset: i64) -> int {
    if 0 <= offset && offset <= len {
        offset as int
    } else {
        len
    }
}

/// The display names selected from a directory's child names, in
/// order: each child that qualifies as a table contributes its stem.
pub open spec fn spec_scan(names: Seq<Seq<char>>) -> Seq<Seq<char>>
    decreases names.len(),
{
    if names.len() == 0 {
        Seq::empty()
    } else {
        let rest = spec_scan(names.drop_last());
        if spec_is_table_name(names.last()) {
            rest.push(spec_stem(names.last()))
        } else {
            rest
        }
    }
}

proof fn lemma_scan_snoc(names: Seq<Seq<char>>, x: Seq<char>)
    ensures
        spec_scan(names.push(x)) == if spec_is_table_name(x) {
            spec_scan(names).push(spec_stem(x))
        } else {
            spec_scan(names)
        },
{
    assert(names.push(x).drop_last() =~= names);
    assert(names.push(x).last() == x);
}

/// `spec_find` answers `None` exactly when no name matches, and
/// otherwise the position of the first match.
pub proof fn lemma_find(ns: Seq<Seq<char>>, name: Seq<char>)
    ensures
        spec_find(ns, name) is None ==> forall|j: int| 0 <= j < ns.len() ==> ns[j] != name,
        spec_find(ns, name) matches Some(i) ==> {
            &&& 0 <= i < ns.len()
            &&& ns[i] == name
            &&& forall|j: int| 0 <= j < i ==> ns[j] != name
        },
    decreases ns.len(),
{
    if ns.len() > 0 && ns[0] != name {
        let sub = ns.drop_first();
        lemma_find(sub, name);
        match spec_find(sub, name) {
            Some(i) => {
                assert(ns[i + 1] == name) by {
                    assert(sub[i] == ns[i + 1]);
                }
                assert forall|j: int| 0 <= j < i + 1 implies ns[j] != name by {
                    if j > 0 {
                        assert(sub[j - 1] == ns[j]);
                    }
                }
            },
            None => {
                assert forall|j: int| 0 <= j < ns.len() implies ns[j] != name by {
                    if j > 0 {
                        assert(sub[j - 1] == ns[j]);
                    }
                }
            },
        }
    }
}

proof fn lemma_find_at(ns: Seq<Seq<char>>, name: Seq<char>, k: int)
    requires
        0 <= k < ns.len(),
        ns[k] == name,
        forall|j: int| 0 <= j < k ==> ns[j] != name,
    ensures
        spec_find(ns, name) == Some(k),
    decreases ns.len(),
{
    if k > 0 {
        assert forall|j: int| 0 <= j < ns.len() - 1 implies ns.drop_first()[j] == ns[j + 1] by {}
        lemma_find_at(ns.drop_first(), name, k - 1);
    }
}

proof fn lemma_find_none(ns: Seq<Seq<char>>, name: Seq<char>)
    requires
        forall|j: int| 0 <= j < ns.len() ==> ns[j] != name,
    ensures
        spec_find(ns, name) is None,
    decreases ns.len(),
{
    if ns.len() > 0 {
        assert forall|j: int| 0 <= j < ns.len() - 1 implies ns.drop_first()[j] == ns[j + 1] by {}
        lemma_find_none(ns.drop_first(), name);
    }
}

/// Builds the fixed directory attribute record for identifier `ino`.
pub fn make_attr(ino: u64) -> (a: FileAttr)
    ensures
        a == spec_attr(ino),
{
    FileAttr {
        ino,
        size: 0,
        blocks: 0,
        atime: 0,
        mtime: 0,
        ctime: 0,
        crtime: 0,
        kind: FileKind::Directory,
        perm: 0o755,
        nlink: 2,
        uid: 501,
        gid: 20,
        rdev: 0,
        flags: 0,
        blksize: 512,
    }
}

/// The filesystem protocol handler: the namespace, built once at
/// mount time and immutable thereafter. Its view is the ordered
/// sequence of display names; identifiers are determined by position.
pub struct QuiverFS {
    entries: Vec<Entry>,
}

impl View for QuiverFS {
    type V = Seq<Seq<char>>;

    closed spec fn view(&self) -> Seq<Seq<char>> {
        names_of(self.entries@)
    }
}

impl QuiverFS {
    /// Entries carry the identifier their position assigns, and the
    /// namespace is small enough for identifiers and cursors to fit
    /// the host protocol's 64-bit fields. Every value of this type
    /// satisfies this invariant; it is stated here so that laws about
    /// a mount can name it.
    #[verifier::type_invariant]
    pub closed spec fn wf(self) -> bool {
        &&& self.entries@.len() + 2 <= MAX_LISTING
        &&& forall|i: int|
            0 <= i < self.entries@.len() ==> (#[trigger] self.entries@[i]).id == spec_entry_id(i)
    }

    /// Builds the namespace from the names of the source directory's
    /// immediate children: each non-hidden child whose extension
    /// matches a supported data-file format, ignoring ASCII case,
    /// becomes one entry named by its stem, with identifiers assigned
    /// in discovery order starting at 2.
    #[verifier::loop_isolation(false)]
    pub fn new(child_names: Vec<String>) -> (fs: QuiverFS)
        requires
            child_names@.len() + 2 <= MAX_LISTING,
        ensures
            fs@ == spec_scan(child_names.deep_view()),
    {
        let ghost all: Seq<Seq<char>> = child_names.deep_view();
        let mut entries: Vec<Entry> = Vec::new();
        let n = child_names.len();
        let mut i: usize = 0;
        while i < n
            invariant
                i <= n,
                entries@.len() <= i,
                forall|j: int|
                    0 <= j < entries@.len() ==> (#[trigger] entries@[j]).id == spec_entry_id(j),
                names_of(entries@) == spec_scan(all.take(i as int)),
            decreases n - i,
        {
            proof {
                assert(all.take(i + 1).drop_last() =~= all.take(i as int));
                assert(all.take(i + 1).last() == child_names@[i as int]@);
                lemma_scan_snoc(all.take(i as int), child_names@[i as int]@);
            }
            let ghost entries_before = entries@;
            match table_stem(child_names[i].as_str()) {
                Some(stem) => {
                    let id: u64 = (entries.len() as u64) + 2;
                    entries.push(Entry { id, name: stem });
                    proof {
                        assert(names_of(entries@) =~= names_of(entries_before).push(
                            entries@.last().name@,
                        ));
                    }
                },
                None => {},
            }
            i = i + 1;
        }
        proof {
            assert(all.take(n as int) =~= all);
        }
        QuiverFS { entries }
    }

    /// Scans the namespace for the first entry carrying `name` and
    /// returns its identifier and stored name.
    #[verifier::loop_isolation(false)]
    pub fn get_entry_by_name<'a>(&'a self, name: &str) -> (r: Option<(u64, &'a str)>)
        ensures
            match spec_find(self@, name@) {
                Some(i) => {
                    &&& r matches Some(p)
                    &&& p.0 == spec_entry_id(i)
                    &&& p.1@ == self@[i]
                },
                None => r is None,
            },
    {
        proof {
            use_type_invariant(&*self);
        }
        let n = self.entries.len();
        let mut i: usize = 0;
        while i < n
            invariant
                i <= n,
                forall|j: int| 0 <= j < i ==> self@[j] != name@,
            decreases n - i,
        {
            if str_eq(self.entries[i].name.as_str(), name) {
                proof {
                    lemma_find_at(self@, name@, i as int);
                }
                return Some((self.entries[i].id, self.entries[i].name.as_str()));
            }
            i = i + 1;
        }
        proof {
            lemma_find_none(self@, name@);
        }
        None
    }

    /// Entry lookup by parent and name. Only the root has children:
    /// any other parent, and any name no entry carries, is answered
    /// with `NotFound`; otherwise the first matching entry's
    /// directory record is returned.
    pub fn lookup(&self, parent: u64, name: &str) -> (r: Result<FileAttr, FsError>)
        ensures
            r == spec_lookup(self@, parent, name@),
    {
        if parent != ROOT_INO {
            return Err(FsError::NotFound);
        }
        proof {
            use_type_invariant(&*self);
            lemma_find(self@, name@);
        }
        match self.get_entry_by_name(name) {
            Some((ino, _)) => Ok(make_attr(ino)),
            None => Err(FsError::NotFound),
        }
    }

    /// Attribute retrieval by identifier: the root and every entry
    /// are answered with the fixed directory record under the
    /// requested identifier, anything else with `NotFound`.
    #[verifier::loop_isolation(false)]
    pub fn getattr(&self, ino: u64) -> (r: Result<FileAttr, FsError>)
        ensures
            r == spec_getattr(self@, ino),
    {
        proof {
            use_type_invariant(&*self);
        }
        if ino == ROOT_INO {
            return Ok(make_attr(ROOT_INO));
        }
        let n = self.entries.len();
        let mut i: usize = 0;
        while i < n
            invariant
                i <= n,
                forall|j: int| 0 <= j < i ==> (#[trigger] self.entries@[j]).id != ino,
            decreases n - i,
        {
            if self.entries[i].id == ino {
                return Ok(make_attr(ino));
            }
            i = i + 1;
        }
        proof {
            if spec_is_entry_id(self@, ino) {
                assert(self.entries@[ino - 2].id == ino);
            }
        }
        Err(FsError::NotFound)
    }

    /// Directory-content enumeration: only the root may be
    /// enumerated. The full listing is `.` and `..` followed by every
    /// entry in namespace order; the resume cursor `offset` skips
    /// exactly that many leading items, and each returned item
    /// carries the cursor that resumes enumeration after it.
    #[verifier::loop_isolation(false)]
    pub fn readdir(&self, ino: u64, offset: i64) -> (r: Result<Vec<DirEntry>, FsError>)
        ensures
            ino != ROOT_INO ==> r == Err::<Vec<DirEntry>, FsError>(FsError::NotFound),
            ino == ROOT_INO ==> (r matches Ok(v) && {
                let full = full_listing(self@);
                let start = spec_start(full.len() as int, offset);
                &&& v@.len() == full.len() - start
                &&& forall|j: int|
                    0 <= j < v@.len() ==> {
                        &&& (#[trigger] v@[j]).ino == full[start + j].0
                        &&& v@[j].name@ == full[start + j].1
                        &&& v@[j].kind == FileKind::Directory
                        &&& v@[j].next_offset == start + j + 1
                    }
            }),
    {
        if ino != ROOT_INO {
            return Err(FsError::NotFound);
        }
        proof {
            use_type_invariant(&*self);
        }
        let n = self.entries.len();
        let total: i64 = (n as i64) + 2;
        let ghost start: int = spec_start(full_listing(self@).len() as int, offset);
        let mut i: i64 = if 0 <= offset && offset <= total {
            offset
        } else {
            total
        };
        let mut v: Vec<DirEntry> = Vec::new();
        while i < total
            invariant
                start <= i <= total,
                v@.len() == i - start,
                forall|j: int|
                    0 <= j < v@.len() ==> {
                        &&& (#[trigger] v@[j]).ino == full_listing(self@)[start + j].0
                        &&& v@[j].name@ == full_listing(self@)[start + j].1
                        &&& v@[j].kind == FileKind::Directory
                        &&& v@[j].next_offset == start + j + 1
                    },
            decreases total - i,
        {
            let de: DirEntry;
            if i == 0 {
                de = DirEntry {
                    ino: ROOT_INO,
                    next_offset: 1,
                    kind: FileKind::Directory,
                    name: String::from_str("."),
                };
            } else if i == 1 {
                de = DirEntry {
                    ino: ROOT_INO,
                    next_offset: 2,
                    kind: FileKind::Directory,
                    name: String::from_str(".."),
                };
            } else {
                let idx = (i - 2) as usize;
                de = DirEntry {
                    ino: self.entries[idx].id,
                    next_offset: i + 1,
                    kind: FileKind::Directory,
                    name: self.entries[idx].name.clone(),
                };
            }
            v.push(de);
            i = i + 1;
        }
        Ok(v)
    }
}

/// For every mount, attribute retrieval on the root identifier
/// returns the fixed directory record; it never answers `NotFound`.
pub proof fn lemma_root_always_directory(fs: &QuiverFS)
    ensures
        spec_getattr(fs@, ROOT_INO) == Ok::<FileAttr, FsError>(spec_attr(ROOT_INO)),
        spec_attr(ROOT_INO).kind == FileKind::Directory,
{
}

/// Looking up an entry's own name under the root returns a record
/// carrying that entry's identifier, and attribute retrieval on that
/// identifier returns a directory record of size zero.
///
/// Stated for entries that no earlier entry shadows: when two entries
/// share a display name, lookup by name reaches only the earliest of
/// them.
pub proof fn lemma_entry_lookup_and_attrs(fs: &QuiverFS, i: int)
    requires
        fs.wf(),
        0 <= i < fs@.len(),
        forall|j: int| 0 <= j < i ==> fs@[j] != fs@[i],
    ensures
        spec_lookup(fs@, ROOT_INO, fs@[i]) == Ok::<FileAttr, FsError>(
            spec_attr(spec_entry_id(i) as u64),
        ),
        spec_getattr(fs@, spec_entry_id(i) as u64) == Ok::<FileAttr, FsError>(
            spec_attr(spec_entry_id(i) as u64),
        ),
        spec_attr(spec_entry_id(i) as u64).kind == FileKind::Directory,
        spec_attr(spec_entry_id(i) as u64).size == 0,
{
    lemma_find_at(fs@, fs@[i], i);
}

/// An identifier that is neither the root's nor any entry's is
/// answered with `NotFound`.
pub proof fn lemma_unknown_id_not_found(fs: &QuiverFS, ino: u64)
    requires
        ino != ROOT_INO,
        forall|i: int| 0 <= i < fs@.len() ==> spec_entry_id(i) != ino,
    ensures
        spec_getattr(fs@, ino) == Err::<FileAttr, FsError>(FsError::NotFound),
{
    if spec_is_entry_id(fs@, ino) {
        assert(spec_entry_id(ino - 2) == ino);
    }
}

/// Under any parent other than the root, lookup fails with
/// `NotFound`, whatever the name: only the root has children.
pub proof fn lemma_nonroot_parent_not_found(fs: &QuiverFS, parent: u64, name: Seq<char>)
    requires
        parent != ROOT_INO,
    ensures
        spec_lookup(fs@, parent, name) == Err::<FileAttr, FsError>(FsError::NotFound),
{
}

/// Each handler's answer is a function of the immutable namespace and
/// the request alone. Together with the handlers' contracts, which
/// pin every result to these functions, repeated identical requests
/// within one mount receive identical answers.
pub proof fn lemma_serving_deterministic(
    fs1: &QuiverFS,
    fs2: &QuiverFS,
    parent: u64,
    name: Seq<char>,
    ino: u64,
    offset: i64,
)
    requires
        fs1@ == fs2@,
    ensures
        spec_getattr(fs1@, ino) == spec_getattr(fs2@, ino),
        spec_lookup(fs1@, parent, name) == spec_lookup(fs2@, parent, name),
        full_listing(fs1@) == full_listing(fs2@),
        spec_start(full_listing(fs1@).len() as int, offset) == spec_start(
            full_listing(fs2@).len() as int,
            offset,
        ),
{
}

/// The full listing is `.`, then `..`, then every entry in namespace
/// order under its own identifier.
pub proof fn lemma_listing_layout(fs: &QuiverFS)
    ensures
        full_listing(fs@).len() == fs@.len() + 2,
        full_listing(fs@)[0] == (1u64, "."@),
        full_listing(fs@)[1] == (1u64, ".."@),
        forall|i: int|
            2 <= i < full_listing(fs@).len() ==> #[trigger] full_listing(fs@)[i] == ((
                spec_entry_id(i - 2) as u64,
                fs@[i - 2],
            )),
{
}

/// Consuming `k` leading items and resuming enumeration at cursor `k`
/// reproduces the full listing exactly once, with no omissions.
pub proof fn lemma_enumeration_resumes(fs: &QuiverFS, k: int)
    requires
        0 <= k <= full_listing(fs@).len(),
    ensures
        full_listing(fs@).take(k) + full_listing(fs@).skip(k) == full_listing(fs@),
{
    assert(full_listing(fs@).take(k) + full_listing(fs@).skip(k) =~= full_listing(fs@));
}

/// No (identifier, name) item appears twice in the full listing: the
/// two leading items share the root's identifier but differ in name,
/// and every further item carries its own identifier.
pub proof fn lemma_listing_no_duplicates(fs: &QuiverFS, i: int, j: int)
    requires
        fs.wf(),
        0 <= i < j < full_listing(fs@).len(),
    ensures
        full_listing(fs@)[i] != full_listing(fs@)[j],
{
    let full = full_listing(fs@);
    if i == 0 && j == 1 {
        reveal_strlit(".");
        reveal_strlit("..");
        assert(full[0].1.len() == 1);
        assert(full[1].1.len() == 2);
    } else {
        assert(full[j].0 == j);
        if i >= 2 {
            assert(full[i].0 == i);
        } else {
            assert(full[i].0 == 1);
        }
    }
}

} // verus!
