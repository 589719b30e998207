//! The bookkeeping of a read-only filesystem over a repository: inodes,
//! object ids and attributes. Opening the repository and answering the
//! kernel is the caller's part.

use vstd::prelude::*;

verus! {

/// The inode of the root directory.
pub const ROOT_INODE: u64 = 1;

/// The inode that `fuser` gives the root directory, its `FUSE_ROOT_ID`,
/// which its source sets to 1.
#[verifier::external_body]
fn fuse_root_id() -> (r: u64)
    ensures
        r == ROOT_INODE,
{
    fuser::FUSE_ROOT_ID
}

/// The error number `ENOENT` of `libc`: 2 on Linux.
#[verifier::external_body]
fn errno_no_entry() -> (r: i32)
    ensures
        r == 2,
{
    libc::ENOENT
}

/// The error number `EPERM` of `libc`: 1 on Linux.
#[verifier::external_body]
fn errno_not_permitted() -> (r: i32)
    ensures
        r == 1,
{
    libc::EPERM
}

/// The id of an object of the repository: twenty bytes.
#[derive(Clone, Copy, Debug, PartialEq, Eq)]
pub struct ObjectId {
    pub bytes: [u8; 20],
}

/// What kind of file an inode is.
#[derive(Clone, Copy, Debug, PartialEq, Eq, Structural)]
pub enum FileKind {
    Directory,
    RegularFile,
}

/// The attributes of a file. Times are seconds since the epoch.
#[derive(Clone, Copy, Debug, PartialEq, Eq, Structural)]
pub struct FileAttr {
    pub ino: u64,
    pub size: u64,
    pub blocks: u64,
    pub atime: u64,
    pub mtime: u64,
    pub ctime: u64,
    pub crtime: u64,
    pub kind: FileKind,
    pub perm: u16,
    pub nlink: u32,
    pub uid: u32,
    pub gid: u32,
    pub rdev: u32,
    pub flags: u32,
    pub blksize: u32,
}

/// The attributes of a directory with inode `ino`: empty, dated at the
/// epoch, mode 755, two links, owner 501 and group 20, blocks of 512 bytes.
pub open spec fn dir_attr_of(ino: u64) -> FileAttr {
    FileAttr {
        ino,
        size: 0,
        blocks: 0,
        atime: 0,
        mtime: 0,
        ctime: 0,
        crtime: 0,
        kind: FileKind::Directory,
        perm: 0o755,
        nlink: 2,
        uid: 501,
        gid: 20,
        rdev: 0,
        flags: 0,
        blksize: 512,
    }
}

/// Makes the attributes of a directory.
pub fn dir_attr(ino: u64) -> (r: FileAttr)
    ensures
        r == dir_attr_of(ino),
{
    FileAttr {
        ino,
        size: 0,
        blocks: 0,
        atime: 0,
        mtime: 0,
        ctime: 0,
        crtime: 0,
        kind: FileKind::Directory,
        perm: 0o755,
        nlink: 2,
        uid: 501,
        gid: 20,
        rdev: 0,
        flags: 0,
        blksize: 512,
    }
}

/// One inode and the object that it stands for.
#[derive(Clone, Copy, Debug, PartialEq, Eq)]
pub struct Entry {
    pub ino: u64,
    pub oid: ObjectId,
}

/// The state of the filesystem as mathematical values.
pub struct GitFSView {
    pub repo_path: Seq<char>,
    /// Whether the repository was opened.
    pub opened: bool,
    /// The inodes that are mapped, each with its object.
    pub entries: Seq<Entry>,
    pub next_inode: u64,
}

impl GitFSView {
    /// No inode and no object is mapped twice.
    pub open spec fn wf(self) -> bool {
        forall|a: int, b: int|
            0 <= a < b < self.entries.len() ==> self.entries[a].ino != self.entries[b].ino
                && self.entries[a].oid.bytes@ != self.entries[b].oid.bytes@
    }

    /// Whether `ino` is mapped.
    pub open spec fn has_inode(self, ino: u64) -> bool {
        exists|k: int| 0 <= k < self.entries.len() && self.entries[k].ino == ino
    }
}

/// A filesystem over the repository at a path.
pub struct GitFS {
    repo_path: String,
    opened: bool,
    entries: Vec<Entry>,
    next_inode: u64,
}

impl View for GitFS {
    type V = GitFSView;

    closed spec fn view(&self) -> GitFSView {
        GitFSView {
            repo_path: self.repo_path@,
            opened: self.opened,
            entries: self.entries@,
            next_inode: self.next_inode,
        }
    }
}

impl GitFS {
    /// A filesystem for the repository at `repo_path`, not yet opened: no
    /// inode is mapped, and the first free inode follows the root's.
    pub fn new(repo_path: String) -> (fs: GitFS)
        ensures
            fs@.repo_path == repo_path@,
            !fs@.opened,
            fs@.entries.len() == 0,
            fs@.next_inode == ROOT_INODE + 1,
            fs@.wf(),
    {
        GitFS { repo_path, opened: false, entries: Vec::new(), next_inode: fuse_root_id() + 1 }
    }

    /// Takes what opening the repository gave: the id of the root tree of
    /// `HEAD`, or the error. With an id the filesystem counts as opened and
    /// maps the root inode, and it alone, to that tree; with an error nothing
    /// changes and the error is handed on.
    pub fn perform_initialization<E>(&mut self, opened: Result<ObjectId, E>) -> (r: Result<(), E>)
        ensures
            match opened {
                Ok(oid) => r.is_ok() && final(self)@.opened && final(self)@.entries == seq![
                    Entry { ino: ROOT_INODE, oid },
                ] && final(self)@.repo_path == old(self)@.repo_path && final(self)@.next_inode
                    == old(self)@.next_inode && final(self)@.wf(),
                Err(e) => r == Err::<(), E>(e) && final(self)@ == old(self)@,
            },
    {
        match opened {
            Ok(oid) => {
                let mut entries: Vec<Entry> = Vec::new();
                entries.push(Entry { ino: fuse_root_id(), oid });
                self.entries = entries;
                self.opened = true;
                assert(self.entries@ =~= seq![Entry { ino: ROOT_INODE, oid }]);
                Ok(())
            },
            Err(e) => Err(e),
        }
    }

    /// Whether the repository was opened.
    pub fn is_initialized(&self) -> (r: bool)
        ensures
            r == self@.opened,
    {
        self.opened
    }

    /// Number of inodes that are mapped.
    pub fn mapped(&self) -> (r: usize)
        ensures
            r == self@.entries.len(),
    {
        self.entries.len()
    }

    /// The object that `ino` stands for.
    pub fn object_of(&self, ino: u64) -> (r: Option<ObjectId>)
        ensures
            match r {
                Some(oid) => exists|k: int|
                    0 <= k < self@.entries.len() && self@.entries[k] == (Entry { ino, oid }),
                None => !self@.has_inode(ino),
            },
    {
        let n = self.entries.len();
        let mut k: usize = 0;
        while k < n
            invariant
                k <= n,
                n == self.entries@.len(),
                forall|m: int| 0 <= m < k ==> self.entries@[m].ino != ino,
            decreases n - k,
        {
            let e = self.entries[k];
            if e.ino == ino {
                assert(self@.entries[k as int] == (Entry { ino, oid: e.oid }));
                return Some(e.oid);
            }
            k += 1;
        }
        None
    }
}

/// The answer to `init`: success, or `EPERM` where the repository could not
/// be opened.
pub fn init_status<E>(opened: Result<(), E>) -> (r: Result<(), i32>)
    ensures
        opened.is_ok() ==> r.is_ok(),
        opened.is_err() ==> r == Err::<(), i32>(1),
{
    match opened {
        Ok(()) => Ok(()),
        Err(_) => Err(errno_not_permitted()),
    }
}

/// The answer to `getattr`: the attributes of a directory for the root
/// inode, `ENOENT` for any other.
pub fn getattr(ino: u64) -> (r: Result<FileAttr, i32>)
    ensures
        ino == ROOT_INODE ==> r == Ok::<FileAttr, i32>(dir_attr_of(ino)),
        ino != ROOT_INODE ==> r == Err::<FileAttr, i32>(2),
{
    if ino == fuse_root_id() {
        Ok(dir_attr(ino))
    } else {
        Err(errno_no_entry())
    }
}

/// The answer to `lookup`, `read` and `readdir`, which find nothing yet:
/// `ENOENT`.
pub fn not_found() -> (r: i32)
    ensures
        r == 2,
{
    errno_no_entry()
}

/// The name to show for an entry of a tree: its own, or a stand-in where
/// the name is no valid text.
pub fn entry_name(name: Option<&str>) -> (r: String)
    ensures
        r@ == match name {
            Some(s) => s@,
            None => "[invalid utf8 name]"@,
        },
{
    match name {
        Some(s) => s.to_owned(),
        None => "[invalid utf8 name]".to_owned(),
    }
}

} // verus!
