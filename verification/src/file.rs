//! File attributes.
use vstd::prelude::*;

verus! {

/// The kinds of files.
#[derive(Clone, Copy, Debug, PartialEq, Eq, Structural)]
pub enum FileType {
    NamedPipe,
    CharDevice,
    BlockDevice,
    Directory,
    RegularFile,
    Symlink,
    Socket,
}

/// The attributes of a file. Times are seconds since the Unix epoch.
#[derive(Clone, Copy, Debug, PartialEq, Eq, Structural)]
pub struct FileAttr {
    pub ino: u64,
    pub size: u64,
    pub blocks: u64,
    pub atime: u64,
    pub mtime: u64,
    pub ctime: u64,
    pub crtime: u64,
    pub kind: FileType,
    pub perm: u16,
    pub nlink: u32,
    pub uid: u32,
    pub gid: u32,
    pub rdev: u32,
    pub flags: u32,
    pub blksize: u32,
}

/// The attributes of every file: empty, as old as the epoch, owned by the
/// superuser, and nobody may write. Directories can be searched and have two
/// names.
pub open spec fn attr_of(inode: u64, kind: FileType) -> FileAttr {
    FileAttr {
        ino: inode,
        size: 0,
        blocks: 0,
        atime: 0,
        mtime: 0,
        ctime: 0,
        crtime: 0,
        kind,
        perm: if kind is Directory {
            0o555
        } else {
            0o444
        },
        nlink: if kind is Directory {
            2
        } else {
            1
        },
        uid: 0,
        gid: 0,
        rdev: 0,
        flags: 0,
        blksize: 512,
    }
}

/// The attributes of the file `inode` of kind `kind`.
pub fn make_attr(inode: u64, kind: FileType) -> (attr: FileAttr)
    ensures
        attr == attr_of(inode, kind),
{
    let (perm, nlink): (u16, u32) = match kind {
        FileType::Directory => (0o555, 2),
        _ => (0o444, 1),
    };
    FileAttr {
        ino: inode,
        size: 0,
        blocks: 0,
        atime: 0,
        mtime: 0,
        ctime: 0,
        crtime: 0,
        kind,
        perm,
        nlink,
        uid: 0,
        gid: 0,
        rdev: 0,
        flags: 0,
        blksize: 512,
    }
}

/// What every file says of itself, field by field.
pub proof fn law_attributes(inode: u64, kind: FileType)
    ensures
        attr_of(inode, kind).ino == inode,
        attr_of(inode, kind).kind == kind,
        attr_of(inode, kind).perm == if kind == FileType::Directory {
            0o555u16
        } else {
            0o444u16
        },
        attr_of(inode, kind).nlink == if kind == FileType::Directory {
            2u32
        } else {
            1u32
        },
        attr_of(inode, kind).size == 0 && attr_of(inode, kind).blocks == 0,
        attr_of(inode, kind).atime == 0 && attr_of(inode, kind).mtime == 0,
        attr_of(inode, kind).ctime == 0 && attr_of(inode, kind).crtime == 0,
        attr_of(inode, kind).uid == 0 && attr_of(inode, kind).gid == 0,
        attr_of(inode, kind).rdev == 0 && attr_of(inode, kind).flags == 0,
        attr_of(inode, kind).blksize == 512,
{
}

} // verus!
