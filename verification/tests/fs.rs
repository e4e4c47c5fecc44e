use litebox::fs::backend::{Backend, PermissionCheck, SeekBehavior, WalkStopReason};
use litebox::fs::composer::{BuildError, Composer};
use litebox::fs::devices::{Device, Devices};
use litebox::fs::either::Either;
use litebox::fs::errors::{
    ChmodError, ChownError, MkdirError, OpenError, PathError, ReadError, RmdirError,
    TruncateError, UnlinkError, WalkError, WriteError,
};
use litebox::fs::in_mem::{FileBytes, HandleRef, InMem, InitialNode};
use litebox::fs::inode_allocator::InodeAllocator;
use litebox::fs::tar_ro::{empty_tar_file, TarRo};
use litebox::fs::{DirEntry, FileType, Mode, NodeInfo, OFlags, UserInfo};
use litebox::platform::{
    CrngProvider, StdioOutStream, StdioProvider, StdioReadError, StdioWriteError,
};
use std::cell::RefCell;

fn flags(bits: u32) -> OFlags {
    OFlags { bits }
}

fn mode(bits: u32) -> Mode {
    Mode { bits }
}

fn names(entries: &[DirEntry]) -> Vec<String> {
    let mut all: Vec<String> = entries.iter().map(|e| e.name.clone()).collect();
    all.sort();
    all
}

// ==================== Inodes ====================

#[test]
fn inodes_are_counted_per_device() {
    let mut a = InodeAllocator::for_device(7);
    assert_eq!(a.next(), NodeInfo { dev: 7, ino: 1, rdev: None });
    assert_eq!(a.next(), NodeInfo { dev: 7, ino: 2, rdev: None });
    let mut b = InodeAllocator::standalone();
    assert_eq!(b.next(), NodeInfo { dev: 0x53746e64, ino: 1, rdev: None });
}

// ==================== Files in memory ====================

fn memory() -> InMem {
    InMem::new(InodeAllocator::for_device(3))
}

#[test]
fn a_file_holds_what_was_written() {
    let mut m = memory();
    let root = m.owned_dir_at(m.root(), flags(OFlags::RDONLY)).unwrap();
    let f = m.create_file_at(root, "a", mode(0o644)).unwrap();
    assert_eq!(m.write(&f, b"hello", 0).unwrap(), 5);
    let mut buf = [0u8; 8];
    assert_eq!(m.read(&f, &mut buf, 0).unwrap(), 5);
    assert_eq!(&buf, b"hello\0\0\0");
    assert_eq!(m.read(&f, &mut buf, 3).unwrap(), 2);
    assert_eq!(&buf[..2], b"lo");
    assert_eq!(m.read(&f, &mut buf, 5).unwrap(), 0);
    assert_eq!(m.read(&f, &mut buf, 100).unwrap(), 0);

    // Overwriting, and going beyond the end
    assert_eq!(m.write(&f, b"LOW", 3).unwrap(), 3);
    assert_eq!(m.read(&f, &mut buf, 0).unwrap(), 6);
    assert_eq!(&buf[..6], b"helLOW");
    // A gap is filled with zeros
    assert_eq!(m.write(&f, b"x", 7).unwrap(), 1);
    assert_eq!(m.read(&f, &mut buf, 0).unwrap(), 8);
    assert_eq!(&buf, b"helLOW\0x");
    assert_eq!(m.file_status(&f).unwrap().size, 8);
    assert!(matches!(m.seek_behavior(&f), SeekBehavior::PositionBased));
}

#[test]
fn a_file_is_cut_or_extended() {
    let mut m = memory();
    let root = m.owned_dir_at(m.root(), flags(OFlags::RDONLY)).unwrap();
    let f = m.create_file_at(root, "a", mode(0o644)).unwrap();
    m.write(&f, b"hello", 0).unwrap();
    m.truncate(&f, 2).unwrap();
    let mut buf = [9u8; 4];
    assert_eq!(m.read(&f, &mut buf, 0).unwrap(), 2);
    assert_eq!(&buf, b"he\x09\x09");
    m.truncate(&f, 4).unwrap();
    assert_eq!(m.read(&f, &mut buf, 0).unwrap(), 4);
    assert_eq!(&buf, b"he\0\0");
    // Opening can empty a file
    let opened = m.open_file_at(m.root(), "a", flags(OFlags::TRUNC | OFlags::RDWR)).unwrap();
    assert_eq!(m.file_status(&opened.item).unwrap().size, 0);
}

#[test]
fn names_in_directories() {
    let mut m = memory();
    let root = m.owned_dir_at(m.root(), flags(OFlags::RDONLY)).unwrap();
    m.create_file_at(root, "file", mode(0o644)).unwrap();
    let d = m.mkdir_at(root, "dir", mode(0o755)).unwrap();
    assert!(matches!(
        m.create_file_at(root, "dir", mode(0o644)),
        Err(OpenError::AlreadyExists)
    ));
    assert!(matches!(m.mkdir_at(root, "file", mode(0o755)), Err(MkdirError::AlreadyExists)));
    m.create_file_at(d, "inner", mode(0o600)).unwrap();
    let listed = m.list_dir_at(root).unwrap();
    assert_eq!(names(&listed), vec!["dir", "file"]);
    for e in &listed {
        let is_dir = matches!(e.file_type, FileType::Directory);
        assert_eq!(is_dir, e.name == "dir");
        assert_eq!(e.ino_info.unwrap().dev, 3);
    }

    let walked = m.walk_directories(m.root(), &["dir"]).unwrap();
    assert_eq!(walked.components.len(), 1);
    assert!(matches!(walked.stop_reason, WalkStopReason::CompleteDirectory));
    assert!(matches!(
        walked.components[0].permissions,
        PermissionCheck::ByResolver(p) if p.mode == mode(0o755)
    ));
    assert!(m.open_file_at(walked.last, "inner", flags(0)).is_ok());
    let stopped = m.walk_directories(m.root(), &["file", "x"]).unwrap();
    assert!(matches!(stopped.stop_reason, WalkStopReason::StoppedAtNonDirectory));
    assert!(matches!(
        m.walk_directories(m.root(), &["nothing"]),
        Err(WalkError::PathError(PathError::NoSuchFileOrDirectory))
    ));

    assert!(matches!(
        m.open_file_at(m.root(), "nothing", flags(0)),
        Err(OpenError::PathError(PathError::NoSuchFileOrDirectory))
    ));
    assert!(matches!(
        m.open_file_at(m.root(), "dir", flags(0)),
        Err(OpenError::PathError(PathError::ComponentNotADirectory))
    ));
    assert!(matches!(
        m.open_file_at(m.root(), "file", flags(OFlags::DIRECTORY)),
        Err(OpenError::PathError(PathError::ComponentNotADirectory))
    ));

    assert!(matches!(m.rmdir_at(root, "dir"), Err(RmdirError::NotEmpty)));
    assert!(matches!(m.rmdir_at(root, "file"), Err(RmdirError::NotADirectory)));
    assert!(matches!(
        m.rmdir_at(root, "nothing"),
        Err(RmdirError::PathError(PathError::NoSuchFileOrDirectory))
    ));
    assert!(matches!(m.unlink_at(root, "dir"), Err(UnlinkError::IsADirectory)));
    assert!(matches!(
        m.unlink_at(root, "nothing"),
        Err(UnlinkError::PathError(PathError::NoSuchFileOrDirectory))
    ));
    m.unlink_at(d, "inner").unwrap();
    m.rmdir_at(root, "dir").unwrap();
    m.unlink_at(root, "file").unwrap();
    assert!(m.list_dir_at(root).unwrap().is_empty());
}

#[test]
fn only_owners_change_permissions() {
    let mut m = memory();
    let root = m.owned_dir_at(m.root(), flags(OFlags::RDONLY)).unwrap();
    let f = m.create_file_at(root, "a", mode(0o644)).unwrap();
    m.chmod_at(root, "a", mode(0o600)).unwrap();
    let status = m.file_status(&f).unwrap();
    assert_eq!(status.mode, mode(0o600));
    assert_eq!(status.owner, UserInfo { user: 1000, group: 1000 });
    m.chown_at(root, "a", None, Some(5)).unwrap();
    assert_eq!(m.file_status(&f).unwrap().owner, UserInfo { user: 1000, group: 5 });
    // The root directory belongs to somebody else
    assert!(matches!(m.chmod(HandleRef::Dir(root), mode(0)), Err(ChmodError::NotTheOwner)));
    assert!(matches!(
        m.chown(HandleRef::Dir(root), Some(1), None),
        Err(ChownError::NotTheOwner)
    ));
    assert_eq!(m.dir_status(&root).unwrap().mode, mode(0o755));
    // A file can be given away
    m.chown_at(root, "a", Some(1), None).unwrap();
    assert!(matches!(m.chmod_at(root, "a", mode(0)), Err(ChmodError::NotTheOwner)));
}

#[test]
fn memory_can_be_filled_at_first() {
    let owner = UserInfo { user: 0, group: 0 };
    let mut m = InMem::new_initialized(vec![
        (String::from("/"), InitialNode::Directory { mode: mode(0o777), owner }),
        (String::from("/bin"), InitialNode::Directory { mode: mode(0o755), owner }),
        (
            String::from("/bin/sh"),
            InitialNode::File { mode: mode(0o755), owner, data: FileBytes::Borrowed(b"shell") },
        ),
    ]);
    let root = m.owned_dir_at(m.root(), flags(0)).unwrap();
    assert_eq!(m.dir_status(&root).unwrap().mode, mode(0o777));
    let bin = m.walk_directories(m.root(), &["bin"]).unwrap().last;
    let sh = m.open_file_at(bin, "sh", flags(0)).unwrap().item;
    assert_eq!(m.get_static_backing_data(&sh), Some(&b"shell"[..]));
    m.write(&sh, b"S", 0).unwrap();
    assert_eq!(m.get_static_backing_data(&sh), None);
    let mut buf = [0u8; 5];
    assert_eq!(m.read(&sh, &mut buf, 0).unwrap(), 5);
    assert_eq!(&buf, b"Shell");
    m.initialize_primarily_read_heavy_file(&sh, FileBytes::Borrowed(b"other"));
    assert_eq!(m.get_static_backing_data(&sh), Some(&b"other"[..]));
}

// ==================== Archives ====================

/// Appends a regular file to an archive.
fn append(archive: &mut Vec<u8>, name: &str, data: &[u8], mode: &str, uid: &str) {
    let mut header = [0u8; 512];
    header[..name.len()].copy_from_slice(name.as_bytes());
    header[100..100 + mode.len()].copy_from_slice(mode.as_bytes());
    header[108..108 + uid.len()].copy_from_slice(uid.as_bytes());
    header[116..123].copy_from_slice(b"0000024");
    header[124..135].copy_from_slice(format!("{:011o}", data.len()).as_bytes());
    header[136..147].copy_from_slice(b"00000000000");
    header[148..156].copy_from_slice(b"        ");
    header[156] = b'0';
    header[257..265].copy_from_slice(b"ustar\x0000");
    let sum: u32 = header.iter().map(|b| *b as u32).sum();
    header[148..156].copy_from_slice(format!("{:06o}\0 ", sum).as_bytes());
    archive.extend_from_slice(&header);
    archive.extend_from_slice(data);
    while archive.len() % 512 != 0 {
        archive.push(0);
    }
}

fn archive() -> Vec<u8> {
    let mut a = Vec::new();
    append(&mut a, "./bin/sh", b"#!shell", "0000755", "0000012");
    append(&mut a, "bin/tools/ls", &[7u8; 600], "0000644", "0000012");
    append(&mut a, "readme", b"", "0004600", "0000013");
    a.extend_from_slice(&[0u8; 1024]);
    a
}

fn tar(data: Vec<u8>) -> Option<TarRo> {
    TarRo::try_new(FileBytes::Owned(data), InodeAllocator::for_device(4))
}

#[test]
fn archives_are_read() {
    let mut t = tar(archive()).unwrap();
    let root = t.owned_dir_at(t.root(), flags(0)).unwrap();
    assert_eq!(names(&t.list_dir_at(root).unwrap()), vec!["bin", "readme"]);
    let bin = t.walk_directories(t.root(), &["bin"]).unwrap().last;
    let own = t.owned_dir_at(bin, flags(0)).unwrap();
    assert_eq!(names(&t.list_dir_at(own).unwrap()), vec!["sh", "tools"]);
    assert_eq!(t.dir_status(&own).unwrap().owner, UserInfo { user: 10, group: 20 });

    let sh = t.open_file_at(bin, "sh", flags(0)).unwrap();
    assert!(matches!(
        sh.permissions,
        PermissionCheck::ByResolver(p) if p.mode == mode(0o755)
            && p.owner == (UserInfo { user: 10, group: 20 })
    ));
    let mut buf = [0u8; 16];
    assert_eq!(t.read(&sh.item, &mut buf, 0).unwrap(), 7);
    assert_eq!(&buf[..7], b"#!shell");
    assert_eq!(t.read(&sh.item, &mut buf, 2).unwrap(), 5);
    assert_eq!(&buf[..5], b"shell");

    let tools = t.walk_directories(t.root(), &["bin", "tools"]).unwrap().last;
    let ls = t.open_file_at(tools, "ls", flags(0)).unwrap().item;
    let status = t.file_status(&ls).unwrap();
    assert_eq!((status.size, status.mode), (600, mode(0o644)));
    let readme = t.open_file_at(t.root(), "readme", flags(0)).unwrap().item;
    let status = t.file_status(&readme).unwrap();
    assert_eq!((status.size, status.mode, status.owner.user), (0, mode(0o600), 11));
    assert_eq!(status.node_info, NodeInfo { dev: 4, ino: 3, rdev: None });
}

#[test]
fn archives_cannot_be_changed() {
    let mut t = tar(archive()).unwrap();
    let root = t.owned_dir_at(t.root(), flags(0)).unwrap();
    let readme = t.open_file_at(t.root(), "readme", flags(0)).unwrap().item;
    assert!(matches!(t.write(&readme, b"x", 0), Err(WriteError::NotForWriting)));
    assert!(matches!(
        t.create_file_at(root, "new", mode(0)),
        Err(OpenError::ReadOnlyFileSystem)
    ));
    assert!(matches!(t.mkdir_at(root, "new", mode(0)), Err(MkdirError::ReadOnlyFileSystem)));
    assert!(matches!(t.unlink_at(root, "readme"), Err(UnlinkError::ReadOnlyFileSystem)));
    assert!(matches!(t.rmdir_at(root, "bin"), Err(RmdirError::ReadOnlyFileSystem)));
    assert!(matches!(
        t.open_file_at(t.root(), "readme", flags(OFlags::WRONLY)),
        Err(OpenError::ReadOnlyFileSystem)
    ));
}

#[test]
fn unusable_archives_are_refused() {
    assert!(tar(vec![]).is_none());
    assert!(tar(vec![0u8; 100]).is_none());
    // The same file twice
    let mut a = Vec::new();
    append(&mut a, "x", b"1", "0000644", "0000012");
    append(&mut a, "./x", b"2", "0000644", "0000012");
    a.extend_from_slice(&[0u8; 1024]);
    assert!(tar(a).is_none());
    // No owner
    let mut a = Vec::new();
    append(&mut a, "x", b"1", "0000644", "zzz");
    a.extend_from_slice(&[0u8; 1024]);
    assert!(tar(a).is_none());
}

#[test]
fn an_empty_archive_has_an_empty_root() {
    let t = tar(empty_tar_file()).unwrap();
    let root = t.owned_dir_at(t.root(), flags(0)).unwrap();
    assert!(t.list_dir_at(root).unwrap().is_empty());
    assert_eq!(empty_tar_file().len() % 512, 0);
}

// ==================== Devices ====================

struct Terminal {
    written: RefCell<Vec<(bool, Vec<u8>)>>,
}

impl StdioProvider for Terminal {
    fn read_from_stdin(&self, buf: &mut [u8]) -> Result<usize, StdioReadError> {
        if buf.is_empty() {
            return Err(StdioReadError::Closed);
        }
        buf[0] = b'i';
        Ok(1)
    }

    fn write_to(&self, stream: StdioOutStream, buf: &[u8]) -> Result<usize, StdioWriteError> {
        if buf.is_empty() {
            return Err(StdioWriteError::Closed);
        }
        self.written.borrow_mut().push((stream == StdioOutStream::Stdout, buf.to_vec()));
        Ok(buf.len())
    }
}

impl CrngProvider for Terminal {
    fn fill_bytes_crng(&self, buf: &mut [u8]) {
        buf.fill(0x5a);
    }
}

fn devices() -> Devices<Terminal> {
    Devices::new(Terminal { written: RefCell::new(Vec::new()) }, InodeAllocator::for_device(9))
}

#[test]
fn devices_have_names() {
    for name in ["stdin", "stdout", "stderr", "null", "urandom"] {
        assert_eq!(Device::from_name(name).unwrap().name(), name);
    }
    assert!(Device::from_name("tty").is_none());
    assert_eq!(Device::Null.file_status().mode, mode(0o666));
    assert_eq!(Device::Stdin.file_status().mode, mode(0o620));
}

#[test]
fn devices_are_read_and_written() {
    let mut d = devices();
    let dev = d.walk_directories(d.root(), &["dev"]).unwrap().last;
    let own = d.owned_dir_at(dev, flags(0)).unwrap();
    assert_eq!(d.list_dir_at(own).unwrap().len(), 5);
    let mut open = |name: &str| d.open_file_at(dev, name, flags(0)).unwrap().item;
    let (stdin, stdout, null, random) = (open("stdin"), open("stdout"), open("null"), open("urandom"));
    let mut buf = [0u8; 3];
    assert_eq!(d.read(&stdin, &mut buf, 0).unwrap(), 1);
    assert_eq!(&buf, b"i\0\0");
    assert!(matches!(d.read(&stdin, &mut [], 0), Err(ReadError::Io)));
    assert!(matches!(d.read(&stdout, &mut buf, 0), Err(ReadError::NotForReading)));
    assert_eq!(d.read(&null, &mut buf, 0).unwrap(), 0);
    assert_eq!(d.read(&random, &mut buf, 0).unwrap(), 3);
    assert_eq!(buf, [0x5a; 3]);
    assert!(matches!(d.write(&stdin, b"x", 0), Err(WriteError::NotForWriting)));
    assert_eq!(d.write(&stdout, b"out", 0).unwrap(), 3);
    assert!(matches!(d.write(&stdout, b"", 0), Err(WriteError::Io)));
    assert_eq!(d.write(&null, b"xyz", 0).unwrap(), 3);
    assert!(matches!(d.truncate(&null, 0), Err(TruncateError::IsTerminalDevice)));
    assert!(matches!(d.seek_behavior(&stdin), SeekBehavior::NonSeekable));
    assert!(matches!(d.seek_behavior(&null), SeekBehavior::ZeroPosition));
    assert!(matches!(
        d.open_file_at(dev, "tty", flags(0)),
        Err(OpenError::PathError(PathError::NoSuchFileOrDirectory))
    ));
}

// ==================== Mounting ====================

type Mounted = Either<InMem, TarRo>;

fn composed() -> Composer<Mounted> {
    Composer::builder()
        .mount(Some("/"), |a| Either::Left(InMem::new(a)))
        .mount(Some("/usr/share"), |a| {
            Either::Right(TarRo::try_new(FileBytes::Owned(archive()), a).unwrap())
        })
        .build()
        .unwrap()
}

#[test]
fn mounts_are_checked() {
    let memory = |a| InMem::new(a);
    let built = |paths: Vec<Option<&str>>| {
        let mut b = Composer::builder();
        for p in paths {
            b = b.mount(p, memory);
        }
        b.build().err()
    };
    assert_eq!(built(vec![]), Some(BuildError::NoMounts));
    assert_eq!(built(vec![Some("/a"), Some("/a")]), Some(BuildError::DuplicateMountPath));
    for p in ["", "a", "/a/", "/a//b", "/a/./b", "/a/.."] {
        assert_eq!(built(vec![Some(p)]), Some(BuildError::InvalidMountPath), "{}", p);
    }
    assert_eq!(built(vec![None]), Some(BuildError::InvalidMountPath));
    assert_eq!(built(vec![Some("/"), Some("/a/b")]), None);
}

#[test]
fn mounted_files_are_found() {
    let mut c = composed();
    let r = c.walk_directories(c.root(), &["usr", "share", "bin"]).unwrap();
    assert_eq!(r.components.len(), 3);
    let sh = c.open_file_at(r.last, "sh", flags(0)).unwrap().item;
    let mut buf = [0u8; 7];
    assert_eq!(c.read(&sh, &mut buf, 0).unwrap(), 7);
    assert_eq!(&buf, b"#!shell");
    // It is the second device
    assert_eq!(c.file_status(&sh).unwrap().node_info.dev, 2);
    assert!(matches!(c.write(&sh, b"x", 0), Err(WriteError::NotForWriting)));
}

#[test]
fn mount_points_hide_what_is_below_them() {
    let mut c = composed();
    let root = c.owned_dir_at(c.root(), flags(OFlags::RDONLY)).unwrap();
    // The mount point leads through a directory that nobody made
    assert_eq!(names(&c.list_dir_at(root).unwrap()), vec!["usr"]);
    let root = c.owned_dir_at(c.root(), flags(OFlags::RDONLY)).unwrap();
    let f = c.create_file_at(root, "own", mode(0o644)).unwrap();
    assert_eq!(c.file_status(&f).unwrap().node_info.dev, 1);
    let root = c.owned_dir_at(c.root(), flags(OFlags::RDONLY)).unwrap();
    assert_eq!(names(&c.list_dir_at(root).unwrap()), vec!["own", "usr"]);
    let root = c.owned_dir_at(c.root(), flags(OFlags::RDONLY)).unwrap();
    assert!(matches!(c.rmdir_at(root, "usr"), Err(RmdirError::ReadOnlyFileSystem)));
    let root = c.owned_dir_at(c.root(), flags(OFlags::RDONLY)).unwrap();
    assert!(matches!(c.mkdir_at(root, "usr", mode(0)), Err(MkdirError::ReadOnlyFileSystem)));

    let usr = c.walk_directories(c.root(), &["usr"]).unwrap().last;
    let usr = c.owned_dir_at(usr, flags(0)).unwrap();
    assert_eq!(c.dir_status(&usr).unwrap().node_info.dev, 0x436f_6d70);
    assert_eq!(names(&c.list_dir_at(usr).unwrap()), vec!["share"]);
    assert!(matches!(
        c.walk_directories(c.root(), &["usr", "lib"]),
        Err(WalkError::PathError(PathError::NoSuchFileOrDirectory))
    ));
}
