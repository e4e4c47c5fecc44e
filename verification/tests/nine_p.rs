use litebox::fs::errors::{
    ChmodError, ChownError, FileStatusError, MkdirError, OpenError, PathError, ReadDirError,
    ReadError, RmdirError, SeekError, TruncateError, UnlinkError, WriteError,
};
use litebox::fs::nine_p::errors::{Error, EACCES, EEXIST, EISDIR, ENOENT, ENOSYS, ENOTDIR, ENOTEMPTY};
use litebox::fs::nine_p::path_op::{Outcome, PathOpKind, Reply, Request, Stage};
use litebox::fs::nine_p::{
    oflags_to_lopen, qid_type_to_file_type, rgetattr_to_file_status, FileFd, FileSystem,
    GetattrMask, LOpenFlags, Qid, RemoteEntry, Rgetattr, SetattrMask,
};
use litebox::fs::{FileType, Mode, OFlags, SeekWhence, UserInfo};

const QID: Qid = Qid { typ: 0, version: 1, path: 77 };
const DIR: Qid = Qid { typ: 0x80, version: 1, path: 78 };

fn flags(bits: u32) -> OFlags {
    OFlags { bits }
}

fn attributes(valid: u64) -> Rgetattr {
    Rgetattr {
        valid,
        qid: QID,
        mode: 0o644,
        uid: 5,
        gid: 6,
        rdev: 0,
        size: 1234,
        blksize: 512,
    }
}

#[test]
fn paths_are_resolved() {
    let fs = FileSystem::new(1);
    assert_eq!(fs.absolute_path("/a/./b/../c//d/"), vec!["a", "c", "d"]);
    assert_eq!(fs.absolute_path("x/y"), vec!["x", "y"]);
    assert_eq!(fs.absolute_path("/../.."), Vec::<String>::new());
    assert_eq!(fs.absolute_path(""), Vec::<String>::new());
    // Once resolved, nothing is left to resolve
    assert_eq!(fs.absolute_path("/a/c/d"), vec!["a", "c", "d"]);
}

fn open(fs: &mut FileSystem, qid: Qid, fid: u32) -> FileFd {
    let mut op = fs.open("/dir/file", flags(OFlags::RDWR), Mode { bits: 0 });
    match op.request(fs.root()) {
        Some(Request::Walk { from, names }) => {
            assert_eq!(from, 1);
            assert_eq!(names, vec!["dir", "file"]);
        }
        other => panic!("unexpected {:?}", other),
    }
    op.reply(Reply::Walked(fid));
    match op.request(fs.root()) {
        Some(Request::Open { fid: f, lflags }) => {
            assert_eq!((f, lflags), (fid, LOpenFlags::O_RDWR));
        }
        other => panic!("unexpected {:?}", other),
    }
    op.reply(Reply::Opened(qid));
    assert!(op.request(fs.root()).is_none());
    match op.stage() {
        Stage::Finished { outcome } => fs.opened(outcome).unwrap(),
        other => panic!("unexpected {:?}", other),
    }
}

#[test]
fn files_are_opened_and_created() {
    let mut fs = FileSystem::new(1);
    let fd = open(&mut fs, QID, 9);
    let d = fs.descriptor(&fd).unwrap();
    assert_eq!((d.fid, d.offset, d.qid), (9, 0, QID));

    let mut op = fs.open("/dir/new", flags(OFlags::CREAT | OFlags::WRONLY), Mode { bits: 0o640 });
    match op.request(1) {
        Some(Request::Walk { names, .. }) => assert_eq!(names, vec!["dir"]),
        other => panic!("unexpected {:?}", other),
    }
    op.reply(Reply::Walked(10));
    match op.request(1) {
        Some(Request::Create { dir, name, lflags, mode }) => {
            assert_eq!((dir, mode), (10, 0o640));
            assert_eq!(name, "new");
            assert_eq!(lflags, LOpenFlags::O_CREAT | LOpenFlags::O_WRONLY);
        }
        other => panic!("unexpected {:?}", other),
    }
    op.reply(Reply::Created { qid: QID, fid: 10 });
    match op.stage() {
        Stage::Finished { outcome } => assert!(fs.opened(outcome).is_ok()),
        other => panic!("unexpected {:?}", other),
    }

    assert_eq!(fs.close(&fd), Some(9));
    assert_eq!(fs.close(&fd), None);
    assert!(fs.descriptor(&fd).is_none());
}

#[test]
fn walks_that_fail_end_the_operation() {
    let mut fs = FileSystem::new(1);
    let mut op = fs.open("/no/file", flags(0), Mode { bits: 0 });
    op.reply(Reply::Failed(Error::Remote(ENOENT)));
    match op.stage() {
        Stage::Finished { outcome } => assert!(matches!(
            fs.opened(outcome),
            Err(OpenError::PathError(PathError::NoSuchFileOrDirectory))
        )),
        other => panic!("unexpected {:?}", other),
    }
    // A reply that does not fit
    let mut op = fs.open("/no/file", flags(0), Mode { bits: 0 });
    op.reply(Reply::Done);
    match op.stage() {
        Stage::Finished { outcome } => assert!(matches!(fs.opened(outcome), Err(OpenError::Io))),
        other => panic!("unexpected {:?}", other),
    }
}

#[test]
fn attributes_are_asked_for_and_set() {
    let fs = FileSystem::new(1);
    let mut op = fs.begin("/f", PathOpKind::FileStatus);
    op.reply(Reply::Walked(4));
    match op.request(1) {
        Some(Request::GetAttr { fid, wanted }) => assert_eq!((fid, wanted), (4, GetattrMask::ALL)),
        other => panic!("unexpected {:?}", other),
    }
    let attr = attributes(GetattrMask::BASIC);
    op.reply(Reply::Attributes(attr));
    // The fid is given back
    assert!(matches!(op.request(1), Some(Request::Clunk { fid: 4 })));
    op.reply(Reply::Done);
    match op.stage() {
        Stage::Finished { outcome } => assert_eq!(outcome, Ok(Outcome::Attributes(attr))),
        other => panic!("unexpected {:?}", other),
    }

    // At the root, the fid is copied
    let op = fs.chmod("/", Mode { bits: 0o700 });
    assert!(matches!(op.request(1), Some(Request::CloneFid(1))));
    let mut op = fs.chmod("/f", Mode { bits: 0o700 });
    op.reply(Reply::Walked(4));
    match op.request(1) {
        Some(Request::SetAttr { mask, attr, .. }) => {
            assert_eq!((mask, attr.mode), (SetattrMask::MODE, 0o700));
        }
        other => panic!("unexpected {:?}", other),
    }
    let mut op = fs.chown("/f", None, Some(8));
    op.reply(Reply::Walked(4));
    match op.request(1) {
        Some(Request::SetAttr { mask, attr, .. }) => {
            assert_eq!((mask, attr.uid, attr.gid), (SetattrMask::GID, 0, 8));
        }
        other => panic!("unexpected {:?}", other),
    }
}

#[test]
fn removing_falls_back() {
    let mut fs = FileSystem::new(1);
    let mut op = fs.rmdir("/d/f");
    op.reply(Reply::Walked(4));
    match op.request(1) {
        Some(Request::UnlinkAt { dir, name, flags }) => {
            assert_eq!((dir, flags), (4, 0x200));
            assert_eq!(name, "f");
        }
        other => panic!("unexpected {:?}", other),
    }
    op.reply(Reply::Failed(Error::Remote(ENOSYS)));
    assert!(matches!(op.request(1), Some(Request::Clunk { fid: 4 })));
    op.reply(Reply::Done);
    // Without `unlinkat`
    match op.request(1) {
        Some(Request::Walk { names, .. }) => assert_eq!(names, vec!["d", "f"]),
        other => panic!("unexpected {:?}", other),
    }
    op.reply(Reply::Walked(5));
    assert!(matches!(op.request(1), Some(Request::Remove { fid: 5 })));
    op.reply(Reply::Done);
    assert!(matches!(op.request(1), Some(Request::FreeFid { fid: 5 })));
    op.reply(Reply::Done);
    match op.stage() {
        Stage::Finished { outcome } => assert_eq!(FileSystem::rmdir_result(outcome), Ok(())),
        other => panic!("unexpected {:?}", other),
    }
    // It is not tried again
    assert!(!op.unlinkat_is_supported());
    fs.learn(&op);
    let op = fs.unlink("/d/g");
    assert!(matches!(op.request(1), Some(Request::Walk { names, .. }) if names.len() == 2));
}

#[test]
fn directories_are_made() {
    let fs = FileSystem::new(1);
    let mut op = fs.mkdir("/d", Mode { bits: 0o755 });
    assert!(matches!(op.request(1), Some(Request::CloneFid(1))));
    op.reply(Reply::Walked(3));
    match op.request(1) {
        Some(Request::Mkdir { dir, name, mode }) => {
            assert_eq!((dir, mode), (3, 0o755));
            assert_eq!(name, "d");
        }
        other => panic!("unexpected {:?}", other),
    }
    let op = fs.mkdir("/", Mode { bits: 0o755 });
    match op.stage() {
        Stage::Finished { outcome } => assert!(matches!(
            FileSystem::mkdir_result(outcome),
            Err(MkdirError::PathError(PathError::InvalidPathname))
        )),
        other => panic!("unexpected {:?}", other),
    }
}

#[test]
fn offsets_are_kept() {
    let mut fs = FileSystem::new(1);
    let fd = open(&mut fs, QID, 9);
    assert_eq!(fs.read(&fd, None), Ok((9, 0)));
    assert_eq!(fs.have_read(&fd, None, Ok(10)), Ok(10));
    assert_eq!(fs.read(&fd, None), Ok((9, 10)));
    // Reading at an offset leaves it alone
    assert_eq!(fs.read(&fd, Some(3)), Ok((9, 3)));
    assert_eq!(fs.have_read(&fd, Some(3), Ok(5)), Ok(5));
    assert_eq!(fs.write(&fd, None), Ok((9, 10)));
    assert_eq!(fs.written(&fd, None, Ok(2)), Ok(2));
    assert_eq!(fs.descriptor(&fd).unwrap().offset, 12);
    assert_eq!(fs.have_read(&fd, None, Err(Error::Remote(EISDIR))), Err(ReadError::NotAFile));
    assert_eq!(fs.descriptor(&fd).unwrap().offset, 12);

    assert_eq!(fs.seek_from(&fd, SeekWhence::RelativeToBeginning), Ok(None));
    assert_eq!(fs.seek_from(&fd, SeekWhence::RelativeToCurrentOffset), Ok(None));
    let asked = fs.seek_from(&fd, SeekWhence::RelativeToEnd);
    assert_eq!(asked, fs.fd_file_status(&fd).map(Some).map_err(|_| SeekError::ClosedFd));
    let seek = |fs: &mut FileSystem, by, whence| fs.seek(&fd, by, whence, Ok(100));
    assert_eq!(seek(&mut fs, 5, SeekWhence::RelativeToBeginning), Ok(5));
    assert_eq!(seek(&mut fs, -2, SeekWhence::RelativeToCurrentOffset), Ok(3));
    assert_eq!(seek(&mut fs, -1, SeekWhence::RelativeToEnd), Ok(99));
    assert_eq!(
        seek(&mut fs, -100, SeekWhence::RelativeToCurrentOffset),
        Err(SeekError::InvalidOffset)
    );
    assert_eq!(
        fs.seek(&fd, 0, SeekWhence::RelativeToEnd, Err(Error::Io)),
        Err(SeekError::Io)
    );

    let (fid, mask, attr) = fs.truncate(&fd, 40).unwrap();
    assert_eq!((fid, mask, attr.size), (9, SetattrMask::SIZE, 40));
    assert_eq!(fs.truncated(&fd, true, Ok(())), Ok(()));
    assert_eq!(fs.descriptor(&fd).unwrap().offset, 0);
    assert_eq!(fs.truncated(&fd, true, Err(Error::Io)), Err(TruncateError::Io));

    let dir = open(&mut fs, DIR, 11);
    assert_eq!(fs.truncate(&dir, 0), Err(TruncateError::IsDirectory));
    assert_eq!(fs.read_dir(&dir), Ok(11));
    assert_eq!(fs.read_dir(&fd), Err(ReadDirError::NotADirectory));
    assert_eq!(fs.fd_file_status(&dir), Ok(11));

    fs.close(&fd);
    assert_eq!(fs.read(&fd, None), Err(ReadError::ClosedFd));
    assert_eq!(fs.write(&fd, None), Err(WriteError::ClosedFd));
    assert_eq!(fs.truncate(&fd, 0), Err(TruncateError::ClosedFd));
    assert_eq!(
        fs.seek(&fd, 0, SeekWhence::RelativeToBeginning, Ok(0)),
        Err(SeekError::ClosedFd)
    );
    assert_eq!(fs.read_dir(&fd), Err(ReadDirError::ClosedFd));
    assert_eq!(fs.fd_file_status(&fd), Err(FileStatusError::ClosedFd));
}

#[test]
fn listings() {
    let entry = |name: &str, typ, qid| RemoteEntry { name: name.as_bytes().to_vec(), typ, qid };
    let listed =
        FileSystem::listing(Ok(vec![entry("a", 0, QID), entry("b", 0x80, DIR)])).unwrap();
    let names: Vec<&str> = listed.iter().map(|e| e.name.as_str()).collect();
    assert!(names.contains(&"a") && names.contains(&"b"));
    for e in &listed {
        let is_dir = matches!(e.file_type, FileType::Directory);
        assert_eq!(is_dir, e.name == "b");
    }
    assert!(matches!(FileSystem::listing(Err(Error::Io)), Err(ReadDirError::Io)));
    // Names that are not UTF-8 are shown as far as they are
    let odd = RemoteEntry { name: vec![0x61, 0xff, 0xc3, 0xa4], typ: 0, qid: QID };
    assert_eq!(FileSystem::listing(Ok(vec![odd])).unwrap()[0].name, "a\u{fffd}\u{e4}");
}

#[test]
fn statuses() {
    let s = rgetattr_to_file_status(&attributes(GetattrMask::BASIC)).unwrap();
    assert_eq!((s.size, s.mode.bits, s.blksize), (1234, 0o644, 512));
    assert_eq!(s.owner, UserInfo { user: 5, group: 6 });
    assert_eq!((s.node_info.ino, s.node_info.rdev), (77, None));
    // What is not given is zero
    let s = rgetattr_to_file_status(&attributes(GetattrMask::SIZE)).unwrap();
    assert_eq!((s.size, s.mode.bits, s.owner.user), (1234, 0, 0));
    // What does not fit is an error
    let mut large = attributes(GetattrMask::BASIC);
    large.uid = 70000;
    assert!(matches!(rgetattr_to_file_status(&large), Err(Error::InvalidResponse)));
    assert!(matches!(FileSystem::file_status(Ok(large)), Err(FileStatusError::Io)));
    large.valid = GetattrMask::SIZE;
    assert!(rgetattr_to_file_status(&large).is_ok());
    assert!(matches!(qid_type_to_file_type(0x80), FileType::Directory));
    assert!(matches!(qid_type_to_file_type(0), FileType::RegularFile));
}

#[test]
fn flags_are_converted() {
    assert_eq!(oflags_to_lopen(flags(0)), 0);
    assert_eq!(oflags_to_lopen(flags(OFlags::WRONLY)), 1);
    assert_eq!(oflags_to_lopen(flags(OFlags::RDWR | OFlags::WRONLY)), 2);
    assert_eq!(
        oflags_to_lopen(flags(OFlags::CREAT | OFlags::EXCL | OFlags::TRUNC | OFlags::APPEND)),
        0o3300
    );
    assert_eq!(oflags_to_lopen(flags(OFlags::DIRECTORY | OFlags::NOFOLLOW)), 0o600000);
}

#[test]
fn remote_errors() {
    let e = Error::Remote;
    assert!(matches!(OpenError::from(e(EEXIST)), OpenError::AlreadyExists));
    assert!(matches!(OpenError::from(e(EACCES)), OpenError::AccessNotAllowed));
    assert!(matches!(
        OpenError::from(e(ENOTDIR)),
        OpenError::PathError(PathError::ComponentNotADirectory)
    ));
    assert!(matches!(OpenError::from(Error::InvalidResponse), OpenError::Io));
    assert!(matches!(MkdirError::from(e(EEXIST)), MkdirError::AlreadyExists));
    assert!(matches!(RmdirError::from(e(ENOTEMPTY)), RmdirError::NotEmpty));
    assert!(matches!(UnlinkError::from(e(EISDIR)), UnlinkError::IsADirectory));
    assert!(matches!(
        ChmodError::from(e(ENOENT)),
        ChmodError::PathError(PathError::NoSuchFileOrDirectory)
    ));
    assert!(matches!(ChownError::from(Error::Io), ChownError::Io));
}
