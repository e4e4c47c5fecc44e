//! What holds of the network file system.
use crate::fs::errors::{
    ChmodError, ChownError, FileStatusError, MkdirError, OpenError, PathError, ReadDirError,
    ReadError, RmdirError, SeekError, TruncateError, UnlinkError, WriteError,
};
use crate::fs::nine_p::errors::{
    chmod_error_of, chown_error_of, file_status_error_of, mkdir_error_of, open_error_of,
    read_dir_error_of, read_error_of, rmdir_error_of, seek_error_of, truncate_error_of,
    unlink_error_of, write_error_of, Error,
};
use crate::fs::nine_p::path_op::{begun, Outcome, PathOpKind, Reply, RequestView, Stage};
use crate::fs::nine_p::{
    absolute_components, chmod_outcome, chown_outcome, is_listing_of, is_opened, is_seek,
    lemma_resolved_is_stable, listed, lopen_flags, lossy_text, mkdir_outcome, read_outcome,
    truncate_outcome, write_outcome, resolved, rmdir_outcome, unlink_outcome, status_of,
    status_result, type_of_qid, Fid, FileFd, FsState, Qid, RemoteEntry, Rgetattr, SetAttr,
};
use crate::fs::{DirEntry, Mode, OFlags, SeekWhence};
use crate::text;
use vstd::prelude::*;

verus! {

/// A file is a directory exactly if the bit 0x80 of the type in its qid is set, and is a regular
/// file otherwise.
pub proof fn lemma_type_of_qid(typ: u8)
    ensures
        type_of_qid(typ) is Directory <==> typ & 0x80 != 0,
        type_of_qid(typ) is RegularFile <==> typ & 0x80 == 0,
{
    assert(typ & 0x80 == 0x80 <==> typ & 0x80 != 0) by (bit_vector);
}

/// The status of a file says that it is a directory exactly if the bit 0x80 of the type in its qid
/// is set, as the type of the qid itself does.
pub proof fn lemma_status_has_type_of_qid(attr: Rgetattr)
    requires
        status_of(attr) is Ok,
    ensures
        status_of(attr)->Ok_0.file_type is Directory <==> attr.qid.typ & 0x80 != 0,
        status_of(attr)->Ok_0.file_type is RegularFile <==> attr.qid.typ & 0x80 == 0,
        status_of(attr)->Ok_0.file_type == type_of_qid(attr.qid.typ),
{
    lemma_type_of_qid(attr.qid.typ);
}

/// The status of a file tells the same type and the same number as its entry in the listing of its
/// parent. The type of the entry is that of the qid, and is nothing but a directory if it is one.
pub proof fn lemma_status_agrees_with_listing(
    reply: Result<Vec<RemoteEntry>, Error>,
    r: Result<Vec<DirEntry>, ReadDirError>,
    k: int,
    attr: Rgetattr,
)
    requires
        is_listing_of(reply, r),
        r is Ok,
        0 <= k < r->Ok_0@.len(),
        reply->Ok_0@[k].qid == attr.qid,
        reply->Ok_0@[k].typ == attr.qid.typ,
        attr.qid.typ & 0x80 != 0 ==> attr.qid.typ == 0x80,
        status_of(attr) is Ok,
    ensures
        r->Ok_0@[k]@.file_type == status_of(attr)->Ok_0.file_type,
        r->Ok_0@[k]@.ino_info is Some,
        r->Ok_0@[k]@.ino_info->Some_0.ino == status_of(attr)->Ok_0.node_info.ino,
        r->Ok_0@[k]@.ino_info->Some_0.dev == status_of(attr)->Ok_0.node_info.dev,
{
    lemma_type_of_qid(attr.qid.typ);
    let entries = reply->Ok_0@;
    assert(r->Ok_0@[k]@ == listed(entries[k]));
    assert(0x80u8 & 0x80u8 != 0) by (bit_vector);
}

/// A listing has an entry for each that the server gave, in the same order, with its name, its type
/// and its number; an entry is a directory exactly if its type is 0x80.
pub proof fn lemma_listing_is_complete(
    reply: Result<Vec<RemoteEntry>, Error>,
    r: Result<Vec<DirEntry>, ReadDirError>,
    k: int,
)
    requires
        is_listing_of(reply, r),
        r is Ok,
        0 <= k < reply->Ok_0@.len(),
    ensures
        reply is Ok,
        r->Ok_0@.len() == reply->Ok_0@.len(),
        r->Ok_0@[k]@.name == lossy_text(reply->Ok_0@[k].name@),
        r->Ok_0@[k]@.file_type is Directory <==> reply->Ok_0@[k].typ == 0x80,
        r->Ok_0@[k]@.file_type is RegularFile <==> reply->Ok_0@[k].typ != 0x80,
        r->Ok_0@[k]@.ino_info is Some,
        r->Ok_0@[k]@.ino_info->Some_0.ino == reply->Ok_0@[k].qid.path,
        r->Ok_0@[k]@.ino_info->Some_0.dev == 0x454e494e,
        r->Ok_0@[k]@.ino_info->Some_0.rdev is None,
{
    assert(r->Ok_0@[k]@ == listed(reply->Ok_0@[k]));
    assert(reply->Ok_0@[k].qid.path <= usize::MAX);
}

/// The status of a file holds the attributes that the server gave, where it gave all the basic
/// ones (0x7ff): mode, size, owner, device and block size, and the number of its qid.
pub proof fn lemma_status_tells_attributes(attr: Rgetattr)
    requires
        attr.valid & 0x7ff == 0x7ff,
    ensures
        status_of(attr) is Ok <==> {
            &&& attr.size <= usize::MAX
            &&& attr.uid <= 65535
            &&& attr.gid <= 65535
            &&& attr.qid.path <= usize::MAX
            &&& attr.rdev <= usize::MAX
            &&& attr.blksize <= usize::MAX
        },
        status_of(attr) is Ok ==> {
            let status = status_of(attr)->Ok_0;
            &&& status.mode.bits == attr.mode
            &&& status.size == attr.size
            &&& status.owner.user == attr.uid
            &&& status.owner.group == attr.gid
            &&& status.node_info.ino == attr.qid.path
            &&& status.node_info.dev == 0x454e494e
            &&& status.node_info.rdev is None <==> attr.rdev == 0
            &&& status.node_info.rdev is Some ==> status.node_info.rdev->Some_0 == attr.rdev
            &&& status.blksize == attr.blksize
        },
        status_of(attr) is Err ==> status_of(attr)->Err_0 == Error::InvalidResponse,
{
}

/// An attribute that the server gave is told, and one that it did not give is zero: the mode is
/// given with the bit 0x1, the owner with 0x4, the group with 0x8, the size with 0x200.
pub proof fn lemma_status_of_given_attributes(attr: Rgetattr)
    requires
        status_of(attr) is Ok,
        attr.valid & 0x7ff != 0x7ff,
    ensures
        ({
            let status = status_of(attr)->Ok_0;
            &&& status.mode.bits == if attr.valid & 0x1 == 0x1 {
                attr.mode
            } else {
                0
            }
            &&& status.owner.user == if attr.valid & 0x4 == 0x4 {
                attr.uid
            } else {
                0
            }
            &&& status.owner.group == if attr.valid & 0x8 == 0x8 {
                attr.gid
            } else {
                0
            }
            &&& status.size == if attr.valid & 0x200 == 0x200 {
                attr.size
            } else {
                0
            }
            &&& status.blksize == if attr.valid & 0x400 == 0x400 {
                attr.blksize
            } else {
                0
            }
            &&& status.node_info.rdev is Some <==> attr.valid & 0x10 == 0x10 && attr.rdev != 0
            &&& status.node_info.ino == attr.qid.path
        }),
{
}

/// The result of asking for a status is the status of the attributes that came back, and an error
/// where an error came back.
pub proof fn lemma_status_is_answered(reply: Result<Rgetattr, Error>)
    ensures
        reply is Err ==> status_result(reply) is Err,
        reply is Ok && status_of(reply->Ok_0) is Ok ==> status_result(reply) is Ok
            && status_result(reply)->Ok_0 == status_of(reply->Ok_0)->Ok_0,
        reply is Ok && status_of(reply->Ok_0) is Err ==> status_result(reply) is Err
            && status_result(reply)->Err_0 == FileStatusError::Io,
{
}

/// A file that was opened is read and written from its start, by the fid that opening it gave, and
/// what was open before stays as it is.
pub proof fn lemma_opened_file_is_at_start(
    before: FsState,
    qid: Qid,
    fid: Fid,
    after: FsState,
    r: Result<FileFd, OpenError>,
    other: int,
    offset: Option<usize>,
)
    requires
        is_opened(before, Ok(Outcome::Opened { qid, fid }), after, r),
        before.is_open(other),
    ensures
        r is Ok,
        !before.is_open(r->Ok_0.number()),
        after.io_request(r->Ok_0.number(), None) == Some((fid, 0u64)),
        after.fid_of(r->Ok_0.number()) == Some(fid),
        after.at(r->Ok_0.number()).qid == qid,
        after.io_request(other, offset) == before.io_request(other, offset),
        after.cwd == before.cwd,
        after.root == before.root,
        after.unlinkat_supported == before.unlinkat_supported,
{
}

/// Where opening failed nothing is open that was not.
pub proof fn lemma_failed_open(
    before: FsState,
    e: Error,
    after: FsState,
    r: Result<FileFd, OpenError>,
)
    requires
        is_opened(before, Err(e), after, r),
    ensures
        r is Err,
        r->Err_0 == open_error_of(e),
        after == before,
{
}

/// A descriptor that was closed cannot be used again, and gives its fid back once; the others stay
/// as they are.
pub proof fn lemma_closed_descriptor(
    before: FsState,
    i: int,
    other: int,
    at: Option<usize>,
    length: usize,
)
    requires
        before.is_open(i),
        other != i,
    ensures
        before.fid_of(i) == Some(before.open[i]->Some_0.fid),
        before.closed(i).fid_of(i) is None,
        before.closed(i).io_request(i, at) is None,
        before.closed(i).truncate_request(i, length) == Err::<(Fid, u32, SetAttr), TruncateError>(
            TruncateError::ClosedFd,
        ),
        before.closed(i).read_dir_request(i) == Err::<Fid, ReadDirError>(ReadDirError::ClosedFd),
        before.closed(i).is_open(other) == before.is_open(other),
        before.is_open(other) ==> before.closed(i).at(other) == before.at(other),
        before.closed(i).root == before.root,
        before.closed(i).cwd == before.cwd,
        before.closed(i).unlinkat_supported == before.unlinkat_supported,
{
}

/// What is read or written is asked for at the offset that is given, and the descriptor stays where
/// it is.
pub proof fn lemma_given_offset_is_used(
    before: FsState,
    i: int,
    at: usize,
    reply: Result<usize, Error>,
)
    requires
        before.is_open(i),
    ensures
        before.io_request(i, Some(at)) == Some((before.open[i]->Some_0.fid, at as u64)),
        before.after_io(i, Some(at), reply) == before,
{
}

/// Reading or writing without an offset goes on where it last ended: a request after `n` bytes is
/// for the same fid, `n` bytes further. Nothing moves if it failed.
pub proof fn lemma_next_request_goes_on(
    before: FsState,
    i: int,
    n: usize,
    e: Error,
    other: int,
    at: Option<usize>,
)
    requires
        before.is_open(i),
        before.at(i).offset + n <= usize::MAX,
        before.is_open(other),
        other != i,
    ensures
        ({
            let after = before.after_io(i, None, Ok(n));
            &&& before.io_request(i, None) is Some
            &&& after.io_request(i, None) is Some
            &&& after.io_request(i, None)->Some_0.0 == before.io_request(i, None)->Some_0.0
            &&& after.io_request(i, None)->Some_0.1 == before.io_request(i, None)->Some_0.1 + n
            &&& after.io_request(other, at) == before.io_request(other, at)
            &&& after.at(i).qid == before.at(i).qid
            &&& after.root == before.root
            &&& after.cwd == before.cwd
            &&& after.unlinkat_supported == before.unlinkat_supported
        }),
        before.after_io(i, None, Err(e)) == before,
{
}

/// After seeking, what is read or written is asked for at the place that was sought: so many bytes
/// from the start, from where the descriptor was, or from the end of the file. A place before the
/// start is refused, and nothing moves.
pub proof fn lemma_seek_sets_place(
    before: FsState,
    i: int,
    offset: isize,
    whence: SeekWhence,
    size: u64,
    after: FsState,
    r: Result<usize, SeekError>,
)
    requires
        is_seek(before, i, offset, whence, Ok(size), after, r),
        before.is_open(i),
        size <= usize::MAX,
    ensures
        ({
            let place = offset + match whence {
                SeekWhence::RelativeToBeginning => 0,
                SeekWhence::RelativeToCurrentOffset => before.at(i).offset as int,
                SeekWhence::RelativeToEnd => size as int,
            };
            &&& 0 <= place <= usize::MAX ==> {
                &&& r is Ok
                &&& r->Ok_0 == place
                &&& after.io_request(i, None) is Some
                &&& after.io_request(i, None)->Some_0.0 == before.at(i).fid
                &&& after.io_request(i, None)->Some_0.1 == place
                &&& after.at(i).qid == before.at(i).qid
            }
            &&& !(0 <= place <= usize::MAX) ==> {
                &&& r is Err
                &&& r->Err_0 == SeekError::InvalidOffset
                &&& after == before
            }
        }),
{
}

/// Seeking a descriptor that is not open is refused, and so is seeking from the end of a file whose
/// size the server did not tell. Nothing moves.
pub proof fn lemma_refused_seek(
    before: FsState,
    i: int,
    offset: isize,
    whence: SeekWhence,
    size: Result<u64, Error>,
    after: FsState,
    r: Result<usize, SeekError>,
)
    requires
        is_seek(before, i, offset, whence, size, after, r),
        !before.is_open(i) || (whence is RelativeToEnd && size is Err),
    ensures
        r is Err,
        !before.is_open(i) ==> r->Err_0 == SeekError::ClosedFd,
        before.is_open(i) ==> r->Err_0 == seek_error_of(size->Err_0),
        after == before,
{
}

/// A file is truncated to the length that is asked for: only its size is set (0x8), on its fid. A
/// directory is refused. Its offset is set back only where that is asked for and was done.
pub proof fn lemma_truncate_sets_size(
    before: FsState,
    i: int,
    length: usize,
    reset: bool,
    reply: Result<(), Error>,
)
    requires
        before.is_open(i),
    ensures
        before.at(i).qid.typ & 0x80 != 0 ==> before.truncate_request(i, length) == Err::<
            (Fid, u32, SetAttr),
            TruncateError,
        >(TruncateError::IsDirectory),
        before.at(i).qid.typ & 0x80 == 0 ==> {
            let r = before.truncate_request(i, length);
            &&& r is Ok
            &&& r->Ok_0.0 == before.at(i).fid
            &&& r->Ok_0.1 == 0x8
            &&& r->Ok_0.2.size == length
        },
        before.after_truncate(i, reset, reply).io_request(i, None) == if reset && reply is Ok {
            Some((before.at(i).fid, 0u64))
        } else {
            before.io_request(i, None)
        },
        before.after_truncate(i, reset, reply).at(i).qid == before.at(i).qid,
{
    lemma_type_of_qid(before.at(i).qid.typ);
}

/// Directories can be listed, by their fid, and nothing else.
pub proof fn lemma_directories_are_listed(before: FsState, i: int)
    requires
        before.is_open(i),
    ensures
        before.at(i).qid.typ & 0x80 != 0 ==> before.read_dir_request(i) == Ok::<
            Fid,
            ReadDirError,
        >(before.at(i).fid),
        before.at(i).qid.typ & 0x80 == 0 ==> before.read_dir_request(i) == Err::<
            Fid,
            ReadDirError,
        >(ReadDirError::NotADirectory),
{
    lemma_type_of_qid(before.at(i).qid.typ);
}

/// An absolute path does not depend on the working directory.
pub proof fn lemma_paths_are_absolute(
    cwd: Seq<Seq<char>>,
    other: Seq<Seq<char>>,
    path: Seq<char>,
)
    requires
        path.len() > 0,
        path[0] == '/',
    ensures
        absolute_components(cwd, path) == absolute_components(other, path),
{
}

/// A relative path goes on from the working directory: names without `.` and `..` are all added to
/// it, in order.
pub proof fn lemma_relative_paths_go_on(cwd: Seq<Seq<char>>, path: Seq<char>)
    requires
        path.len() == 0 || path[0] != '/',
        forall|k: int| 0 <= k < cwd.len() ==> (#[trigger] cwd[k]) != "."@ && cwd[k] != ".."@,
        forall|k: int|
            0 <= k < text::path_components(path).len() ==> (#[trigger] text::path_components(
                path,
            )[k]) != "."@ && text::path_components(path)[k] != ".."@,
    ensures
        ({
            let all = absolute_components(cwd, path);
            let names = text::path_components(path);
            &&& all.len() == cwd.len() + names.len()
            &&& forall|k: int| 0 <= k < cwd.len() ==> #[trigger] all[k] == cwd[k]
            &&& forall|k: int| 0 <= k < names.len() ==> #[trigger] all[cwd.len() + k] == names[k]
        }),
{
    let names = text::path_components(path);
    let all = cwd + names;
    assert forall|k: int| 0 <= k < all.len() implies (#[trigger] all[k]) != "."@ && all[k]
        != ".."@ by {
        if k >= cwd.len() {
            assert(all[k] == names[k - cwd.len()]);
        } else {
            assert(all[k] == cwd[k]);
        }
    }
    lemma_resolved_is_stable(all);
}

/// A name is added to a path; `.` leaves it; `..` takes its last name away, or nothing at the root.
pub proof fn lemma_path_steps(components: Seq<Seq<char>>, name: Seq<char>)
    ensures
        resolved(Seq::<Seq<char>>::empty()).len() == 0,
        name != "."@ && name != ".."@ ==> resolved(components.push(name)) == resolved(
            components,
        ).push(name),
        resolved(components.push("."@)) == resolved(components),
        name != "."@ && name != ".."@ ==> resolved(components.push(name).push(".."@)) == resolved(
            components,
        ),
        resolved(components).len() == 0 ==> resolved(components.push(".."@)).len() == 0,
{
    reveal_strlit(".");
    reveal_strlit("..");
    assert("."@.len() == 1 && ".."@.len() == 2);
    assert(components.push(name).drop_last() =~= components);
    assert(components.push("."@).drop_last() =~= components);
    assert(components.push(".."@).drop_last() =~= components);
    assert(components.push(name).push(".."@).drop_last() =~= components.push(name));
    assert(components.push(name).last() == name);
    assert(components.push("."@).last() == "."@);
    assert(components.push(".."@).last() == ".."@);
    assert(components.push(name).push(".."@).last() == ".."@);
    if name != "."@ && name != ".."@ {
        assert(resolved(components.push(name)) == resolved(components).push(name));
        assert(resolved(components).push(name).drop_last() =~= resolved(components));
    }
}

/// A file that is there is opened by walking to all of its path and opening what is found, with
/// the flags; the descriptor is that of the file that the walk led to.
pub proof fn lemma_open_requests(
    lflags: u32,
    mode: u32,
    components: Seq<Seq<char>>,
    supported: bool,
    root: Fid,
    fid: Fid,
    qid: Qid,
)
    ensures
        ({
            let op = begun(PathOpKind::Open { lflags, mode, create: false }, components, supported);
            let walked = op.after(Reply::Walked(fid));
            let opened = walked.after(Reply::Opened(qid));
            &&& op.request(root) == Some(RequestView::Walk { from: root, names: components })
            &&& walked.request(root) == Some(RequestView::Open { fid, lflags })
            &&& opened.request(root) is None
            &&& opened.stage == (Stage::Finished { outcome: Ok(Outcome::Opened { qid, fid }) })
        }),
{
}

/// A file is created by walking to its parent and creating there what has the last name of the
/// path, with the flags and the mode.
pub proof fn lemma_create_requests(
    lflags: u32,
    mode: u32,
    parent: Seq<Seq<char>>,
    name: Seq<char>,
    supported: bool,
    root: Fid,
    dir: Fid,
    fid: Fid,
    qid: Qid,
)
    ensures
        ({
            let op = begun(
                PathOpKind::Open { lflags, mode, create: true },
                parent.push(name),
                supported,
            );
            let walked = op.after(Reply::Walked(dir));
            let opened = walked.after(Reply::Created { qid, fid });
            &&& op.request(root) == Some(RequestView::Walk { from: root, names: parent })
            &&& walked.request(root) == Some(RequestView::Create { dir, name, lflags, mode })
            &&& opened.request(root) is None
            &&& opened.stage == (Stage::Finished { outcome: Ok(Outcome::Opened { qid, fid }) })
        }),
{
    assert(parent.push(name).drop_last() =~= parent);
}

/// A directory is made by walking to its parent and making there what has the last name of the
/// path, with the mode; the parent is then given back.
pub proof fn lemma_mkdir_requests(
    mode: u32,
    parent: Seq<Seq<char>>,
    name: Seq<char>,
    supported: bool,
    root: Fid,
    dir: Fid,
    released: Reply,
)
    ensures
        ({
            let op = begun(PathOpKind::Mkdir { mode }, parent.push(name), supported);
            let walked = op.after(Reply::Walked(dir));
            let made = walked.after(Reply::Done);
            &&& op.request(root) == if parent.len() == 0 {
                Some(RequestView::CloneFid(root))
            } else {
                Some(RequestView::Walk { from: root, names: parent })
            }
            &&& walked.request(root) == Some(RequestView::Mkdir { dir, name, mode })
            &&& made.request(root) == Some(RequestView::Clunk { fid: dir })
            &&& made.after(released).stage == (Stage::Finished { outcome: Ok(Outcome::Done) })
        }),
{
    assert(parent.push(name).drop_last() =~= parent);
}

/// Something is removed by walking to its parent and removing there what has the last name of the
/// path: a directory is told from a file by the flag 0x200. The parent is then given back.
pub proof fn lemma_remove_requests(
    is_file: bool,
    parent: Seq<Seq<char>>,
    name: Seq<char>,
    root: Fid,
    dir: Fid,
    released: Reply,
)
    ensures
        ({
            let op = begun(PathOpKind::Remove { is_file }, parent.push(name), true);
            let walked = op.after(Reply::Walked(dir));
            let removed = walked.after(Reply::Done);
            &&& op.request(root) == if parent.len() == 0 {
                Some(RequestView::CloneFid(root))
            } else {
                Some(RequestView::Walk { from: root, names: parent })
            }
            &&& walked.request(root) == Some(
                RequestView::UnlinkAt {
                    dir,
                    name,
                    flags: if is_file {
                        0
                    } else {
                        0x200
                    },
                },
            )
            &&& removed.request(root) == Some(RequestView::Clunk { fid: dir })
            &&& removed.after(released).stage == (Stage::Finished { outcome: Ok(Outcome::Done) })
            &&& removed.after(released).unlinkat_supported
        }),
{
    assert(parent.push(name).drop_last() =~= parent);
}

/// On a server that cannot remove by name, something is removed by walking to all of its path and
/// removing what is found.
pub proof fn lemma_remove_requests_without_names(
    is_file: bool,
    components: Seq<Seq<char>>,
    root: Fid,
    fid: Fid,
    released: Reply,
)
    requires
        components.len() > 0,
    ensures
        ({
            let op = begun(PathOpKind::Remove { is_file }, components, false);
            let walked = op.after(Reply::Walked(fid));
            let removed = walked.after(Reply::Done);
            &&& op.request(root) == Some(RequestView::Walk { from: root, names: components })
            &&& walked.request(root) == Some(RequestView::Remove { fid })
            &&& removed.request(root) == Some(RequestView::FreeFid { fid })
            &&& removed.after(released).stage == (Stage::Finished { outcome: Ok(Outcome::Done) })
        }),
{
}

/// The mode of what a path leads to is set, and nothing else of it (0x1).
pub proof fn lemma_chmod_requests(
    mode: u32,
    components: Seq<Seq<char>>,
    supported: bool,
    root: Fid,
    fid: Fid,
    released: Reply,
)
    ensures
        ({
            let op = begun(PathOpKind::Chmod { mode }, components, supported);
            let walked = op.after(Reply::Walked(fid));
            let set = walked.after(Reply::Done);
            &&& op.request(root) == if components.len() == 0 {
                Some(RequestView::CloneFid(root))
            } else {
                Some(RequestView::Walk { from: root, names: components })
            }
            &&& walked.request(root) is Some
            &&& walked.request(root)->Some_0 is SetAttr
            &&& walked.request(root)->Some_0->SetAttr_fid == fid
            &&& walked.request(root)->Some_0->SetAttr_mask == 0x1
            &&& walked.request(root)->Some_0->SetAttr_attr.mode == mode
            &&& set.request(root) == Some(RequestView::Clunk { fid })
            &&& set.after(released).stage == (Stage::Finished { outcome: Ok(Outcome::Done) })
        }),
{
}

/// The user (0x2) and the group (0x4) of what a path leads to are set, each if it is given, and
/// nothing else of it.
pub proof fn lemma_chown_requests(
    user: Option<u16>,
    group: Option<u16>,
    components: Seq<Seq<char>>,
    supported: bool,
    root: Fid,
    fid: Fid,
    released: Reply,
)
    ensures
        ({
            let op = begun(PathOpKind::Chown { user, group }, components, supported);
            let walked = op.after(Reply::Walked(fid));
            let set = walked.after(Reply::Done);
            &&& op.request(root) == if components.len() == 0 {
                Some(RequestView::CloneFid(root))
            } else {
                Some(RequestView::Walk { from: root, names: components })
            }
            &&& walked.request(root) is Some
            &&& walked.request(root)->Some_0 is SetAttr
            &&& walked.request(root)->Some_0->SetAttr_fid == fid
            &&& walked.request(root)->Some_0->SetAttr_mask == match (user, group) {
                (Some(_), Some(_)) => 0x6u32,
                (Some(_), None) => 0x2u32,
                (None, Some(_)) => 0x4u32,
                (None, None) => 0u32,
            }
            &&& user is Some ==> walked.request(root)->Some_0->SetAttr_attr.uid == user->Some_0
            &&& group is Some ==> walked.request(root)->Some_0->SetAttr_attr.gid == group->Some_0
            &&& set.request(root) == Some(RequestView::Clunk { fid })
            &&& set.after(released).stage == (Stage::Finished { outcome: Ok(Outcome::Done) })
        }),
{
    assert(2u32 | 4 == 6 && 2u32 | 0 == 2 && 0u32 | 4 == 4 && 0u32 | 0 == 0) by (bit_vector);
}

/// The status of what a path leads to is asked for with all attributes (0x3fff), and is that which
/// the server told; the fid is then given back.
pub proof fn lemma_status_requests(
    components: Seq<Seq<char>>,
    supported: bool,
    root: Fid,
    fid: Fid,
    attr: Rgetattr,
    released: Reply,
)
    ensures
        ({
            let op = begun(PathOpKind::FileStatus, components, supported);
            let walked = op.after(Reply::Walked(fid));
            let told = walked.after(Reply::Attributes(attr));
            &&& op.request(root) == if components.len() == 0 {
                Some(RequestView::CloneFid(root))
            } else {
                Some(RequestView::Walk { from: root, names: components })
            }
            &&& walked.request(root) == Some(RequestView::GetAttr { fid, wanted: 0x3fff })
            &&& told.request(root) == Some(RequestView::Clunk { fid })
            &&& told.after(released).stage == (Stage::Finished {
                outcome: Ok(Outcome::Attributes(attr)),
            })
        }),
{
}

/// What is asked for of a path is done to that path: a file is opened with the flags, and created
/// exactly if they say so (0x40), with the mode; permissions and owners are changed to those given;
/// files are removed as files and directories as directories; directories are made with the mode.
pub proof fn lemma_operations_are_those_asked_for(
    st: FsState,
    path: Seq<char>,
    flags: OFlags,
    mode: Mode,
    user: Option<u16>,
    group: Option<u16>,
)
    ensures
        ({
            let op = st.open_op(path, flags, mode);
            &&& op.components == absolute_components(st.cwd, path)
            &&& op.kind is Open
            &&& op.kind->create == (flags.bits & 0x40 == 0x40)
            &&& op.kind->Open_mode == mode.bits
            &&& flags.bits & 0x800 == 0 ==> op.kind->lflags == lopen_flags(flags)
        }),
        ({
            let op = st.chmod_op(path, mode);
            &&& op.components == absolute_components(st.cwd, path)
            &&& op.kind is Chmod
            &&& op.kind->Chmod_mode == mode.bits
        }),
        ({
            let op = st.chown_op(path, user, group);
            &&& op.components == absolute_components(st.cwd, path)
            &&& op.kind is Chown
            &&& op.kind->user == user
            &&& op.kind->group == group
        }),
        ({
            let op = st.mkdir_op(path, mode);
            &&& op.components == absolute_components(st.cwd, path)
            &&& op.kind is Mkdir
            &&& op.kind->Mkdir_mode == mode.bits
        }),
        st.unlink_op(path).components == absolute_components(st.cwd, path),
        st.unlink_op(path).kind is Remove,
        st.unlink_op(path).kind->is_file,
        st.rmdir_op(path).components == absolute_components(st.cwd, path),
        st.rmdir_op(path).kind is Remove,
        !st.rmdir_op(path).kind->is_file,
{
    let b = flags.bits;
    assert(b & 0x800 == 0 ==> b & !0x800u32 == b) by (bit_vector);
}

/// An operation has succeeded exactly if the server did what it was asked, and else reports what the
/// server said.
pub proof fn lemma_outcomes_are_reported(outcome: Result<Outcome, Error>)
    ensures
        chmod_outcome(outcome) is Ok <==> outcome is Ok,
        chown_outcome(outcome) is Ok <==> outcome is Ok,
        unlink_outcome(outcome) is Ok <==> outcome is Ok,
        mkdir_outcome(outcome) is Ok <==> outcome is Ok,
        rmdir_outcome(outcome) is Ok <==> outcome is Ok,
        outcome is Err ==> {
            let e = outcome->Err_0;
            &&& chmod_outcome(outcome)->Err_0 == chmod_error_of(e)
            &&& chown_outcome(outcome)->Err_0 == chown_error_of(e)
            &&& unlink_outcome(outcome)->Err_0 == unlink_error_of(e)
            &&& mkdir_outcome(outcome)->Err_0 == mkdir_error_of(e)
            &&& rmdir_outcome(outcome)->Err_0 == rmdir_error_of(e)
        },
{
}

/// What is read or written of an open file is asked of the server, as is its size to seek from its
/// end, and its status. Nothing is asked of one that is not open.
pub proof fn lemma_open_files_are_asked_for(
    st: FsState,
    i: int,
    offset: Option<usize>,
    whence: SeekWhence,
)
    ensures
        st.is_open(i) ==> {
            &&& st.read_request(i, offset) == Ok::<(Fid, u64), ReadError>(
                st.io_request(i, offset)->Some_0,
            )
            &&& st.write_request(i, offset) == Ok::<(Fid, u64), WriteError>(
                st.io_request(i, offset)->Some_0,
            )
            &&& st.io_request(i, offset)->Some_0.0 == st.open[i]->Some_0.fid
            &&& st.seek_request(i, whence) is Ok
            &&& st.seek_request(i, whence)->Ok_0 is Some <==> whence is RelativeToEnd
            &&& whence is RelativeToEnd ==> st.seek_request(i, whence)->Ok_0->Some_0
                == st.open[i]->Some_0.fid
            &&& st.status_request(i) == Ok::<Fid, FileStatusError>(st.open[i]->Some_0.fid)
        },
        !st.is_open(i) ==> {
            &&& st.read_request(i, offset) == Err::<(Fid, u64), ReadError>(ReadError::ClosedFd)
            &&& st.write_request(i, offset) == Err::<(Fid, u64), WriteError>(WriteError::ClosedFd)
            &&& st.seek_request(i, whence) == Err::<Option<Fid>, SeekError>(SeekError::ClosedFd)
            &&& st.status_request(i) == Err::<Fid, FileStatusError>(FileStatusError::ClosedFd)
        },
{
}

/// As many bytes are read and written as the server says, and what it says went wrong is reported.
pub proof fn lemma_counts_are_reported(
    reply: Result<usize, Error>,
    truncated: Result<(), Error>,
)
    ensures
        reply is Ok ==> read_outcome(reply) == Ok::<usize, ReadError>(reply->Ok_0),
        reply is Ok ==> write_outcome(reply) == Ok::<usize, WriteError>(reply->Ok_0),
        reply is Err ==> read_outcome(reply) == Err::<usize, ReadError>(
            read_error_of(reply->Err_0),
        ),
        reply is Err ==> write_outcome(reply) == Err::<usize, WriteError>(
            write_error_of(reply->Err_0),
        ),
        truncate_outcome(truncated) is Ok <==> truncated is Ok,
        truncated is Err ==> truncate_outcome(truncated)->Err_0 == truncate_error_of(
            truncated->Err_0,
        ),
{
}

/// What the server says went wrong on the way to a path is the outcome, and nothing more is asked.
pub proof fn lemma_failed_walks(
    kind: PathOpKind,
    components: Seq<Seq<char>>,
    supported: bool,
    root: Fid,
    e: Error,
)
    requires
        components.len() > 0,
    ensures
        ({
            let failed = begun(kind, components, supported).after(Reply::Failed(e));
            &&& failed.stage == (Stage::Finished { outcome: Err(e) })
            &&& failed.request(root) is None
        }),
{
}

/// What the server says went wrong in an action is the outcome, unless the action is a removal by
/// name that the server does not have (38, 95).
pub proof fn lemma_failed_actions(
    kind: PathOpKind,
    components: Seq<Seq<char>>,
    supported: bool,
    fid: Fid,
    e: Error,
    released: Reply,
)
    requires
        components.len() > 0,
        kind is Remove && supported ==> e != Error::Remote(38) && e != Error::Remote(95),
    ensures
        ({
            let failed = begun(kind, components, supported).after(Reply::Walked(fid)).after(
                Reply::Failed(e),
            );
            let ended = if kind is Open {
                failed
            } else {
                failed.after(released)
            };
            ended.stage == (Stage::Finished { outcome: Err(e) })
        }),
{
}

/// The root can neither be made nor be removed by name.
pub proof fn lemma_root_stays(mode: u32, is_file: bool, root: Fid)
    ensures
        begun(PathOpKind::Mkdir { mode }, Seq::empty(), true).stage == (Stage::Finished {
            outcome: Err(Error::InvalidPathname),
        }),
        begun(PathOpKind::Remove { is_file }, Seq::empty(), true).stage == (Stage::Finished {
            outcome: Err(Error::InvalidPathname),
        }),
        begun(PathOpKind::Mkdir { mode }, Seq::empty(), true).request(root) is None,
{
}

/// Something that the server says is not there (2) is reported so by every operation on a path.
pub proof fn lemma_missing_is_reported()
    ensures
        open_error_of(Error::Remote(2)) == OpenError::PathError(PathError::NoSuchFileOrDirectory),
        mkdir_error_of(Error::Remote(2)) == MkdirError::PathError(PathError::NoSuchFileOrDirectory),
        unlink_error_of(Error::Remote(2)) == UnlinkError::PathError(
            PathError::NoSuchFileOrDirectory,
        ),
        rmdir_error_of(Error::Remote(2)) == RmdirError::PathError(PathError::NoSuchFileOrDirectory),
        chmod_error_of(Error::Remote(2)) == ChmodError::PathError(PathError::NoSuchFileOrDirectory),
        chown_error_of(Error::Remote(2)) == ChownError::PathError(PathError::NoSuchFileOrDirectory),
        file_status_error_of(Error::Remote(2)) == FileStatusError::PathError(
            PathError::NoSuchFileOrDirectory,
        ),
        read_error_of(Error::Remote(2)) == ReadError::NotAFile,
        write_error_of(Error::Remote(2)) == WriteError::NotAFile,
        read_dir_error_of(Error::Remote(2)) == ReadDirError::NotADirectory,
        truncate_error_of(Error::Remote(2)) == TruncateError::ClosedFd,
        seek_error_of(Error::Remote(2)) == SeekError::ClosedFd,
{
}

/// What the server does not allow (1, 13) is reported as a lack of permission by every operation
/// that knows one.
pub proof fn lemma_denied_is_reported(errno: u32)
    requires
        errno == 1 || errno == 13,
    ensures
        open_error_of(Error::Remote(errno)) == OpenError::AccessNotAllowed,
        read_error_of(Error::Remote(errno)) == ReadError::NotForReading,
        write_error_of(Error::Remote(errno)) == WriteError::NotForWriting,
        mkdir_error_of(Error::Remote(errno)) == MkdirError::NoWritePerms,
        unlink_error_of(Error::Remote(errno)) == UnlinkError::NoWritePerms,
        rmdir_error_of(Error::Remote(errno)) == RmdirError::NoWritePerms,
        chmod_error_of(Error::Remote(errno)) == ChmodError::NotTheOwner,
        chown_error_of(Error::Remote(errno)) == ChownError::NotTheOwner,
        truncate_error_of(Error::Remote(errno)) == TruncateError::NotForWriting,
        file_status_error_of(Error::Remote(errno)) == FileStatusError::PathError(
            PathError::NoSearchPerms,
        ),
{
}

/// What is there already (17), is no directory (20), is one (21), or is not empty (39) is reported
/// so by the operations for which it matters.
pub proof fn lemma_wrong_kind_is_reported()
    ensures
        open_error_of(Error::Remote(17)) == OpenError::AlreadyExists,
        mkdir_error_of(Error::Remote(17)) == MkdirError::AlreadyExists,
        open_error_of(Error::Remote(20)) == OpenError::PathError(PathError::ComponentNotADirectory),
        mkdir_error_of(Error::Remote(20)) == MkdirError::PathError(
            PathError::ComponentNotADirectory,
        ),
        unlink_error_of(Error::Remote(20)) == UnlinkError::PathError(
            PathError::ComponentNotADirectory,
        ),
        chmod_error_of(Error::Remote(20)) == ChmodError::PathError(
            PathError::ComponentNotADirectory,
        ),
        chown_error_of(Error::Remote(20)) == ChownError::PathError(
            PathError::ComponentNotADirectory,
        ),
        file_status_error_of(Error::Remote(20)) == FileStatusError::PathError(
            PathError::ComponentNotADirectory,
        ),
        rmdir_error_of(Error::Remote(20)) == RmdirError::NotADirectory,
        read_dir_error_of(Error::Remote(20)) == ReadDirError::NotADirectory,
        unlink_error_of(Error::Remote(21)) == UnlinkError::IsADirectory,
        read_error_of(Error::Remote(21)) == ReadError::NotAFile,
        write_error_of(Error::Remote(21)) == WriteError::NotAFile,
        truncate_error_of(Error::Remote(21)) == TruncateError::IsDirectory,
        rmdir_error_of(Error::Remote(39)) == RmdirError::NotEmpty,
        seek_error_of(Error::Remote(22)) == SeekError::InvalidOffset,
        seek_error_of(Error::Remote(29)) == SeekError::NonSeekable,
{
}

/// A name that is too long (36), or a path that is none, is reported as such by the operations on
/// a path that tell it.
pub proof fn lemma_invalid_path_is_reported()
    ensures
        open_error_of(Error::Remote(36)) == OpenError::PathError(PathError::InvalidPathname),
        mkdir_error_of(Error::Remote(36)) == MkdirError::PathError(PathError::InvalidPathname),
        unlink_error_of(Error::Remote(36)) == UnlinkError::PathError(PathError::InvalidPathname),
        rmdir_error_of(Error::Remote(36)) == RmdirError::PathError(PathError::InvalidPathname),
        file_status_error_of(Error::Remote(36)) == FileStatusError::PathError(
            PathError::InvalidPathname,
        ),
        open_error_of(Error::InvalidPathname) == OpenError::PathError(PathError::InvalidPathname),
        mkdir_error_of(Error::InvalidPathname) == MkdirError::PathError(PathError::InvalidPathname),
        unlink_error_of(Error::InvalidPathname) == UnlinkError::PathError(
            PathError::InvalidPathname,
        ),
        rmdir_error_of(Error::InvalidPathname) == RmdirError::PathError(PathError::InvalidPathname),
        chmod_error_of(Error::InvalidPathname) == ChmodError::PathError(PathError::InvalidPathname),
        chown_error_of(Error::InvalidPathname) == ChownError::PathError(PathError::InvalidPathname),
        file_status_error_of(Error::InvalidPathname) == FileStatusError::PathError(
            PathError::InvalidPathname,
        ),
{
}

/// What went wrong on the way to the server, or what its reply does not make sense of, is an I/O
/// error of every operation, and so is what the server says with any number that is not known.
pub proof fn lemma_other_errors_are_io(e: Error)
    requires
        match e {
            Error::Io | Error::InvalidResponse => true,
            Error::InvalidPathname => false,
            Error::Remote(n) => n != 1 && n != 2 && n != 13 && n != 17 && n != 20 && n != 21 && n
                != 22 && n != 29 && n != 36 && n != 39,
        },
    ensures
        open_error_of(e) is Io,
        read_error_of(e) is Io,
        write_error_of(e) is Io,
        mkdir_error_of(e) is Io,
        unlink_error_of(e) is Io,
        rmdir_error_of(e) is Io,
        read_dir_error_of(e) is Io,
        chmod_error_of(e) is Io,
        chown_error_of(e) is Io,
        seek_error_of(e) is Io,
        truncate_error_of(e) is Io,
        file_status_error_of(e) is Io,
{
}

/// A file that is opened for reading and writing (0x2) is opened so on the server, whatever else
/// is asked for, and otherwise one that is opened for writing only (0x1) is. To create (0x40), to
/// create only what is not there (0x80), to truncate (0x200), to append (0x400), not to block
/// (0x800), to open only a directory (0x10000), and the like, are asked of the server exactly if
/// they are asked for, by the same bits. To write through (0x101000) is the bit 0x100000 beside
/// that of writing through the data (0x1000).
pub proof fn lemma_open_flags_are_passed_on(flags: OFlags)
    ensures
        lopen_flags(flags) == (if flags.bits & 0x2 == 0x2 {
            0x2u32
        } else {
            flags.bits & 0x1
        }) | (flags.bits & 0x75ec0) | (if flags.bits & 0x101000 == 0x101000 {
            0x100000u32
        } else {
            0
        }),
{
    let b = flags.bits;
    assert(((if b & 0x2 == 0x2 {
            0x2u32
        } else {
            (if b & 0x1 == 0x1 {
                0x1u32
            } else {
                0
            })
        }) | (if b & 0x40 == 0x40 {
            0x40u32
        } else {
            0
        }) | (if b & 0x80 == 0x80 {
            0x80u32
        } else {
            0
        }) | (if b & 0x200 == 0x200 {
            0x200u32
        } else {
            0
        }) | (if b & 0x400 == 0x400 {
            0x400u32
        } else {
            0
        }) | (if b & 0x10000 == 0x10000 {
            0x10000u32
        } else {
            0
        }) | (if b & 0x20000 == 0x20000 {
            0x20000u32
        } else {
            0
        }) | (if b & 0x800 == 0x800 {
            0x800u32
        } else {
            0
        }) | (if b & 0x101000 == 0x101000 {
            0x100000u32
        } else {
            0
        }) | (if b & 0x1000 == 0x1000 {
            0x1000u32
        } else {
            0
        }) | (if b & 0x4000 == 0x4000 {
            0x4000u32
        } else {
            0
        }) | (if b & 0x40000 == 0x40000 {
            0x40000u32
        } else {
            0
        })) == ((if b & 0x2 == 0x2 {
            0x2u32
        } else {
            b & 0x1
        }) | (b & 0x75ec0) | (if b & 0x101000 == 0x101000 {
            0x100000u32
        } else {
            0
        }))) by (bit_vector);
}

} // verus!
