//! What holds of files and directories, whatever is done with them.
use crate::fs::backend::{
    Backend, PermissionCheck, Permissioned, SeekBehavior, WalkStopReason, WalkedComponent,
};
use crate::fs::errors::{
    ChmodError, ChownError, MkdirError, OpenError, PathError, ReadDirError, ReadError, RmdirError,
    TruncateError, UnlinkError, WalkError, WriteError,
};
use crate::fs::in_mem::{
    can_initialize, fresh_state, initialized, resolve_dir, DirRef, InMem, InMemFileHandle,
    InMemState, InitialNode,
};
use crate::fs::names::Child;
use crate::fs::{EntryView, FileType, Mode, OFlags, UserInfo};
use vstd::prelude::*;

verus! {

/// Reading fills the start of the buffer with the bytes of the file from the offset on: byte `i` of
/// the buffer is byte `offset + i` of the file. The buffer is filled as far as the file reaches, and
/// the rest of it stays.
pub proof fn lemma_read_gives_bytes_at_offset(
    fs: InMem,
    h: InMemFileHandle,
    before: Seq<u8>,
    offset: usize,
    after: Seq<u8>,
    r: Result<usize, ReadError>,
)
    requires
        fs.reads(h, before, offset, after, r),
    ensures
        r is Ok,
        ({
            let data = fs.state().files[h.index()].data;
            let n = r->Ok_0;
            &&& after.len() == before.len()
            &&& n <= before.len()
            &&& n == before.len() || offset + n >= data.len()
            &&& offset >= data.len() ==> n == 0
            &&& offset < data.len() ==> offset + n <= data.len()
            &&& forall|i: int| 0 <= i < n ==> #[trigger] after[i] == data[offset + i]
            &&& forall|i: int| n <= i < before.len() ==> #[trigger] after[i] == before[i]
        }),
{
}

/// Everything that is written is written, and reading at any offset within it, with a buffer of any
/// length, gives back the bytes that were written there.
pub proof fn lemma_written_is_read_back(
    fs: InMem,
    h: InMemFileHandle,
    data: Seq<u8>,
    offset: usize,
    mid: InMem,
    w: Result<usize, WriteError>,
    at: usize,
    before: Seq<u8>,
    after: Seq<u8>,
    r: Result<usize, ReadError>,
)
    requires
        fs.has_file(h),
        fs.writes(h, data, offset, &mid, w),
        offset <= at <= offset + data.len(),
        mid.reads(h, before, at, after, r),
    ensures
        w is Ok,
        w->Ok_0 == data.len(),
        r is Ok,
        r->Ok_0 == before.len() || at + r->Ok_0 >= offset + data.len(),
        forall|i: int|
            0 <= i < before.len() && at + i < offset + data.len() ==> #[trigger] after[i]
                == data[at - offset + i],
{
    let old = fs.state().files[h.index()].data;
    let new = mid.state().files[h.index()].data;
    crate::fs::in_mem::lemma_read_after_write(old, data, offset as int);
    lemma_read_gives_bytes_at_offset(mid, h, before, at, after, r);
    assert forall|i: int|
        0 <= i < before.len() && at + i < offset + data.len() implies #[trigger] after[i]
        == data[at - offset + i] by {
        assert(new.subrange(offset as int, offset + data.len())[at - offset + i] == new[at + i]);
    }
}

/// Writing changes nothing outside of what is written: the other bytes of the file stay, a gap is
/// filled with zeros, the file is as long as needed, and no other file or directory changes.
pub proof fn lemma_write_changes_nothing_else(
    fs: InMem,
    h: InMemFileHandle,
    data: Seq<u8>,
    offset: usize,
    after: InMem,
    w: Result<usize, WriteError>,
)
    requires
        fs.has_file(h),
        fs.writes(h, data, offset, &after, w),
    ensures
        ({
            let old = fs.state().files[h.index()];
            let new = after.state().files[h.index()];
            &&& new.data.len() == if offset + data.len() > old.data.len() {
                offset + data.len()
            } else {
                old.data.len() as int
            }
            &&& forall|i: int|
                0 <= i < old.data.len() && (i < offset || offset + data.len() <= i) ==> #[trigger]
                new.data[i] == old.data[i]
            &&& forall|i: int| old.data.len() <= i < offset ==> #[trigger] new.data[i] == 0
            &&& new.perms == old.perms
            &&& new.node_info == old.node_info
            &&& !new.is_static
        }),
        after.state().files.len() == fs.state().files.len(),
        forall|f: int|
            0 <= f < fs.state().files.len() && f != h.index() ==> #[trigger] after.state().files[f]
                == fs.state().files[f],
        after.state().dirs == fs.state().dirs,
{
    crate::fs::in_mem::lemma_read_after_write(
        fs.state().files[h.index()].data,
        data,
        offset as int,
    );
}

/// A file that is truncated is as long as asked for: what it held is kept as far as it fits, and
/// the rest is zeros. Nothing else changes.
pub proof fn lemma_truncate_sets_length(
    fs: InMem,
    h: InMemFileHandle,
    length: usize,
    after: InMem,
    r: Result<(), TruncateError>,
)
    requires
        fs.has_file(h),
        fs.state().files.len() <= usize::MAX,
        fs.truncates(h, length, &after, r),
    ensures
        r is Ok,
        ({
            let old = fs.state().files[h.index()].data;
            let new = after.state().files[h.index()].data;
            &&& new.len() == length
            &&& forall|i: int| 0 <= i < length && i < old.len() ==> #[trigger] new[i] == old[i]
            &&& forall|i: int| old.len() <= i < length ==> #[trigger] new[i] == 0
        }),
        after.state().files[h.index()].perms == fs.state().files[h.index()].perms,
        after.file_status_spec(h) is Ok,
        after.file_status_spec(h)->Ok_0.size == length,
        forall|f: int|
            0 <= f < fs.state().files.len() && f != h.index() ==> #[trigger] after.state().files[f]
                == fs.state().files[f],
        after.state().dirs == fs.state().dirs,
{
    crate::fs::in_mem::lemma_resize(fs.state().files[h.index()].data, length as int);
}

/// A file can be created under any name that is not taken. It is empty, has the mode asked for, and
/// belongs to who made it. It is found under its name and nowhere else, and nothing else changes. A
/// name that is taken cannot be used.
pub proof fn lemma_created_file(
    fs: InMem,
    dir: DirRef,
    name: Seq<char>,
    mode: Mode,
    after: InMem,
    r: Result<InMemFileHandle, OpenError>,
)
    requires
        fs.wf(),
        fs.has_dir(dir),
        fs.state().files.len() < usize::MAX,
        fs.creates(dir, name, mode, &after, r),
    ensures
        r is Ok <==> !fs.state().dirs[dir.index].children.contains_key(name),
        r is Err ==> r->Err_0 == OpenError::AlreadyExists && after.state() == fs.state(),
        r is Ok ==> ({
            let f = r->Ok_0.index();
            let new = after.state();
            &&& f == fs.state().files.len()
            &&& new.files.len() == f + 1
            &&& new.files[f].data.len() == 0
            &&& new.files[f].perms.mode == mode
            &&& new.files[f].perms.owner == fs.state().user
            &&& new.dirs[dir.index].children.contains_key(name)
            &&& new.dirs[dir.index].children[name] == Child::File(f as usize)
            &&& forall|other: Seq<char>|
                other != name ==> #[trigger] new.dirs[dir.index].children.contains_key(other)
                    == fs.state().dirs[dir.index].children.contains_key(other)
            &&& forall|other: Seq<char>|
                other != name && fs.state().dirs[dir.index].children.contains_key(other)
                    ==> #[trigger] new.dirs[dir.index].children[other]
                    == fs.state().dirs[dir.index].children[other]
            &&& new.dirs.len() == fs.state().dirs.len()
            &&& forall|d: int|
                0 <= d < new.dirs.len() && d != dir.index ==> #[trigger] new.dirs[d]
                    == fs.state().dirs[d]
            &&& forall|g: int|
                0 <= g < f ==> #[trigger] new.files[g] == fs.state().files[g]
            &&& new.files[f].node_info.dev == fs.state().device
            &&& new.files[f].node_info.ino == fs.state().upcoming
            &&& new.user == fs.state().user
        }),
{
}

/// A directory can be made under any name that is not taken. It is empty, has the mode asked for,
/// and belongs to who made it. It is found under its name, and nothing else changes.
pub proof fn lemma_made_directory(
    fs: InMem,
    dir: DirRef,
    name: Seq<char>,
    mode: Mode,
    after: InMem,
    r: Result<DirRef, MkdirError>,
)
    requires
        fs.wf(),
        fs.has_dir(dir),
        fs.state().dirs.len() < usize::MAX,
        fs.makes_dir(dir, name, mode, &after, r),
    ensures
        r is Ok <==> !fs.state().dirs[dir.index].children.contains_key(name),
        r is Err ==> r->Err_0 == MkdirError::AlreadyExists && after.state() == fs.state(),
        r is Ok ==> ({
            let k = r->Ok_0.index;
            let new = after.state();
            &&& k == fs.state().dirs.len()
            &&& new.dirs.len() == k + 1
            &&& new.dirs[k].children =~= Map::<Seq<char>, Child>::empty()
            &&& new.dirs[k].perms.mode == mode
            &&& new.dirs[k].perms.owner == fs.state().user
            &&& new.dirs[dir.index].children =~= fs.state().dirs[dir.index].children.insert(
                name,
                Child::Dir(k as usize),
            )
            &&& forall|d: int|
                0 <= d < k && d != dir.index ==> #[trigger] new.dirs[d] == fs.state().dirs[d]
            &&& new.files == fs.state().files
            &&& new.dirs[k].node_info.dev == fs.state().device
            &&& new.dirs[k].node_info.ino == fs.state().upcoming
        }),
{
}

/// A file that is there can be unlinked, whatever it holds, and its name is gone then. Directories
/// and names that are not there cannot. No other name, file or directory changes.
pub proof fn lemma_unlinked_file(
    fs: InMem,
    dir: DirRef,
    name: Seq<char>,
    after: InMem,
    r: Result<(), UnlinkError>,
)
    requires
        fs.has_dir(dir),
        fs.unlinks(dir, name, &after, r),
    ensures
        r is Ok <==> fs.state().dirs[dir.index].children.contains_key(name)
            && fs.state().dirs[dir.index].children[name] is File,
        r is Err ==> after.state() == fs.state(),
        !fs.state().dirs[dir.index].children.contains_key(name) ==> r == Err::<(), UnlinkError>(
            UnlinkError::PathError(PathError::NoSuchFileOrDirectory),
        ),
        fs.state().dirs[dir.index].children.contains_key(name)
            && fs.state().dirs[dir.index].children[name] is Dir ==> r == Err::<(), UnlinkError>(
            UnlinkError::IsADirectory,
        ),
        r is Ok ==> after.state().dirs[dir.index].children
            =~= fs.state().dirs[dir.index].children.remove(name),
        r is Ok ==> after.state().files == fs.state().files && after.state().dirs.len()
            == fs.state().dirs.len(),
        forall|d: int|
            0 <= d < fs.state().dirs.len() && d != dir.index ==> #[trigger] after.state().dirs[d]
                == fs.state().dirs[d],
{
}

/// An empty directory can be removed, and its name is gone then. Files, directories that hold
/// something and names that are not there cannot.
pub proof fn lemma_removed_directory(
    fs: InMem,
    dir: DirRef,
    name: Seq<char>,
    after: InMem,
    r: Result<(), RmdirError>,
)
    requires
        fs.has_dir(dir),
        fs.removes_dir(dir, name, &after, r),
    ensures
        ({
            let children = fs.state().dirs[dir.index].children;
            let k = children[name]->Dir_0 as int;
            let empty = Map::<Seq<char>, Child>::empty();
            &&& r is Ok <==> children.contains_key(name) && children[name] is Dir
                && fs.state().dirs[k].children == empty
            &&& !children.contains_key(name) ==> r == Err::<(), RmdirError>(
                RmdirError::PathError(PathError::NoSuchFileOrDirectory),
            )
            &&& children.contains_key(name) && children[name] is File ==> r == Err::<(), RmdirError>(
                RmdirError::NotADirectory,
            )
            &&& children.contains_key(name) && children[name] is Dir
                && fs.state().dirs[k].children != empty ==> r == Err::<(), RmdirError>(
                RmdirError::NotEmpty,
            )
            &&& r is Err ==> after.state() == fs.state()
            &&& r is Ok ==> after.state().dirs[dir.index].children =~= children.remove(name)
                && after.state().files == fs.state().files
            &&& forall|d: int|
                0 <= d < fs.state().dirs.len() && d != dir.index ==> #[trigger] after.state().dirs[d]
                    == fs.state().dirs[d]
        }),
{
}

/// A listing has an entry for each name of a directory, and for no other: one entry, of the type of
/// what the name stands for, with its inode.
pub proof fn lemma_listing_is_complete(
    fs: InMem,
    dir: DirRef,
    r: Result<Seq<EntryView>, ReadDirError>,
    name: Seq<char>,
)
    requires
        fs.has_dir(dir),
        fs.lists(dir, r),
    ensures
        r is Ok,
        ({
            let entries = r->Ok_0;
            let children = fs.state().dirs[dir.index].children;
            &&& children.contains_key(name) <==> exists|i: int|
                0 <= i < entries.len() && (#[trigger] entries[i]).name == name
            &&& forall|i: int|
                0 <= i < entries.len() && (#[trigger] entries[i]).name == name ==> match children[name] {
                    Child::File(f) => entries[i].file_type == FileType::RegularFile
                        && entries[i].ino_info == Some(fs.state().files[f as int].node_info),
                    Child::Dir(k) => entries[i].file_type == FileType::Directory
                        && entries[i].ino_info == Some(fs.state().dirs[k as int].node_info),
                }
            &&& forall|i: int, j: int|
                0 <= i < j < entries.len() ==> (#[trigger] entries[i]).name != (
                #[trigger] entries[j]).name
        }),
{
    let entries = r->Ok_0;
    assert(fs.state().has(dir.index, name) == fs.state().dirs[dir.index].children.contains_key(name));
    if exists|i: int| 0 <= i < entries.len() && (#[trigger] entries[i]).name == name {
        let i = choose|i: int| 0 <= i < entries.len() && (#[trigger] entries[i]).name == name;
        assert(fs.state().has(dir.index, entries[i].name));
    }
    assert forall|i: int|
        0 <= i < entries.len() && (#[trigger] entries[i]).name == name implies match fs.state().dirs[dir.index].children[name] {
        Child::File(f) => entries[i].file_type == FileType::RegularFile && entries[i].ino_info
            == Some(fs.state().files[f as int].node_info),
        Child::Dir(k) => entries[i].file_type == FileType::Directory && entries[i].ino_info == Some(
            fs.state().dirs[k as int].node_info,
        ),
    } by {
        assert(entries[i] == fs.state().entry(dir.index, name));
    }
}

/// A file that was just created can be unlinked, and its directory is as it was then.
pub proof fn lemma_created_file_can_be_unlinked(
    fs: InMem,
    dir: DirRef,
    name: Seq<char>,
    mode: Mode,
    mid: InMem,
    created: Result<InMemFileHandle, OpenError>,
    after: InMem,
    r: Result<(), UnlinkError>,
)
    requires
        fs.wf(),
        fs.has_dir(dir),
        fs.state().files.len() < usize::MAX,
        !fs.state().dirs[dir.index].children.contains_key(name),
        fs.creates(dir, name, mode, &mid, created),
        mid.unlinks(dir, name, &after, r),
    ensures
        created is Ok,
        r is Ok,
        !after.state().dirs[dir.index].children.contains_key(name),
        after.state().dirs == fs.state().dirs,
{
    lemma_created_file(fs, dir, name, mode, mid, created);
    lemma_unlinked_file(mid, dir, name, after, r);
    assert(after.state().dirs[dir.index].children =~= fs.state().dirs[dir.index].children);
    assert(after.state().dirs =~= fs.state().dirs);
}

/// A directory that was just made can be removed, and its parent is as it was then.
pub proof fn lemma_made_directory_can_be_removed(
    fs: InMem,
    dir: DirRef,
    name: Seq<char>,
    mode: Mode,
    mid: InMem,
    made: Result<DirRef, MkdirError>,
    after: InMem,
    r: Result<(), RmdirError>,
)
    requires
        fs.wf(),
        fs.has_dir(dir),
        fs.state().dirs.len() < usize::MAX,
        !fs.state().dirs[dir.index].children.contains_key(name),
        fs.makes_dir(dir, name, mode, &mid, made),
        mid.removes_dir(dir, name, &after, r),
    ensures
        made is Ok,
        r is Ok,
        after.state().dirs[dir.index].children == fs.state().dirs[dir.index].children,
{
    lemma_made_directory(fs, dir, name, mode, mid, made);
    lemma_removed_directory(mid, dir, name, after, r);
    assert(after.state().dirs[dir.index].children =~= fs.state().dirs[dir.index].children);
}

/// Opening a file by its name gives a handle to it, along with its permissions. With the flag to
/// truncate, and unless only its path is of interest, it is empty then; otherwise nothing changes.
/// Directories and names that are not there cannot be opened as files.
pub proof fn lemma_opened_file(
    fs: InMem,
    dir: DirRef,
    name: Seq<char>,
    flags: OFlags,
    after: InMem,
    r: Result<Permissioned<InMemFileHandle>, OpenError>,
)
    requires
        fs.wf(),
        fs.has_dir(dir),
        fs.opens(dir, name, flags, &after, r),
    ensures
        ({
            let children = fs.state().dirs[dir.index].children;
            &&& r is Ok <==> children.contains_key(name) && children[name] is File && flags.bits
                & 0x10000 != 0x10000
            &&& !children.contains_key(name) ==> r is Err && r->Err_0 == OpenError::PathError(
                PathError::NoSuchFileOrDirectory,
            )
            &&& r is Err ==> after.state() == fs.state()
            &&& r is Ok ==> {
                let f = r->Ok_0.item.index();
                &&& children[name] == Child::File(f as usize)
                &&& r->Ok_0.permissions == PermissionCheck::ByResolver(fs.state().files[f].perms)
                &&& flags.bits & 0x200 == 0 ==> after.state() == fs.state()
                &&& flags.bits & 0x200 == 0x200 && flags.bits & 0x200000 == 0
                    ==> after.state().files[f].data.len() == 0
                &&& after.state().dirs == fs.state().dirs
                &&& forall|g: int|
                    0 <= g < fs.state().files.len() && g != f ==> #[trigger] after.state().files[g]
                        == fs.state().files[g]
            }
        }),
{
    let bits = flags.bits;
    assert(bits & 0x200 == 0 ==> bits & 0x200 != 0x200) by (bit_vector);
    assert(bits & 0x200000 == 0 ==> bits & 0x200000 != 0x200000) by (bit_vector);
    assert(fs.state().has(dir.index, name) == fs.state().dirs[dir.index].children.contains_key(name));
}

/// A status tells what a handle stands for: its type, its permissions, its owner and its inode, and
/// the size of a file.
pub proof fn lemma_status_is_told(fs: InMem, h: InMemFileHandle, d: DirRef)
    requires
        fs.has_file(h),
        fs.has_dir(d),
        fs.state().files.len() <= usize::MAX,
        fs.state().dirs.len() <= usize::MAX,
        fs.state().files[h.index()].data.len() <= usize::MAX,
    ensures
        fs.file_status_spec(h) is Ok,
        ({
            let s = fs.file_status_spec(h)->Ok_0;
            let file = fs.state().files[h.index()];
            &&& s.file_type == FileType::RegularFile
            &&& s.size == file.data.len()
            &&& s.mode == file.perms.mode
            &&& s.owner == file.perms.owner
            &&& s.node_info == file.node_info
        }),
        fs.dir_status_spec(d) is Ok,
        ({
            let s = fs.dir_status_spec(d)->Ok_0;
            let dir = fs.state().dirs[d.index];
            &&& s.file_type == FileType::Directory
            &&& s.size == 4096
            &&& s.mode == dir.perms.mode
            &&& s.owner == dir.perms.owner
            &&& s.node_info == dir.node_info
        }),
        fs.seek_spec(h) == SeekBehavior::PositionBased,
        fs.static_spec(h) is Some <==> fs.state().files[h.index()].is_static,
        fs.static_spec(h) is Some ==> fs.static_spec(h)->Some_0 == fs.state().files[h.index()].data,
{
}

/// The owner of a file or directory, and root, can change its mode; nobody else can. The owner
/// stays, and so does everything else.
pub proof fn lemma_mode_is_changed(
    fs: InMem,
    dir: DirRef,
    name: Seq<char>,
    mode: Mode,
    after: InMem,
    r: Result<(), ChmodError>,
)
    requires
        fs.wf(),
        fs.has_dir(dir),
        fs.chmods(dir, name, mode, &after, r),
    ensures
        ({
            let st = fs.state();
            let new = after.state();
            let children = st.dirs[dir.index].children;
            let node = children[name];
            &&& !children.contains_key(name) ==> r == Err::<(), ChmodError>(
                ChmodError::PathError(PathError::NoSuchFileOrDirectory),
            )
            &&& children.contains_key(name) ==> match node {
                Child::File(f) => {
                    let was = st.files[f as int];
                    &&& r is Ok <==> st.user.user == 0 || st.user.user == was.perms.owner.user
                    &&& r is Ok ==> new.files[f as int].perms.mode == mode
                        && new.files[f as int].perms.owner == was.perms.owner
                        && new.files[f as int].data == was.data && new.dirs == st.dirs
                        && new.files.len() == st.files.len()
                },
                Child::Dir(k) => {
                    let was = st.dirs[k as int];
                    &&& r is Ok <==> st.user.user == 0 || st.user.user == was.perms.owner.user
                    &&& r is Ok ==> new.dirs[k as int].perms.mode == mode
                        && new.dirs[k as int].perms.owner == was.perms.owner
                        && new.dirs[k as int].children == was.children && new.files == st.files
                        && new.dirs.len() == st.dirs.len()
                },
            }
            &&& children.contains_key(name) && r is Err ==> r->Err_0 == ChmodError::NotTheOwner
            &&& r is Err ==> new == st
        }),
{
    assert(fs.state().has(dir.index, name) == fs.state().dirs[dir.index].children.contains_key(name));
}

/// The owner of a file or directory, and root, can give it to another user or group; nobody else
/// can. What is not given stays, and so does everything else.
pub proof fn lemma_owner_is_changed(
    fs: InMem,
    dir: DirRef,
    name: Seq<char>,
    user: Option<u16>,
    group: Option<u16>,
    after: InMem,
    r: Result<(), ChownError>,
)
    requires
        fs.wf(),
        fs.has_dir(dir),
        fs.chowns(dir, name, user, group, &after, r),
    ensures
        ({
            let st = fs.state();
            let new = after.state();
            let children = st.dirs[dir.index].children;
            let node = children[name];
            &&& !children.contains_key(name) ==> r == Err::<(), ChownError>(
                ChownError::PathError(PathError::NoSuchFileOrDirectory),
            )
            &&& children.contains_key(name) ==> {
                let was = st.perms(node);
                let now = new.perms(node);
                &&& r is Ok <==> st.user.user == 0 || st.user.user == was.owner.user
                &&& r is Ok && user is Some ==> now.owner.user == user->Some_0
                &&& r is Ok && user is None ==> now.owner.user == was.owner.user
                &&& r is Ok && group is Some ==> now.owner.group == group->Some_0
                &&& r is Ok && group is None ==> now.owner.group == was.owner.group
                &&& now.mode == was.mode
                &&& r is Err ==> r->Err_0 == ChownError::NotTheOwner
            }
            &&& r is Err ==> new == st
            &&& forall|f: int|
                0 <= f < st.files.len() ==> (#[trigger] new.files[f]).data == st.files[f].data
        }),
{
    assert(fs.state().has(dir.index, name) == fs.state().dirs[dir.index].children.contains_key(name));
}

/// A walk goes from a directory to the one of a name in it, and reports its permissions. It stops
/// before what is no directory, and fails where there is nothing.
pub proof fn lemma_walk_takes_one_step(fs: InMem, from: DirRef, name: Seq<char>)
    requires
        fs.wf(),
        fs.has_walking(from),
    ensures
        ({
            let children = fs.state().dirs[from.index].children;
            let r = fs.walk_spec(from, seq![name]);
            &&& !children.contains_key(name) ==> r is Err && r->Err_0 == WalkError::PathError(
                PathError::NoSuchFileOrDirectory,
            )
            &&& children.contains_key(name) && children[name] is File ==> r is Ok
                && r->Ok_0.stop_reason == WalkStopReason::StoppedAtNonDirectory && r->Ok_0.last
                == from && r->Ok_0.components.len() == 0
            &&& children.contains_key(name) && children[name] is Dir ==> r is Ok
                && r->Ok_0.stop_reason == WalkStopReason::CompleteDirectory && r->Ok_0.last.index
                == children[name]->Dir_0 && r->Ok_0.components == seq![
                WalkedComponent {
                    permissions: PermissionCheck::ByResolver(
                        fs.state().dirs[children[name]->Dir_0 as int].perms,
                    ),
                },
            ]
        }),
        fs.root_spec().index == 0,
        fs.walk_spec(from, Seq::empty()) is Ok,
        fs.walk_spec(from, Seq::empty())->Ok_0.last == from,
{
    reveal_with_fuel(crate::fs::in_mem::mem_walk, 3);
    assert(fs.state().has(from.index, name) == fs.state().dirs[from.index].children.contains_key(
        name,
    ));
    assert(seq![name].drop_first() =~= Seq::empty());
    if fs.state().has(from.index, name) && fs.state().node(from.index, name) is Dir {
        let k = fs.state().node(from.index, name)->Dir_0;
        let c = WalkedComponent {
            permissions: PermissionCheck::ByResolver(fs.state().dirs[k as int].perms),
        };
        assert(Seq::<WalkedComponent>::empty().push(c) =~= seq![c]);
    }
}

/// A longer walk is a walk of its first component, and then of the others from there.
pub proof fn lemma_walk_goes_on(fs: InMem, from: DirRef, components: Seq<Seq<char>>)
    requires
        fs.wf(),
        fs.has_walking(from),
        components.len() > 0,
    ensures
        ({
            let children = fs.state().dirs[from.index].children;
            let r = fs.walk_spec(from, components);
            &&& children.contains_key(components[0]) && children[components[0]] is Dir ==> exists|
                next: DirRef,
            | #[trigger]
                fs.has_walking(next) && next.index == children[components[0]]->Dir_0 && match (
                    r,
                    fs.walk_spec(next, components.drop_first()),
                ) {
                    (Ok(a), Ok(b)) => a.last == b.last && a.stop_reason == b.stop_reason
                        && a.components.len() == b.components.len() + 1,
                    (Err(a), Err(b)) => a == b,
                    _ => false,
                }
            &&& !children.contains_key(components[0]) ==> r is Err && r->Err_0
                == WalkError::PathError(PathError::NoSuchFileOrDirectory)
        }),
{
    let st = fs.state();
    assert(st.has(from.index, components[0]) == st.dirs[from.index].children.contains_key(
        components[0],
    ));
    if st.has(from.index, components[0]) && st.node(from.index, components[0]) is Dir {
        let k = st.node(from.index, components[0])->Dir_0;
        let next = DirRef { index: k as int, flags: crate::fs::in_mem::path_flags() };
        let c = WalkedComponent {
            permissions: PermissionCheck::ByResolver(st.dirs[k as int].perms),
        };
        assert(fs.has_walking(next));
        lemma_walk_prefix(st, next, components.drop_first(), Seq::empty().push(c));
    }
}

/// A path leads to a directory exactly if a walk along all of it ends there.
pub proof fn lemma_resolved_is_walked(
    st: InMemState,
    at: DirRef,
    components: Seq<Seq<char>>,
    walked: Seq<WalkedComponent>,
)
    ensures
        ({
            let walk = crate::fs::in_mem::mem_walk(st, at, components, walked);
            let is_complete = walk is Ok && walk->Ok_0.stop_reason
                == WalkStopReason::CompleteDirectory;
            match resolve_dir(st, at.index, components) {
                Some(d) => is_complete && walk->Ok_0.last.index == d,
                None => !is_complete,
            }
        }),
    decreases components.len(),
{
    if components.len() > 0 && st.has(at.index, components[0]) {
        if let Child::Dir(k) = st.node(at.index, components[0]) {
            lemma_resolved_is_walked(
                st,
                DirRef { index: k as int, flags: crate::fs::in_mem::path_flags() },
                components.drop_first(),
                walked.push(
                    WalkedComponent {
                        permissions: PermissionCheck::ByResolver(st.dirs[k as int].perms),
                    },
                ),
            );
        }
    }
}

/// What was walked before does not change where a walk goes.
pub(crate) proof fn lemma_walk_prefix(
    st: InMemState,
    at: DirRef,
    components: Seq<Seq<char>>,
    walked: Seq<WalkedComponent>,
)
    ensures
        match (
            crate::fs::in_mem::mem_walk(st, at, components, walked),
            crate::fs::in_mem::mem_walk(st, at, components, Seq::empty()),
        ) {
            (Ok(a), Ok(b)) => a.last == b.last && a.stop_reason == b.stop_reason && a.components
                == walked + b.components,
            (Err(a), Err(b)) => a == b,
            _ => false,
        },
    decreases components.len(),
{
    if components.len() == 0 {
        assert(walked + Seq::<WalkedComponent>::empty() =~= walked);
    } else if st.has(at.index, components[0]) {
        match st.node(at.index, components[0]) {
            Child::File(_) => {
                assert(walked + Seq::<WalkedComponent>::empty() =~= walked);
            },
            Child::Dir(k) => {
                let next = DirRef { index: k as int, flags: crate::fs::in_mem::path_flags() };
                let c = WalkedComponent {
                    permissions: PermissionCheck::ByResolver(st.dirs[k as int].perms),
                };
                lemma_walk_prefix(st, next, components.drop_first(), walked.push(c));
                lemma_walk_prefix(st, next, components.drop_first(), Seq::empty().push(c));
                if let Ok(b) = crate::fs::in_mem::mem_walk(
                    st,
                    next,
                    components.drop_first(),
                    Seq::empty(),
                ) {
                    assert(walked.push(c) + b.components =~= walked + (
                    Seq::<WalkedComponent>::empty().push(c) + b.components));
                }
            },
        }
    }
}

/// A fresh backend has a root directory that root owns and everybody can read, and nothing in it.
pub proof fn lemma_fresh_backend(device: usize, upcoming: usize)
    ensures
        ({
            let st = fresh_state(device, upcoming);
            &&& st.dirs.len() == 1
            &&& st.files.len() == 0
            &&& st.dirs[0].children =~= Map::<Seq<char>, Child>::empty()
            &&& st.dirs[0].perms.mode.bits == 0o755
            &&& st.dirs[0].perms.owner == (UserInfo { user: 0, group: 0 })
            &&& st.dirs[0].node_info.dev == device
            &&& st.dirs[0].node_info.ino == upcoming
            &&& st.user == (UserInfo { user: 1000, group: 1000 })
        }),
{
}

/// An initial file is found under its path with its contents, mode and owner, and an initial
/// directory with its mode and owner. No other entry and no other file changes.
pub proof fn lemma_initial_node_is_found(
    st: InMemState,
    components: Seq<Seq<char>>,
    node: InitialNode,
    d: int,
)
    requires
        st.valid(),
        st.files.len() < usize::MAX,
        st.dirs.len() < usize::MAX,
        components.len() > 0,
        can_initialize(st, components, node),
        resolve_dir(st, 0, components.drop_last()) == Some(d),
        0 <= d < st.dirs.len(),
    ensures
        ({
            let new = initialized(st, components, node);
            let name = components.last();
            &&& new.dirs[d].children.contains_key(name)
            &&& match node {
                InitialNode::File { mode, owner, data } => {
                    &&& new.dirs[d].children[name] is File
                    &&& new.files[new.dirs[d].children[name]->File_0 as int].data == data@
                    &&& new.files[new.dirs[d].children[name]->File_0 as int].perms.mode == mode
                    &&& new.files[new.dirs[d].children[name]->File_0 as int].perms.owner == owner
                },
                InitialNode::Directory { mode, owner } => {
                    &&& new.dirs[d].children[name] is Dir
                    &&& new.dirs[new.dirs[d].children[name]->Dir_0 as int].perms.mode == mode
                    &&& new.dirs[new.dirs[d].children[name]->Dir_0 as int].perms.owner == owner
                },
            }
            &&& forall|other: Seq<char>|
                other != name ==> #[trigger] new.dirs[d].children.contains_key(other)
                    == st.dirs[d].children.contains_key(other)
            &&& forall|f: int|
                0 <= f < st.files.len() && !(st.dirs[d].children.contains_key(name)
                    && st.dirs[d].children[name] == Child::File(f as usize)) ==> #[trigger]
                new.files[f] == st.files[f]
        }),
{
    assert(st.has(d, components.last()) == st.dirs[d].children.contains_key(components.last()));
}

/// A walk ends at a directory that can be taken over with its flags, and walks can go on from there
/// in the same directory. They start at the root, which is directory 0.
pub proof fn lemma_directories_are_taken_over(fs: InMem, dir: DirRef, flags: OFlags)
    ensures
        fs.own_dir_spec(dir, flags) is Ok,
        fs.own_dir_spec(dir, flags)->Ok_0.index == dir.index,
        fs.own_dir_spec(dir, flags)->Ok_0.flags == flags,
        fs.walking_dir_spec(dir) is Some,
        fs.walking_dir_spec(dir)->Some_0.index == dir.index,
        fs.root_spec().index == 0,
{
}

} // verus!
