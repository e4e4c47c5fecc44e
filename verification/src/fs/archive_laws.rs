//! What holds of the files of an archive.
use crate::fs::backend::{
    Backend, PermissionCheck, Permissioned, SeekBehavior, WalkStopReason, WalkedComponent,
};
use crate::fs::errors::{
    ChmodError, ChownError, MkdirError, OpenError, PathError, ReadDirError, ReadError, RmdirError,
    TruncateError, UnlinkError, WalkError, WriteError,
};
use crate::fs::in_mem::{resolve_dir, DirRef};
use crate::fs::laws::lemma_walk_prefix;
use crate::fs::names::Child;
use crate::fs::tar_ro::{
    file_path, is_index_of, is_tar_shaped, lemma_files_are_found, lies_below, named, normalized,
    octal_from, TarEntryView, TarRo, TarRoFileHandle,
};
use crate::fs::{EntryView, Mode, OFlags};
use vstd::prelude::*;

verus! {

/// Reading fills the start of the buffer with the bytes of the file in the archive from the offset
/// on: byte `i` of the buffer is byte `offset + i` of the file. The buffer is filled as far as the
/// file reaches, and the rest of it stays.
pub proof fn lemma_archived_bytes_are_read(
    fs: TarRo,
    files: Seq<TarEntryView>,
    device: usize,
    first: usize,
    h: TarRoFileHandle,
    before: Seq<u8>,
    offset: usize,
    after: Seq<u8>,
    r: Result<usize, ReadError>,
)
    requires
        is_index_of(fs.tree(), fs.dir_paths(), files, device, first),
        fs.has_file(h),
        fs.reads(h, before, offset, after, r),
    ensures
        r is Ok,
        0 <= h.index() < files.len(),
        ({
            let data = files[h.index()].data;
            let n = r->Ok_0;
            &&& after.len() == before.len()
            &&& n <= before.len()
            &&& n == before.len() || offset + n >= data.len()
            &&& offset >= data.len() ==> n == 0
            &&& offset < data.len() ==> offset + n <= data.len()
            &&& forall|i: int| 0 <= i < n ==> #[trigger] after[i] == data[offset + i]
            &&& forall|i: int| n <= i < before.len() ==> #[trigger] after[i] == before[i]
        }),
{
    assert(fs.tree().files[h.index()].data == files[h.index()].data);
}

/// A file of the archive is found under its path, can be opened for reading, and reads as the bytes
/// that the archive has for it, unless another file has the same path, or a file is in the place of
/// a directory.
pub proof fn lemma_archived_file_is_found(
    fs: TarRo,
    files: Seq<TarEntryView>,
    device: usize,
    first: usize,
    f: int,
    dir: DirRef,
    flags: OFlags,
    opened: TarRo,
    o: Result<Permissioned<TarRoFileHandle>, OpenError>,
    before: Seq<u8>,
    offset: usize,
    after: Seq<u8>,
    r: Result<usize, ReadError>,
)
    requires
        is_index_of(fs.tree(), fs.dir_paths(), files, device, first),
        0 <= f < files.len(),
        files.len() <= usize::MAX,
        file_path(files[f]).len() > 0,
        forall|g: int|
            0 <= g < files.len() && g != f ==> !lies_below(
                file_path(#[trigger] files[g]),
                file_path(files[f]),
            ) && file_path(files[g]) != file_path(files[f]) && !lies_below(
                file_path(files[f]),
                file_path(files[g]),
            ),
        resolve_dir(fs.tree(), 0, file_path(files[f]).drop_last()) == Some(dir.index),
        flags.bits & 0x1 == 0,
        flags.bits & 0x2 == 0,
        flags.bits & 0x40 == 0,
        flags.bits & 0x200 == 0,
        flags.bits & 0x10000 == 0,
        fs.opens(dir, file_path(files[f]).last(), flags, &opened, o),
        o is Ok ==> opened.reads(o->Ok_0.item, before, offset, after, r),
    ensures
        o is Ok,
        r is Ok,
        forall|i: int|
            0 <= i < before.len() && offset + i < files[f].data.len() ==> #[trigger] after[i]
                == files[f].data[offset + i],
        r->Ok_0 == before.len() || offset + r->Ok_0 >= files[f].data.len(),
{
    lemma_files_are_found(fs.tree(), fs.dir_paths(), files, device, first, f);
    lemma_open_for_reading(fs, dir, file_path(files[f]).last(), flags, opened, o, f);
    lemma_archived_bytes_are_read(
        fs,
        files,
        device,
        first,
        o->Ok_0.item,
        before,
        offset,
        after,
        r,
    );
}

/// A file that is there can be opened for reading.
proof fn lemma_open_for_reading(
    fs: TarRo,
    dir: DirRef,
    name: Seq<char>,
    flags: OFlags,
    opened: TarRo,
    o: Result<Permissioned<TarRoFileHandle>, OpenError>,
    f: int,
)
    requires
        fs.tree().has(dir.index, name),
        fs.tree().node(dir.index, name) == Child::File(f as usize),
        0 <= f <= usize::MAX,
        flags.bits & 0x1 == 0,
        flags.bits & 0x2 == 0,
        flags.bits & 0x40 == 0,
        flags.bits & 0x200 == 0,
        flags.bits & 0x10000 == 0,
        fs.opens(dir, name, flags, &opened, o),
    ensures
        o is Ok,
        o->Ok_0.item.index() == f,
        opened == fs,
{
}

/// A file of the archive is told to be a regular file with the size, the nine permission bits, the
/// user and the group that the archive gives for it, and opening it hands out these permissions.
pub proof fn lemma_archived_status(
    fs: TarRo,
    files: Seq<TarEntryView>,
    device: usize,
    first: usize,
    h: TarRoFileHandle,
)
    requires
        is_index_of(fs.tree(), fs.dir_paths(), files, device, first),
        fs.has_file(h),
        files[h.index()].data.len() <= usize::MAX,
        fs.tree().files.len() <= usize::MAX,
    ensures
        fs.file_status_spec(h) is Ok,
        ({
            let status = fs.file_status_spec(h)->Ok_0;
            let file = files[h.index()];
            &&& status.file_type is RegularFile
            &&& status.size == file.data.len()
            &&& status.mode.bits == (file.mode->Some_0 & 0o777)
            &&& status.owner.user == file.uid->Some_0
            &&& status.owner.group == file.gid->Some_0
            &&& status.node_info.dev == device
            &&& status.blksize == 0
        }),
        fs.seek_spec(h) == SeekBehavior::PositionBased,
{
    let file = files[h.index()];
    assert(fs.tree().files[h.index()].data == file.data);
    let mode = file.mode->Some_0;
    assert(mode & 0o777 <= 0o777) by (bit_vector);
}

/// A directory of the archive is told to be a directory that everyone may use, and belongs to the
/// owner of some file below it, or to 1000 where there is none.
pub proof fn lemma_archived_directory_status(
    fs: TarRo,
    files: Seq<TarEntryView>,
    device: usize,
    first: usize,
    dir: DirRef,
)
    requires
        is_index_of(fs.tree(), fs.dir_paths(), files, device, first),
        fs.has_dir(dir),
        fs.tree().dirs.len() <= usize::MAX,
    ensures
        fs.dir_status_spec(dir) is Ok,
        ({
            let status = fs.dir_status_spec(dir)->Ok_0;
            let path = fs.dir_paths()[dir.index];
            &&& status.file_type is Directory
            &&& status.mode.bits == 0o777
            &&& status.size == 4096
            &&& status.node_info.dev == device
            &&& (exists|f: int|
                0 <= f < files.len() && lies_below(file_path(#[trigger] files[f]), path)
                    && status.owner.user == files[f].uid->Some_0 && status.owner.group
                    == files[f].gid->Some_0) || (status.owner.user == 1000 && status.owner.group
                == 1000 && forall|f: int|
                0 <= f < files.len() ==> !lies_below(file_path(#[trigger] files[f]), path))
        }),
{
    let path = fs.dir_paths()[dir.index];
    assert(fs.tree().dirs[dir.index].perms.mode.bits == 0o777);
}

/// The listing of a directory has an entry for each file in it and for each directory on the way to
/// a file, once, and no other.
pub proof fn lemma_archived_listing(
    fs: TarRo,
    files: Seq<TarEntryView>,
    device: usize,
    first: usize,
    dir: DirRef,
    r: Result<Seq<EntryView>, ReadDirError>,
    name: Seq<char>,
)
    requires
        is_index_of(fs.tree(), fs.dir_paths(), files, device, first),
        fs.has_dir(dir),
        fs.lists(dir, r),
    ensures
        r is Ok,
        (exists|i: int| 0 <= i < r->Ok_0.len() && (#[trigger] r->Ok_0[i]).name == name) <==> (
        exists|f: int| 0 <= f < files.len() && {
            let path = file_path(#[trigger] files[f]);
            let at = fs.dir_paths()[dir.index];
            at.len() < path.len() && path.take(at.len() as int) == at && path[at.len() as int]
                == name
        }),
        forall|i: int, j: int|
            0 <= i < j < r->Ok_0.len() ==> (#[trigger] r->Ok_0[i]).name != (
            #[trigger] r->Ok_0[j]).name,
        forall|i: int|
            0 <= i < r->Ok_0.len() && (#[trigger] r->Ok_0[i]).name == name
                && r->Ok_0[i].file_type is RegularFile ==> exists|f: int|
                0 <= f < files.len() && file_path(#[trigger] files[f])
                    == fs.dir_paths()[dir.index].push(name),
        forall|i: int|
            0 <= i < r->Ok_0.len() && (#[trigger] r->Ok_0[i]).name == name
                && r->Ok_0[i].file_type is Directory ==> fs.dir_paths().contains(
                fs.dir_paths()[dir.index].push(name),
            ),
{
    let entries = r->Ok_0;
    let at = fs.dir_paths()[dir.index];
    if exists|i: int| 0 <= i < entries.len() && (#[trigger] entries[i]).name == name {
        let i = choose|i: int| 0 <= i < entries.len() && (#[trigger] entries[i]).name == name;
        assert(fs.tree().has(dir.index, entries[i].name));
        let f = choose|f: int|
            0 <= f < files.len() && crate::fs::tar_ro::leads_through(
                file_path(#[trigger] files[f]),
                at,
                name,
            );
        assert(file_path(files[f])[at.len() as int] == name);
    }
    if exists|f: int| 0 <= f < files.len() && {
        let path = file_path(#[trigger] files[f]);
        at.len() < path.len() && path.take(at.len() as int) == at && path[at.len() as int] == name
    } {
        let f = choose|f: int| 0 <= f < files.len() && {
            let path = file_path(#[trigger] files[f]);
            at.len() < path.len() && path.take(at.len() as int) == at && path[at.len() as int]
                == name
        };
        assert(crate::fs::tar_ro::leads_through(file_path(files[f]), at, name));
        assert(fs.tree().has(dir.index, name));
    }
    assert forall|i: int|
        0 <= i < entries.len() && (#[trigger] entries[i]).name == name
            && entries[i].file_type is RegularFile implies exists|f: int|
        0 <= f < files.len() && file_path(#[trigger] files[f]) == at.push(name) by {
        assert(fs.tree().has(dir.index, entries[i].name));
        assert(entries[i] == fs.tree().entry(dir.index, name));
        match fs.tree().node(dir.index, name) {
            Child::File(f) => {
                assert(file_path(files[f as int]) == at.push(name));
            },
            Child::Dir(k) => {},
        }
    }
    assert forall|i: int|
        0 <= i < entries.len() && (#[trigger] entries[i]).name == name
            && entries[i].file_type is Directory implies fs.dir_paths().contains(
        at.push(name),
    ) by {
        assert(fs.tree().has(dir.index, entries[i].name));
        assert(entries[i] == fs.tree().entry(dir.index, name));
        match fs.tree().node(dir.index, name) {
            Child::File(f) => {},
            Child::Dir(k) => {
                assert(fs.dir_paths()[k as int] == at.push(name));
            },
        }
    }
}

/// A file of an archive cannot be opened for anything but reading: not to write (0x1, 0x2), not to
/// truncate it (0x200), and not to create it (0x40) where it is there, unless creation must be new
/// (0x80). A name that is not there is reported so.
pub proof fn lemma_archived_files_are_for_reading(
    fs: TarRo,
    dir: DirRef,
    name: Seq<char>,
    flags: OFlags,
    after: TarRo,
    r: Result<Permissioned<TarRoFileHandle>, OpenError>,
)
    requires
        fs.has_walking(dir),
        fs.opens(dir, name, flags, &after, r),
    ensures
        after == fs,
        !fs.tree().dirs[dir.index].children.contains_key(name) ==> r is Err && r->Err_0
            == OpenError::PathError(PathError::NoSuchFileOrDirectory),
        r is Ok ==> fs.tree().dirs[dir.index].children[name] == Child::File(
            r->Ok_0.item.index() as usize,
        ),
        r is Ok ==> r->Ok_0.permissions == PermissionCheck::ByResolver(
            fs.tree().files[r->Ok_0.item.index()].perms,
        ),
        flags.bits & 0x40 == 0 && (flags.bits & 0x1 == 0x1 || flags.bits & 0x2 == 0x2 || flags.bits
            & 0x200 == 0x200) ==> r is Err,
        flags.bits & 0x40 == 0x40 && flags.bits & 0x80 == 0 ==> r is Err,
{
}

/// Whatever is done to an archive is refused, and nothing changes: nothing is created, removed,
/// written or given other permissions.
pub proof fn lemma_archives_never_change(
    fs: TarRo,
    h: TarRoFileHandle,
    dir: DirRef,
    name: Seq<char>,
    data: Seq<u8>,
    offset: usize,
    mode: Mode,
    user: Option<u16>,
    group: Option<u16>,
    after: TarRo,
)
    ensures
        forall|r: Result<usize, WriteError>| #[trigger]
            fs.writes(h, data, offset, &after, r) ==> after == fs && r
                == Err::<usize, WriteError>(WriteError::NotForWriting),
        forall|r: Result<(), TruncateError>| #[trigger]
            fs.truncates(h, offset, &after, r) ==> after == fs && r == Err::<(), TruncateError>(
                TruncateError::NotForWriting,
            ),
        forall|r: Result<TarRoFileHandle, OpenError>| #[trigger]
            fs.creates(dir, name, mode, &after, r) ==> after == fs && r is Err && r->Err_0
                == OpenError::ReadOnlyFileSystem,
        forall|r: Result<DirRef, MkdirError>| #[trigger]
            fs.makes_dir(dir, name, mode, &after, r) ==> after == fs && r is Err && r->Err_0
                == MkdirError::ReadOnlyFileSystem,
        forall|r: Result<(), UnlinkError>| #[trigger]
            fs.unlinks(dir, name, &after, r) ==> after == fs && r is Err,
        forall|r: Result<(), RmdirError>| #[trigger]
            fs.removes_dir(dir, name, &after, r) ==> after == fs && r is Err,
        forall|r: Result<(), ChmodError>| #[trigger]
            fs.chmods(dir, name, mode, &after, r) ==> after == fs && r is Err,
        forall|r: Result<(), ChownError>| #[trigger]
            fs.chowns(dir, name, user, group, &after, r) ==> after == fs && r is Err,
{
}

/// What is refused to a name of an archive depends on what the name stands for: what is not there is
/// reported as missing, a directory cannot be unlinked, a file is no directory to be removed.
pub proof fn lemma_refusals_of_archives(
    fs: TarRo,
    dir: DirRef,
    name: Seq<char>,
    after: TarRo,
    u: Result<(), UnlinkError>,
    d: Result<(), RmdirError>,
)
    requires
        fs.has_dir(dir),
        fs.unlinks(dir, name, &after, u),
        fs.removes_dir(dir, name, &after, d),
    ensures
        ({
            let children = fs.tree().dirs[dir.index].children;
            if !children.contains_key(name) {
                &&& u->Err_0 == UnlinkError::PathError(PathError::NoSuchFileOrDirectory)
                &&& d->Err_0 == RmdirError::PathError(PathError::NoSuchFileOrDirectory)
            } else if children[name] is Dir {
                &&& u->Err_0 == UnlinkError::IsADirectory
                &&& d->Err_0 == RmdirError::ReadOnlyFileSystem
            } else {
                &&& u->Err_0 == UnlinkError::ReadOnlyFileSystem
                &&& d->Err_0 == RmdirError::NotADirectory
            }
        }),
{
}

/// Every entry of an archive that has a name is a file, and no other is.
pub proof fn lemma_named_entries_are_files(entries: Seq<TarEntryView>, e: TarEntryView)
    ensures
        named(entries).contains(e) <==> entries.contains(e) && e.name is Some,
    decreases entries.len(),
{
    reveal(Seq::filter);
    if entries.len() > 0 {
        let head = entries.drop_last();
        let fewer = named(head);
        let all = named(entries);
        lemma_named_entries_are_files(head, e);
        if entries.contains(e) {
            let k = choose|k: int| 0 <= k < entries.len() && entries[k] == e;
            if k < head.len() {
                assert(head[k] == e);
            }
        }
        if head.contains(e) {
            let k = choose|k: int| 0 <= k < head.len() && head[k] == e;
            assert(entries[k] == e);
        }
        if all.contains(e) {
            let k = choose|k: int| 0 <= k < all.len() && all[k] == e;
            if k < fewer.len() {
                assert(fewer[k] == e);
            } else {
                assert(entries[entries.len() - 1] == e);
            }
        }
        if fewer.contains(e) {
            let k = choose|k: int| 0 <= k < fewer.len() && fewer[k] == e;
            assert(all[k] == e);
        }
        if entries.last().name is Some {
            assert(all[all.len() - 1] == entries.last());
        }
    }
}

/// A leading `./` makes no difference to the name of a file, and nothing else is left out of it.
pub proof fn lemma_leading_dot_is_left_out(name: Seq<char>)
    ensures
        normalized(seq!['.', '/'] + name) == name,
        name.len() < 2 || name[0] != '.' || name[1] != '/' ==> normalized(name) == name,
{
    let dotted = seq!['.', '/'] + name;
    assert(dotted[0] == '.' && dotted[1] == '/');
    assert(dotted.skip(2) =~= name);
}

/// An archive is made of whole blocks of 512 bytes, three at least.
pub proof fn lemma_archives_are_whole_blocks(data: Seq<u8>)
    ensures
        is_tar_shaped(data) ==> data.len() % 512 == 0 && data.len() >= 1536,
        data.len() % 512 == 0 && data.len() >= 1536 && data.len() + 0x10_0000_0000 <= usize::MAX
            ==> is_tar_shaped(data),
{
}

/// Digits write a number in octal: one digit more makes it eight times as large, and adds the digit.
pub proof fn lemma_octal_digits(n: nat, s: Seq<u8>, d: u8)
    requires
        forall|i: int| 0 <= i < s.len() ==> 0x30 <= #[trigger] s[i] <= 0x37,
        0x30 <= d <= 0x37,
    ensures
        octal_from(n, s.push(d)) == 8 * octal_from(n, s) + (d - 0x30),
        octal_from(n, Seq::empty()) == n,
    decreases s.len(),
{
    let all = s.push(d);
    if s.len() == 0 {
        assert(all.skip(1).len() == 0);
        assert(octal_from((8 * n + (d - 0x30)) as nat, all.skip(1)) == 8 * n + (d - 0x30));
    } else {
        assert(all[0] == s[0]);
        assert(all.skip(1) =~= s.skip(1).push(d));
        assert forall|i: int| 0 <= i < s.skip(1).len() implies 0x30 <= #[trigger] s.skip(1)[i]
            <= 0x37 by {
            assert(s.skip(1)[i] == s[i + 1]);
        }
        lemma_octal_digits((8 * n + (s[0] - 0x30)) as nat, s.skip(1), d);
    }
}

/// What follows the first byte that is no digit is not part of the number.
pub proof fn lemma_octal_ends(n: nat, s: Seq<u8>, c: u8, rest: Seq<u8>)
    requires
        forall|i: int| 0 <= i < s.len() ==> 0x30 <= #[trigger] s[i] <= 0x37,
        c < 0x30 || c > 0x37,
    ensures
        octal_from(n, s.push(c) + rest) == octal_from(n, s),
    decreases s.len(),
{
    let all = s.push(c) + rest;
    if s.len() == 0 {
        assert(all[0] == c);
    } else {
        assert(all[0] == s[0]);
        assert(all.skip(1) =~= s.skip(1).push(c) + rest);
        assert forall|i: int| 0 <= i < s.skip(1).len() implies 0x30 <= #[trigger] s.skip(1)[i]
            <= 0x37 by {
            assert(s.skip(1)[i] == s[i + 1]);
        }
        lemma_octal_ends((8 * n + (s[0] - 0x30)) as nat, s.skip(1), c, rest);
    }
}

/// A directory of an archive can be taken over, unless it is to be written (0x1, 0x2), truncated
/// (0x200) or created (0x40), and walks can go on from there in the same directory. They start at
/// the root, which is directory 0.
pub proof fn lemma_archived_directories_are_taken_over(fs: TarRo, dir: DirRef, flags: OFlags)
    ensures
        flags.bits & 0x243 == 0 ==> fs.own_dir_spec(dir, flags) is Ok && fs.own_dir_spec(
            dir,
            flags,
        )->Ok_0.index == dir.index,
        flags.bits & 0x243 != 0 ==> fs.own_dir_spec(dir, flags) == Err::<DirRef, OpenError>(
            OpenError::ReadOnlyFileSystem,
        ),
        fs.walking_dir_spec(dir) is Some,
        fs.walking_dir_spec(dir)->Some_0.index == dir.index,
        fs.root_spec().index == 0,
{
    assert(0x40u32 | 0x200 | 0x1 | 0x2 == 0x243) by (bit_vector);
}

/// A walk in an archive goes from a directory to the one of a name in it, and reports its
/// permissions. It stops before what is no directory, and fails where there is nothing.
pub proof fn lemma_archived_walk_takes_one_step(fs: TarRo, from: DirRef, name: Seq<char>)
    requires
        fs.wf(),
        fs.has_walking(from),
    ensures
        ({
            let children = fs.tree().dirs[from.index].children;
            let r = fs.walk_spec(from, seq![name]);
            &&& !children.contains_key(name) ==> r is Err && r->Err_0 == WalkError::PathError(
                PathError::NoSuchFileOrDirectory,
            )
            &&& children.contains_key(name) && children[name] is File ==> r is Ok
                && r->Ok_0.stop_reason == WalkStopReason::StoppedAtNonDirectory && r->Ok_0.last
                == from && r->Ok_0.components.len() == 0
            &&& children.contains_key(name) && children[name] is Dir ==> r is Ok
                && r->Ok_0.stop_reason == WalkStopReason::CompleteDirectory && r->Ok_0.last.index
                == children[name]->Dir_0 && r->Ok_0.components == seq![
                WalkedComponent {
                    permissions: PermissionCheck::ByResolver(
                        fs.tree().dirs[children[name]->Dir_0 as int].perms,
                    ),
                },
            ]
        }),
        fs.root_spec().index == 0,
        fs.walk_spec(from, Seq::empty()) is Ok,
        fs.walk_spec(from, Seq::empty())->Ok_0.last == from,
{
    reveal_with_fuel(crate::fs::in_mem::mem_walk, 3);
    assert(fs.tree().has(from.index, name) == fs.tree().dirs[from.index].children.contains_key(
        name,
    ));
    assert(seq![name].drop_first() =~= Seq::empty());
    if fs.tree().has(from.index, name) && fs.tree().node(from.index, name) is Dir {
        let k = fs.tree().node(from.index, name)->Dir_0;
        let c = WalkedComponent {
            permissions: PermissionCheck::ByResolver(fs.tree().dirs[k as int].perms),
        };
        assert(Seq::<WalkedComponent>::empty().push(c) =~= seq![c]);
    }
}

/// A longer walk in an archive is a walk of its first component, and then of the others from there.
pub proof fn lemma_archived_walk_goes_on(fs: TarRo, from: DirRef, components: Seq<Seq<char>>)
    requires
        fs.wf(),
        fs.has_walking(from),
        components.len() > 0,
    ensures
        ({
            let children = fs.tree().dirs[from.index].children;
            let r = fs.walk_spec(from, components);
            &&& children.contains_key(components[0]) && children[components[0]] is Dir ==> exists|
                next: DirRef,
            | #[trigger]
                fs.has_walking(next) && next.index == children[components[0]]->Dir_0 && match (
                    r,
                    fs.walk_spec(next, components.drop_first()),
                ) {
                    (Ok(a), Ok(b)) => a.last == b.last && a.stop_reason == b.stop_reason
                        && a.components.len() == b.components.len() + 1,
                    (Err(a), Err(b)) => a == b,
                    _ => false,
                }
            &&& !children.contains_key(components[0]) ==> r is Err && r->Err_0
                == WalkError::PathError(PathError::NoSuchFileOrDirectory)
        }),
{
    let st = fs.tree();
    assert(st.has(from.index, components[0]) == st.dirs[from.index].children.contains_key(
        components[0],
    ));
    if st.has(from.index, components[0]) && st.node(from.index, components[0]) is Dir {
        let k = st.node(from.index, components[0])->Dir_0;
        let next = DirRef { index: k as int, flags: crate::fs::in_mem::path_flags() };
        let c = WalkedComponent {
            permissions: PermissionCheck::ByResolver(st.dirs[k as int].perms),
        };
        assert(fs.has_walking(next));
        lemma_walk_prefix(st, next, components.drop_first(), Seq::empty().push(c));
    }
}

} // verus!
