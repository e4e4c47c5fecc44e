//! What holds of backends that are composed, whichever they are.
use crate::fs::backend::{Backend, Permissioned, WalkStopReason, WalkedComponent};
use crate::fs::composer;
use crate::fs::composer::{
    build_result, composed_walk, is_ancestor, lemma_merged_entries, lemma_mount_at,
    lemma_mount_children, lemma_unrelated, mount_at, mount_children, relation_of, BuildError,
    ComposedDir, Composer, ComposerBuilder, ComposerFileHandle, MountRelation,
};
use crate::fs::either::Either;
use crate::fs::errors::{
    ChmodError, ChownError, MkdirError, OpenError, PathError, ReadDirError, ReadError, RmdirError,
    TruncateError, UnlinkError, WalkError, WriteError,
};
use crate::fs::in_mem::{DirRef, InMem};
use crate::fs::laws;
use crate::fs::{EntryView, FileType, Mode, OFlags};
use vstd::prelude::*;

verus! {

/// A name belongs to the directory that it is looked up in exactly if no mount point is there or
/// below it.
proof fn lemma_own_names(mounts: Seq<Seq<Seq<char>>>, path: Seq<Seq<char>>, name: Seq<char>)
    ensures
        relation_of(mounts, path.push(name)) == MountRelation::Unrelated <==> forall|m: int|
            0 <= m < mounts.len() ==> #[trigger] mounts[m] != path.push(name) && !(mounts[m].len()
                > path.len() + 1 && mounts[m].take(path.len() as int + 1) == path.push(name)),
{
    lemma_unrelated(mounts, path.push(name));
    assert(path.push(name).len() == path.len() + 1);
    assert forall|m: int| 0 <= m < mounts.len() implies is_ancestor(
        path.push(name),
        #[trigger] mounts[m],
    ) == (mounts[m].len() > path.len() + 1 && mounts[m].take(path.len() as int + 1) == path.push(
        name,
    )) by {}
}

/// Unlinking a name in a directory of a mounted backend has the result of unlinking it in that
/// backend, and leaves that backend as doing so does. All other backends stay. A name that is a mount
/// point or leads to one cannot be unlinked, and neither can one in a virtual directory.
pub proof fn lemma_composed_unlink<B: Backend>(
    c: Composer<B>,
    path: Seq<Seq<char>>,
    i: int,
    handle: B::DirV,
    name: Seq<char>,
    after: Composer<B>,
    r: Result<(), UnlinkError>,
)
    requires
        0 <= i < c.backends().len(),
        c.unlinks(
            ComposedDir::Mounted { path, mount_index: i, handle },
            name,
            &after,
            r,
        ),
    ensures
        (forall|m: int|
            0 <= m < c.paths().len() ==> #[trigger] c.paths()[m] != path.push(name) && !(
            c.paths()[m].len() > path.len() + 1 && c.paths()[m].take(path.len() as int + 1)
                == path.push(name))) ==> c.backends()[i].unlinks(handle, name, &after.backends()[i], r),
        (exists|m: int|
            0 <= m < c.paths().len() && (#[trigger] c.paths()[m] == path.push(name) || (
            c.paths()[m].len() > path.len() + 1 && c.paths()[m].take(path.len() as int + 1)
                == path.push(name)))) ==> r == Err::<(), UnlinkError>(UnlinkError::ReadOnlyFileSystem) && after.backends() == c.backends(),
        after.paths() == c.paths(),
        after.backends().len() == c.backends().len(),
        forall|j: int|
            0 <= j < c.backends().len() && j != i ==> #[trigger] after.backends()[j]
                == c.backends()[j],
{
    lemma_own_names(c.paths(), path, name);
}

/// Removing a directory from one of a mounted backend has the result of removing it from that
/// backend, and leaves that backend as doing so does. All other backends stay. A directory that is a
/// mount point or leads to one cannot be removed.
pub proof fn lemma_composed_rmdir<B: Backend>(
    c: Composer<B>,
    path: Seq<Seq<char>>,
    i: int,
    handle: B::DirV,
    name: Seq<char>,
    after: Composer<B>,
    r: Result<(), RmdirError>,
)
    requires
        0 <= i < c.backends().len(),
        c.removes_dir(
            ComposedDir::Mounted { path, mount_index: i, handle },
            name,
            &after,
            r,
        ),
    ensures
        (forall|m: int|
            0 <= m < c.paths().len() ==> #[trigger] c.paths()[m] != path.push(name) && !(
            c.paths()[m].len() > path.len() + 1 && c.paths()[m].take(path.len() as int + 1)
                == path.push(name))) ==> c.backends()[i].removes_dir(handle, name, &after.backends()[i], r),
        (exists|m: int|
            0 <= m < c.paths().len() && (#[trigger] c.paths()[m] == path.push(name) || (
            c.paths()[m].len() > path.len() + 1 && c.paths()[m].take(path.len() as int + 1)
                == path.push(name)))) ==> r == Err::<(), RmdirError>(RmdirError::ReadOnlyFileSystem) && after.backends() == c.backends(),
        after.paths() == c.paths(),
        after.backends().len() == c.backends().len(),
        forall|j: int|
            0 <= j < c.backends().len() && j != i ==> #[trigger] after.backends()[j]
                == c.backends()[j],
{
    lemma_own_names(c.paths(), path, name);
}

/// Changing the mode of a name in a directory of a mounted backend has the result of changing it in
/// that backend, and leaves that backend as doing so does. All other backends stay.
pub proof fn lemma_composed_chmod<B: Backend>(
    c: Composer<B>,
    path: Seq<Seq<char>>,
    i: int,
    handle: B::DirV,
    name: Seq<char>,
    mode: Mode,
    after: Composer<B>,
    r: Result<(), ChmodError>,
)
    requires
        0 <= i < c.backends().len(),
        c.chmods(
            ComposedDir::Mounted { path, mount_index: i, handle },
            name,
            mode, &after,
            r,
        ),
    ensures
        (forall|m: int|
            0 <= m < c.paths().len() ==> #[trigger] c.paths()[m] != path.push(name) && !(
            c.paths()[m].len() > path.len() + 1 && c.paths()[m].take(path.len() as int + 1)
                == path.push(name))) ==> c.backends()[i].chmods(handle, name, mode, &after.backends()[i], r),
        (exists|m: int|
            0 <= m < c.paths().len() && (#[trigger] c.paths()[m] == path.push(name) || (
            c.paths()[m].len() > path.len() + 1 && c.paths()[m].take(path.len() as int + 1)
                == path.push(name)))) ==> r == Err::<(), ChmodError>(ChmodError::ReadOnlyFileSystem) && after.backends() == c.backends(),
        after.paths() == c.paths(),
        after.backends().len() == c.backends().len(),
        forall|j: int|
            0 <= j < c.backends().len() && j != i ==> #[trigger] after.backends()[j]
                == c.backends()[j],
{
    lemma_own_names(c.paths(), path, name);
}

/// Changing the owner of a name in a directory of a mounted backend has the result of changing it
/// in that backend, and leaves that backend as doing so does. All other backends stay.
pub proof fn lemma_composed_chown<B: Backend>(
    c: Composer<B>,
    path: Seq<Seq<char>>,
    i: int,
    handle: B::DirV,
    name: Seq<char>,
    user: Option<u16>,
    group: Option<u16>,
    after: Composer<B>,
    r: Result<(), ChownError>,
)
    requires
        0 <= i < c.backends().len(),
        c.chowns(
            ComposedDir::Mounted { path, mount_index: i, handle },
            name,
            user, group, &after,
            r,
        ),
    ensures
        (forall|m: int|
            0 <= m < c.paths().len() ==> #[trigger] c.paths()[m] != path.push(name) && !(
            c.paths()[m].len() > path.len() + 1 && c.paths()[m].take(path.len() as int + 1)
                == path.push(name))) ==> c.backends()[i].chowns(handle, name, user, group, &after.backends()[i], r),
        (exists|m: int|
            0 <= m < c.paths().len() && (#[trigger] c.paths()[m] == path.push(name) || (
            c.paths()[m].len() > path.len() + 1 && c.paths()[m].take(path.len() as int + 1)
                == path.push(name)))) ==> r == Err::<(), ChownError>(ChownError::ReadOnlyFileSystem) && after.backends() == c.backends(),
        after.paths() == c.paths(),
        after.backends().len() == c.backends().len(),
        forall|j: int|
            0 <= j < c.backends().len() && j != i ==> #[trigger] after.backends()[j]
                == c.backends()[j],
{
    lemma_own_names(c.paths(), path, name);
}

/// Creating a file in a directory of a mounted backend has the result of creating it in that
/// backend, and leaves that backend as doing so does. The new file belongs to it. All other backends
/// stay.
pub proof fn lemma_composed_create<B: Backend>(
    c: Composer<B>,
    path: Seq<Seq<char>>,
    i: int,
    handle: B::DirV,
    name: Seq<char>,
    mode: Mode,
    after: Composer<B>,
    r: Result<ComposerFileHandle<B::File>, OpenError>,
)
    requires
        0 <= i < c.backends().len(),
        c.creates(ComposedDir::Mounted { path, mount_index: i, handle }, name, mode, &after, r),
    ensures
        (forall|m: int|
            0 <= m < c.paths().len() ==> #[trigger] c.paths()[m] != path.push(name) && !(
            c.paths()[m].len() > path.len() + 1 && c.paths()[m].take(path.len() as int + 1)
                == path.push(name))) ==> match r {
            Ok(f) => f.index() == i && c.backends()[i].creates(
                handle,
                name,
                mode,
                &after.backends()[i],
                Ok(f.file()),
            ),
            Err(e) => c.backends()[i].creates(handle, name, mode, &after.backends()[i], Err(e)),
        },
        (exists|m: int|
            0 <= m < c.paths().len() && (#[trigger] c.paths()[m] == path.push(name) || (
            c.paths()[m].len() > path.len() + 1 && c.paths()[m].take(path.len() as int + 1)
                == path.push(name)))) ==> r is Err && r->Err_0 == OpenError::ReadOnlyFileSystem && after.backends()
            == c.backends(),
        after.paths() == c.paths(),
        after.backends().len() == c.backends().len(),
        forall|j: int|
            0 <= j < c.backends().len() && j != i ==> #[trigger] after.backends()[j]
                == c.backends()[j],
{
    lemma_own_names(c.paths(), path, name);
}

/// Making a directory in one of a mounted backend has the result of making it in that backend, and
/// leaves that backend as doing so does. The new directory belongs to it and stands below the other
/// one. All other backends stay.
pub proof fn lemma_composed_mkdir<B: Backend>(
    c: Composer<B>,
    path: Seq<Seq<char>>,
    i: int,
    handle: B::DirV,
    name: Seq<char>,
    mode: Mode,
    after: Composer<B>,
    r: Result<ComposedDir<B::DirV>, MkdirError>,
)
    requires
        0 <= i < c.backends().len(),
        c.makes_dir(ComposedDir::Mounted { path, mount_index: i, handle }, name, mode, &after, r),
    ensures
        (forall|m: int|
            0 <= m < c.paths().len() ==> #[trigger] c.paths()[m] != path.push(name) && !(
            c.paths()[m].len() > path.len() + 1 && c.paths()[m].take(path.len() as int + 1)
                == path.push(name))) ==> match r {
            Ok(d) => d is Mounted && d->mount_index == i && d->Mounted_path == path.push(name)
                && c.backends()[i].makes_dir(
                handle,
                name,
                mode,
                &after.backends()[i],
                Ok(d->handle),
            ),
            Err(e) => c.backends()[i].makes_dir(handle, name, mode, &after.backends()[i], Err(e)),
        },
        (exists|m: int|
            0 <= m < c.paths().len() && (#[trigger] c.paths()[m] == path.push(name) || (
            c.paths()[m].len() > path.len() + 1 && c.paths()[m].take(path.len() as int + 1)
                == path.push(name)))) ==> r is Err && r->Err_0 == MkdirError::ReadOnlyFileSystem && after.backends()
            == c.backends(),
        after.paths() == c.paths(),
        after.backends().len() == c.backends().len(),
        forall|j: int|
            0 <= j < c.backends().len() && j != i ==> #[trigger] after.backends()[j]
                == c.backends()[j],
{
    lemma_own_names(c.paths(), path, name);
}

/// Opening a file in a directory of a mounted backend has the result of opening it in that backend,
/// and leaves that backend as doing so does. The file belongs to it. Where a mount point is in the
/// way there is no file.
pub proof fn lemma_composed_open<B: Backend>(
    c: Composer<B>,
    path: Seq<Seq<char>>,
    i: int,
    handle: B::WalkingV,
    name: Seq<char>,
    flags: OFlags,
    after: Composer<B>,
    r: Result<Permissioned<ComposerFileHandle<B::File>>, OpenError>,
)
    requires
        0 <= i < c.backends().len(),
        c.opens(ComposedDir::Mounted { path, mount_index: i, handle }, name, flags, &after, r),
    ensures
        (forall|m: int|
            0 <= m < c.paths().len() ==> #[trigger] c.paths()[m] != path.push(name) && !(
            c.paths()[m].len() > path.len() + 1 && c.paths()[m].take(path.len() as int + 1)
                == path.push(name))) ==> match r {
            Ok(p) => p.item.index() == i && c.backends()[i].opens(
                handle,
                name,
                flags,
                &after.backends()[i],
                Ok(Permissioned { item: p.item.file(), permissions: p.permissions }),
            ),
            Err(e) => c.backends()[i].opens(handle, name, flags, &after.backends()[i], Err(e)),
        },
        (exists|m: int|
            0 <= m < c.paths().len() && (#[trigger] c.paths()[m] == path.push(name) || (
            c.paths()[m].len() > path.len() + 1 && c.paths()[m].take(path.len() as int + 1)
                == path.push(name)))) ==> r is Err && r->Err_0 == OpenError::PathError(
            PathError::NoSuchFileOrDirectory,
        ) && after.backends() == c.backends(),
        after.paths() == c.paths(),
        after.backends().len() == c.backends().len(),
        forall|j: int|
            0 <= j < c.backends().len() && j != i ==> #[trigger] after.backends()[j]
                == c.backends()[j],
{
    lemma_own_names(c.paths(), path, name);
}

/// Nothing can be created, opened, changed or removed in a virtual directory.
pub proof fn lemma_virtual_directories_are_fixed<B: Backend>(
    c: Composer<B>,
    path: Seq<Seq<char>>,
    name: Seq<char>,
    mode: Mode,
    after: Composer<B>,
    created: Result<ComposerFileHandle<B::File>, OpenError>,
    made: Result<ComposedDir<B::DirV>, MkdirError>,
    unlinked: Result<(), UnlinkError>,
    removed: Result<(), RmdirError>,
)
    ensures
        c.creates(ComposedDir::Virtual { path }, name, mode, &after, created) ==> created is Err
            && created->Err_0 == OpenError::ReadOnlyFileSystem && after.backends() == c.backends(),
        c.makes_dir(ComposedDir::Virtual { path }, name, mode, &after, made) ==> made is Err
            && made->Err_0 == MkdirError::ReadOnlyFileSystem && after.backends() == c.backends(),
        c.unlinks(ComposedDir::Virtual { path }, name, &after, unlinked) ==> unlinked is Err
            && unlinked->Err_0 == UnlinkError::ReadOnlyFileSystem && after.backends() == c.backends(),
        c.removes_dir(ComposedDir::Virtual { path }, name, &after, removed) ==> removed is Err
            && removed->Err_0 == RmdirError::ReadOnlyFileSystem && after.backends() == c.backends(),
{
}

/// What is done with an open file is done by the backend that it belongs to, and to no other one.
pub proof fn lemma_composed_files<B: Backend>(
    c: Composer<B>,
    h: ComposerFileHandle<B::File>,
    before: Seq<u8>,
    data: Seq<u8>,
    offset: usize,
    length: usize,
    after: Composer<B>,
    read: Result<usize, ReadError>,
    wrote: Result<usize, WriteError>,
    cut: Result<(), TruncateError>,
)
    requires
        0 <= h.index() < c.backends().len(),
    ensures
        c.reads(h, before, offset, data, read) == c.backends()[h.index()].reads(
            h.file(),
            before,
            offset,
            data,
            read,
        ),
        c.writes(h, data, offset, &after, wrote) ==> c.backends()[h.index()].writes(
            h.file(),
            data,
            offset,
            &after.backends()[h.index()],
            wrote,
        ) && after.backends().len() == c.backends().len() && forall|j: int|
            0 <= j < c.backends().len() && j != h.index() ==> #[trigger] after.backends()[j]
                == c.backends()[j],
        c.truncates(h, length, &after, cut) ==> c.backends()[h.index()].truncates(
            h.file(),
            length,
            &after.backends()[h.index()],
            cut,
        ) && after.backends().len() == c.backends().len() && forall|j: int|
            0 <= j < c.backends().len() && j != h.index() ==> #[trigger] after.backends()[j]
                == c.backends()[j],
        c.file_status_spec(h) == c.backends()[h.index()].file_status_spec(h.file()),
        c.seek_spec(h) == c.backends()[h.index()].seek_spec(h.file()),
        c.static_spec(h) == c.backends()[h.index()].static_spec(h.file()),
{
}

/// A directory is listed as its backend lists it, except that names which lead to mount points are
/// listed as directories, once, in place of what the backend has under them.
pub proof fn lemma_composed_listing<B: Backend>(
    c: Composer<B>,
    path: Seq<Seq<char>>,
    i: int,
    handle: B::DirV,
    r: Result<Seq<EntryView>, ReadDirError>,
    name: Seq<char>,
)
    requires
        0 <= i < c.backends().len(),
        c.lists(ComposedDir::Mounted { path, mount_index: i, handle }, r),
    ensures
        r is Err ==> c.backends()[i].lists(handle, r),
        r is Ok ==> exists|own: Seq<EntryView>| #[trigger]
            c.backends()[i].lists(handle, Ok(own)) && ((forall|m: int|
            0 <= m < c.paths().len() ==> #[trigger] c.paths()[m] != path.push(name) && !(
            c.paths()[m].len() > path.len() + 1 && c.paths()[m].take(path.len() as int + 1)
                == path.push(name))) ==> forall|e: EntryView|
                e.name == name ==> #[trigger] r->Ok_0.contains(e) == own.contains(e)),
        r is Ok && (exists|m: int|
            0 <= m < c.paths().len() && c.paths()[m].len() > path.len() && c.paths()[m].take(
                path.len() as int,
            ) == path && (#[trigger] c.paths()[m])[path.len() as int] == name) ==> r->Ok_0.contains(
            EntryView { name, file_type: FileType::Directory, ino_info: None },
        ),
{
    lemma_own_names(c.paths(), path, name);
    lemma_mount_children(c.paths(), path);
    let children = mount_children(c.paths(), path);
    if r is Ok {
        let own = choose|own: Seq<EntryView>| #[trigger]
            c.backends()[i].lists(handle, Ok(own)) && r->Ok_0 == composer::merged_entries(
                own,
                children,
            );
        lemma_merged_entries(own, children);
        if children.contains(name) {
            let m = choose|m: int|
                0 <= m < c.paths().len() && is_ancestor(path, #[trigger] c.paths()[m])
                    && c.paths()[m][path.len() as int] == name;
            assert(c.paths()[m].take(path.len() as int + 1) =~= path.push(name));
            if c.paths()[m].len() == path.len() + 1 {
                assert(c.paths()[m] =~= path.push(name));
            }
        }
        if exists|m: int|
            0 <= m < c.paths().len() && c.paths()[m].len() > path.len() && c.paths()[m].take(
                path.len() as int,
            ) == path && (#[trigger] c.paths()[m])[path.len() as int] == name {
            let m = choose|m: int|
                0 <= m < c.paths().len() && c.paths()[m].len() > path.len() && c.paths()[m].take(
                    path.len() as int,
                ) == path && (#[trigger] c.paths()[m])[path.len() as int] == name;
            assert(is_ancestor(path, c.paths()[m]));
            assert(children.contains(name));
            let e = EntryView { name, file_type: FileType::Directory, ino_info: None };
            assert(composer::merged_entries(own, children).contains(e));
        }
    }
}

/// A virtual directory is listed as the names that lead to mount points, each a directory.
pub proof fn lemma_virtual_listing<B: Backend>(
    c: Composer<B>,
    path: Seq<Seq<char>>,
    r: Result<Seq<EntryView>, ReadDirError>,
    e: EntryView,
)
    requires
        c.lists(ComposedDir::Virtual { path }, r),
    ensures
        r is Ok,
        r->Ok_0.contains(e) <==> e.file_type == FileType::Directory && e.ino_info is None && exists|
            m: int,
        |
            0 <= m < c.paths().len() && c.paths()[m].len() > path.len() && c.paths()[m].take(
                path.len() as int,
            ) == path && (#[trigger] c.paths()[m])[path.len() as int] == e.name,
{
    lemma_mount_children(c.paths(), path);
    let children = mount_children(c.paths(), path);
    let listed = children.map_values(|name: Seq<char>| composer::mount_child_entry(name));
    assert(r->Ok_0 == listed);
    if listed.contains(e) {
        let k = choose|k: int| 0 <= k < listed.len() && listed[k] == e;
        assert(children.contains(children[k]));
        let m = choose|m: int|
            0 <= m < c.paths().len() && is_ancestor(path, #[trigger] c.paths()[m])
                && c.paths()[m][path.len() as int] == children[k];
        assert(c.paths()[m][path.len() as int] == e.name);
    }
    if e.file_type == FileType::Directory && e.ino_info is None && exists|m: int|
        0 <= m < c.paths().len() && c.paths()[m].len() > path.len() && c.paths()[m].take(
            path.len() as int,
        ) == path && (#[trigger] c.paths()[m])[path.len() as int] == e.name {
        let m = choose|m: int|
            0 <= m < c.paths().len() && c.paths()[m].len() > path.len() && c.paths()[m].take(
                path.len() as int,
            ) == path && (#[trigger] c.paths()[m])[path.len() as int] == e.name;
        assert(is_ancestor(path, c.paths()[m]));
        assert(children.contains(e.name));
        let k = choose|k: int| 0 <= k < children.len() && children[k] == e.name;
        assert(listed[k] == e);
    }
}

/// A walk that comes to a mount point goes on at the root of the backend that is mounted there,
/// wherever it comes from.
pub proof fn lemma_walk_enters_mounts<B: Backend>(
    c: Composer<B>,
    at: ComposedDir<B::WalkingV>,
    name: Seq<char>,
    i: int,
)
    requires
        c.paths().no_duplicates(),
        0 <= i < c.paths().len(),
        c.paths()[i] == at.location().push(name),
    ensures
        ({
            let r = c.walk_spec(at, seq![name]);
            &&& r is Ok
            &&& r->Ok_0.stop_reason == WalkStopReason::CompleteDirectory
            &&& r->Ok_0.components.len() == 1
            &&& r->Ok_0.last == (ComposedDir::Mounted {
                path: c.paths()[i],
                mount_index: i,
                handle: c.backends()[i].root_spec(),
            })
        }),
{
    reveal_with_fuel(composed_walk, 3);
    lemma_mount_at(c.paths(), c.paths()[i]);
    assert(c.paths().contains(c.paths()[i]));
    assert(seq![name].drop_first() =~= Seq::empty());
    assert(seq![name][0] == name);
}

/// A walk in a virtual directory goes on to a name that leads to a mount point, in another virtual
/// directory. Any other name that is no mount point is not there.
pub proof fn lemma_walk_in_virtual_directories<B: Backend>(
    c: Composer<B>,
    path: Seq<Seq<char>>,
    name: Seq<char>,
)
    requires
        forall|m: int| 0 <= m < c.paths().len() ==> #[trigger] c.paths()[m] != path.push(name),
    ensures
        ({
            let r = c.walk_spec(ComposedDir::<B::WalkingV>::Virtual { path }, seq![name]);
            let leads = exists|m: int|
                0 <= m < c.paths().len() && (#[trigger] c.paths()[m]).len() > path.len() + 1
                    && c.paths()[m].take(path.len() as int + 1) == path.push(name);
            &&& leads ==> r is Ok && r->Ok_0.last == (ComposedDir::<B::WalkingV>::Virtual {
                path: path.push(name),
            }) && r->Ok_0.stop_reason == WalkStopReason::CompleteDirectory
                && r->Ok_0.components.len() == 1
            &&& !leads ==> r is Err && r->Err_0 == WalkError::PathError(
                PathError::NoSuchFileOrDirectory,
            )
        }),
{
    reveal_with_fuel(composed_walk, 3);
    lemma_own_names(c.paths(), path, name);
    lemma_unrelated(c.paths(), path.push(name));
    lemma_mount_at(c.paths(), path.push(name));
    assert(seq![name].drop_first() =~= Seq::empty());
    assert(seq![name][0] == name);
    assert(mount_at(c.paths(), path.push(name)) is None) by {
        if let Some(k) = mount_at(c.paths(), path.push(name)) {
            assert(c.paths()[k] == path.push(name));
        }
    }
    if c.paths().contains(path.push(name)) {
        let k = choose|k: int| 0 <= k < c.paths().len() && c.paths()[k] == path.push(name);
        assert(c.paths()[k] != path.push(name));
    }
}

/// A walk to a name that is no mount point and leads to none is a walk of the backend, and ends in
/// the same place for the same reason.
pub proof fn lemma_walk_stays_in_backends<B: Backend>(
    c: Composer<B>,
    path: Seq<Seq<char>>,
    i: int,
    handle: B::WalkingV,
    name: Seq<char>,
)
    requires
        c.wf(),
        0 <= i < c.backends().len(),
        c.backends()[i].has_walking(handle),
        forall|m: int|
            0 <= m < c.paths().len() ==> #[trigger] c.paths()[m] != path.push(name) && !(
            c.paths()[m].len() > path.len() + 1 && c.paths()[m].take(path.len() as int + 1)
                == path.push(name)),
    ensures
        match (
            c.walk_spec(ComposedDir::Mounted { path, mount_index: i, handle }, seq![name]),
            c.backends()[i].walk_spec(handle, seq![name]),
        ) {
            (Ok(a), Ok(b)) => {
                &&& a.components == b.components
                &&& a.stop_reason == b.stop_reason
                &&& a.last is Mounted
                &&& a.last->mount_index == i
                &&& a.last->handle == b.last
                &&& a.last->Mounted_path == if b.components.len() == 0 {
                    path
                } else {
                    path.push(name)
                }
            },
            (Err(a), Err(b)) => a == b,
            _ => false,
        },
{
    reveal_with_fuel(composed_walk, 3);
    reveal_with_fuel(composer::walk_prefix, 3);
    lemma_own_names(c.paths(), path, name);
    lemma_mount_at(c.paths(), path.push(name));
    let one = seq![name];
    assert(one[0] == name);
    assert(one.drop_first() =~= Seq::empty());
    assert(mount_at(c.paths(), path.push(name)) is None) by {
        if let Some(k) = mount_at(c.paths(), path.push(name)) {
            assert(c.paths()[k] == path.push(name));
        }
    }
    assert(one.take(1) =~= one);
    c.backends()[i].walk_is_sound(handle, one);
    if let Ok(o) = c.backends()[i].walk_spec(handle, one) {
        let n = o.components.len() as int;
        assert(Seq::<WalkedComponent>::empty() + o.components =~= o.components);
        if n == 0 {
            assert(path + one.take(0) =~= path);
        } else {
            assert(path + one.take(1) =~= path.push(name));
            assert(one.skip(1) =~= Seq::empty());
        }
    }
}

/// The root is that of the backend that is mounted there, if one is.
pub proof fn lemma_composed_root<B: Backend>(c: Composer<B>, i: int)
    requires
        c.paths().no_duplicates(),
        0 <= i < c.paths().len(),
    ensures
        c.paths()[i].len() == 0 ==> c.root_spec() == (ComposedDir::Mounted {
            path: Seq::empty(),
            mount_index: i,
            handle: c.backends()[i].root_spec(),
        }),
        (forall|m: int| 0 <= m < c.paths().len() ==> (#[trigger] c.paths()[m]).len() > 0)
            ==> c.root_spec() == (ComposedDir::<B::WalkingV>::Virtual { path: Seq::empty() }),
{
    let root = Seq::<Seq<char>>::empty();
    lemma_mount_at(c.paths(), root);
    if c.paths()[i].len() == 0 {
        assert(c.paths()[i] =~= root);
        assert(c.paths().contains(root));
    }
}

/// Handles to directories are those of the backends, and their status is what the backend says.
pub proof fn lemma_composed_directories<B: Backend>(
    c: Composer<B>,
    path: Seq<Seq<char>>,
    i: int,
    walking: B::WalkingV,
    handle: B::DirV,
    flags: OFlags,
)
    ensures
        c.dir_status_spec(ComposedDir::Mounted { path, mount_index: i, handle })
            == c.backends()[i].dir_status_spec(handle),
        match (
            c.own_dir_spec(ComposedDir::Mounted { path, mount_index: i, handle: walking }, flags),
            c.backends()[i].own_dir_spec(walking, flags),
        ) {
            (Ok(a), Ok(b)) => a == (ComposedDir::Mounted { path, mount_index: i, handle: b }),
            (Err(a), Err(b)) => a == b,
            _ => false,
        },
        match (
            c.walking_dir_spec(ComposedDir::Mounted { path, mount_index: i, handle }),
            c.backends()[i].walking_dir_spec(handle),
        ) {
            (Some(a), Some(b)) => a == (ComposedDir::Mounted { path, mount_index: i, handle: b }),
            (None, None) => true,
            _ => false,
        },
{
}

/// A virtual directory is one that root owns and everybody can read. Its inode is one of the device
/// that stands for virtual directories.
pub proof fn lemma_virtual_status<B: Backend>(c: Composer<B>, path: Seq<Seq<char>>)
    requires
        c.is_composed(),
        c.virtual_dirs().contains(path),
        c.virtual_dirs().len() < usize::MAX,
    ensures
        c.dir_status_spec(ComposedDir::Virtual { path }) is Ok,
        ({
            let s = c.dir_status_spec(ComposedDir::Virtual { path })->Ok_0;
            &&& s.file_type == FileType::Directory
            &&& s.mode.bits == 0o755
            &&& s.owner.user == 0 && s.owner.group == 0
            &&& s.node_info.dev == 0x436f_6d70
            &&& 1 <= s.node_info.ino <= c.virtual_dirs().len()
            &&& c.virtual_dirs()[s.node_info.ino - 1] == path
        }),
{
    let k = c.virtual_dirs().index_of(path);
    assert(0 <= k < c.virtual_dirs().len() && c.virtual_dirs()[k] == path);
    assert(c.virtual_nodes()[k].ino == k + 1);
}

/// Backends are composed exactly if there is one, all their paths are absolute and normalized, and
/// no two are the same. Each is then mounted at its path.
pub proof fn lemma_composing<B>(b: ComposerBuilder<B>, r: Result<Composer<B>, BuildError>)
    requires
        build_result(b, r),
    ensures
        r is Ok <==> b.raw_paths().len() > 0 && (forall|i: int|
            0 <= i < b.raw_paths().len() ==> (#[trigger] b.raw_paths()[i]) is Some && exists|
                path: Seq<Seq<char>>,
            |
                crate::text::are_plain_components(path) && b.raw_paths()[i]->Some_0
                    == #[trigger] crate::text::render_path(path)) && (forall|i: int, j: int|
            0 <= i < j < b.raw_paths().len() ==> #[trigger] b.raw_paths()[i]
                != #[trigger] b.raw_paths()[j]),
        b.raw_paths().len() == 0 ==> r is Err && r->Err_0 == BuildError::NoMounts,
        r is Err && r->Err_0 == BuildError::NoMounts ==> b.raw_paths().len() == 0,
        r is Err && r->Err_0 == BuildError::DuplicateMountPath <==> b.raw_paths().len() > 0 && (
        forall|i: int|
            0 <= i < b.raw_paths().len() ==> (#[trigger] b.raw_paths()[i]) is Some && exists|
                path: Seq<Seq<char>>,
            |
                crate::text::are_plain_components(path) && b.raw_paths()[i]->Some_0
                    == #[trigger] crate::text::render_path(path)) && (exists|i: int, j: int|
            0 <= i < j < b.raw_paths().len() && #[trigger] b.raw_paths()[i]
                == #[trigger] b.raw_paths()[j]),
        r is Ok ==> r->Ok_0.backends() == b.backends() && r->Ok_0.paths().len()
            == b.raw_paths().len(),
        r is Ok ==> forall|i: int|
            0 <= i < b.raw_paths().len() ==> #[trigger] b.raw_paths()[i] == Some(
                crate::text::render_path(r->Ok_0.paths()[i]),
            ),
{
    let raws = b.raw_paths();
    assert forall|i: int| 0 <= i < raws.len() implies composer::is_valid_mount_path(
        #[trigger] raws[i],
    ) == (raws[i] is Some && exists|path: Seq<Seq<char>>|
        crate::text::are_plain_components(path) && raws[i]->Some_0
            == #[trigger] crate::text::render_path(path)) by {
        if composer::is_valid_mount_path(raws[i]) {
            let path = choose|path: Seq<Seq<char>>| composer::is_mount_path(raws[i], path);
            assert(raws[i]->Some_0 == crate::text::render_path(path));
        }
        if raws[i] is Some && exists|path: Seq<Seq<char>>|
            crate::text::are_plain_components(path) && raws[i]->Some_0
                == #[trigger] crate::text::render_path(path) {
            let path = choose|path: Seq<Seq<char>>|
                crate::text::are_plain_components(path) && raws[i]->Some_0
                    == #[trigger] crate::text::render_path(path);
            assert(composer::is_mount_path(raws[i], path));
        }
    }
    if r is Ok {
        assert forall|i: int| 0 <= i < raws.len() implies #[trigger] raws[i] == Some(
            crate::text::render_path(r->Ok_0.paths()[i]),
        ) by {
            assert(composer::is_mount_path(raws[i], r->Ok_0.paths()[i]));
        }
    }
}

/// A file that was just created through a composer, in a directory in memory, can be unlinked
/// through it. Its name is in no listing of the directory then.
pub proof fn lemma_composed_create_then_unlink(
    c: Composer<InMem>,
    path: Seq<Seq<char>>,
    i: int,
    dir: DirRef,
    name: Seq<char>,
    mode: Mode,
    mid: Composer<InMem>,
    created: Result<ComposerFileHandle<crate::fs::in_mem::InMemFileHandle>, OpenError>,
    after: Composer<InMem>,
    r: Result<(), UnlinkError>,
    listed: Result<Seq<EntryView>, ReadDirError>,
)
    requires
        0 <= i < c.backends().len(),
        c.backends()[i].wf(),
        c.backends()[i].has_dir(dir),
        c.backends()[i].state().files.len() < usize::MAX,
        !c.backends()[i].state().dirs[dir.index].children.contains_key(name),
        forall|m: int|
            0 <= m < c.paths().len() ==> #[trigger] c.paths()[m] != path.push(name) && !(
            c.paths()[m].len() > path.len() + 1 && c.paths()[m].take(path.len() as int + 1)
                == path.push(name)),
        c.creates(ComposedDir::Mounted { path, mount_index: i, handle: dir }, name, mode, &mid, created),
        mid.unlinks(ComposedDir::Mounted { path, mount_index: i, handle: dir }, name, &after, r),
        after.lists(ComposedDir::Mounted { path, mount_index: i, handle: dir }, listed),
    ensures
        created is Ok,
        r is Ok,
        listed is Ok,
        forall|k: int| 0 <= k < listed->Ok_0.len() ==> (#[trigger] listed->Ok_0[k]).name != name,
{
    lemma_composed_create(c, path, i, dir, name, mode, mid, created);
    lemma_composed_unlink(mid, path, i, dir, name, after, r);
    let made = match created {
        Ok(f) => Ok(f.file()),
        Err(e) => Err(e),
    };
    laws::lemma_created_file_can_be_unlinked(
        c.backends()[i],
        dir,
        name,
        mode,
        mid.backends()[i],
        made,
        after.backends()[i],
        r,
    );
    lemma_composed_listing(after, path, i, dir, listed, name);
    if listed is Err {
        laws::lemma_listing_is_complete(after.backends()[i], dir, listed, name);
    } else {
        let own = choose|own: Seq<EntryView>| #[trigger]
            after.backends()[i].lists(dir, Ok(own)) && forall|e: EntryView|
                e.name == name ==> #[trigger] listed->Ok_0.contains(e) == own.contains(e);
        laws::lemma_listing_is_complete(after.backends()[i], dir, Ok(own), name);
        assert forall|k: int| 0 <= k < listed->Ok_0.len() implies (
        #[trigger] listed->Ok_0[k]).name != name by {
            let e = listed->Ok_0[k];
            if e.name == name {
                assert(listed->Ok_0.contains(e));
                assert(own.contains(e));
                let j = choose|j: int| 0 <= j < own.len() && own[j] == e;
                assert(own[j].name == name);
            }
        }
    }
}

/// What is done with a backend that is one of two is done with the left one if it is that one.
pub proof fn lemma_left_backend<A: Backend, B: Backend>(
    x: A,
    z: A,
    w: A::WalkingV,
    d: A::DirV,
    f: A::File,
    name: Seq<char>,
    components: Seq<Seq<char>>,
    flags: OFlags,
    mode: Mode,
    buf: Seq<u8>,
    data: Seq<u8>,
    offset: usize,
)
    ensures
        forall|r: Result<(), UnlinkError>| #[trigger]
            Either::<A, B>::Left(x).unlinks(Either::Left(d), name, &Either::<A, B>::Left(z), r) == x.unlinks(d, name, &z, r),
        forall|r: Result<(), RmdirError>| #[trigger]
            Either::<A, B>::Left(x).removes_dir(Either::Left(d), name, &Either::<A, B>::Left(z), r) == x.removes_dir(d, name, &z, r),
        forall|r: Result<(), ChmodError>| #[trigger]
            Either::<A, B>::Left(x).chmods(Either::Left(d), name, mode, &Either::<A, B>::Left(z), r) == x.chmods(d, name, mode, &z, r),
        forall|user: Option<u16>, group: Option<u16>, r: Result<(), ChownError>| #[trigger]
            Either::<A, B>::Left(x).chowns(Either::Left(d), name, user, group, &Either::<A, B>::Left(z), r) == x.chowns(
                d,
                name,
                user,
                group,
                &z,
                r,
            ),
        Either::<A, B>::Left(x).creates(Either::Left(d), name, mode, &Either::<A, B>::Left(z), Ok(Either::Left(f))) == x.creates(
            d,
            name,
            mode,
            &z,
            Ok(f),
        ),
        forall|e: OpenError| #[trigger]
            Either::<A, B>::Left(x).creates(Either::Left(d), name, mode, &Either::<A, B>::Left(z), Err(e)) == x.creates(
                d,
                name,
                mode,
                &z,
                Err(e),
            ),
        Either::<A, B>::Left(x).makes_dir(Either::Left(d), name, mode, &Either::<A, B>::Left(z), Ok(Either::Left(d))) == x.makes_dir(
            d,
            name,
            mode,
            &z,
            Ok(d),
        ),
        forall|e: MkdirError| #[trigger]
            Either::<A, B>::Left(x).makes_dir(Either::Left(d), name, mode, &Either::<A, B>::Left(z), Err(e)) == x.makes_dir(
                d,
                name,
                mode,
                &z,
                Err(e),
            ),
        forall|permissions: crate::fs::backend::PermissionCheck| #[trigger]
            Either::<A, B>::Left(x).opens(
                Either::Left(w),
                name,
                flags,
                &Either::<A, B>::Left(z),
                Ok(Permissioned { item: Either::Left(f), permissions }),
            ) == x.opens(w, name, flags, &z, Ok(Permissioned { item: f, permissions })),
        forall|e: OpenError| #[trigger]
            Either::<A, B>::Left(x).opens(Either::Left(w), name, flags, &Either::<A, B>::Left(z), Err(e)) == x.opens(
                w,
                name,
                flags,
                &z,
                Err(e),
            ),
        forall|r: Result<Seq<EntryView>, ReadDirError>| #[trigger]
            Either::<A, B>::Left(x).lists(Either::Left(d), r) == x.lists(d, r),
        forall|r: Result<usize, ReadError>| #[trigger]
            Either::<A, B>::Left(x).reads(Either::Left(f), buf, offset, data, r) == x.reads(f, buf, offset, data, r),
        forall|r: Result<usize, WriteError>| #[trigger]
            Either::<A, B>::Left(x).writes(Either::Left(f), data, offset, &Either::<A, B>::Left(z), r) == x.writes(
                f,
                data,
                offset,
                &z,
                r,
            ),
        forall|r: Result<(), TruncateError>| #[trigger]
            Either::<A, B>::Left(x).truncates(Either::Left(f), offset, &Either::<A, B>::Left(z), r) == x.truncates(f, offset, &z, r),
        Either::<A, B>::Left(x).file_status_spec(Either::Left(f)) == x.file_status_spec(f),
        Either::<A, B>::Left(x).dir_status_spec(Either::Left(d)) == x.dir_status_spec(d),
        Either::<A, B>::Left(x).seek_spec(Either::Left(f)) == x.seek_spec(f),
        Either::<A, B>::Left(x).static_spec(Either::Left(f)) == x.static_spec(f),
        Either::<A, B>::Left(x).root_spec() == Either::<A::WalkingV, B::WalkingV>::Left(x.root_spec()),
        match (Either::<A, B>::Left(x).walk_spec(Either::Left(w), components), x.walk_spec(w, components)) {
            (Ok(p), Ok(q)) => p.components == q.components && p.stop_reason == q.stop_reason && p.last
                == Either::<A::WalkingV, B::WalkingV>::Left(q.last),
            (Err(p), Err(q)) => p == q,
            _ => false,
        },
        match (Either::<A, B>::Left(x).walking_dir_spec(Either::Left(d)), x.walking_dir_spec(d)) {
            (Some(a), Some(b)) => a == Either::<A::WalkingV, B::WalkingV>::Left(b),
            (None, None) => true,
            _ => false,
        },
        match (Either::<A, B>::Left(x).own_dir_spec(Either::Left(w), flags), x.own_dir_spec(w, flags)) {
            (Ok(p), Ok(q)) => p == Either::<A::DirV, B::DirV>::Left(q),
            (Err(p), Err(q)) => p == q,
            _ => false,
        },
{
}

/// What is done with a backend that is one of two is done with the right one if it is that one.
pub proof fn lemma_right_backend<A: Backend, B: Backend>(
    x: B,
    z: B,
    w: B::WalkingV,
    d: B::DirV,
    f: B::File,
    name: Seq<char>,
    components: Seq<Seq<char>>,
    flags: OFlags,
    mode: Mode,
    buf: Seq<u8>,
    data: Seq<u8>,
    offset: usize,
)
    ensures
        forall|r: Result<(), UnlinkError>| #[trigger]
            Either::<A, B>::Right(x).unlinks(Either::Right(d), name, &Either::<A, B>::Right(z), r) == x.unlinks(d, name, &z, r),
        forall|r: Result<(), RmdirError>| #[trigger]
            Either::<A, B>::Right(x).removes_dir(Either::Right(d), name, &Either::<A, B>::Right(z), r) == x.removes_dir(d, name, &z, r),
        forall|r: Result<(), ChmodError>| #[trigger]
            Either::<A, B>::Right(x).chmods(Either::Right(d), name, mode, &Either::<A, B>::Right(z), r) == x.chmods(d, name, mode, &z, r),
        forall|user: Option<u16>, group: Option<u16>, r: Result<(), ChownError>| #[trigger]
            Either::<A, B>::Right(x).chowns(Either::Right(d), name, user, group, &Either::<A, B>::Right(z), r) == x.chowns(
                d,
                name,
                user,
                group,
                &z,
                r,
            ),
        Either::<A, B>::Right(x).creates(Either::Right(d), name, mode, &Either::<A, B>::Right(z), Ok(Either::Right(f))) == x.creates(
            d,
            name,
            mode,
            &z,
            Ok(f),
        ),
        forall|e: OpenError| #[trigger]
            Either::<A, B>::Right(x).creates(Either::Right(d), name, mode, &Either::<A, B>::Right(z), Err(e)) == x.creates(
                d,
                name,
                mode,
                &z,
                Err(e),
            ),
        Either::<A, B>::Right(x).makes_dir(Either::Right(d), name, mode, &Either::<A, B>::Right(z), Ok(Either::Right(d))) == x.makes_dir(
            d,
            name,
            mode,
            &z,
            Ok(d),
        ),
        forall|e: MkdirError| #[trigger]
            Either::<A, B>::Right(x).makes_dir(Either::Right(d), name, mode, &Either::<A, B>::Right(z), Err(e)) == x.makes_dir(
                d,
                name,
                mode,
                &z,
                Err(e),
            ),
        forall|permissions: crate::fs::backend::PermissionCheck| #[trigger]
            Either::<A, B>::Right(x).opens(
                Either::Right(w),
                name,
                flags,
                &Either::<A, B>::Right(z),
                Ok(Permissioned { item: Either::Right(f), permissions }),
            ) == x.opens(w, name, flags, &z, Ok(Permissioned { item: f, permissions })),
        forall|e: OpenError| #[trigger]
            Either::<A, B>::Right(x).opens(Either::Right(w), name, flags, &Either::<A, B>::Right(z), Err(e)) == x.opens(
                w,
                name,
                flags,
                &z,
                Err(e),
            ),
        forall|r: Result<Seq<EntryView>, ReadDirError>| #[trigger]
            Either::<A, B>::Right(x).lists(Either::Right(d), r) == x.lists(d, r),
        forall|r: Result<usize, ReadError>| #[trigger]
            Either::<A, B>::Right(x).reads(Either::Right(f), buf, offset, data, r) == x.reads(f, buf, offset, data, r),
        forall|r: Result<usize, WriteError>| #[trigger]
            Either::<A, B>::Right(x).writes(Either::Right(f), data, offset, &Either::<A, B>::Right(z), r) == x.writes(
                f,
                data,
                offset,
                &z,
                r,
            ),
        forall|r: Result<(), TruncateError>| #[trigger]
            Either::<A, B>::Right(x).truncates(Either::Right(f), offset, &Either::<A, B>::Right(z), r) == x.truncates(f, offset, &z, r),
        Either::<A, B>::Right(x).file_status_spec(Either::Right(f)) == x.file_status_spec(f),
        Either::<A, B>::Right(x).dir_status_spec(Either::Right(d)) == x.dir_status_spec(d),
        Either::<A, B>::Right(x).seek_spec(Either::Right(f)) == x.seek_spec(f),
        Either::<A, B>::Right(x).static_spec(Either::Right(f)) == x.static_spec(f),
        Either::<A, B>::Right(x).root_spec() == Either::<A::WalkingV, B::WalkingV>::Right(x.root_spec()),
        match (Either::<A, B>::Right(x).walk_spec(Either::Right(w), components), x.walk_spec(w, components)) {
            (Ok(p), Ok(q)) => p.components == q.components && p.stop_reason == q.stop_reason && p.last
                == Either::<A::WalkingV, B::WalkingV>::Right(q.last),
            (Err(p), Err(q)) => p == q,
            _ => false,
        },
        match (Either::<A, B>::Right(x).walking_dir_spec(Either::Right(d)), x.walking_dir_spec(d)) {
            (Some(a), Some(b)) => a == Either::<A::WalkingV, B::WalkingV>::Right(b),
            (None, None) => true,
            _ => false,
        },
        match (Either::<A, B>::Right(x).own_dir_spec(Either::Right(w), flags), x.own_dir_spec(w, flags)) {
            (Ok(p), Ok(q)) => p == Either::<A::DirV, B::DirV>::Right(q),
            (Err(p), Err(q)) => p == q,
            _ => false,
        },
{
}

} // verus!
