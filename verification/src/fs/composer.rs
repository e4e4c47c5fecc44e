//! Composing backends by mounting them at various paths.
use crate::fs;
use crate::fs::backend::{
    Backend, PermissionCheck, Permissioned, SeekBehavior, WalkOutcome, WalkResult, WalkStopReason,
    WalkedComponent,
};
use crate::fs::errors::{
    ChmodError, ChownError, FileStatusError, MkdirError, OpenError, PathError, ReadDirError,
    ReadError, RmdirError, TruncateError, UnlinkError, WalkError, WriteError,
};
use crate::fs::inode_allocator::InodeAllocator;
use crate::fs::{DirEntry, EntryView, FileStatus, FileType, Mode, NodeInfo, OFlags, UserInfo};
use crate::text;
use vstd::prelude::*;
use vstd::string::*;

verus! {

/// The device id of the directories that connect mount points.
pub const VIRTUAL_DIR_DEVICE_ID: u64 = 0x436f_6d70;

/// A mounted backend.
pub struct Mount<B> {
    path: Vec<String>,
    backend: B,
}

/// A synthetic directory needed to connect mount points.
pub struct VirtualDir {
    path: Vec<String>,
    node_info: NodeInfo,
}

/// A backend composed from backends mounted at various paths.
///
/// A path that leads to a mount point without being one itself is a virtual directory.
pub struct Composer<B> {
    mounts: Vec<Mount<B>>,
    virtual_dirs: Vec<VirtualDir>,
}

/// A [`Composer`] builder.
///
/// A mount whose path is not valid UTF-8 is held without its path.
pub struct ComposerBuilder<B> {
    mounts: Vec<(Option<String>, B)>,
    next_backend_device_id: u64,
}

/// Composer construction errors.
#[derive(Debug, Clone, Copy, PartialEq, Eq, Structural)]
pub enum BuildError {
    /// A composer must have at least one mount.
    NoMounts,
    /// Mount paths must be absolute normalized paths.
    InvalidMountPath,
    /// Two backends were mounted at the same path.
    DuplicateMountPath,
}

/// How a path relates to the mount points.
#[derive(Clone, Copy, Debug, PartialEq, Eq, Structural)]
pub enum MountRelation {
    Exact,
    AncestorOfMount,
    Unrelated,
}

/// Whether `path` leads to `mount` without being equal to it.
pub open spec fn is_ancestor(path: Seq<Seq<char>>, mount: Seq<Seq<char>>) -> bool {
    path.len() < mount.len() && mount.take(path.len() as int) == path
}

/// How `path` relates to the first of the mount points that it relates to.
pub open spec fn relation_of(mounts: Seq<Seq<Seq<char>>>, path: Seq<Seq<char>>) -> MountRelation
    decreases mounts.len(),
{
    if mounts.len() == 0 {
        MountRelation::Unrelated
    } else if mounts[0] == path {
        MountRelation::Exact
    } else if is_ancestor(path, mounts[0]) {
        MountRelation::AncestorOfMount
    } else {
        relation_of(mounts.drop_first(), path)
    }
}

/// The first mount at exactly `path`.
pub open spec fn mount_at(mounts: Seq<Seq<Seq<char>>>, path: Seq<Seq<char>>) -> Option<int>
    decreases mounts.len(),
{
    if mounts.len() == 0 {
        None
    } else if mounts[0] == path {
        Some(0)
    } else {
        match mount_at(mounts.drop_first(), path) {
            Some(i) => Some(i + 1),
            None => None,
        }
    }
}

/// How many components can be walked from `path` before one leads to a mount point.
pub open spec fn walk_prefix(
    mounts: Seq<Seq<Seq<char>>>,
    path: Seq<Seq<char>>,
    components: Seq<Seq<char>>,
) -> int
    decreases components.len(),
{
    if components.len() == 0 || relation_of(mounts, path.push(components[0]))
        != MountRelation::Unrelated {
        0
    } else {
        1 + walk_prefix(mounts, path.push(components[0]), components.drop_first())
    }
}

/// The names directly under `path` that lead to mount points, each once, in mount order.
pub open spec fn mount_children(
    mounts: Seq<Seq<Seq<char>>>,
    path: Seq<Seq<char>>,
) -> Seq<Seq<char>>
    decreases mounts.len(),
{
    if mounts.len() == 0 {
        Seq::empty()
    } else {
        let before = mount_children(mounts.drop_last(), path);
        if is_ancestor(path, mounts.last()) && !before.contains(mounts.last()[path.len() as int]) {
            before.push(mounts.last()[path.len() as int])
        } else {
            before
        }
    }
}

/// The listing entry of a name that leads to a mount point.
pub open spec fn mount_child_entry(name: Seq<char>) -> EntryView {
    EntryView { name, file_type: FileType::Directory, ino_info: None }
}

/// A listing in which each of `children` hides an entry of the same name and stands at the end.
pub open spec fn merged_entries(entries: Seq<EntryView>, children: Seq<Seq<char>>) -> Seq<EntryView>
    decreases children.len(),
{
    if children.len() == 0 {
        entries
    } else {
        merged_entries(entries, children.drop_last()).filter(
            |e: EntryView| e.name != children.last(),
        ).push(mount_child_entry(children.last()))
    }
}

/// The virtual directories that the first `len` prefixes of `path` add to `known`.
pub open spec fn with_prefixes(
    known: Seq<Seq<Seq<char>>>,
    mounts: Seq<Seq<Seq<char>>>,
    path: Seq<Seq<char>>,
    len: int,
) -> Seq<Seq<Seq<char>>>
    decreases len,
{
    if len <= 0 {
        known
    } else {
        let before = with_prefixes(known, mounts, path, len - 1);
        let prefix = path.take(len - 1);
        if relation_of(mounts, prefix) == MountRelation::Exact || before.contains(prefix) {
            before
        } else {
            before.push(prefix)
        }
    }
}

/// The virtual directories that lead to the first `n` mount points.
pub open spec fn virtual_paths(mounts: Seq<Seq<Seq<char>>>, n: int) -> Seq<Seq<Seq<char>>>
    decreases n,
{
    if n <= 0 {
        Seq::empty()
    } else {
        with_prefixes(
            virtual_paths(mounts, n - 1),
            mounts,
            mounts[n - 1],
            mounts[n - 1].len() as int,
        )
    }
}

/// The value of a directory handle in a composed namespace.
#[verifier::ext_equal]
pub enum ComposedDir<V> {
    Virtual { path: Seq<Seq<char>> },
    Mounted { path: Seq<Seq<char>>, mount_index: int, handle: V },
}

impl<V> ComposedDir<V> {
    /// Where the directory stands in the composed namespace.
    pub open spec fn location(self) -> Seq<Seq<char>> {
        match self {
            ComposedDir::Virtual { path } => path,
            ComposedDir::Mounted { path, .. } => path,
        }
    }
}

/// Directory handle in a composed namespace, used while walking.
pub struct ComposerWalkingDirHandle<W> {
    inner: ComposerDirHandleInner<W>,
}

/// Owned directory handle in a composed namespace.
pub struct ComposerDirHandle<D> {
    inner: ComposerDirHandleInner<D>,
}

/// A directory handle, with the handle of the backend it belongs to.
enum ComposerDirHandleInner<H> {
    Virtual { path: Vec<String> },
    Mounted { path: Vec<String>, mount_index: usize, handle: H },
}

/// File handle in a composed namespace.
#[derive(Clone, Debug)]
pub struct ComposerFileHandle<F> {
    mount_index: usize,
    handle: F,
}

impl<F> ComposerFileHandle<F> {
    /// The mount that the file belongs to.
    pub closed spec fn index(self) -> int {
        self.mount_index as int
    }

    /// The handle of the backend mounted there.
    pub closed spec fn file(self) -> F {
        self.handle
    }
}

/// A component whose permissions the backend enforces itself.
pub open spec fn by_backend() -> WalkedComponent {
    WalkedComponent { permissions: PermissionCheck::ByBackend }
}

/// The paths of mounts.
pub closed spec fn mount_paths<B>(mounts: Seq<Mount<B>>) -> Seq<Seq<Seq<char>>> {
    mounts.map_values(|m: Mount<B>| text::texts(m.path@))
}

/// The value of a mount path: its components, if it is canonical.
pub open spec fn is_mount_path(raw: Option<Seq<char>>, path: Seq<Seq<char>>) -> bool {
    raw is Some && text::are_plain_components(path) && raw->Some_0 == text::render_path(path)
}

/// Whether a mount path is absolute and canonical.
pub open spec fn is_valid_mount_path(raw: Option<Seq<char>>) -> bool {
    exists|path: Seq<Seq<char>>| is_mount_path(raw, path)
}

proof fn lemma_relation_step(mounts: Seq<Seq<Seq<char>>>, i: int, path: Seq<Seq<char>>)
    requires
        0 <= i < mounts.len(),
    ensures
        mounts.skip(i)[0] == mounts[i],
        mounts.skip(i).drop_first() == mounts.skip(i + 1),
{
    assert(mounts.skip(i).drop_first() =~= mounts.skip(i + 1));
}

/// A path is unrelated to the mount points exactly when it neither is one nor leads to one.
pub proof fn lemma_unrelated(mounts: Seq<Seq<Seq<char>>>, path: Seq<Seq<char>>)
    ensures
        relation_of(mounts, path) == MountRelation::Unrelated <==> forall|i: int|
            0 <= i < mounts.len() ==> #[trigger] mounts[i] != path && !is_ancestor(path, mounts[i]),
        relation_of(mounts, path) == MountRelation::Exact ==> mounts.contains(path),
        relation_of(mounts, path) == MountRelation::AncestorOfMount ==> exists|i: int|
            0 <= i < mounts.len() && is_ancestor(path, #[trigger] mounts[i]),
    decreases mounts.len(),
{
    if mounts.len() > 0 {
        let rest = mounts.drop_first();
        lemma_unrelated(rest, path);
        assert(forall|i: int| 0 <= i < rest.len() ==> #[trigger] rest[i] == mounts[i + 1]);
        assert(forall|i: int| 1 <= i < mounts.len() ==> #[trigger] mounts[i] == rest[i - 1]);
        assert(mounts[0] == mounts.first());
    }
}

/// A mount is found at a path exactly when one was mounted there.
pub proof fn lemma_mount_at(mounts: Seq<Seq<Seq<char>>>, path: Seq<Seq<char>>)
    ensures
        match mount_at(mounts, path) {
            Some(i) => {
                &&& 0 <= i < mounts.len()
                &&& mounts[i] == path
                &&& forall|j: int| 0 <= j < i ==> mounts[j] != path
            },
            None => !mounts.contains(path),
        },
    decreases mounts.len(),
{
    if mounts.len() > 0 {
        let rest = mounts.drop_first();
        lemma_mount_at(rest, path);
        assert(forall|i: int| 1 <= i < mounts.len() ==> #[trigger] mounts[i] == rest[i - 1]);
        if mounts[0] != path && mount_at(rest, path) is None {
            assert(!mounts.contains(path)) by {
                if mounts.contains(path) {
                    let k = choose|k: int| 0 <= k < mounts.len() && mounts[k] == path;
                    assert(rest[k - 1] == path);
                }
            }
        }
    }
}

/// The walk prefix lies within the components, and every component of it is unrelated to the
/// mount points.
pub proof fn lemma_walk_prefix(
    mounts: Seq<Seq<Seq<char>>>,
    path: Seq<Seq<char>>,
    components: Seq<Seq<char>>,
)
    ensures
        0 <= walk_prefix(mounts, path, components) <= components.len(),
        components.len() > 0 && relation_of(mounts, path.push(components[0]))
            == MountRelation::Unrelated ==> walk_prefix(mounts, path, components) > 0,
    decreases components.len(),
{
    if components.len() > 0 {
        lemma_walk_prefix(mounts, path.push(components[0]), components.drop_first());
    }
}

/// The names directly under a path that lead to mount points are each listed once, and no others
/// are.
pub proof fn lemma_mount_children(mounts: Seq<Seq<Seq<char>>>, path: Seq<Seq<char>>)
    ensures
        mount_children(mounts, path).no_duplicates(),
        forall|name: Seq<char>| #[trigger]
            mount_children(mounts, path).contains(name) <==> exists|i: int|
                0 <= i < mounts.len() && is_ancestor(path, #[trigger] mounts[i])
                    && mounts[i][path.len() as int] == name,
    decreases mounts.len(),
{
    let all = mount_children(mounts, path);
    if mounts.len() > 0 {
        let rest = mounts.drop_last();
        let before = mount_children(rest, path);
        lemma_mount_children(rest, path);
        let last = mounts.last();
        let own = last[path.len() as int];
        assert forall|name: Seq<char>| #[trigger] all.contains(name) <==> before.contains(name) || (
        is_ancestor(path, last) && name == own) by {
            if all != before {
                assert(all == before.push(own));
                if before.contains(name) {
                    let k = choose|k: int| 0 <= k < before.len() && before[k] == name;
                    assert(all[k] == name);
                }
                assert(all[before.len() as int] == own);
            }
        }
        assert forall|name: Seq<char>| #[trigger] all.contains(name) <==> exists|i: int|
            0 <= i < mounts.len() && is_ancestor(path, #[trigger] mounts[i])
                && mounts[i][path.len() as int] == name by {
            if before.contains(name) {
                let i = choose|i: int|
                    0 <= i < rest.len() && is_ancestor(path, #[trigger] rest[i])
                        && rest[i][path.len() as int] == name;
                assert(mounts[i] == rest[i]);
            } else if is_ancestor(path, last) && name == own {
                assert(mounts[mounts.len() - 1] == last);
            } else if exists|i: int|
                0 <= i < mounts.len() && is_ancestor(path, #[trigger] mounts[i])
                    && mounts[i][path.len() as int] == name {
                let i = choose|i: int|
                    0 <= i < mounts.len() && is_ancestor(path, #[trigger] mounts[i])
                        && mounts[i][path.len() as int] == name;
                if i < rest.len() {
                    assert(rest[i] == mounts[i]);
                }
            }
        }
    }
}

/// A name that leads to a mount point hides what the backend lists under it, and is listed as a
/// directory. Nothing else is added or left out, and no name is listed twice unless the backend
/// did so.
pub proof fn lemma_merged_entries(entries: Seq<EntryView>, children: Seq<Seq<char>>)
    requires
        children.no_duplicates(),
    ensures
        forall|e: EntryView| #[trigger]
            merged_entries(entries, children).contains(e) <==> if children.contains(e.name) {
                e == mount_child_entry(e.name)
            } else {
                entries.contains(e)
            },
        (forall|i: int, j: int|
            0 <= i < j < entries.len() ==> (#[trigger] entries[i]).name != (
            #[trigger] entries[j]).name) ==> (forall|i: int, j: int|
            0 <= i < j < merged_entries(entries, children).len() ==> (
            #[trigger] merged_entries(entries, children)[i]).name != (#[trigger] merged_entries(
                entries,
                children,
            )[j]).name),
    decreases children.len(),
{
    let all = merged_entries(entries, children);
    if children.len() > 0 {
        let fewer = children.drop_last();
        let last = children.last();
        let own = mount_child_entry(last);
        let before = merged_entries(entries, fewer);
        let keep = |e: EntryView| e.name != last;
        let kept = before.filter(keep);
        assert(fewer.no_duplicates());
        lemma_merged_entries(entries, fewer);
        lemma_filtered(before, keep);
        assert(all == kept.push(own));
        assert forall|e: EntryView| #[trigger] all.contains(e) <==> if children.contains(e.name) {
            e == mount_child_entry(e.name)
        } else {
            entries.contains(e)
        } by {
            assert(all.contains(e) <==> kept.contains(e) || e == own) by {
                if kept.contains(e) {
                    let k = choose|k: int| 0 <= k < kept.len() && kept[k] == e;
                    assert(all[k] == e);
                }
                assert(all[kept.len() as int] == own);
            }
            assert(children.contains(e.name) <==> fewer.contains(e.name) || e.name == last) by {
                if fewer.contains(e.name) {
                    let k = choose|k: int| 0 <= k < fewer.len() && fewer[k] == e.name;
                    assert(children[k] == e.name);
                }
                assert(children[children.len() - 1] == last);
                if children.contains(e.name) {
                    let k = choose|k: int| 0 <= k < children.len() && children[k] == e.name;
                    if k < fewer.len() {
                        assert(fewer[k] == e.name);
                    }
                }
            }
        }
    }
}

/// What is left of a listing keeps its order.
proof fn lemma_filtered(entries: Seq<EntryView>, keep: spec_fn(EntryView) -> bool)
    ensures
        forall|e: EntryView| #[trigger]
            entries.filter(keep).contains(e) <==> entries.contains(e) && keep(e),
        forall|i: int|
            0 <= i < entries.filter(keep).len() ==> keep(#[trigger] entries.filter(keep)[i]),
        (forall|i: int, j: int|
            0 <= i < j < entries.len() ==> (#[trigger] entries[i]).name != (
            #[trigger] entries[j]).name) ==> (forall|i: int, j: int|
            0 <= i < j < entries.filter(keep).len() ==> (#[trigger] entries.filter(keep)[i]).name
                != (#[trigger] entries.filter(keep)[j]).name),
    decreases entries.len(),
{
    reveal(Seq::filter);
    let all = entries.filter(keep);
    if entries.len() > 0 {
        let fewer = entries.drop_last();
        let before = fewer.filter(keep);
        let last = entries.last();
        lemma_filtered(fewer, keep);
        assert forall|e: EntryView| #[trigger] all.contains(e) <==> entries.contains(e) && keep(
            e,
        ) by {
            assert(entries.contains(e) <==> fewer.contains(e) || e == last) by {
                if fewer.contains(e) {
                    let k = choose|k: int| 0 <= k < fewer.len() && fewer[k] == e;
                    assert(entries[k] == e);
                }
                assert(entries[entries.len() - 1] == last);
                if entries.contains(e) {
                    let k = choose|k: int| 0 <= k < entries.len() && entries[k] == e;
                    if k < fewer.len() {
                        assert(fewer[k] == e);
                    }
                }
            }
            assert(all.contains(e) <==> before.contains(e) || (keep(last) && e == last)) by {
                if before.contains(e) {
                    let k = choose|k: int| 0 <= k < before.len() && before[k] == e;
                    assert(all[k] == e);
                }
                if keep(last) {
                    assert(all[before.len() as int] == last);
                }
            }
        }
        if forall|i: int, j: int|
            0 <= i < j < entries.len() ==> (#[trigger] entries[i]).name != (
            #[trigger] entries[j]).name {
            assert forall|i: int, j: int| 0 <= i < j < fewer.len() implies (
            #[trigger] fewer[i]).name != (#[trigger] fewer[j]).name by {
                assert(entries[i].name != entries[j].name);
            }
            assert forall|i: int, j: int| 0 <= i < j < all.len() implies (#[trigger] all[i]).name
                != (#[trigger] all[j]).name by {
                if keep(last) && j == before.len() {
                    assert(before.contains(before[i]));
                    let k = choose|k: int| 0 <= k < fewer.len() && fewer[k] == before[i];
                    assert(entries[k].name != entries[entries.len() - 1].name);
                } else {
                    assert(before[i].name != before[j].name);
                }
            }
        }
    }
}

proof fn lemma_with_prefixes(
    known: Seq<Seq<Seq<char>>>,
    mounts: Seq<Seq<Seq<char>>>,
    path: Seq<Seq<char>>,
    len: int,
)
    requires
        0 <= len <= path.len(),
    ensures
        forall|p: Seq<Seq<char>>|
            known.contains(p) ==> #[trigger] with_prefixes(known, mounts, path, len).contains(p),
        forall|k: int|
            0 <= k < len && relation_of(mounts, #[trigger] path.take(k)) != MountRelation::Exact
                ==> with_prefixes(known, mounts, path, len).contains(path.take(k)),
        forall|p: Seq<Seq<char>>| #[trigger]
            with_prefixes(known, mounts, path, len).contains(p) ==> known.contains(p) || (
            relation_of(mounts, p) != MountRelation::Exact && p.len() < path.len() && path.take(
                p.len() as int,
            ) == p),
        known.no_duplicates() ==> with_prefixes(known, mounts, path, len).no_duplicates(),
    decreases len,
{
    if len > 0 {
        lemma_with_prefixes(known, mounts, path, len - 1);
        let before = with_prefixes(known, mounts, path, len - 1);
        let prefix = path.take(len - 1);
        let after = with_prefixes(known, mounts, path, len);
        if !(relation_of(mounts, prefix) == MountRelation::Exact || before.contains(prefix)) {
            assert(after == before.push(prefix));
            assert(forall|p: Seq<Seq<char>>| before.contains(p) ==> #[trigger] after.contains(p)) by {
                assert forall|p: Seq<Seq<char>>| before.contains(p) implies #[trigger] after.contains(
                    p,
                ) by {
                    let k = choose|k: int| 0 <= k < before.len() && before[k] == p;
                    assert(after[k] == p);
                }
            }
            assert(after[before.len() as int] == prefix);
            assert forall|p: Seq<Seq<char>>| #[trigger] after.contains(p) implies before.contains(p)
                || p == prefix by {
                let k = choose|k: int| 0 <= k < after.len() && after[k] == p;
                if k < before.len() {
                    assert(before[k] == p);
                }
            }
        }
    }
}

/// The virtual directories are exactly the paths that lead to a mount point, without those that
/// are mount points in the first place; each occurs once.
pub proof fn lemma_virtual_paths(mounts: Seq<Seq<Seq<char>>>, n: int)
    requires
        0 <= n <= mounts.len(),
    ensures
        virtual_paths(mounts, n).no_duplicates(),
        forall|p: Seq<Seq<char>>| #[trigger]
            virtual_paths(mounts, n).contains(p) <==> {
                &&& relation_of(mounts, p) != MountRelation::Exact
                &&& exists|i: int| 0 <= i < n && is_ancestor(p, #[trigger] mounts[i])
            },
    decreases n,
{
    if n > 0 {
        lemma_virtual_paths(mounts, n - 1);
        let known = virtual_paths(mounts, n - 1);
        let path = mounts[n - 1];
        lemma_with_prefixes(known, mounts, path, path.len() as int);
        let all = virtual_paths(mounts, n);
        assert forall|p: Seq<Seq<char>>| #[trigger] all.contains(p) implies ({
            &&& relation_of(mounts, p) != MountRelation::Exact
            &&& exists|i: int| 0 <= i < n && is_ancestor(p, #[trigger] mounts[i])
        }) by {
            if known.contains(p) {
                let i = choose|i: int| 0 <= i < n - 1 && is_ancestor(p, #[trigger] mounts[i]);
                assert(is_ancestor(p, mounts[i]));
            } else {
                assert(is_ancestor(p, mounts[n - 1]));
            }
        }
        assert forall|p: Seq<Seq<char>>|
            relation_of(mounts, p) != MountRelation::Exact && (exists|i: int|
                0 <= i < n && is_ancestor(p, #[trigger] mounts[i])) implies #[trigger] all.contains(
            p,
        ) by {
            let i = choose|i: int| 0 <= i < n && is_ancestor(p, #[trigger] mounts[i]);
            if i < n - 1 {
                assert(known.contains(p));
            } else {
                assert(path.take(p.len() as int) == p);
                assert(with_prefixes(known, mounts, path, path.len() as int).contains(
                    path.take(p.len() as int),
                ));
            }
        }
    } else {
        assert forall|p: Seq<Seq<char>>| !#[trigger] virtual_paths(mounts, n).contains(p) by {}
    }
}

/// The components of a mount path, if it is absolute and canonical.
fn parse_mount_path(raw: &String) -> (r: Option<Vec<String>>)
    ensures
        match r {
            Some(path) => is_mount_path(Some(raw@), text::texts(path@)),
            None => !is_valid_mount_path(Some(raw@)),
        },
{
    let path = text::split_path(raw.as_str());
    proof {
        assert forall|p: Seq<Seq<char>>| is_mount_path(Some(raw@), p) implies p == text::texts(
            path@,
        ) by {
            text::lemma_components_of_rendered(p);
        }
    }
    let mut rendered = String::new();
    let mut i: usize = 0;
    assert(rendered@ =~= Seq::empty());
    assert(text::texts(path@).take(0) =~= Seq::empty());
    while i < path.len()
        invariant
            i <= path.len(),
            rendered@ == text::join_components(text::texts(path@).take(i as int)),
            forall|k: int|
                0 <= k < i ==> #[trigger] text::texts(path@)[k] != seq!['.'] && text::texts(path@)[k]
                    != seq!['.', '.'],
            forall|p: Seq<Seq<char>>|
                is_mount_path(Some(raw@), p) ==> p == text::texts(path@),
        decreases path.len() - i,
    {
        proof {
            reveal_strlit(".");
            reveal_strlit("..");
            reveal_strlit("/");
            assert("."@ =~= seq!['.']);
            assert(".."@ =~= seq!['.', '.']);
            assert("/"@ =~= seq!['/']);
        }
        assert(path@[i as int]@ == text::texts(path@)[i as int]);
        if text::same_text(path[i].as_str(), ".") || text::same_text(path[i].as_str(), "..") {
            assert(!text::is_plain_component(text::texts(path@)[i as int]));
            return None;
        }
        rendered.append("/");
        rendered.append(path[i].as_str());
        assert(text::texts(path@).take(i + 1).drop_last() =~= text::texts(path@).take(i as int));
        i = i + 1;
    }
    assert(text::texts(path@).take(i as int) =~= text::texts(path@));
    if path.len() == 0 {
        rendered.append("/");
        proof {
            reveal_strlit("/");
            assert("/"@ =~= seq!['/']);
            assert(rendered@ =~= seq!['/']);
        }
    }
    if *raw == rendered {
        proof {
            text::lemma_components_are_slash_free(raw@);
            assert forall|k: int| 0 <= k < text::texts(path@).len() implies
                text::is_plain_component(#[trigger] text::texts(path@)[k]) by {
                assert(text::is_slash_free(text::path_components(raw@)[k]));
            }
            assert(text::are_plain_components(text::texts(path@)));
        }
        Some(path)
    } else {
        None
    }
}

impl MountRelation {
    /// How `path` relates to the mount points.
    fn of<B>(mounts: &Vec<Mount<B>>, path: &Vec<String>) -> (r: Self)
        ensures
            r == relation_of(mount_paths(mounts@), text::texts(path@)),
    {
        let ghost paths = mount_paths(mounts@);
        let ghost p = text::texts(path@);
        let mut i: usize = 0;
        assert(paths.skip(0) =~= paths);
        while i < mounts.len()
            invariant
                i <= mounts.len(),
                paths == mount_paths(mounts@),
                p == text::texts(path@),
                relation_of(paths, p) == relation_of(paths.skip(i as int), p),
            decreases mounts.len() - i,
        {
            proof {
                lemma_relation_step(paths, i as int, p);
            }
            let mount = &mounts[i].path;
            assert(paths[i as int] == text::texts(mount@));
            if text::same_path(mount, path) {
                return MountRelation::Exact;
            }
            if path.len() < mount.len() && text::starts_with(mount, path) {
                return MountRelation::AncestorOfMount;
            }
            i = i + 1;
        }
        MountRelation::Unrelated
    }
}

/// `path` with one more component.
fn append_component(mut path: Vec<String>, component: &str) -> (r: Vec<String>)
    ensures
        text::texts(r@) == text::texts(path@).push(component@),
{
    let ghost before = path@;
    path.push(component.to_owned());
    assert(text::texts(path@) =~= text::texts(before).push(component@));
    path
}

/// `path` with the components `from..to` of `components`.
fn append_components(mut path: Vec<String>, components: &[&str], from: usize, to: usize) -> (r:
    Vec<String>)
    requires
        from <= to <= components.len(),
    ensures
        text::texts(r@) == text::texts(path@) + text::words(components@).subrange(
            from as int,
            to as int,
        ),
{
    let ghost before = path@;
    let mut i: usize = from;
    assert(text::texts(path@) =~= text::texts(before) + text::words(components@).subrange(
        from as int,
        from as int,
    ));
    while i < to
        invariant
            from <= i <= to <= components.len(),
            text::texts(path@) == text::texts(before) + text::words(components@).subrange(
                from as int,
                i as int,
            ),
        decreases to - i,
    {
        let ghost so_far = path@;
        path.push(components[i].to_owned());
        assert(text::texts(path@) =~= text::texts(so_far).push(components@[i as int]@));
        assert(text::words(components@).subrange(from as int, i + 1) =~= text::words(
            components@,
        ).subrange(from as int, i as int).push(text::words(components@)[i as int]));
        assert(text::texts(path@) =~= text::texts(before) + text::words(components@).subrange(
            from as int,
            i + 1,
        ));
        i = i + 1;
    }
    path
}

/// The value of a mount path as it was given.
pub open spec fn raw_path(raw: Option<String>) -> Option<Seq<char>> {
    match raw {
        Some(s) => Some(s@),
        None => None,
    }
}

impl<B> ComposerBuilder<B> {
    /// The mount paths as they were given.
    pub closed spec fn raw_paths(&self) -> Seq<Option<Seq<char>>> {
        self.mounts.view().map_values(|m: (Option<String>, B)| raw_path(m.0))
    }

    /// The backends, in mount order.
    pub closed spec fn backends(&self) -> Seq<B> {
        self.mounts.view().map_values(|m: (Option<String>, B)| m.1)
    }

    /// The device id that the next mount gets.
    pub closed spec fn next_device(&self) -> u64 {
        self.next_backend_device_id
    }
}

impl<B> Composer<B> {
    /// The mount points, in mount order.
    pub closed spec fn paths(&self) -> Seq<Seq<Seq<char>>> {
        mount_paths(self.mounts@)
    }

    /// The backends, in mount order.
    pub closed spec fn backends(&self) -> Seq<B> {
        self.mounts@.map_values(|m: Mount<B>| m.backend)
    }

    /// The paths of the virtual directories.
    pub closed spec fn virtual_dirs(&self) -> Seq<Seq<Seq<char>>> {
        self.virtual_dirs@.map_values(|d: VirtualDir| text::texts(d.path@))
    }

    /// The nodes of the virtual directories.
    pub closed spec fn virtual_nodes(&self) -> Seq<NodeInfo> {
        self.virtual_dirs@.map_values(|d: VirtualDir| d.node_info)
    }

    /// Start building an empty composer. Backends get the device ids from 1 on.
    #[must_use]
    pub fn builder() -> (r: ComposerBuilder<B>)
        ensures
            r.raw_paths().len() == 0,
            r.backends().len() == 0,
            r.next_device() == 1,
    {
        ComposerBuilder { mounts: Vec::new(), next_backend_device_id: 1 }
    }
}

impl<B> ComposerBuilder<B> {
    /// Add the backend that `backend` makes with an allocator for a device of its own, mounted at
    /// `path`. A path that is not valid UTF-8 is given as `None`.
    #[must_use]
    pub fn mount<F: FnOnce(InodeAllocator) -> B>(self, path: Option<&str>, backend: F) -> (r:
        Self)
        requires
            self.next_device() <= usize::MAX,
            self.next_device() < u64::MAX,
            forall|a: InodeAllocator|
                a.device() == self.next_device() && a.upcoming() == 1 ==> call_requires(
                    backend,
                    (a,),
                ),
        ensures
            r.raw_paths() == self.raw_paths().push(
                match path {
                    Some(p) => Some(p@),
                    None => None,
                },
            ),
            r.backends().len() == self.backends().len() + 1,
            r.backends().drop_last() == self.backends(),
            exists|a: InodeAllocator|
                a.device() == self.next_device() && a.upcoming() == 1 && call_ensures(
                    backend,
                    (a,),
                    r.backends().last(),
                ),
            r.next_device() == self.next_device() + 1,
    {
        let mut this = self;
        let device: u64 = this.next_backend_device_id;
        let allocator = InodeAllocator::for_device(device);
        let made = backend(allocator);
        let owned = match path {
            Some(p) => Some(p.to_owned()),
            None => None,
        };
        this.mounts.push((owned, made));
        this.next_backend_device_id = device + 1;
        proof {
            assert(this.raw_paths() =~= self.raw_paths().push(raw_path(owned)));
            assert(this.backends().drop_last() =~= self.backends());
            assert(this.backends().last() == made);
        }
        this
    }
}

/// What `build` returns.
pub open spec fn build_result<B>(builder: ComposerBuilder<B>, r: Result<Composer<B>, BuildError>) -> bool {
    let raws = builder.raw_paths();
    if raws.len() == 0 {
        r is Err && r->Err_0 == BuildError::NoMounts
    } else if exists|i: int| 0 <= i < raws.len() && !is_valid_mount_path(#[trigger] raws[i]) {
        r is Err && r->Err_0 == BuildError::InvalidMountPath
    } else if exists|i: int, j: int|
        0 <= i < j < raws.len() && #[trigger] raws[i] == #[trigger] raws[j] {
        r is Err && r->Err_0 == BuildError::DuplicateMountPath
    } else {
        &&& r is Ok
        &&& r->Ok_0.backends() == builder.backends()
        &&& r->Ok_0.paths().len() == raws.len()
        &&& forall|i: int|
            0 <= i < raws.len() ==> is_mount_path(#[trigger] raws[i], r->Ok_0.paths()[i])
        &&& r->Ok_0.is_composed()
    }
}

impl<B> Composer<B> {
    /// What holds of every composer: no two mounts share a path, and the virtual directories are
    /// those that the mount points need, with inode numbers from 1 on.
    pub open spec fn is_composed(&self) -> bool {
        &&& self.paths().len() > 0
        &&& self.paths().no_duplicates()
        &&& self.backends().len() == self.paths().len()
        &&& self.virtual_dirs() == virtual_paths(self.paths(), self.paths().len() as int)
        &&& self.virtual_nodes().len() == self.virtual_dirs().len()
        &&& forall|k: int|
            0 <= k < self.virtual_nodes().len() && k < usize::MAX ==> #[trigger]
            self.virtual_nodes()[k] == (NodeInfo {
                dev: VIRTUAL_DIR_DEVICE_ID as usize,
                ino: (k + 1) as usize,
                rdev: None,
            })
    }
}

impl<B> ComposerBuilder<B> {
    /// Validate mount paths and finalize the composer.
    pub fn build(self) -> (r: Result<Composer<B>, BuildError>)
        ensures
            build_result(self, r),
    {
        let ghost raws = self.raw_paths();
        let ghost given = self.backends();
        if self.mounts.len() == 0 {
            return Err(BuildError::NoMounts);
        }
        let mut pending = self.mounts;
        let mut mounts: Vec<Mount<B>> = Vec::new();
        // The mounts are taken from the back, so they are collected in reverse.
        let mut reversed: Vec<Mount<B>> = Vec::new();
        assert(raws.len() == pending@.len());
        while pending.len() > 0
            invariant
                pending@.len() + reversed@.len() == raws.len(),
                raws.len() == given.len(),
                forall|i: int|
                    0 <= i < pending@.len() ==> raw_path((#[trigger] pending@[i]).0) == raws[i]
                        && pending@[i].1 == given[i],
                forall|k: int|
                    0 <= k < reversed@.len() ==> is_mount_path(
                        raws[raws.len() - 1 - k],
                        text::texts((#[trigger] reversed@[k]).path@),
                    ) && reversed@[k].backend == given[raws.len() - 1 - k],
                build_result(self, Err(BuildError::InvalidMountPath)) || forall|i: int|
                    pending@.len() <= i < raws.len() ==> is_valid_mount_path(#[trigger] raws[i]),
                raws == self.raw_paths(),
            decreases pending.len(),
        {
            let ghost n = pending@.len() - 1;
            let (raw, backend) = match pending.pop() {
                Some(m) => m,
                None => {
                    return Err(BuildError::NoMounts);
                },
            };
            assert(raw_path(raw) == raws[n] && backend == given[n]);
            let raw = match raw {
                Some(raw) => raw,
                None => {
                    assert(!is_valid_mount_path(raws[n]));
                    return Err(BuildError::InvalidMountPath);
                },
            };
            let path = match parse_mount_path(&raw) {
                Some(path) => path,
                None => {
                    assert(!is_valid_mount_path(raws[n]));
                    return Err(BuildError::InvalidMountPath);
                },
            };
            reversed.push(Mount { path, backend });
        }
        while reversed.len() > 0
            invariant
                raws.len() == given.len(),
                mounts@.len() + reversed@.len() == raws.len(),
                forall|k: int|
                    0 <= k < reversed@.len() ==> is_mount_path(
                        raws[raws.len() - 1 - k],
                        text::texts((#[trigger] reversed@[k]).path@),
                    ) && reversed@[k].backend == given[raws.len() - 1 - k],
                forall|k: int|
                    0 <= k < mounts@.len() ==> is_mount_path(
                        raws[k],
                        text::texts((#[trigger] mounts@[k]).path@),
                    ) && mounts@[k].backend == given[k],
            decreases reversed.len(),
        {
            if let Some(m) = reversed.pop() {
                mounts.push(m);
            }
        }
        let ghost paths = mount_paths(mounts@);
        assert(paths.len() == raws.len());
        assert forall|i: int| 0 <= i < raws.len() implies is_mount_path(
            #[trigger] raws[i],
            paths[i],
        ) by {
            assert(paths[i] == text::texts(mounts@[i].path@));
        }
        let mut i: usize = 0;
        while i < mounts.len()
            invariant
                i <= mounts.len(),
                paths == mount_paths(mounts@),
                raws == self.raw_paths(),
                raws.len() == mounts@.len(),
                raws.len() > 0,
                forall|k: int| 0 <= k < raws.len() ==> is_mount_path(#[trigger] raws[k], paths[k]),
                forall|k: int, l: int| 0 <= k < l < paths.len() && k < i ==> paths[k] != paths[l],
            decreases mounts.len() - i,
        {
            let mut j: usize = i + 1;
            while j < mounts.len()
                invariant
                    i < j <= mounts.len(),
                    paths == mount_paths(mounts@),
                    raws == self.raw_paths(),
                    raws.len() == mounts@.len(),
                    raws.len() > 0,
                    forall|k: int|
                        0 <= k < raws.len() ==> is_mount_path(#[trigger] raws[k], paths[k]),
                    forall|l: int| i < l < j ==> paths[i as int] != paths[l],
                decreases mounts.len() - j,
            {
                assert(paths[i as int] == text::texts(mounts@[i as int].path@));
                assert(paths[j as int] == text::texts(mounts@[j as int].path@));
                if text::same_path(&mounts[i].path, &mounts[j].path) {
                    assert(is_mount_path(raws[i as int], paths[i as int]));
                    assert(is_mount_path(raws[j as int], paths[j as int]));
                    assert(raws[i as int] == raws[j as int]);
                    assert forall|k: int| 0 <= k < raws.len() implies is_valid_mount_path(
                        #[trigger] raws[k],
                    ) by {
                        assert(is_mount_path(raws[k], paths[k]));
                    }
                    return Err(BuildError::DuplicateMountPath);
                }
                j = j + 1;
            }
            i = i + 1;
        }
        let virtual_dirs = make_virtual_dirs(&mounts);
        let composer = Composer { mounts, virtual_dirs };
        proof {
            assert(composer.backends() =~= given);
            assert forall|k: int, l: int| 0 <= k < l < raws.len() implies #[trigger] raws[k]
                != #[trigger] raws[l] by {
                assert(is_mount_path(raws[k], paths[k]));
                assert(is_mount_path(raws[l], paths[l]));
                if raws[k] == raws[l] {
                    text::lemma_render_path_injective(paths[k], paths[l]);
                }
            }
            assert forall|k: int| 0 <= k < raws.len() implies is_valid_mount_path(
                #[trigger] raws[k],
            ) by {
                assert(is_mount_path(raws[k], paths[k]));
            }
        }
        Ok(composer)
    }
}

/// The virtual directories that the mount points need.
fn make_virtual_dirs<B>(mounts: &Vec<Mount<B>>) -> (r: Vec<VirtualDir>)
    ensures
        r@.map_values(|d: VirtualDir| text::texts(d.path@)) == virtual_paths(
            mount_paths(mounts@),
            mounts@.len() as int,
        ),
        forall|k: int|
            0 <= k < r@.len() && k < usize::MAX ==> (#[trigger] r@[k]).node_info == (NodeInfo {
                dev: VIRTUAL_DIR_DEVICE_ID as usize,
                ino: (k + 1) as usize,
                rdev: None,
            }),
{
    let ghost paths = mount_paths(mounts@);
    let ghost of = |d: VirtualDir| text::texts(d.path@);
    let mut allocator = InodeAllocator::for_device(VIRTUAL_DIR_DEVICE_ID);
    let mut dirs: Vec<VirtualDir> = Vec::new();
    assert(dirs@.map_values(of) =~= virtual_paths(paths, 0));
    let mut i: usize = 0;
    while i < mounts.len()
        invariant
            i <= mounts.len(),
            paths == mount_paths(mounts@),
            of == (|d: VirtualDir| text::texts(d.path@)),
            dirs@.map_values(of) == virtual_paths(paths, i as int),
            allocator.device() == VIRTUAL_DIR_DEVICE_ID,
            dirs.len() < usize::MAX ==> allocator.upcoming() == dirs.len() + 1,
            forall|k: int|
                0 <= k < dirs@.len() && k < usize::MAX ==> (#[trigger] dirs@[k]).node_info == (
                NodeInfo {
                    dev: VIRTUAL_DIR_DEVICE_ID as usize,
                    ino: (k + 1) as usize,
                    rdev: None,
                }),
        decreases mounts.len() - i,
    {
        let mount_path = &mounts[i].path;
        let ghost known = virtual_paths(paths, i as int);
        let ghost p = text::texts(mount_path@);
        assert(paths[i as int] == p);
        let mut len: usize = 0;
        while len < mount_path.len()
            invariant
                len <= mount_path.len(),
                paths == mount_paths(mounts@),
                of == (|d: VirtualDir| text::texts(d.path@)),
                p == text::texts(mount_path@),
                dirs@.map_values(of) == with_prefixes(known, paths, p, len as int),
                allocator.device() == VIRTUAL_DIR_DEVICE_ID,
                dirs.len() < usize::MAX ==> allocator.upcoming() == dirs.len() + 1,
                forall|k: int|
                    0 <= k < dirs@.len() && k < usize::MAX ==> (#[trigger] dirs@[k]).node_info
                        == (NodeInfo {
                        dev: VIRTUAL_DIR_DEVICE_ID as usize,
                        ino: (k + 1) as usize,
                        rdev: None,
                    }),
            decreases mount_path.len() - len,
        {
            let path = text::copy_prefix(mount_path, len);
            let ghost have = dirs@.map_values(of);
            let relation = MountRelation::of(mounts, &path);
            if relation != MountRelation::Exact && !is_virtual_dir(&dirs, &path) {
                let node_info = allocator.next();
                let ghost before = dirs@;
                dirs.push(VirtualDir { path, node_info });
                assert(dirs@.map_values(of) =~= have.push(text::texts(path@)));
            }
            len = len + 1;
        }
        i = i + 1;
    }
    dirs
}

/// Whether one of the virtual directories stands at `path`.
fn is_virtual_dir(dirs: &Vec<VirtualDir>, path: &Vec<String>) -> (r: bool)
    ensures
        r == dirs@.map_values(|d: VirtualDir| text::texts(d.path@)).contains(text::texts(path@)),
{
    let ghost have = dirs@.map_values(|d: VirtualDir| text::texts(d.path@));
    let mut i: usize = 0;
    while i < dirs.len()
        invariant
            i <= dirs.len(),
            have == dirs@.map_values(|d: VirtualDir| text::texts(d.path@)),
            forall|k: int| 0 <= k < i ==> have[k] != text::texts(path@),
        decreases dirs.len() - i,
    {
        if text::same_path(&dirs[i].path, path) {
            assert(have[i as int] == text::texts(path@));
            return true;
        }
        assert(have[i as int] == text::texts(dirs@[i as int].path@));
        i = i + 1;
    }
    false
}

/// The status of the virtual directory with the node `node_info`.
pub open spec fn virtual_status(node_info: NodeInfo) -> FileStatus {
    FileStatus {
        file_type: FileType::Directory,
        mode: Mode { bits: fs::DIRECTORY_MODE },
        size: fs::DEFAULT_DIRECTORY_SIZE,
        owner: fs::root_user(),
        node_info,
        blksize: fs::DEFAULT_DIRECTORY_SIZE,
    }
}

impl<B> Composer<B> {
    /// Whether `after` is this composer with nothing changed.
    pub open spec fn unchanged(&self, after: &Composer<B>) -> bool {
        &&& after.paths() == self.paths()
        &&& after.virtual_dirs() == self.virtual_dirs()
        &&& after.virtual_nodes() == self.virtual_nodes()
        &&& after.backends() == self.backends()
    }

    /// Whether `after` is this composer with nothing changed but the backend of one mount.
    pub open spec fn unchanged_except(&self, after: &Composer<B>, i: int) -> bool {
        &&& after.paths() == self.paths()
        &&& after.virtual_dirs() == self.virtual_dirs()
        &&& after.virtual_nodes() == self.virtual_nodes()
        &&& 0 <= i < self.backends().len()
        &&& after.backends() == self.backends().update(i, after.backends()[i])
    }

    /// The status of the virtual directory at `path`.
    pub open spec fn virtual_status_at(&self, path: Seq<Seq<char>>) -> FileStatus {
        virtual_status(self.virtual_nodes()[self.virtual_dirs().index_of(path)])
    }

    /// Whether the mutation of `name` in the directory `path` is left to the backend: the child
    /// neither is a mount point nor leads to one.
    pub open spec fn is_own_child(&self, path: Seq<Seq<char>>, name: Seq<char>) -> bool {
        relation_of(self.paths(), path.push(name)) == MountRelation::Unrelated
    }

    fn mount_relation(&self, path: &Vec<String>) -> (r: MountRelation)
        ensures
            r == relation_of(self.paths(), text::texts(path@)),
    {
        MountRelation::of(&self.mounts, path)
    }

    /// `path` with `name` appended, unless that is a mount point or leads to one. Mutating the
    /// entries that lead to mount points is not supported.
    fn checked_child_path<E>(&self, path: Vec<String>, name: &str, error: E) -> (r: Result<
        Vec<String>,
        E,
    >)
        ensures
            match r {
                Ok(child) => self.is_own_child(text::texts(path@), name@) && text::texts(child@)
                    == text::texts(path@).push(name@),
                Err(e) => !self.is_own_child(text::texts(path@), name@) && e == error,
            },
    {
        let child = append_component(path, name);
        if self.mount_relation(&child) != MountRelation::Unrelated {
            return Err(error);
        }
        Ok(child)
    }

    /// The child names that lead to mount points; mounted contents are not inspected.
    fn immediate_mount_children(&self, path: &Vec<String>) -> (r: Vec<String>)
        ensures
            text::texts(r@) == mount_children(self.paths(), text::texts(path@)),
    {
        let ghost paths = self.paths();
        let ghost p = text::texts(path@);
        let mut children: Vec<String> = Vec::new();
        let mut i: usize = 0;
        assert(text::texts(children@) =~= mount_children(paths.take(0), p));
        while i < self.mounts.len()
            invariant
                i <= self.mounts.len(),
                paths == self.paths(),
                p == text::texts(path@),
                text::texts(children@) == mount_children(paths.take(i as int), p),
            decreases self.mounts.len() - i,
        {
            let mount = &self.mounts[i].path;
            assert(paths[i as int] == text::texts(mount@));
            assert(paths.take(i + 1).drop_last() =~= paths.take(i as int));
            assert(paths.take(i + 1).last() == paths[i as int]);
            if path.len() < mount.len() && text::starts_with(mount, path) {
                let child = mount[path.len()].clone();
                assert(child@ == text::texts(mount@)[p.len() as int]);
                if !has_text(&children, child.as_str()) {
                    let ghost before = children@;
                    children.push(child);
                    assert(text::texts(children@) =~= text::texts(before).push(child@));
                }
            }
            i = i + 1;
        }
        assert(paths.take(i as int) =~= paths);
        children
    }

    fn list_mount_children(&self, path: &Vec<String>) -> (r: Vec<DirEntry>)
        ensures
            fs::entry_views(r@) == mount_children(self.paths(), text::texts(path@)).map_values(
                |name: Seq<char>| mount_child_entry(name),
            ),
    {
        let names = self.immediate_mount_children(path);
        let mut entries: Vec<DirEntry> = Vec::new();
        let mut i: usize = 0;
        while i < names.len()
            invariant
                i <= names.len(),
                entries.len() == i,
                forall|k: int|
                    0 <= k < i ==> (#[trigger] entries@[k])@ == mount_child_entry(names@[k]@),
            decreases names.len() - i,
        {
            entries.push(
                DirEntry {
                    name: names[i].clone(),
                    file_type: FileType::Directory,
                    ino_info: None,
                },
            );
            i = i + 1;
        }
        proof {
            let children = text::texts(names@);
            assert forall|k: int| 0 <= k < entries@.len() implies fs::entry_views(entries@)[k]
                == #[trigger] mount_child_entry(children[k]) by {
                assert(entries@[k]@ == mount_child_entry(names@[k]@));
            }
            assert(fs::entry_views(entries@) =~= children.map_values(
                |name: Seq<char>| mount_child_entry(name),
            ));
        }
        entries
    }

    fn merge_mount_children(&self, entries: Vec<DirEntry>, path: &Vec<String>) -> (r: Vec<DirEntry>)
        ensures
            fs::entry_views(r@) == merged_entries(
                fs::entry_views(entries@),
                mount_children(self.paths(), text::texts(path@)),
            ),
    {
        let ghost given = fs::entry_views(entries@);
        let names = self.immediate_mount_children(path);
        let ghost children = text::texts(names@);
        let mut merged = entries;
        let mut i: usize = 0;
        assert(children.take(0) =~= Seq::empty());
        while i < names.len()
            invariant
                i <= names.len(),
                children == text::texts(names@),
                fs::entry_views(merged@) == merged_entries(given, children.take(i as int)),
            decreases names.len() - i,
        {
            let ghost before = fs::entry_views(merged@);
            let mut kept = without_name(merged, names[i].as_str());
            let ghost kept_views = fs::entry_views(kept@);
            kept.push(
                DirEntry {
                    name: names[i].clone(),
                    file_type: FileType::Directory,
                    ino_info: None,
                },
            );
            proof {
                let now = children.take(i + 1);
                assert(now.drop_last() =~= children.take(i as int));
                assert(now.last() == names@[i as int]@);
                assert(fs::entry_views(kept@) =~= kept_views.push(mount_child_entry(now.last())));
                let f = |e: EntryView| e.name != now.last();
                let g = |e: EntryView| e.name != names@[i as int]@;
                assert(f =~= g);
            }
            merged = kept;
            i = i + 1;
        }
        assert(children.take(i as int) =~= children);
        merged
    }

    /// The mount at exactly `path`.
    fn exact_mount(&self, path: &Vec<String>) -> (r: Option<usize>)
        ensures
            match r {
                Some(i) => mount_at(self.paths(), text::texts(path@)) == Some(i as int) && i
                    < self.mounts@.len(),
                None => mount_at(self.paths(), text::texts(path@)) is None,
            },
    {
        let ghost paths = self.paths();
        let ghost p = text::texts(path@);
        let mut i: usize = 0;
        assert(paths.skip(0) =~= paths);
        while i < self.mounts.len()
            invariant
                i <= self.mounts.len(),
                paths == self.paths(),
                p == text::texts(path@),
                mount_at(paths, p) == match mount_at(paths.skip(i as int), p) {
                    Some(k) => Some(k + i),
                    None => None,
                },
            decreases self.mounts.len() - i,
        {
            proof {
                lemma_relation_step(paths, i as int, p);
            }
            assert(paths[i as int] == text::texts(self.mounts@[i as int].path@));
            if text::same_path(&self.mounts[i].path, path) {
                return Some(i);
            }
            i = i + 1;
        }
        None
    }

    fn virtual_dir_status(&self, path: &Vec<String>) -> (r: FileStatus)
        requires
            self.is_composed(),
            self.virtual_dirs().contains(text::texts(path@)),
        ensures
            r == self.virtual_status_at(text::texts(path@)),
    {
        let ghost dirs = self.virtual_dirs();
        let ghost p = text::texts(path@);
        let mut i: usize = 0;
        while i < self.virtual_dirs.len()
            invariant
                i <= self.virtual_dirs.len(),
                dirs == self.virtual_dirs(),
                p == text::texts(path@),
                dirs.contains(p),
                self.is_composed(),
                forall|k: int| 0 <= k < i ==> dirs[k] != p,
            decreases self.virtual_dirs.len() - i,
        {
            assert(dirs[i as int] == text::texts(self.virtual_dirs@[i as int].path@));
            if text::same_path(&self.virtual_dirs[i].path, path) {
                let node_info = self.virtual_dirs[i].node_info;
                proof {
                    lemma_virtual_paths(self.paths(), self.paths().len() as int);
                    assert(dirs.index_of(p) == i);
                    assert(self.virtual_nodes()[i as int] == node_info);
                }
                return FileStatus {
                    file_type: FileType::Directory,
                    mode: Mode { bits: fs::DIRECTORY_MODE },
                    size: fs::DEFAULT_DIRECTORY_SIZE,
                    owner: UserInfo::root(),
                    node_info,
                    blksize: fs::DEFAULT_DIRECTORY_SIZE,
                };
            }
            i = i + 1;
        }
        assert(false);
        FileStatus {
            file_type: FileType::Directory,
            mode: Mode::empty(),
            size: 0,
            owner: UserInfo::root(),
            node_info: NodeInfo { dev: 0, ino: 0, rdev: None },
            blksize: 0,
        }
    }

    /// How many of the components from `from` on can be walked before reaching another mount
    /// boundary.
    fn mounted_walk_prefix_len(
        &self,
        path: &Vec<String>,
        components: &[&str],
        from: usize,
    ) -> (r: usize)
        requires
            from <= components.len(),
        ensures
            r == walk_prefix(
                self.paths(),
                text::texts(path@),
                text::words(components@).skip(from as int),
            ),
            from + r <= components.len(),
    {
        let ghost paths = self.paths();
        let ghost p = text::texts(path@);
        let ghost comps = text::words(components@);
        let mut next_path = text::copy_path(path);
        let mut i: usize = from;
        while i < components.len()
            invariant
                from <= i <= components.len(),
                paths == self.paths(),
                p == text::texts(path@),
                comps == text::words(components@),
                walk_prefix(paths, p, comps.skip(from as int)) == i - from + walk_prefix(
                    paths,
                    text::texts(next_path@),
                    comps.skip(i as int),
                ),
            decreases components.len() - i,
        {
            let ghost before = text::texts(next_path@);
            next_path = append_component(next_path, components[i]);
            assert(comps.skip(i as int)[0] == components@[i as int]@);
            assert(comps.skip(i as int).drop_first() =~= comps.skip(i + 1));
            assert(text::texts(next_path@) == before.push(comps.skip(i as int)[0]));
            if self.mount_relation(&next_path) != MountRelation::Unrelated {
                return i - from;
            }
            i = i + 1;
        }
        assert(comps.skip(i as int).len() == 0);
        i - from
    }
}

/// Whether `names` holds `name`.
fn has_text(names: &Vec<String>, name: &str) -> (r: bool)
    ensures
        r == text::texts(names@).contains(name@),
{
    let mut i: usize = 0;
    while i < names.len()
        invariant
            i <= names.len(),
            forall|k: int| 0 <= k < i ==> text::texts(names@)[k] != name@,
        decreases names.len() - i,
    {
        assert(text::texts(names@)[i as int] == names@[i as int]@);
        if text::same_text(names[i].as_str(), name) {
            return true;
        }
        i = i + 1;
    }
    false
}

/// The entries whose name is not `name`.
fn without_name(entries: Vec<DirEntry>, name: &str) -> (r: Vec<DirEntry>)
    ensures
        fs::entry_views(r@) == fs::entry_views(entries@).filter(|e: EntryView| e.name != name@),
{
    let ghost given = fs::entry_views(entries@);
    let ghost keep = |e: EntryView| e.name != name@;
    let mut rest = entries;
    let mut reversed: Vec<DirEntry> = Vec::new();
    while rest.len() > 0
        invariant
            rest@.len() + reversed@.len() == given.len(),
            forall|k: int| 0 <= k < rest@.len() ==> (#[trigger] rest@[k])@ == given[k],
            forall|k: int|
                0 <= k < reversed@.len() ==> (#[trigger] reversed@[k])@ == given[given.len() - 1
                    - k],
        decreases rest.len(),
    {
        if let Some(e) = rest.pop() {
            reversed.push(e);
        }
    }
    let mut kept: Vec<DirEntry> = Vec::new();
    let ghost mut n: int = 0;
    assert(fs::entry_views(kept@) =~= given.take(0).filter(keep)) by {
        reveal(Seq::filter);
    }
    while reversed.len() > 0
        invariant
            n + reversed@.len() == given.len(),
            0 <= n,
            keep == (|e: EntryView| e.name != name@),
            forall|k: int|
                0 <= k < reversed@.len() ==> (#[trigger] reversed@[k])@ == given[given.len() - 1
                    - k],
            fs::entry_views(kept@) == given.take(n).filter(keep),
        decreases reversed.len(),
    {
        if let Some(e) = reversed.pop() {
            let ghost before = kept@;
            proof {
                assert(e@ == given[n]);
                assert(given.take(n + 1).drop_last() =~= given.take(n));
                assert(given.take(n + 1).last() == e@);
                reveal(Seq::filter);
            }
            if !text::same_text(e.name.as_str(), name) {
                let ghost shown = e@;
                kept.push(e);
                assert(fs::entry_views(kept@) =~= fs::entry_views(before).push(shown));
            }
            proof {
                n = n + 1;
            }
        }
    }
    assert(given.take(n) =~= given);
    kept
}

/// The walk of `components` from `at`, after the components `walked`.
///
/// A component that is a mount point enters the backend mounted there. One that leads to a mount
/// point is the backend's own directory where it has one, and a virtual directory otherwise. Any
/// other component belongs to the backend that is being walked, which gets all components up to
/// the next one that relates to a mount point.
pub open spec fn composed_walk<B: Backend>(
    c: Composer<B>,
    at: ComposedDir<B::WalkingV>,
    components: Seq<Seq<char>>,
    walked: Seq<WalkedComponent>,
) -> Result<WalkResult<ComposedDir<B::WalkingV>>, WalkError>
    decreases components.len(),
{
    if components.len() == 0 {
        Ok(
            WalkResult {
                components: walked,
                last: at,
                stop_reason: WalkStopReason::CompleteDirectory,
            },
        )
    } else {
        let child = at.location().push(components[0]);
        let rest = components.drop_first();
        match mount_at(c.paths(), child) {
            Some(i) => composed_walk(
                c,
                ComposedDir::Mounted { path: child, mount_index: i, handle: c.backends()[i].root_spec() },
                rest,
                walked.push(by_backend()),
            ),
            None => match at {
                ComposedDir::Virtual { .. } => if relation_of(c.paths(), child)
                    == MountRelation::AncestorOfMount {
                    composed_walk(
                        c,
                        ComposedDir::Virtual { path: child },
                        rest,
                        walked.push(by_backend()),
                    )
                } else {
                    Err(WalkError::PathError(PathError::NoSuchFileOrDirectory))
                },
                ComposedDir::Mounted { path, mount_index, handle } => {
                    let leads = relation_of(c.paths(), child) == MountRelation::AncestorOfMount;
                    let len = if leads { 1 } else { walk_prefix(c.paths(), path, components) };
                    match c.backends()[mount_index].walk_spec(handle, components.take(len)) {
                        Ok(o) => {
                            let n = o.components.len() as int;
                            let last = ComposedDir::Mounted {
                                path: path + components.take(n),
                                mount_index,
                                handle: o.last,
                            };
                            if o.stop_reason == WalkStopReason::CompleteDirectory && 0 < n
                                <= components.len() {
                                composed_walk(c, last, components.skip(n), walked + o.components)
                            } else {
                                Ok(
                                    WalkResult {
                                        components: walked + o.components,
                                        last,
                                        stop_reason: o.stop_reason,
                                    },
                                )
                            }
                        },
                        Err(e) => if leads && e == WalkError::PathError(
                            PathError::NoSuchFileOrDirectory,
                        ) {
                            composed_walk(
                                c,
                                ComposedDir::Virtual { path: child },
                                rest,
                                walked.push(by_backend()),
                            )
                        } else {
                            Err(e)
                        },
                    }
                },
            },
        }
    }
}

/// A walk counts what it has walked: the handle that it ends at stands where the start does, with
/// exactly the walked components appended, and it belongs to the composer.
pub proof fn lemma_composed_walk<B: Backend>(
    c: Composer<B>,
    at: ComposedDir<B::WalkingV>,
    components: Seq<Seq<char>>,
    walked: Seq<WalkedComponent>,
)
    requires
        c.wf(),
        c.has_walking(at),
    ensures
        composed_walk(c, at, components, walked) is Ok ==> {
            let r = composed_walk(c, at, components, walked)->Ok_0;
            let n = r.components.len() - walked.len();
            &&& 0 <= n <= components.len()
            &&& r.components.take(walked.len() as int) == walked
            &&& r.stop_reason == WalkStopReason::CompleteDirectory ==> n == components.len()
            &&& c.has_walking(r.last)
            &&& r.last.location() == at.location() + components.take(n)
        },
    decreases components.len(),
{
    if components.len() == 0 {
        assert(walked.take(walked.len() as int) =~= walked);
        assert(at.location() + components.take(0) =~= at.location());
    } else {
        let child = at.location().push(components[0]);
        let rest = components.drop_first();
        let more = walked.push(by_backend());
        lemma_mount_at(c.paths(), child);
        assert(more.take(walked.len() as int) =~= walked);
        assert forall|n: int| 0 <= n <= rest.len() implies child + #[trigger] rest.take(n)
            == at.location() + components.take(n + 1) by {
            assert(child + rest.take(n) =~= at.location() + components.take(n + 1));
        }
        assert forall|x: Seq<WalkedComponent>| x.len() >= more.len() && #[trigger] x.take(
            more.len() as int,
        ) == more implies x.take(walked.len() as int) == walked by {
            assert(x.take(walked.len() as int) =~= x.take(more.len() as int).take(
                walked.len() as int,
            ));
        }
        match mount_at(c.paths(), child) {
            Some(i) => {
                let next = ComposedDir::Mounted {
                    path: child,
                    mount_index: i,
                    handle: c.backends()[i].root_spec(),
                };
                c.backends()[i].root_is_own();
                lemma_composed_walk(c, next, rest, more);
            },
            None => {
                if relation_of(c.paths(), child) == MountRelation::AncestorOfMount {
                    lemma_leading_path_is_virtual(c, child);
                    lemma_composed_walk(c, ComposedDir::Virtual { path: child }, rest, more);
                }
                if let ComposedDir::Mounted { path, mount_index, handle } = at {
                    let leads = relation_of(c.paths(), child) == MountRelation::AncestorOfMount;
                    lemma_walk_prefix(c.paths(), path, components);
                    let len = if leads { 1 } else { walk_prefix(c.paths(), path, components) };
                    lemma_unrelated(c.paths(), child);
                    let given = components.take(len);
                    c.backends()[mount_index].walk_is_sound(handle, given);
                    if let Ok(o) = c.backends()[mount_index].walk_spec(handle, given) {
                        let n = o.components.len() as int;
                        let last = ComposedDir::Mounted {
                            path: path + components.take(n),
                            mount_index,
                            handle: o.last,
                        };
                        let all = walked + o.components;
                        assert(all.take(walked.len() as int) =~= walked);
                        if o.stop_reason == WalkStopReason::CompleteDirectory && 0 < n
                            <= components.len() {
                            let after = components.skip(n);
                            lemma_composed_walk(c, last, after, all);
                            assert forall|m: int| 0 <= m <= after.len() implies last.location()
                                + #[trigger] after.take(m) == at.location() + components.take(
                                n + m,
                            ) by {
                                assert(last.location() + after.take(m) =~= at.location()
                                    + components.take(n + m));
                            }
                            assert forall|x: Seq<WalkedComponent>|
                                x.len() >= all.len() && #[trigger] x.take(all.len() as int)
                                    == all implies x.take(walked.len() as int) == walked by {
                                assert(x.take(walked.len() as int) =~= x.take(
                                    all.len() as int,
                                ).take(walked.len() as int));
                            }
                        }
                    }
                }
            },
        }
    }
}

/// A mount point is reached by walking its path through the virtual directories that lead to it:
/// the walk ends at the root of the backend that is mounted there.
pub proof fn lemma_mounts_are_reached<B: Backend>(
    c: Composer<B>,
    from: Seq<Seq<char>>,
    components: Seq<Seq<char>>,
    walked: Seq<WalkedComponent>,
    i: int,
)
    requires
        components.len() > 0,
        mount_at(c.paths(), from + components) == Some(i),
        forall|k: int|
            0 < k < components.len() ==> mount_at(
                c.paths(),
                from + #[trigger] components.take(k),
            ) is None,
    ensures
        composed_walk(c, ComposedDir::Virtual { path: from }, components, walked) is Ok,
        ({
            let r = composed_walk(c, ComposedDir::Virtual { path: from }, components, walked)->Ok_0;
            &&& r.stop_reason == WalkStopReason::CompleteDirectory
            &&& r.last == (ComposedDir::Mounted {
                path: from + components,
                mount_index: i,
                handle: c.backends()[i].root_spec(),
            })
        }),
    decreases components.len(),
{
    let child = from.push(components[0]);
    let rest = components.drop_first();
    let more = walked.push(by_backend());
    let paths = c.paths();
    lemma_mount_at(paths, from + components);
    assert(from + components =~= child + rest);
    if rest.len() == 0 {
        assert(child =~= from + components);
        let next = ComposedDir::Mounted {
            path: child,
            mount_index: i,
            handle: c.backends()[i].root_spec(),
        };
        assert(composed_walk(c, next, rest, more) is Ok);
    } else {
        assert(child =~= from + components.take(1));
        lemma_mount_at(paths, child);
        assert(is_ancestor(child, paths[i])) by {
            assert((from + components).take(child.len() as int) =~= child);
        }
        lemma_unrelated(paths, child);
        assert forall|k: int| 0 < k < rest.len() implies mount_at(
            paths,
            child + #[trigger] rest.take(k),
        ) is None by {
            assert(child + rest.take(k) =~= from + components.take(k + 1));
        }
        lemma_mounts_are_reached(c, child, rest, more, i);
    }
}

/// A path that leads to a mount point, and is none itself, is a virtual directory.
proof fn lemma_leading_path_is_virtual<B: Backend>(c: Composer<B>, path: Seq<Seq<char>>)
    requires
        c.wf(),
        relation_of(c.paths(), path) == MountRelation::AncestorOfMount,
    ensures
        c.virtual_dirs().contains(path),
{
    lemma_unrelated(c.paths(), path);
    lemma_virtual_paths(c.paths(), c.paths().len() as int);
}

/// The value of a walking handle.
spec fn walking_value<B: Backend>(w: ComposerDirHandleInner<B::Walking>) -> ComposedDir<
    B::WalkingV,
> {
    match w {
        ComposerDirHandleInner::Virtual { path } => ComposedDir::Virtual {
            path: text::texts(path@),
        },
        ComposerDirHandleInner::Mounted { path, mount_index, handle } => ComposedDir::Mounted {
            path: text::texts(path@),
            mount_index: mount_index as int,
            handle: B::walking_view(handle),
        },
    }
}

/// Replacing the backend of one mount keeps everything else.
proof fn lemma_backend_changed<B: Backend>(before: Composer<B>, after: Composer<B>, i: int)
    requires
        before.wf(),
        0 <= i < before.mounts@.len(),
        after.virtual_dirs == before.virtual_dirs,
        after.mounts@ == before.mounts@.update(
            i,
            Mount { path: before.mounts@[i].path, backend: after.mounts@[i].backend },
        ),
        after.mounts@[i].backend.wf(),
    ensures
        before.unchanged_except(&after, i),
        after.wf(),
        after.backends()[i] == after.mounts@[i].backend,
{
    assert(after.paths() =~= before.paths());
    assert(after.backends() =~= before.backends().update(i, after.mounts@[i].backend));
}

/// What a composed operation on a file handle hands to the backend.
pub open spec fn inner_open<F>(
    r: Result<Permissioned<ComposerFileHandle<F>>, OpenError>,
) -> Result<Permissioned<F>, OpenError> {
    match r {
        Ok(p) => Ok(Permissioned { item: p.item.file(), permissions: p.permissions }),
        Err(e) => Err(e),
    }
}

impl<B: Backend> Backend for Composer<B> {
    type Walking = ComposerWalkingDirHandle<B::Walking>;

    type Dir = ComposerDirHandle<B::Dir>;

    type File = ComposerFileHandle<B::File>;

    type WalkingV = ComposedDir<B::WalkingV>;

    type DirV = ComposedDir<B::DirV>;

    closed spec fn walking_view(w: Self::Walking) -> Self::WalkingV {
        walking_value::<B>(w.inner)
    }

    closed spec fn dir_view(d: Self::Dir) -> Self::DirV {
        match d.inner {
            ComposerDirHandleInner::Virtual { path } => ComposedDir::Virtual {
                path: text::texts(path@),
            },
            ComposerDirHandleInner::Mounted { path, mount_index, handle } => ComposedDir::Mounted {
                path: text::texts(path@),
                mount_index: mount_index as int,
                handle: B::dir_view(handle),
            },
        }
    }

    open spec fn wf(&self) -> bool {
        &&& self.is_composed()
        &&& forall|i: int| 0 <= i < self.backends().len() ==> (#[trigger] self.backends()[i]).wf()
    }

    open spec fn has_walking(&self, w: Self::WalkingV) -> bool {
        match w {
            ComposedDir::Virtual { path } => self.virtual_dirs().contains(path),
            ComposedDir::Mounted { mount_index, handle, .. } => 0 <= mount_index
                < self.backends().len() && self.backends()[mount_index].has_walking(handle),
        }
    }

    open spec fn has_dir(&self, d: Self::DirV) -> bool {
        match d {
            ComposedDir::Virtual { path } => self.virtual_dirs().contains(path),
            ComposedDir::Mounted { mount_index, handle, .. } => 0 <= mount_index
                < self.backends().len() && self.backends()[mount_index].has_dir(handle),
        }
    }

    open spec fn has_file(&self, f: Self::File) -> bool {
        0 <= f.index() < self.backends().len() && self.backends()[f.index()].has_file(f.file())
    }

    open spec fn root_spec(&self) -> Self::WalkingV {
        match mount_at(self.paths(), Seq::empty()) {
            Some(i) => ComposedDir::Mounted {
                path: Seq::empty(),
                mount_index: i,
                handle: self.backends()[i].root_spec(),
            },
            None => ComposedDir::Virtual { path: Seq::empty() },
        }
    }

    open spec fn walk_spec(&self, from: Self::WalkingV, components: Seq<Seq<char>>) -> Result<
        WalkResult<Self::WalkingV>,
        WalkError,
    > {
        composed_walk(*self, from, components, Seq::empty())
    }

    open spec fn can_own_dir(&self, dir: Self::WalkingV, flags: OFlags) -> bool {
        match dir {
            ComposedDir::Virtual { .. } => true,
            ComposedDir::Mounted { mount_index, handle, .. } => {
                self.backends()[mount_index].can_own_dir(handle, flags)
            },
        }
    }

    open spec fn own_dir_spec(&self, dir: Self::WalkingV, flags: OFlags) -> Result<
        Self::DirV,
        OpenError,
    > {
        match dir {
            ComposedDir::Virtual { path } => Ok(ComposedDir::Virtual { path }),
            ComposedDir::Mounted { path, mount_index, handle } => {
                match self.backends()[mount_index].own_dir_spec(handle, flags) {
                    Ok(d) => Ok(ComposedDir::Mounted { path, mount_index, handle: d }),
                    Err(e) => Err(e),
                }
            },
        }
    }

    open spec fn walking_dir_spec(&self, dir: Self::DirV) -> Option<Self::WalkingV> {
        match dir {
            ComposedDir::Virtual { path } => Some(ComposedDir::Virtual { path }),
            ComposedDir::Mounted { path, mount_index, handle } => {
                match self.backends()[mount_index].walking_dir_spec(handle) {
                    Some(w) => Some(ComposedDir::Mounted { path, mount_index, handle: w }),
                    None => None,
                }
            },
        }
    }

    open spec fn can_open(&self, dir: Self::WalkingV, name: Seq<char>, flags: OFlags) -> bool {
        match dir {
            ComposedDir::Virtual { .. } => true,
            ComposedDir::Mounted { path, mount_index, handle } => self.is_own_child(path, name)
                ==> self.backends()[mount_index].can_open(handle, name, flags),
        }
    }

    open spec fn opens(
        &self,
        dir: Self::WalkingV,
        name: Seq<char>,
        flags: OFlags,
        after: &Self,
        r: Result<Permissioned<Self::File>, OpenError>,
    ) -> bool {
        match dir {
            ComposedDir::Mounted { path, mount_index, handle } if self.is_own_child(path, name) => {
                &&& self.unchanged_except(after, mount_index)
                &&& r is Ok ==> r->Ok_0.item.index() == mount_index
                &&& self.backends()[mount_index].opens(
                    handle,
                    name,
                    flags,
                    &after.backends()[mount_index],
                    inner_open(r),
                )
            },
            _ => self.unchanged(after) && r is Err && r->Err_0 == OpenError::PathError(
                PathError::NoSuchFileOrDirectory,
            ),
        }
    }

    open spec fn lists(&self, dir: Self::DirV, r: Result<Seq<EntryView>, ReadDirError>) -> bool {
        let children = mount_children(self.paths(), dir.location());
        match dir {
            ComposedDir::Virtual { .. } => r == Ok::<Seq<EntryView>, ReadDirError>(
                children.map_values(|name: Seq<char>| mount_child_entry(name)),
            ),
            ComposedDir::Mounted { mount_index, handle, .. } => match r {
                Ok(entries) => exists|own: Seq<EntryView>| #[trigger]
                    self.backends()[mount_index].lists(handle, Ok(own)) && entries
                        == merged_entries(own, children),
                Err(e) => self.backends()[mount_index].lists(handle, Err(e)),
            },
        }
    }

    open spec fn can_read(&self, h: Self::File, len: nat, offset: usize) -> bool {
        self.backends()[h.index()].can_read(h.file(), len, offset)
    }

    open spec fn reads(
        &self,
        h: Self::File,
        before: Seq<u8>,
        offset: usize,
        after: Seq<u8>,
        r: Result<usize, ReadError>,
    ) -> bool {
        self.backends()[h.index()].reads(h.file(), before, offset, after, r)
    }

    open spec fn static_spec(&self, h: Self::File) -> Option<Seq<u8>> {
        self.backends()[h.index()].static_spec(h.file())
    }

    open spec fn can_write(&self, h: Self::File, len: nat, offset: usize) -> bool {
        self.backends()[h.index()].can_write(h.file(), len, offset)
    }

    open spec fn writes(
        &self,
        h: Self::File,
        data: Seq<u8>,
        offset: usize,
        after: &Self,
        r: Result<usize, WriteError>,
    ) -> bool {
        &&& self.unchanged_except(after, h.index())
        &&& self.backends()[h.index()].writes(
            h.file(),
            data,
            offset,
            &after.backends()[h.index()],
            r,
        )
    }

    open spec fn can_truncate(&self, h: Self::File, length: usize) -> bool {
        self.backends()[h.index()].can_truncate(h.file(), length)
    }

    open spec fn truncates(
        &self,
        h: Self::File,
        length: usize,
        after: &Self,
        r: Result<(), TruncateError>,
    ) -> bool {
        &&& self.unchanged_except(after, h.index())
        &&& self.backends()[h.index()].truncates(h.file(), length, &after.backends()[h.index()], r)
    }

    open spec fn seek_spec(&self, h: Self::File) -> SeekBehavior {
        self.backends()[h.index()].seek_spec(h.file())
    }

    open spec fn file_status_spec(&self, h: Self::File) -> Result<FileStatus, FileStatusError> {
        self.backends()[h.index()].file_status_spec(h.file())
    }

    open spec fn dir_status_spec(&self, d: Self::DirV) -> Result<FileStatus, FileStatusError> {
        match d {
            ComposedDir::Virtual { path } => Ok(self.virtual_status_at(path)),
            ComposedDir::Mounted { mount_index, handle, .. } => {
                self.backends()[mount_index].dir_status_spec(handle)
            },
        }
    }

    open spec fn creates(
        &self,
        dir: Self::DirV,
        name: Seq<char>,
        mode: Mode,
        after: &Self,
        r: Result<Self::File, OpenError>,
    ) -> bool {
        match dir {
            ComposedDir::Mounted { path, mount_index, handle } if self.is_own_child(path, name) => {
                &&& self.unchanged_except(after, mount_index)
                &&& r is Ok ==> r->Ok_0.index() == mount_index
                &&& self.backends()[mount_index].creates(
                    handle,
                    name,
                    mode,
                    &after.backends()[mount_index],
                    match r {
                        Ok(f) => Ok(f.file()),
                        Err(e) => Err(e),
                    },
                )
            },
            _ => self.unchanged(after) && r is Err && r->Err_0 == OpenError::ReadOnlyFileSystem,
        }
    }

    open spec fn makes_dir(
        &self,
        dir: Self::DirV,
        name: Seq<char>,
        mode: Mode,
        after: &Self,
        r: Result<Self::DirV, MkdirError>,
    ) -> bool {
        match dir {
            ComposedDir::Mounted { path, mount_index, handle } if self.is_own_child(path, name) => {
                &&& self.unchanged_except(after, mount_index)
                &&& match r {
                    Ok(ComposedDir::Mounted { path: made, mount_index: i, handle: h }) => {
                        &&& made == path.push(name)
                        &&& i == mount_index
                        &&& self.backends()[mount_index].makes_dir(
                            handle,
                            name,
                            mode,
                            &after.backends()[mount_index],
                            Ok(h),
                        )
                    },
                    Ok(_) => false,
                    Err(e) => self.backends()[mount_index].makes_dir(
                        handle,
                        name,
                        mode,
                        &after.backends()[mount_index],
                        Err(e),
                    ),
                }
            },
            _ => self.unchanged(after) && r is Err && r->Err_0 == MkdirError::ReadOnlyFileSystem,
        }
    }

    open spec fn unlinks(
        &self,
        dir: Self::DirV,
        name: Seq<char>,
        after: &Self,
        r: Result<(), UnlinkError>,
    ) -> bool {
        match dir {
            ComposedDir::Mounted { path, mount_index, handle } if self.is_own_child(path, name) => {
                &&& self.unchanged_except(after, mount_index)
                &&& self.backends()[mount_index].unlinks(
                    handle,
                    name,
                    &after.backends()[mount_index],
                    r,
                )
            },
            _ => self.unchanged(after) && r is Err && r->Err_0 == UnlinkError::ReadOnlyFileSystem,
        }
    }

    open spec fn removes_dir(
        &self,
        dir: Self::DirV,
        name: Seq<char>,
        after: &Self,
        r: Result<(), RmdirError>,
    ) -> bool {
        match dir {
            ComposedDir::Mounted { path, mount_index, handle } if self.is_own_child(path, name) => {
                &&& self.unchanged_except(after, mount_index)
                &&& self.backends()[mount_index].removes_dir(
                    handle,
                    name,
                    &after.backends()[mount_index],
                    r,
                )
            },
            _ => self.unchanged(after) && r is Err && r->Err_0 == RmdirError::ReadOnlyFileSystem,
        }
    }

    open spec fn chmods(
        &self,
        dir: Self::DirV,
        name: Seq<char>,
        mode: Mode,
        after: &Self,
        r: Result<(), ChmodError>,
    ) -> bool {
        match dir {
            ComposedDir::Mounted { path, mount_index, handle } if self.is_own_child(path, name) => {
                &&& self.unchanged_except(after, mount_index)
                &&& self.backends()[mount_index].chmods(
                    handle,
                    name,
                    mode,
                    &after.backends()[mount_index],
                    r,
                )
            },
            _ => self.unchanged(after) && r is Err && r->Err_0 == ChmodError::ReadOnlyFileSystem,
        }
    }

    open spec fn chowns(
        &self,
        dir: Self::DirV,
        name: Seq<char>,
        user: Option<u16>,
        group: Option<u16>,
        after: &Self,
        r: Result<(), ChownError>,
    ) -> bool {
        match dir {
            ComposedDir::Mounted { path, mount_index, handle } if self.is_own_child(path, name) => {
                &&& self.unchanged_except(after, mount_index)
                &&& self.backends()[mount_index].chowns(
                    handle,
                    name,
                    user,
                    group,
                    &after.backends()[mount_index],
                    r,
                )
            },
            _ => self.unchanged(after) && r is Err && r->Err_0 == ChownError::ReadOnlyFileSystem,
        }
    }

    proof fn root_is_own(&self) {
        lemma_mount_at(self.paths(), Seq::empty());
        match mount_at(self.paths(), Seq::empty()) {
            Some(i) => {
                self.backends()[i].root_is_own();
            },
            None => {
                let root = Seq::<Seq<char>>::empty();
                let first = self.paths()[0];
                assert(self.paths().contains(first));
                assert(first.take(0) =~= root);
                if first.len() == 0 {
                    assert(first =~= root);
                }
                assert(is_ancestor(root, first));
                lemma_virtual_paths(self.paths(), self.paths().len() as int);
                lemma_unrelated(self.paths(), root);
            },
        }
    }

    proof fn walk_is_sound(&self, from: Self::WalkingV, components: Seq<Seq<char>>) {
        lemma_composed_walk(*self, from, components, Seq::empty());
    }

    fn root(&self) -> (r: Self::Walking) {
        let path: Vec<String> = Vec::new();
        assert(text::texts(path@) =~= Seq::empty());
        proof {
            self.root_is_own();
        }
        let inner = match self.exact_mount(&path) {
            Some(i) => {
                assert(self.backends()[i as int].wf());
                ComposerDirHandleInner::Mounted {
                    path,
                    mount_index: i,
                    handle: self.mounts[i].backend.root(),
                }
            },
            None => ComposerDirHandleInner::Virtual { path },
        };
        ComposerWalkingDirHandle { inner }
    }

    fn walk_directories(&self, from: Self::Walking, components: &[&str]) -> (r: Result<
        WalkOutcome<Self::Walking>,
        WalkError,
    >) {
        let ghost comps = text::words(components@);
        let ghost start = Self::walking_view(from);
        let mut current = from.inner;
        let mut walked: Vec<WalkedComponent> = Vec::new();
        let mut index: usize = 0;
        assert(comps.skip(0) =~= comps);
        assert(walked@ =~= Seq::empty());
        while index < components.len()
            invariant
                index <= components.len(),
                comps == text::words(components@),
                start == Self::walking_view(from),
                self.wf(),
                self.has_walking(walking_value::<B>(current)),
                composed_walk(*self, start, comps, Seq::empty()) == composed_walk(
                    *self,
                    walking_value::<B>(current),
                    comps.skip(index as int),
                    walked@,
                ),
            decreases components.len() - index,
        {
            let ghost at = walking_value::<B>(current);
            let ghost todo = comps.skip(index as int);
            assert(todo[0] == components@[index as int]@);
            assert(todo.drop_first() =~= comps.skip(index + 1));
            match current {
                ComposerDirHandleInner::Virtual { path } => {
                    let child = append_component(path, components[index]);
                    match self.exact_mount(&child) {
                        Some(i) => {
                            assert(self.backends()[i as int].wf());
                            proof {
                                self.backends()[i as int].root_is_own();
                            }
                            walked.push(
                                WalkedComponent { permissions: PermissionCheck::ByBackend },
                            );
                            current =
                            ComposerDirHandleInner::Mounted {
                                path: child,
                                mount_index: i,
                                handle: self.mounts[i].backend.root(),
                            };
                        },
                        None => {
                            if self.mount_relation(&child) != MountRelation::AncestorOfMount {
                                return Err(
                                    WalkError::PathError(PathError::NoSuchFileOrDirectory),
                                );
                            }
                            proof {
                                lemma_leading_path_is_virtual(*self, text::texts(child@));
                            }
                            walked.push(
                                WalkedComponent { permissions: PermissionCheck::ByBackend },
                            );
                            current = ComposerDirHandleInner::Virtual { path: child };
                        },
                    }
                    index = index + 1;
                },
                ComposerDirHandleInner::Mounted { path, mount_index, handle } => {
                    let child = append_component(
                        text::copy_path(&path),
                        components[index],
                    );
                    match self.exact_mount(&child) {
                        Some(i) => {
                            assert(self.backends()[i as int].wf());
                            proof {
                                self.backends()[i as int].root_is_own();
                            }
                            walked.push(
                                WalkedComponent { permissions: PermissionCheck::ByBackend },
                            );
                            current =
                            ComposerDirHandleInner::Mounted {
                                path: child,
                                mount_index: i,
                                handle: self.mounts[i].backend.root(),
                            };
                            index = index + 1;
                        },
                        None => {
                            let leads = self.mount_relation(&child)
                                == MountRelation::AncestorOfMount;
                            proof {
                                lemma_mount_at(self.paths(), text::texts(child@));
                                lemma_unrelated(self.paths(), text::texts(child@));
                                lemma_walk_prefix(self.paths(), text::texts(path@), todo);
                            }
                            let len: usize = if leads {
                                1
                            } else {
                                self.mounted_walk_prefix_len(&path, components, index)
                            };
                            let given = vstd::slice::slice_subrange(
                                components,
                                index,
                                index + len,
                            );
                            assert(text::words(given@) =~= todo.take(len as int));
                            let ghost inner = B::walking_view(handle);
                            proof {
                                assert(self.backends()[mount_index as int].wf());
                                self.backends()[mount_index as int].walk_is_sound(
                                    inner,
                                    todo.take(len as int),
                                );
                            }
                            match self.mounts[mount_index].backend.walk_directories(
                                handle,
                                given,
                            ) {
                                Ok(outcome) => {
                                    let n: usize = outcome.components.len();
                                    let ghost before = walked@;
                                    let mut more = outcome.components;
                                    walked.append(&mut more);
                                    let reached = append_components(
                                        path,
                                        components,
                                        index,
                                        index + n,
                                    );
                                    assert(comps.subrange(index as int, index + n) =~= todo.take(
                                        n as int,
                                    ));
                                    assert(todo.skip(n as int) =~= comps.skip(index + n));
                                    let last = ComposerDirHandleInner::Mounted {
                                        path: reached,
                                        mount_index,
                                        handle: outcome.last,
                                    };
                                    match outcome.stop_reason {
                                        WalkStopReason::CompleteDirectory => {
                                            index = index + n;
                                            current = last;
                                        },
                                        _ => {
                                            return Ok(
                                                WalkOutcome {
                                                    components: walked,
                                                    last: ComposerWalkingDirHandle { inner: last },
                                                    stop_reason: outcome.stop_reason,
                                                },
                                            );
                                        },
                                    }
                                },
                                Err(error) => {
                                    if leads && error == WalkError::PathError(
                                        PathError::NoSuchFileOrDirectory,
                                    ) {
                                        proof {
                                            lemma_leading_path_is_virtual(
                                                *self,
                                                text::texts(child@),
                                            );
                                        }
                                        walked.push(
                                            WalkedComponent {
                                                permissions: PermissionCheck::ByBackend,
                                            },
                                        );
                                        current = ComposerDirHandleInner::Virtual { path: child };
                                        index = index + 1;
                                    } else {
                                        return Err(error);
                                    }
                                },
                            }
                        },
                    }
                },
            }
        }
        assert(comps.skip(index as int).len() == 0);
        Ok(
            WalkOutcome {
                components: walked,
                last: ComposerWalkingDirHandle { inner: current },
                stop_reason: WalkStopReason::CompleteDirectory,
            },
        )
    }

    fn owned_dir_at(&self, dir: Self::Walking, flags: OFlags) -> (r: Result<Self::Dir, OpenError>) {
        let inner = match dir.inner {
            ComposerDirHandleInner::Virtual { path } => ComposerDirHandleInner::Virtual { path },
            ComposerDirHandleInner::Mounted { path, mount_index, handle } => {
                assert(self.backends()[mount_index as int].wf());
                match self.mounts[mount_index].backend.owned_dir_at(handle, flags) {
                    Ok(handle) => ComposerDirHandleInner::Mounted { path, mount_index, handle },
                    Err(e) => {
                        return Err(e);
                    },
                }
            },
        };
        Ok(ComposerDirHandle { inner })
    }

    fn walking_dir_at(&self, dir: &Self::Dir) -> (r: Option<Self::Walking>) {
        let inner = match &dir.inner {
            ComposerDirHandleInner::Virtual { path } => ComposerDirHandleInner::Virtual {
                path: text::copy_path(path),
            },
            ComposerDirHandleInner::Mounted { path, mount_index, handle } => {
                assert(self.backends()[*mount_index as int].wf());
                match self.mounts[*mount_index].backend.walking_dir_at(handle) {
                    Some(handle) => ComposerDirHandleInner::Mounted {
                        path: text::copy_path(path),
                        mount_index: *mount_index,
                        handle,
                    },
                    None => {
                        return None;
                    },
                }
            },
        };
        Some(ComposerWalkingDirHandle { inner })
    }

    fn open_file_at(&mut self, dir: Self::Walking, name: &str, flags: OFlags) -> (r: Result<
        Permissioned<Self::File>,
        OpenError,
    >) {
        let ghost before = *self;
        match dir.inner {
            ComposerDirHandleInner::Virtual { .. } => Err(
                OpenError::PathError(PathError::NoSuchFileOrDirectory),
            ),
            ComposerDirHandleInner::Mounted { path, mount_index, handle } => {
                if let Err(e) = self.checked_child_path(
                    path,
                    name,
                    OpenError::PathError(PathError::NoSuchFileOrDirectory),
                ) {
                    return Err(e);
                }
                assert(self.backends()[mount_index as int].wf());
                let r = self.mounts[mount_index].backend.open_file_at(handle, name, flags);
                proof {
                    lemma_backend_changed(before, *self, mount_index as int);
                }
                match r {
                    Ok(file) => Ok(
                        Permissioned {
                            item: ComposerFileHandle { mount_index, handle: file.item },
                            permissions: file.permissions,
                        },
                    ),
                    Err(e) => Err(e),
                }
            },
        }
    }

    fn list_dir_at(&self, dir: Self::Dir) -> (r: Result<Vec<DirEntry>, ReadDirError>) {
        match dir.inner {
            ComposerDirHandleInner::Virtual { path } => Ok(self.list_mount_children(&path)),
            ComposerDirHandleInner::Mounted { path, mount_index, handle } => {
                assert(self.backends()[mount_index as int].wf());
                match self.mounts[mount_index].backend.list_dir_at(handle) {
                    Ok(entries) => {
                        let ghost own = fs::entry_views(entries@);
                        let merged = self.merge_mount_children(entries, &path);
                        assert(self.backends()[mount_index as int].lists(
                            B::dir_view(handle),
                            Ok(own),
                        ));
                        Ok(merged)
                    },
                    Err(e) => Err(e),
                }
            },
        }
    }

    fn read(&self, h: &Self::File, buf: &mut [u8], offset: usize) -> (r: Result<
        usize,
        ReadError,
    >) {
        assert(self.backends()[h.mount_index as int].wf());
        self.mounts[h.mount_index].backend.read(&h.handle, buf, offset)
    }

    fn get_static_backing_data(&self, h: &Self::File) -> (r: Option<&'static [u8]>) {
        assert(self.backends()[h.mount_index as int].wf());
        self.mounts[h.mount_index].backend.get_static_backing_data(&h.handle)
    }

    fn write(&mut self, h: &Self::File, data: &[u8], offset: usize) -> (r: Result<
        usize,
        WriteError,
    >) {
        let ghost before = *self;
        assert(self.backends()[h.mount_index as int].wf());
        let r = self.mounts[h.mount_index].backend.write(&h.handle, data, offset);
        proof {
            lemma_backend_changed(before, *self, h.mount_index as int);
        }
        r
    }

    fn truncate(&mut self, h: &Self::File, length: usize) -> (r: Result<(), TruncateError>) {
        let ghost before = *self;
        assert(self.backends()[h.mount_index as int].wf());
        let r = self.mounts[h.mount_index].backend.truncate(&h.handle, length);
        proof {
            lemma_backend_changed(before, *self, h.mount_index as int);
        }
        r
    }

    fn seek_behavior(&self, h: &Self::File) -> (r: SeekBehavior) {
        assert(self.backends()[h.mount_index as int].wf());
        self.mounts[h.mount_index].backend.seek_behavior(&h.handle)
    }

    fn file_status(&self, h: &Self::File) -> (r: Result<FileStatus, FileStatusError>) {
        assert(self.backends()[h.mount_index as int].wf());
        self.mounts[h.mount_index].backend.file_status(&h.handle)
    }

    fn dir_status(&self, d: &Self::Dir) -> (r: Result<FileStatus, FileStatusError>) {
        match &d.inner {
            ComposerDirHandleInner::Virtual { path } => Ok(self.virtual_dir_status(path)),
            ComposerDirHandleInner::Mounted { mount_index, handle, .. } => {
                assert(self.backends()[*mount_index as int].wf());
                self.mounts[*mount_index].backend.dir_status(handle)
            },
        }
    }

    fn create_file_at(&mut self, dir: Self::Dir, name: &str, mode: Mode) -> (r: Result<
        Self::File,
        OpenError,
    >) {
        let ghost before = *self;
        match dir.inner {
            ComposerDirHandleInner::Virtual { .. } => Err(OpenError::ReadOnlyFileSystem),
            ComposerDirHandleInner::Mounted { path, mount_index, handle } => {
                if let Err(e) = self.checked_child_path(path, name, OpenError::ReadOnlyFileSystem) {
                    return Err(e);
                }
                assert(self.backends()[mount_index as int].wf());
                let r = self.mounts[mount_index].backend.create_file_at(handle, name, mode);
                proof {
                    lemma_backend_changed(before, *self, mount_index as int);
                }
                match r {
                    Ok(handle) => Ok(ComposerFileHandle { mount_index, handle }),
                    Err(e) => Err(e),
                }
            },
        }
    }

    fn mkdir_at(&mut self, dir: Self::Dir, name: &str, mode: Mode) -> (r: Result<
        Self::Dir,
        MkdirError,
    >) {
        let ghost before = *self;
        match dir.inner {
            ComposerDirHandleInner::Virtual { .. } => Err(MkdirError::ReadOnlyFileSystem),
            ComposerDirHandleInner::Mounted { path, mount_index, handle } => {
                let path = match self.checked_child_path(
                    path,
                    name,
                    MkdirError::ReadOnlyFileSystem,
                ) {
                    Ok(path) => path,
                    Err(e) => {
                        return Err(e);
                    },
                };
                assert(self.backends()[mount_index as int].wf());
                let r = self.mounts[mount_index].backend.mkdir_at(handle, name, mode);
                proof {
                    lemma_backend_changed(before, *self, mount_index as int);
                }
                match r {
                    Ok(handle) => Ok(
                        ComposerDirHandle {
                            inner: ComposerDirHandleInner::Mounted { path, mount_index, handle },
                        },
                    ),
                    Err(e) => Err(e),
                }
            },
        }
    }

    fn unlink_at(&mut self, dir: Self::Dir, name: &str) -> (r: Result<(), UnlinkError>) {
        let ghost before = *self;
        match dir.inner {
            ComposerDirHandleInner::Virtual { .. } => Err(UnlinkError::ReadOnlyFileSystem),
            ComposerDirHandleInner::Mounted { path, mount_index, handle } => {
                if let Err(e) = self.checked_child_path(path, name, UnlinkError::ReadOnlyFileSystem) {
                    return Err(e);
                }
                assert(self.backends()[mount_index as int].wf());
                let r = self.mounts[mount_index].backend.unlink_at(handle, name);
                proof {
                    lemma_backend_changed(before, *self, mount_index as int);
                }
                r
            },
        }
    }

    fn rmdir_at(&mut self, dir: Self::Dir, name: &str) -> (r: Result<(), RmdirError>) {
        let ghost before = *self;
        match dir.inner {
            ComposerDirHandleInner::Virtual { .. } => Err(RmdirError::ReadOnlyFileSystem),
            ComposerDirHandleInner::Mounted { path, mount_index, handle } => {
                if let Err(e) = self.checked_child_path(path, name, RmdirError::ReadOnlyFileSystem) {
                    return Err(e);
                }
                assert(self.backends()[mount_index as int].wf());
                let r = self.mounts[mount_index].backend.rmdir_at(handle, name);
                proof {
                    lemma_backend_changed(before, *self, mount_index as int);
                }
                r
            },
        }
    }

    fn chmod_at(&mut self, dir: Self::Dir, name: &str, mode: Mode) -> (r: Result<(), ChmodError>) {
        let ghost before = *self;
        match dir.inner {
            ComposerDirHandleInner::Virtual { .. } => Err(ChmodError::ReadOnlyFileSystem),
            ComposerDirHandleInner::Mounted { path, mount_index, handle } => {
                if let Err(e) = self.checked_child_path(path, name, ChmodError::ReadOnlyFileSystem) {
                    return Err(e);
                }
                assert(self.backends()[mount_index as int].wf());
                let r = self.mounts[mount_index].backend.chmod_at(handle, name, mode);
                proof {
                    lemma_backend_changed(before, *self, mount_index as int);
                }
                r
            },
        }
    }

    fn chown_at(
        &mut self,
        dir: Self::Dir,
        name: &str,
        user: Option<u16>,
        group: Option<u16>,
    ) -> (r: Result<(), ChownError>) {
        let ghost before = *self;
        match dir.inner {
            ComposerDirHandleInner::Virtual { .. } => Err(ChownError::ReadOnlyFileSystem),
            ComposerDirHandleInner::Mounted { path, mount_index, handle } => {
                if let Err(e) = self.checked_child_path(path, name, ChownError::ReadOnlyFileSystem) {
                    return Err(e);
                }
                assert(self.backends()[mount_index as int].wf());
                let r = self.mounts[mount_index].backend.chown_at(handle, name, user, group);
                proof {
                    lemma_backend_changed(before, *self, mount_index as int);
                }
                r
            },
        }
    }
}

} // verus!
