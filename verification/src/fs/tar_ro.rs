//! A read-only file system over the contents of a tar archive.
use crate::fs;
use crate::fs::backend::{
    Backend, PermissionCheck, PermissionInfo, Permissioned, SeekBehavior, WalkOutcome, WalkResult,
    WalkStopReason, WalkedComponent,
};
use crate::fs::errors::{
    ChmodError, ChownError, FileStatusError, MkdirError, OpenError, PathError, ReadDirError,
    ReadError, RmdirError, TruncateError, UnlinkError, WalkError, WriteError,
};
use crate::fs::in_mem;
use crate::fs::in_mem::{
    is_read_of, lemma_mem_walk, mem_walk, path_flags, resolve_dir, DirRef, DirState, FileBytes,
    FileState, InMemState,
};
use crate::fs::inode_allocator::{lemma_advance, node_after, InodeAllocator};
use crate::fs::names::{Child, NameMap};
use crate::fs::{names, DirEntry, EntryView, FileStatus, FileType, Mode, NodeInfo, OFlags, UserInfo};
use crate::text;
use vstd::prelude::*;
use vstd::string::*;

verus! {

/// Block size for file system I/O operations.
pub const BLOCK_SIZE: usize = 0;

/// Permissions of every directory: anybody may do anything.
pub const DEFAULT_DIR_MODE: u32 = 0o777;

/// Size of the blocks that an archive is made of.
pub const TAR_BLOCK_SIZE: usize = 512;

/// No payload that the twelve octal digits of a header can declare is this long.
pub const TAR_PAYLOAD_LIMIT: u64 = 0x10_0000_0000;

/// Owner of a directory with no file below it.
pub open spec fn default_directory_owner() -> UserInfo {
    UserInfo { user: 1000, group: 1000 }
}

/// A regular file of an archive. Fields that are not well-formed in the archive are `None`.
#[derive(Debug)]
pub struct TarEntry {
    pub name: Option<String>,
    pub data: Vec<u8>,
    /// Set-user-ID, set-group-ID and sticky bits, and the nine permission bits.
    pub mode: Option<u64>,
    pub uid: Option<u16>,
    pub gid: Option<u16>,
}

/// The value of a [`TarEntry`].
#[verifier::ext_equal]
pub struct TarEntryView {
    pub name: Option<Seq<char>>,
    pub data: Seq<u8>,
    pub mode: Option<u64>,
    pub uid: Option<u16>,
    pub gid: Option<u16>,
}

impl View for TarEntry {
    type V = TarEntryView;

    open spec fn view(&self) -> TarEntryView {
        TarEntryView {
            name: match self.name {
                Some(name) => Some(name@),
                None => None,
            },
            data: self.data@,
            mode: self.mode,
            uid: self.uid,
            gid: self.gid,
        }
    }
}

/// The values of a list of entries.
pub open spec fn tar_entry_views(entries: Seq<TarEntry>) -> Seq<TarEntryView> {
    entries.map_values(|e: TarEntry| e@)
}

/// The regular files of an archive, in the order of the archive.
pub uninterp spec fn tar_entries(data: Seq<u8>) -> Seq<TarEntryView>;

/// The number that the octal digits at the start of some text go on to write, after `n`.
pub open spec fn octal_from(n: nat, s: Seq<u8>) -> nat
    decreases s.len(),
{
    if s.len() > 0 && 0x30 <= s[0] <= 0x37 {
        octal_from((8 * n + (s[0] - 0x30)) as nat, s.skip(1))
    } else {
        n
    }
}

/// Where in a header the size of the payload starts.
pub const TAR_SIZE_START: usize = 124;

/// Where in a header the size of the payload ends.
pub const TAR_SIZE_END: usize = 136;

/// The size of the payload that a block declares if it is a header. The number may have a sign.
pub open spec fn declared_size(data: Seq<u8>, block: int) -> nat {
    let start = block * TAR_BLOCK_SIZE;
    let field = data.subrange(start + TAR_SIZE_START, start + TAR_SIZE_END);
    octal_from(
        0,
        if field[0] == 0x2b {
            field.skip(1)
        } else {
            field
        },
    )
}

/// Whether the payload that a block declares if it is a header ends within the address space, or is
/// longer than any number there is.
pub open spec fn payload_fits(data: Seq<u8>, block: int) -> bool {
    ||| (block + 1) * TAR_BLOCK_SIZE + declared_size(data, block) <= usize::MAX
    ||| declared_size(data, block) > usize::MAX
}

/// Whether data has the shape of an archive: at least three blocks, and no partial one. What a
/// header of the archive declares to be its payload must end within the address space, as it does
/// where that is large.
pub open spec fn is_tar_shaped(data: Seq<u8>) -> bool {
    &&& data.len() % (TAR_BLOCK_SIZE as nat) == 0
    &&& data.len() >= 3 * TAR_BLOCK_SIZE
    &&& data.len() + TAR_PAYLOAD_LIMIT <= usize::MAX || forall|block: int|
        0 <= block < data.len() / (TAR_BLOCK_SIZE as nat) ==> #[trigger] payload_fits(data, block)
}

/// How many numbers can be written with some octal digits.
spec fn octal_numbers(digits: nat) -> nat
    decreases digits,
{
    if digits == 0 {
        1
    } else {
        8 * octal_numbers((digits - 1) as nat)
    }
}

proof fn lemma_octal_numbers(digits: nat)
    requires
        digits <= 12,
    ensures
        octal_numbers(digits) <= 0x10_0000_0000,
    decreases 12 - digits,
{
    if digits == 12 {
        reveal_with_fuel(octal_numbers, 13);
    } else {
        lemma_octal_numbers(digits + 1);
    }
}

/// Reads the size of the payload that a block declares.
fn read_declared_size(data: &[u8], block: usize) -> (r: u64)
    requires
        (block + 1) * TAR_BLOCK_SIZE <= data@.len(),
    ensures
        r == declared_size(data@, block as int),
{
    assert(data.len() == data@.len());
    let start: usize = block * TAR_BLOCK_SIZE + TAR_SIZE_START;
    let ghost field = data@.subrange(start as int, start + 12);
    let mut k: usize = if data[start] == 0x2b {
        1
    } else {
        0
    };
    let ghost digits = field.skip(k as int);
    let mut n: u64 = 0;
    proof {
        reveal_with_fuel(octal_numbers, 2);
    }
    assert(field.skip(0) =~= field);
    assert(declared_size(data@, block as int) == octal_from(0, digits));
    while k < 12 && 0x30 <= data[start + k] && data[start + k] <= 0x37
        invariant
            k <= 12,
            start + 12 <= data@.len(),
            data@.len() <= usize::MAX,
            field == data@.subrange(start as int, start + 12),
            octal_from(0, digits) == octal_from(n as nat, field.skip(k as int)),
            n < octal_numbers(k as nat),
        decreases 12 - k,
    {
        proof {
            lemma_octal_numbers((k + 1) as nat);
            assert(field.skip(k as int)[0] == data@[start + k]);
            assert(field.skip(k as int).skip(1) =~= field.skip(k + 1));
        }
        n = 8 * n + (data[start + k] - 0x30) as u64;
        k = k + 1;
    }
    assert(k < 12 ==> field.skip(k as int)[0] == data@[start + k]);
    n
}

/// Whether the payload of every block that is a header ends within the address space.
fn payloads_fit(data: &[u8]) -> (r: bool)
    ensures
        r == (forall|block: int|
            0 <= block < data@.len() / (TAR_BLOCK_SIZE as nat) ==> #[trigger] payload_fits(
                data@,
                block,
            )),
{
    let blocks: usize = data.len() / TAR_BLOCK_SIZE;
    let limit: u64 = usize::MAX as u64;
    let mut block: usize = 0;
    while block < blocks
        invariant
            block <= blocks,
            blocks == data@.len() / (TAR_BLOCK_SIZE as nat),
            data@.len() <= usize::MAX,
            limit == usize::MAX,
            forall|b: int| 0 <= b < block ==> #[trigger] payload_fits(data@, b),
        decreases blocks - block,
    {
        let end: usize = (block + 1) * TAR_BLOCK_SIZE;
        let size: u64 = read_declared_size(data, block);
        if size <= limit && size > limit - end as u64 {
            assert(!payload_fits(data@, block as int));
            return false;
        }
        assert(payload_fits(data@, block as int));
        block = block + 1;
    }
    true
}

/// [`tar_no_std::TarArchiveRef::new`] and [`tar_no_std::TarArchiveRef::entries`]: the regular files
/// of an archive, each with its name, its data, and its mode and owner as parsed from its header.
/// Construction succeeds on data of the required shape.
#[verifier::external_body]
fn archive_entries(data: &[u8]) -> (r: Vec<TarEntry>)
    requires
        is_tar_shaped(data@),
    ensures
        tar_entry_views(r@) == tar_entries(data@),
{
    let archive = tar_no_std::TarArchiveRef::new(data).expect("invalid tar data");
    archive.entries().map(|entry| {
        let header = entry.posix_header();
        TarEntry {
            name: entry.filename().as_str().ok().map(String::from),
            data: entry.data().to_vec(),
            mode: header.mode.to_flags().ok().map(|flags| flags.bits()),
            uid: header.uid.as_number().ok(),
            gid: header.gid.as_number().ok(),
        }
    }).collect()
}

/// A file name without a leading `./`.
pub open spec fn normalized(name: Seq<char>) -> Seq<char> {
    if name.len() >= 2 && name[0] == '.' && name[1] == '/' {
        name.skip(2)
    } else {
        name
    }
}

/// The entries that have a name.
pub open spec fn named(entries: Seq<TarEntryView>) -> Seq<TarEntryView> {
    entries.filter(|e: TarEntryView| e.name is Some)
}

/// The components of the path of a named entry.
pub open spec fn file_path(e: TarEntryView) -> Seq<Seq<char>> {
    text::path_components(normalized(e.name->Some_0))
}

/// Whether an entry can be indexed: it has a path, permissions and an owner.
pub open spec fn is_usable(e: TarEntryView) -> bool {
    &&& normalized(e.name->Some_0).len() > 0
    &&& e.mode is Some
    &&& e.uid is Some
    &&& e.gid is Some
}

/// Whether entries can be indexed: every named one can, and none comes twice.
pub open spec fn are_usable(entries: Seq<TarEntryView>) -> bool {
    &&& forall|k: int| 0 <= k < named(entries).len() ==> is_usable(#[trigger] named(entries)[k])
    &&& forall|j: int, k: int|
        0 <= j < k < named(entries).len() ==> normalized((#[trigger] named(entries)[j]).name->Some_0)
            != normalized((#[trigger] named(entries)[k]).name->Some_0)
}

/// The owner of an entry.
pub open spec fn entry_owner(e: TarEntryView) -> UserInfo {
    UserInfo { user: e.uid->Some_0, group: e.gid->Some_0 }
}

/// The permission bits of a mode.
pub open spec fn permission_bits(mode: u64) -> Mode {
    Mode { bits: (mode & 0o777) as u32 }
}

/// The file that an entry becomes, given its node.
pub open spec fn indexed_file(e: TarEntryView, node_info: NodeInfo) -> FileState {
    FileState {
        perms: PermissionInfo {
            mode: permission_bits(e.mode->Some_0),
            owner: entry_owner(e),
        },
        data: e.data,
        is_static: false,
        node_info,
    }
}

/// Whether `path` is in the directory `dir`, or below it.
pub open spec fn lies_below(path: Seq<Seq<char>>, dir: Seq<Seq<char>>) -> bool {
    dir.len() < path.len() && path.take(dir.len() as int) == dir
}

/// Whether the way to `path` goes through the entry `name` of the directory `dir`.
pub open spec fn leads_through(path: Seq<Seq<char>>, dir: Seq<Seq<char>>, name: Seq<char>) -> bool {
    lies_below(path, dir) && path[dir.len() as int] == name
}

/// Whether some file is in the directory `dir`, or below it.
pub open spec fn has_files(files: Seq<TarEntryView>, dir: Seq<Seq<char>>) -> bool {
    exists|f: int| 0 <= f < files.len() && lies_below(file_path(#[trigger] files[f]), dir)
}

/// Whether the way to some file goes through the entry `name` of the directory `dir`.
pub open spec fn has_files_through(
    files: Seq<TarEntryView>,
    dir: Seq<Seq<char>>,
    name: Seq<char>,
) -> bool {
    exists|f: int|
        0 <= f < files.len() && leads_through(file_path(#[trigger] files[f]), dir, name)
}

/// Whether `owner` owns some file in or below the directory `dir`.
pub open spec fn owns_files(files: Seq<TarEntryView>, dir: Seq<Seq<char>>, owner: UserInfo) -> bool {
    exists|f: int|
        0 <= f < files.len() && lies_below(file_path(#[trigger] files[f]), dir) && owner
            == entry_owner(files[f])
}

/// Whether `tree`, whose directories have the paths `dirs`, is an index of the files `files`.
///
/// There is a directory for each proper prefix of the path of a file and for nothing else, and
/// the entries of a directory are the names that lead to files. Where one name can stand both for
/// a file and for a directory, or for two files, it stands for one of them. A directory belongs
/// to the owner of one of the files below it.
pub open spec fn is_index_of(
    tree: InMemState,
    dirs: Seq<Seq<Seq<char>>>,
    files: Seq<TarEntryView>,
    device: usize,
    first: usize,
) -> bool {
    &&& tree.files.len() == files.len()
    &&& forall|f: int|
        0 <= f < files.len() ==> #[trigger] tree.files[f] == indexed_file(
            files[f],
            node_after(device, first, f),
        )
    &&& tree.dirs.len() == dirs.len()
    &&& dirs.len() > 0
    &&& dirs[0].len() == 0
    &&& forall|d: int, e: int|
        0 <= d < e < dirs.len() ==> #[trigger] dirs[d] != #[trigger] dirs[e]
    &&& forall|d: int| 0 < d < dirs.len() ==> has_files(files, #[trigger] dirs[d])
    &&& forall|f: int, i: int|
        0 <= f < files.len() && 0 <= i < file_path(files[f]).len() ==> dirs.contains(
            #[trigger] file_path(files[f]).take(i),
        )
    &&& forall|d: int|
        0 <= d < dirs.len() ==> (#[trigger] tree.dirs[d]).node_info == node_after(
            device,
            first,
            files.len() + d,
        ) && tree.dirs[d].perms.mode.bits == DEFAULT_DIR_MODE
    &&& forall|d: int|
        0 <= d < dirs.len() ==> if has_files(files, #[trigger] dirs[d]) {
            owns_files(files, dirs[d], tree.dirs[d].perms.owner)
        } else {
            tree.dirs[d].perms.owner == default_directory_owner()
        }
    &&& forall|d: int, name: Seq<char>|
        0 <= d < dirs.len() ==> #[trigger] tree.has(d, name) == has_files_through(
            files,
            dirs[d],
            name,
        )
    &&& forall|d: int, name: Seq<char>| #[trigger]
        tree.has(d, name) ==> match tree.node(d, name) {
            Child::File(f) => f < files.len() && file_path(files[f as int]) == dirs[d].push(name),
            Child::Dir(k) => d < k < dirs.len() && dirs[k as int] == dirs[d].push(name),
        }
}

/// In an index, walking along a path ends at the directory with that path, unless a file is in
/// the way.
pub proof fn lemma_directories_are_found(
    tree: InMemState,
    dirs: Seq<Seq<Seq<char>>>,
    files: Seq<TarEntryView>,
    device: usize,
    first: usize,
    path: Seq<Seq<char>>,
    n: int,
)
    requires
        is_index_of(tree, dirs, files, device, first),
        0 <= n <= path.len(),
        dirs.contains(path),
        forall|f: int, i: int|
            0 <= f < files.len() && 0 <= i <= path.len() ==> file_path(#[trigger] files[f])
                != #[trigger] path.take(i),
        dirs.contains(path.take(n)),
    ensures
        resolve_dir(tree, dirs.index_of(path.take(n)), path.skip(n)) == Some(dirs.index_of(path)),
    decreases path.len() - n,
{
    let at = dirs.index_of(path.take(n));
    if n == path.len() {
        assert(path.take(n) =~= path);
    } else {
        let end = dirs.index_of(path);
        assert(dirs[end] == path && end != 0);
        assert(has_files(files, dirs[end]));
        let f = choose|f: int|
            0 <= f < files.len() && lies_below(file_path(#[trigger] files[f]), dirs[end]);
        let full = file_path(files[f]);
        assert(full.take(n) =~= path.take(n));
        assert(full[n] == path[n]) by {
            assert(full.take(path.len() as int)[n] == path[n]);
        }
        assert(leads_through(full, dirs[at], path[n]));
        assert(tree.has(at, path[n]));
        assert(path.take(n).push(path[n]) =~= path.take(n + 1));
        assert(path.skip(n)[0] == path[n]);
        assert(path.skip(n).drop_first() =~= path.skip(n + 1));
        match tree.node(at, path[n]) {
            Child::File(g) => {
                assert(file_path(files[g as int]) == path.take(n + 1));
            },
            Child::Dir(k) => {
                assert(dirs[k as int] == path.take(n + 1));
                assert(dirs.index_of(path.take(n + 1)) == k);
                lemma_directories_are_found(tree, dirs, files, device, first, path, n + 1);
            },
        }
    }
}

/// Every file of an archive is found under its path, unless another file has the same path, or a
/// file is in the place of a directory of the path.
pub proof fn lemma_files_are_found(
    tree: InMemState,
    dirs: Seq<Seq<Seq<char>>>,
    files: Seq<TarEntryView>,
    device: usize,
    first: usize,
    f: int,
)
    requires
        is_index_of(tree, dirs, files, device, first),
        0 <= f < files.len(),
        file_path(files[f]).len() > 0,
        forall|g: int|
            0 <= g < files.len() && g != f ==> !lies_below(
                file_path(#[trigger] files[g]),
                file_path(files[f]),
            ) && file_path(files[g]) != file_path(files[f]) && !lies_below(
                file_path(files[f]),
                file_path(files[g]),
            ),
    ensures
        ({
            let path = file_path(files[f]);
            let parent = resolve_dir(tree, 0, path.drop_last());
            &&& parent is Some
            &&& tree.has(parent->Some_0, path.last())
            &&& tree.node(parent->Some_0, path.last()) == Child::File(f as usize)
        }),
{
    let path = file_path(files[f]);
    let parent = path.drop_last();
    assert(parent =~= path.take(path.len() - 1));
    assert(parent.take(0) =~= dirs[0]);
    assert(parent.skip(0) =~= parent);
    assert forall|g: int, i: int| 0 <= g < files.len() && 0 <= i <= parent.len() implies file_path(
        #[trigger] files[g],
    ) != #[trigger] parent.take(i) by {
        assert(parent.take(i) =~= path.take(i));
        if file_path(files[g]) == path.take(i) {
            assert(lies_below(path, file_path(files[g])));
        }
    }
    lemma_directories_are_found(tree, dirs, files, device, first, parent, 0);
    let d = dirs.index_of(parent);
    assert(dirs.index_of(parent.take(0)) == 0);
    assert(leads_through(path, dirs[d], path.last()));
    assert(tree.has(d, path.last()));
    assert(parent.push(path.last()) =~= path);
    match tree.node(d, path.last()) {
        Child::File(g) => {
            assert(file_path(files[g as int]) == path);
        },
        Child::Dir(k) => {
            assert(has_files(files, dirs[k as int]));
            let g = choose|g: int|
                0 <= g < files.len() && lies_below(file_path(#[trigger] files[g]), dirs[k as int]);
            assert(lies_below(file_path(files[g]), path));
        },
    }
}

/// Strip the `./` prefix from tar filenames if present.
///
/// This is helpful for tar files that have been created via `tar cvf foo.tar .`
fn normalize_tar_filename(filename: &str) -> (r: String)
    ensures
        r@ == normalized(filename@),
{
    let chars = text::chars_of(filename);
    if chars.len() >= 2 && chars[0] == '.' && chars[1] == '/' {
        let n: usize = chars.len();
        let r = filename.substring_char(2, n);
        assert(r@ =~= normalized(filename@));
        r.to_owned()
    } else {
        filename.to_owned()
    }
}

fn mode_of_modeflags(perms: u64) -> (r: Mode)
    ensures
        r == permission_bits(perms),
{
    Mode { bits: (perms & 0o777) as u32 }
}

/// What is known of a directory while the index is being built.
struct DirFacts {
    path: Seq<Seq<char>>,
    owner: Option<UserInfo>,
    children: Map<Seq<char>, Child>,
}

spec fn facts(dirs: Seq<IndexedDir>) -> Seq<DirFacts> {
    dirs.map_values(
        |d: IndexedDir| DirFacts { path: d.path@, owner: d.owner, children: d.children@ },
    )
}

spec fn at_path(g: Seq<DirFacts>, d: int, path: Seq<Seq<char>>) -> bool {
    0 <= d < g.len() && g[d].path == path
}

spec fn fits(g: Seq<DirFacts>, paths: Seq<Seq<Seq<char>>>, d: int, name: Seq<char>, child: Child) -> bool {
    match child {
        Child::File(f) => f < paths.len() && paths[f as int] == g[d].path.push(name),
        Child::Dir(k) => k < g.len() && g[k as int].path == g[d].path.push(name),
    }
}

spec fn is_directory(g: Seq<DirFacts>, path: Seq<Seq<char>>) -> bool {
    exists|d: int| #[trigger] at_path(g, d, path)
}

spec fn has_earlier_parent(g: Seq<DirFacts>, k: int) -> bool {
    exists|d: int| d < k && #[trigger] at_path(g, d, g[k].path.drop_last())
}

spec fn is_known(g: Seq<DirFacts>, key: Seq<char>) -> bool {
    exists|k: int| 0 <= k < g.len() && key == text::join_components((#[trigger] g[k]).path)
}

spec fn leads_somewhere(paths: Seq<Seq<Seq<char>>>, dir: Seq<Seq<char>>) -> bool {
    exists|f: int| 0 <= f < paths.len() && lies_below(#[trigger] paths[f], dir)
}

spec fn is_owned_from_below(
    paths: Seq<Seq<Seq<char>>>,
    owners: Seq<UserInfo>,
    dir: Seq<Seq<char>>,
    owner: UserInfo,
) -> bool {
    exists|f: int|
        0 <= f < paths.len() && lies_below(#[trigger] paths[f], dir) && owners[f] == owner
}

/// The directories `g` are what the files with `paths` need, where of file `f` the first `seen[f]`
/// components have been linked.
#[verifier::opaque]
spec fn is_partial(
    g: Seq<DirFacts>,
    by_path: Map<Seq<char>, Child>,
    paths: Seq<Seq<Seq<char>>>,
    owners: Seq<UserInfo>,
    seen: Seq<int>,
) -> bool {
    &&& 0 < g.len() <= usize::MAX
    &&& g[0].path.len() == 0
    &&& seen.len() == paths.len()
    &&& owners.len() == paths.len()
    &&& forall|k: int| 0 <= k < g.len() ==> text::are_components((#[trigger] g[k]).path)
    &&& forall|k: int, l: int|
        0 <= k < l < g.len() ==> (#[trigger] g[k]).path != (#[trigger] g[l]).path
    &&& forall|k: int| 0 < k < g.len() ==> #[trigger] has_earlier_parent(g, k)
    &&& forall|k: int|
        0 < k < g.len() ==> (#[trigger] g[k]).path.len() > 0 && leads_somewhere(paths, g[k].path)
    &&& forall|k: int|
        0 <= k < g.len() ==> by_path.contains_key(text::join_components((#[trigger] g[k]).path))
            && by_path[text::join_components(g[k].path)] == Child::Dir(k as usize)
    &&& forall|s: Seq<char>| #[trigger] by_path.contains_key(s) ==> is_known(g, s)
    &&& forall|d: int, name: Seq<char>|
        0 <= d < g.len() && #[trigger] g[d].children.contains_key(name) ==> fits(
            g,
            paths,
            d,
            name,
            g[d].children[name],
        )
    &&& forall|f: int, d: int|
        0 <= f < paths.len() && 0 <= d < g.len() && g[d].path.len() < seen[f] && #[trigger]
            lies_below(paths[f], g[d].path) ==> g[d].children.contains_key(
            paths[f][g[d].path.len() as int],
        ) && g[d].owner is Some
    &&& forall|d: int|
        0 <= d < g.len() && (#[trigger] g[d]).owner is Some ==> is_owned_from_below(
            paths,
            owners,
            g[d].path,
            g[d].owner->Some_0,
        )
    &&& forall|f: int, i: int|
        0 <= f < paths.len() && 0 <= i <= seen[f] && i < paths[f].len() ==> is_directory(
            g,
            #[trigger] paths[f].take(i),
        )
}

/// The owner of a directory below which a file of `owner` is found.
spec fn owned(d: DirFacts, owner: UserInfo) -> DirFacts {
    DirFacts {
        owner: if d.owner is Some {
            d.owner
        } else {
            Some(owner)
        },
        ..d
    }
}

spec fn linked(d: DirFacts, name: Seq<char>, child: Child) -> DirFacts {
    DirFacts { children: d.children.insert(name, child), ..d }
}

proof fn lemma_new_directory(
    g: Seq<DirFacts>,
    by_path: Map<Seq<char>, Child>,
    paths: Seq<Seq<Seq<char>>>,
    owners: Seq<UserInfo>,
    seen: Seq<int>,
    f: int,
    i: int,
    parent: int,
)
    requires
        is_partial(g, by_path, paths, owners, seen),
        0 <= f < paths.len(),
        0 <= i,
        i + 1 < paths[f].len(),
        seen[f] == i,
        text::are_components(paths[f]),
        at_path(g, parent, paths[f].take(i)),
        !by_path.contains_key(text::join_components(paths[f].take(i + 1))),
        g.len() < usize::MAX,
    ensures
        is_partial(
            g.push(
                DirFacts {
                    path: paths[f].take(i + 1),
                    owner: Some(owners[f]),
                    children: names::no_names(),
                },
            ),
            by_path.insert(
                text::join_components(paths[f].take(i + 1)),
                Child::Dir(g.len() as usize),
            ),
            paths,
            owners,
            seen,
        ),
{
    reveal(is_partial);
    let path = paths[f].take(i + 1);
    let g2 = g.push(DirFacts { path, owner: Some(owners[f]), children: names::no_names() });
    let key = text::join_components(path);
    let m2 = by_path.insert(key, Child::Dir(g.len() as usize));
    let n = g.len() as int;
    assert(lies_below(paths[f], g2[n].path));
    assert forall|k: int| 0 <= k < n implies (#[trigger] g[k]).path != path by {
        assert(by_path.contains_key(text::join_components(g[k].path)));
    }
    assert(path.drop_last() =~= paths[f].take(i));
    assert(at_path(g2, parent, g2[n].path.drop_last()));
    assert(forall|k: int| 0 <= k < n ==> #[trigger] g2[k] == g[k]);
    assert forall|p: Seq<Seq<char>>| is_directory(g, p) implies #[trigger] is_directory(g2, p) by {
        let d = choose|d: int| #[trigger] at_path(g, d, p);
        assert(at_path(g2, d, p));
    }
    assert forall|k: int| 0 < k < g2.len() implies #[trigger] has_earlier_parent(g2, k) by {
        if k < n {
            assert(has_earlier_parent(g, k));
            let d = choose|d: int| d < k && #[trigger] at_path(g, d, g[k].path.drop_last());
            assert(at_path(g2, d, g2[k].path.drop_last()));
        }
    }
    assert forall|s: Seq<char>| #[trigger] m2.contains_key(s) implies is_known(g2, s) by {
        if s == key {
            assert(s == text::join_components(g2[n].path));
        } else {
            let k = choose|k: int|
                0 <= k < g.len() && s == text::join_components((#[trigger] g[k]).path);
            assert(s == text::join_components(g2[k].path));
        }
    }
    assert forall|d: int, name: Seq<char>|
        0 <= d < g2.len() && #[trigger] g2[d].children.contains_key(name) implies fits(
        g2,
        paths,
        d,
        name,
        g2[d].children[name],
    ) by {
        assert(g[d].children.contains_key(name));
    }
    assert forall|h: int, d: int|
        0 <= h < paths.len() && 0 <= d < g2.len() && g2[d].path.len() < seen[h] && #[trigger]
            lies_below(paths[h], g2[d].path) implies g2[d].children.contains_key(
        paths[h][g2[d].path.len() as int],
    ) && g2[d].owner is Some by {
        if d == n {
            // Nothing was linked through a directory that did not exist.
            assert(paths[h].take(path.len() as int) == path);
            assert(is_directory(g, paths[h].take(i + 1)));
            let e = choose|e: int| #[trigger] at_path(g, e, path);
            assert(g[e].path == path);
            assert(false);
        } else {
            assert(lies_below(paths[h], g[d].path));
        }
    }
}

proof fn lemma_link(
    g: Seq<DirFacts>,
    by_path: Map<Seq<char>, Child>,
    paths: Seq<Seq<Seq<char>>>,
    owners: Seq<UserInfo>,
    seen: Seq<int>,
    f: int,
    i: int,
    parent: int,
    child: Child,
)
    requires
        is_partial(g, by_path, paths, owners, seen),
        0 <= f < paths.len(),
        0 <= i < paths[f].len(),
        seen[f] == i,
        at_path(g, parent, paths[f].take(i)),
        g[parent].owner is Some,
        fits(g, paths, parent, paths[f][i], child),
        i + 1 == paths[f].len() || child is Dir,
    ensures
        is_partial(
            g.update(parent, linked(g[parent], paths[f][i], child)),
            by_path,
            paths,
            owners,
            seen.update(f, i + 1),
        ),
{
    reveal(is_partial);
    let name = paths[f][i];
    let g2 = g.update(parent, linked(g[parent], name, child));
    let s2 = seen.update(f, i + 1);
    assert(forall|k: int| 0 <= k < g.len() ==> (#[trigger] g2[k]).path == (#[trigger] g[k]).path);
    assert(lies_below(paths[f], g[parent].path));
    assert forall|p: Seq<Seq<char>>| is_directory(g, p) implies #[trigger] is_directory(g2, p) by {
        let d = choose|d: int| #[trigger] at_path(g, d, p);
        assert(at_path(g2, d, p));
    }
    assert forall|k: int| 0 < k < g2.len() implies #[trigger] has_earlier_parent(g2, k) by {
        assert(has_earlier_parent(g, k) && g[k].path == g2[k].path);
        let d = choose|d: int| d < k && #[trigger] at_path(g, d, g[k].path.drop_last());
        assert(at_path(g2, d, g2[k].path.drop_last()));
    }
    assert forall|s: Seq<char>| #[trigger] by_path.contains_key(s) implies is_known(g2, s) by {
        let k = choose|k: int|
            0 <= k < g.len() && s == text::join_components((#[trigger] g[k]).path);
        assert(s == text::join_components(g2[k].path));
    }
    assert forall|d: int, n: Seq<char>|
        0 <= d < g2.len() && #[trigger] g2[d].children.contains_key(n) implies fits(
        g2,
        paths,
        d,
        n,
        g2[d].children[n],
    ) by {
        if !(d == parent && n == name) {
            assert(g[d].children.contains_key(n));
            assert(fits(g, paths, d, n, g[d].children[n]));
        }
    }
    assert forall|h: int, d: int|
        0 <= h < paths.len() && 0 <= d < g2.len() && g2[d].path.len() < s2[h] && #[trigger]
            lies_below(paths[h], g2[d].path) implies g2[d].children.contains_key(
        paths[h][g2[d].path.len() as int],
    ) && g2[d].owner is Some by {
        assert(lies_below(paths[h], g[d].path));
        if h == f && g[d].path.len() == i {
            assert(g[d].path == g[parent].path);
            assert(d == parent);
        } else {
            assert(g[d].path.len() < seen[h]);
        }
    }
    assert forall|d: int| 0 <= d < g2.len() && (#[trigger] g2[d]).owner is Some implies is_owned_from_below(
        paths,
        owners,
        g2[d].path,
        g2[d].owner->Some_0,
    ) by {
        assert(g[d].owner == g2[d].owner && g[d].path == g2[d].path);
    }
    assert forall|h: int, j: int|
        0 <= h < paths.len() && 0 <= j <= s2[h] && j < paths[h].len() implies is_directory(
        g2,
        #[trigger] paths[h].take(j),
    ) by {
        if h == f && j == i + 1 {
            let k = child->Dir_0 as int;
            assert(paths[f].take(i).push(name) =~= paths[f].take(i + 1));
            assert(at_path(g2, k, paths[h].take(j)));
        } else {
            assert(is_directory(g, paths[h].take(j)));
        }
    }
}

proof fn lemma_owned(
    g: Seq<DirFacts>,
    by_path: Map<Seq<char>, Child>,
    paths: Seq<Seq<Seq<char>>>,
    owners: Seq<UserInfo>,
    seen: Seq<int>,
    f: int,
    k: int,
)
    requires
        is_partial(g, by_path, paths, owners, seen),
        0 <= f < paths.len(),
        0 <= k < g.len(),
        lies_below(paths[f], g[k].path),
    ensures
        is_partial(g.update(k, owned(g[k], owners[f])), by_path, paths, owners, seen),
{
    reveal(is_partial);
    let g2 = g.update(k, owned(g[k], owners[f]));
    assert(forall|d: int|
        0 <= d < g.len() ==> (#[trigger] g2[d]).path == (#[trigger] g[d]).path && g2[d].children
            == g[d].children);
    assert forall|p: Seq<Seq<char>>| is_directory(g, p) implies #[trigger] is_directory(g2, p) by {
        let d = choose|d: int| #[trigger] at_path(g, d, p);
        assert(at_path(g2, d, p));
    }
    assert forall|k: int| 0 < k < g2.len() implies #[trigger] has_earlier_parent(g2, k) by {
        assert(has_earlier_parent(g, k) && g[k].path == g2[k].path);
        let d = choose|d: int| d < k && #[trigger] at_path(g, d, g[k].path.drop_last());
        assert(at_path(g2, d, g2[k].path.drop_last()));
    }
    assert forall|s: Seq<char>| #[trigger] by_path.contains_key(s) implies is_known(g2, s) by {
        let k = choose|k: int|
            0 <= k < g.len() && s == text::join_components((#[trigger] g[k]).path);
        assert(s == text::join_components(g2[k].path));
    }
    assert forall|d: int, n: Seq<char>|
        0 <= d < g2.len() && #[trigger] g2[d].children.contains_key(n) implies fits(
        g2,
        paths,
        d,
        n,
        g2[d].children[n],
    ) by {
        assert(g[d].children.contains_key(n));
        assert(fits(g, paths, d, n, g[d].children[n]));
    }
    assert forall|h: int, d: int|
        0 <= h < paths.len() && 0 <= d < g2.len() && g2[d].path.len() < seen[h] && #[trigger]
            lies_below(paths[h], g2[d].path) implies g2[d].children.contains_key(
        paths[h][g2[d].path.len() as int],
    ) && g2[d].owner is Some by {
        assert(lies_below(paths[h], g[d].path));
    }
    assert forall|d: int| 0 <= d < g2.len() && (#[trigger] g2[d]).owner is Some implies is_owned_from_below(
        paths,
        owners,
        g2[d].path,
        g2[d].owner->Some_0,
    ) by {
        assert(g[d].owner is Some || d == k);
    }
}

struct IndexedFile {
    data: Vec<u8>,
    mode: Mode,
    owner: UserInfo,
    node_info: NodeInfo,
}

impl IndexedFile {
    spec fn state(self) -> FileState {
        FileState {
            perms: PermissionInfo { mode: self.mode, owner: self.owner },
            data: self.data@,
            is_static: false,
            node_info: self.node_info,
        }
    }
}

struct IndexedDir {
    owner: Option<UserInfo>,
    node_info: NodeInfo,
    children: NameMap,
    path: Ghost<Seq<Seq<char>>>,
}

impl IndexedDir {
    spec fn perms_spec(self) -> PermissionInfo {
        PermissionInfo {
            mode: Mode { bits: DEFAULT_DIR_MODE },
            owner: if self.owner is Some {
                self.owner->Some_0
            } else {
                default_directory_owner()
            },
        }
    }

    spec fn state(self) -> DirState {
        DirState {
            perms: self.perms_spec(),
            children: self.children@,
            node_info: self.node_info,
        }
    }

    fn perms(&self) -> (r: PermissionInfo)
        ensures
            r == self.perms_spec(),
    {
        let owner = match self.owner {
            Some(owner) => owner,
            None => UserInfo { user: 1000, group: 1000 },
        };
        PermissionInfo { mode: Mode { bits: DEFAULT_DIR_MODE }, owner }
    }
}

/// The files of an archive, and the directories that lead to them.
pub struct TarIndex {
    files: Vec<IndexedFile>,
    dirs: Vec<IndexedDir>,
}

/// An index that has been built from files `0..n` completely.
proof fn lemma_complete(
    files: Seq<IndexedFile>,
    dirs: Seq<IndexedDir>,
    by_path: Map<Seq<char>, Child>,
    kept: Seq<TarEntryView>,
    paths: Seq<Seq<Seq<char>>>,
    owners: Seq<UserInfo>,
    seen: Seq<int>,
    device: usize,
    first: usize,
)
    requires
        is_partial(facts(dirs), by_path, paths, owners, seen),
        paths.len() == kept.len(),
        files.len() == kept.len(),
        forall|f: int|
            0 <= f < kept.len() ==> (#[trigger] kept[f]).name is Some && paths[f] == file_path(
                kept[f],
            ) && owners[f] == entry_owner(kept[f]) && seen[f] == paths[f].len(),
        forall|f: int|
            0 <= f < kept.len() ==> (#[trigger] files[f]).state() == indexed_file(
                kept[f],
                node_after(device, first, f),
            ),
        forall|d: int|
            0 <= d < dirs.len() ==> (#[trigger] dirs[d]).node_info == node_after(
                device,
                first,
                kept.len() + d,
            ),
    ensures
        is_index_of(tree_of(files, dirs), paths_of(dirs), kept, device, first),
{
    reveal(is_partial);
    let g = facts(dirs);
    let tree = tree_of(files, dirs);
    let at = paths_of(dirs);
    assert(g.len() == dirs.len() && at.len() == dirs.len() && tree.dirs.len() == dirs.len());
    assert forall|d: int| 0 <= d < dirs.len() implies (#[trigger] g[d]).path == at[d] && g[d].owner
        == dirs[d].owner && g[d].children == tree.dirs[d].children && tree.dirs[d]
        == dirs[d].state() by {}
    assert forall|d: int, e: int| 0 <= d < e < at.len() implies #[trigger] at[d]
        != #[trigger] at[e] by {
        assert(g[d].path != g[e].path);
    }
    assert forall|d: int| 0 < d < at.len() implies has_files(kept, #[trigger] at[d]) by {
        assert(leads_somewhere(paths, g[d].path));
        let f = choose|f: int| 0 <= f < paths.len() && lies_below(#[trigger] paths[f], g[d].path);
        assert(lies_below(file_path(kept[f]), at[d]));
    }
    assert forall|f: int, i: int|
        0 <= f < kept.len() && 0 <= i < file_path(kept[f]).len() implies at.contains(
        #[trigger] file_path(kept[f]).take(i),
    ) by {
        assert(paths[f] == file_path(kept[f]));
        assert(is_directory(g, paths[f].take(i)));
        let d = choose|d: int| #[trigger] at_path(g, d, paths[f].take(i));
        assert(at[d] == paths[f].take(i));
    }
    assert forall|d: int| 0 <= d < at.len() implies (if has_files(kept, #[trigger] at[d]) {
        owns_files(kept, at[d], tree.dirs[d].perms.owner)
    } else {
        tree.dirs[d].perms.owner == default_directory_owner()
    }) by {
        assert(tree.dirs[d] == dirs[d].state() && g[d].path == at[d]);
        if has_files(kept, at[d]) {
            let f = choose|f: int|
                0 <= f < kept.len() && lies_below(file_path(#[trigger] kept[f]), at[d]);
            assert(lies_below(paths[f], g[d].path));
            assert(is_owned_from_below(paths, owners, g[d].path, g[d].owner->Some_0));
            let h = choose|h: int|
                0 <= h < paths.len() && lies_below(#[trigger] paths[h], g[d].path) && owners[h]
                    == g[d].owner->Some_0;
            assert(lies_below(file_path(kept[h]), at[d]));
        } else if g[d].owner is Some {
            let h = choose|h: int|
                0 <= h < paths.len() && lies_below(#[trigger] paths[h], g[d].path) && owners[h]
                    == g[d].owner->Some_0;
            assert(lies_below(file_path(kept[h]), at[d]));
        }
    }
    assert forall|d: int, name: Seq<char>| #[trigger] tree.has(d, name) implies (match tree.node(
        d,
        name,
    ) {
        Child::File(f) => f < kept.len() && file_path(kept[f as int]) == at[d].push(name),
        Child::Dir(k) => d < k < at.len() && at[k as int] == at[d].push(name),
    }) by {
        assert(g[d].children.contains_key(name));
        assert(fits(g, paths, d, name, g[d].children[name]));
        match tree.node(d, name) {
            Child::File(f) => {
                assert(kept[f as int].name is Some);
            },
            Child::Dir(k) => {
                assert(g[k as int].path.len() > 0);
                assert(has_earlier_parent(g, k as int));
                let e = choose|e: int|
                    e < k && #[trigger] at_path(g, e, g[k as int].path.drop_last());
                assert(g[d].path.push(name).drop_last() =~= g[d].path);
                assert(g[e].path == g[d].path);
                assert(e == d);
            },
        }
    }
    assert forall|d: int, name: Seq<char>| 0 <= d < at.len() implies #[trigger] tree.has(d, name)
        == has_files_through(kept, at[d], name) by {
        if tree.has(d, name) {
            match tree.node(d, name) {
                Child::File(f) => {
                    assert(at[d].push(name).take(at[d].len() as int) =~= at[d]);
                    assert(leads_through(file_path(kept[f as int]), at[d], name));
                },
                Child::Dir(k) => {
                    assert(leads_somewhere(paths, g[k as int].path));
                    let f = choose|f: int|
                        0 <= f < paths.len() && lies_below(
                            #[trigger] paths[f],
                            g[k as int].path,
                        );
                    let full = file_path(kept[f]);
                    let n = at[d].len() as int;
                    assert(full.take(n + 1) == at[d].push(name));
                    assert(full.take(n) =~= full.take(n + 1).take(n));
                    assert(at[d].push(name).take(n) =~= at[d]);
                    assert(full[n] == full.take(n + 1)[n]);
                    assert(leads_through(full, at[d], name));
                },
            }
        }
        if has_files_through(kept, at[d], name) {
            let f = choose|f: int|
                0 <= f < kept.len() && leads_through(file_path(#[trigger] kept[f]), at[d], name);
            assert(lies_below(paths[f], g[d].path));
            assert(g[d].children.contains_key(name));
        }
    }
}

spec fn tree_of(files: Seq<IndexedFile>, dirs: Seq<IndexedDir>) -> InMemState {
    InMemState {
        files: files.map_values(|f: IndexedFile| f.state()),
        dirs: dirs.map_values(|d: IndexedDir| d.state()),
        user: default_directory_owner(),
        device: 0,
        upcoming: 0,
    }
}

spec fn paths_of(dirs: Seq<IndexedDir>) -> Seq<Seq<Seq<char>>> {
    dirs.map_values(|d: IndexedDir| d.path@)
}

/// An index forms a tree.
proof fn lemma_index_is_valid(
    tree: InMemState,
    dirs: Seq<Seq<Seq<char>>>,
    files: Seq<TarEntryView>,
    device: usize,
    first: usize,
)
    requires
        is_index_of(tree, dirs, files, device, first),
    ensures
        tree.valid(),
{
    assert forall|d: int, a: Seq<char>, e: int, b: Seq<char>|
        #![trigger tree.has(d, a), tree.has(e, b)]
        tree.has(d, a) && tree.has(e, b) && tree.node(d, a) == tree.node(e, b) implies d == e && a
        == b by {
        let (p, q) = (dirs[d].push(a), dirs[e].push(b));
        assert(p == q);
        assert(p.drop_last() =~= dirs[d]);
        assert(q.drop_last() =~= dirs[e]);
        assert(p.last() == a && q.last() == b);
    }
}

impl TarIndex {
    /// The files and directories. Directory 0 is the root.
    pub closed spec fn tree(&self) -> InMemState {
        tree_of(self.files@, self.dirs@)
    }

    /// The paths of the directories.
    pub closed spec fn dir_paths(&self) -> Seq<Seq<Seq<char>>> {
        paths_of(self.dirs@)
    }

    /// An index of the named entries of an archive.
    pub fn new(entries: Vec<TarEntry>, inode_allocator: InodeAllocator) -> (r: Self)
        requires
            are_usable(tar_entry_views(entries@)),
        ensures
            is_index_of(
                r.tree(),
                r.dir_paths(),
                named(tar_entry_views(entries@)),
                inode_allocator.device(),
                inode_allocator.upcoming(),
            ),
            r.tree().valid(),
    {
        let ghost device = inode_allocator.device();
        let ghost first = inode_allocator.upcoming();
        let ghost views = tar_entry_views(entries@);
        let ghost kept = named(views);
        let ghost paths = kept.map_values(|e: TarEntryView| file_path(e));
        let ghost owners = kept.map_values(|e: TarEntryView| entry_owner(e));
        let mut inode_allocator = inode_allocator;
        let mut files: Vec<IndexedFile> = Vec::new();
        let mut files_by_path = NameMap::new();
        let mut i: usize = 0;
        proof {
            lemma_named_prefix(views, 0);
            assert(views.take(0) =~= Seq::empty());
            reveal(Seq::filter);
            vstd::arithmetic::div_mod::lemma_small_mod(first as nat, (usize::MAX + 1) as nat);
        }
        while i < entries.len()
            invariant
                i <= entries.len(),
                views == tar_entry_views(entries@),
                kept == named(views),
                are_usable(views),
                files.len() == named(views.take(i as int)).len(),
                inode_allocator.device() == device,
                inode_allocator.next_node() == node_after(device, first, files.len() as int),
                named(views.take(i as int)) == kept.take(files.len() as int),
                files.len() <= kept.len(),
                forall|f: int|
                    0 <= f < files.len() ==> (#[trigger] files@[f]).state() == indexed_file(
                        kept[f],
                        node_after(device, first, f),
                    ),
                forall|f: int|
                    0 <= f < files.len() ==> files_by_path@.contains_key(
                        normalized((#[trigger] kept[f]).name->Some_0),
                    ) && files_by_path@[normalized(kept[f].name->Some_0)] == Child::File(
                        f as usize,
                    ),
                forall|s: Seq<char>| #[trigger]
                    files_by_path@.contains_key(s) ==> match files_by_path@[s] {
                        Child::File(f) => f < files.len() && s == normalized(
                            kept[f as int].name->Some_0,
                        ),
                        Child::Dir(_) => false,
                    },
            decreases entries.len() - i,
        {
            let entry = &entries[i];
            assert(views[i as int] == entry@);
            proof {
                lemma_named_prefix(views, i as int);
                lemma_named_prefix(views, i + 1);
            }
            if let Some(name) = &entry.name {
                let ghost f = files.len() as int;
                assert(kept.take(f + 1)[f] == entry@);
                assert(kept[f] == entry@);
                assert(is_usable(kept[f]));
                let path = normalize_tar_filename(name.as_str());
                let mut data: Vec<u8> = Vec::new();
                crate::bytes::append_from(&mut data, entry.data.as_slice(), 0);
                assert(data@ =~= entry.data@);
                if let (Some(mode), Some(user), Some(group)) = (entry.mode, entry.uid, entry.gid) {
                    let ghost before = inode_allocator;
                    let node_info = inode_allocator.next();
                    proof {
                        lemma_advance(before, inode_allocator, first, f);
                    }
                    let file_idx: usize = files.len();
                    files.push(
                        IndexedFile {
                            data,
                            mode: mode_of_modeflags(mode),
                            owner: UserInfo { user, group },
                            node_info,
                        },
                    );
                    assert(files@[f].state() =~= indexed_file(
                        kept[f],
                        node_after(device, first, f),
                    ));
                    let ghost map_before = files_by_path@;
                    let old_idx = files_by_path.insert(path, Child::File(file_idx));
                    assert forall|g: int| 0 <= g < f implies normalized(
                        (#[trigger] kept[g]).name->Some_0,
                    ) != normalized(kept[f].name->Some_0) by {}
                }
            }
            i = i + 1;
        }
        assert(views.take(i as int) =~= views);
        assert(kept.take(files.len() as int) =~= kept);
        let root_node = {
            let ghost before = inode_allocator;
            let node_info = inode_allocator.next();
            proof {
                lemma_advance(before, inode_allocator, first, files.len() as int);
            }
            node_info
        };
        let mut dirs: Vec<IndexedDir> = Vec::new();
        dirs.push(
            IndexedDir {
                owner: None,
                node_info: root_node,
                children: NameMap::new(),
                path: Ghost(Seq::empty()),
            },
        );
        let mut dirs_by_path = NameMap::new();
        let at_root = dirs_by_path.insert(String::new(), Child::Dir(0));
        let pairs = files_by_path.entries();
        let ghost pair_values = names::pair_views(pairs@);
        let ghost mut seen = paths.map_values(|p: Seq<Seq<char>>| 0int);
        proof {
            lemma_named_are_named(views);
            assert forall|s: Seq<char>| #[trigger] dirs_by_path@.contains_key(s) implies s.len()
                == 0 by {}
            assert forall|s: Seq<char>| s.len() == 0 implies #[trigger] dirs_by_path@.contains_key(
                s,
            ) by {
                assert(s =~= Seq::<char>::empty());
            }
            lemma_initial(facts(dirs@), dirs_by_path@, paths, owners, seen);
        }
        let mut j: usize = 0;
        while j < pairs.len()
            invariant
                j <= pairs.len(),
                pair_values == names::pair_views(pairs@),
                names::is_enumeration(pair_values, files_by_path@),
                files.len() == kept.len(),
                forall|f: int| 0 <= f < kept.len() ==> (#[trigger] kept[f]).name is Some,
                paths == kept.map_values(|e: TarEntryView| file_path(e)),
                owners == kept.map_values(|e: TarEntryView| entry_owner(e)),
                forall|f: int|
                    0 <= f < files.len() ==> (#[trigger] files@[f]).state() == indexed_file(
                        kept[f],
                        node_after(device, first, f),
                    ),
                forall|s: Seq<char>| #[trigger]
                    files_by_path@.contains_key(s) ==> match files_by_path@[s] {
                        Child::File(f) => f < files.len() && s == normalized(
                            kept[f as int].name->Some_0,
                        ),
                        Child::Dir(_) => false,
                    },
                is_partial(facts(dirs@), dirs_by_path@, paths, owners, seen),
                seen.len() == kept.len(),
                forall|k: int|
                    0 <= k < pair_values.len() ==> seen[(#[trigger] pair_values[k]).1->File_0 as int]
                        == if k < j {
                        paths[pair_values[k].1->File_0 as int].len() as int
                    } else {
                        0
                    },
                inode_allocator.device() == device,
                inode_allocator.next_node() == node_after(
                    device,
                    first,
                    (files.len() + dirs.len()) as int,
                ),
                forall|d: int|
                    0 <= d < dirs.len() ==> (#[trigger] dirs@[d]).node_info == node_after(
                        device,
                        first,
                        files.len() + d,
                    ),
            decreases pairs.len() - j,
        {
            let (path, child) = &pairs[j];
            assert(pair_values[j as int] == (path@, *child));
            let ghost f = child->File_0 as int;
            assert(paths[f] == text::path_components(path@));
            if let Child::File(file_idx) = *child {
                let components = text::split_path(path.as_str());
                let owner = files[file_idx].owner;
                assert(files@[f].state().perms.owner == owners[f]);
                proof {
                    text::lemma_components_are_slash_free(path@);
                    assert forall|k: int| 0 <= k < paths[f].len() implies text::is_component(
                        #[trigger] paths[f][k],
                    ) by {
                        assert(paths[f][k] == text::path_components(path@)[k]);
                    }
                }
                let mut parent = String::new();
                let mut parent_dir_idx: usize = 0;
                let mut c: usize = 0;
                let ghost others = seen;
                proof {
                    assert(seen[f] == 0);
                    assert(seen =~= others.update(f, 0));
                    assert(paths[f].take(0) =~= Seq::empty());
                    lemma_partial(facts(dirs@), dirs_by_path@, paths, owners, seen);
                    assert(facts(dirs@)[0].path =~= paths[f].take(0));
                    assert(at_path(facts(dirs@), 0, paths[f].take(0)));
                    assert(parent@ =~= text::join_components(paths[f].take(0)));
                }
                while c < components.len()
                    invariant
                        c <= components.len(),
                        paths[f] == text::texts(components@),
                        text::are_components(paths[f]),
                        0 <= f < paths.len(),
                        f == file_idx,
                        owner == owners[f],
                        paths.len() == files.len(),
                        owners.len() == paths.len(),
                        seen == others.update(f, c as int),
                        others.len() == paths.len(),
                        c < components.len() ==> at_path(
                            facts(dirs@),
                            parent_dir_idx as int,
                            paths[f].take(c as int),
                        ),
                        c < components.len() ==> parent@ == text::join_components(
                            paths[f].take(c as int),
                        ),
                        is_partial(facts(dirs@), dirs_by_path@, paths, owners, seen),
                        inode_allocator.device() == device,
                        inode_allocator.next_node() == node_after(
                            device,
                            first,
                            (files.len() + dirs.len()) as int,
                        ),
                        forall|d: int|
                            0 <= d < dirs.len() ==> (#[trigger] dirs@[d]).node_info == node_after(
                                device,
                                first,
                                files.len() + d,
                            ),
                    decreases components.len() - c,
                {
                    let component = &components[c];
                    assert(component@ == paths[f][c as int]);
                    let is_last_component = c + 1 == components.len();
                    let ghost g0 = facts(dirs@);
                    let ghost here = paths[f].take(c as int);
                    let ghost pd = parent_dir_idx as int;
                    assert(lies_below(paths[f], g0[pd].path));
                    own(&mut dirs, parent_dir_idx, owner);
                    proof {
                        lemma_owned(g0, dirs_by_path@, paths, owners, seen, f, pd);
                    }
                    assert(here.push(component@) =~= paths[f].take(c + 1));
                    if is_last_component {
                        let ghost g1 = facts(dirs@);
                        assert(paths[f].take(c + 1) =~= paths[f]);
                        proof {
                            lemma_link(
                                g1,
                                dirs_by_path@,
                                paths,
                                owners,
                                seen,
                                f,
                                c as int,
                                pd,
                                Child::File(file_idx),
                            );
                        }
                        link(&mut dirs, parent_dir_idx, component, Child::File(file_idx));
                    } else {
                        let ghost before_name = parent@;
                        parent.append("/");
                        parent.append(component.as_str());
                        proof {
                            reveal_strlit("/");
                            assert("/"@ =~= seq!['/']);
                            assert(paths[f].take(c + 1).drop_last() =~= here);
                            assert(parent@ =~= text::join_components(paths[f].take(c + 1)));
                        }
                        let ghost g1 = facts(dirs@);
                        proof {
                            if dirs_by_path@.contains_key(parent@) {
                                lemma_lookup(
                                    g1,
                                    dirs_by_path@,
                                    paths,
                                    owners,
                                    seen,
                                    paths[f].take(c + 1),
                                );
                            }
                        }
                        let child_dir_idx: usize = match dirs_by_path.get(parent.as_str()) {
                            Some(Child::Dir(k)) => {
                                k
                            },
                            _ => {
                                let ghost before = inode_allocator;
                                let node_info = inode_allocator.next();
                                proof {
                                    lemma_advance(
                                        before,
                                        inode_allocator,
                                        first,
                                        (files.len() + dirs.len()) as int,
                                    );
                                }
                                let k: usize = dirs.len();
                                dirs.push(
                                    IndexedDir {
                                        owner: Some(owner),
                                        node_info,
                                        children: NameMap::new(),
                                        path: Ghost(paths[f].take(c + 1)),
                                    },
                                );
                                let ghost map_before = dirs_by_path@;
                                let was = dirs_by_path.insert(parent.clone(), Child::Dir(k));
                                proof {
                                    let l: usize = dirs.len();
                                    lemma_new_directory(
                                        g1,
                                        map_before,
                                        paths,
                                        owners,
                                        seen,
                                        f,
                                        c as int,
                                        pd,
                                    );
                                    assert(facts(dirs@) =~= g1.push(
                                        DirFacts {
                                            path: paths[f].take(c + 1),
                                            owner: Some(owners[f]),
                                            children: names::no_names(),
                                        },
                                    ));
                                }
                                k
                            },
                        };
                        let ghost g2 = facts(dirs@);
                        assert(g2[child_dir_idx as int].path == paths[f].take(c + 1));
                        assert(at_path(g2, pd, here) && g2[pd] == g1[pd]);
                        proof {
                            lemma_link(
                                g2,
                                dirs_by_path@,
                                paths,
                                owners,
                                seen,
                                f,
                                c as int,
                                pd,
                                Child::Dir(child_dir_idx),
                            );
                        }
                        link(&mut dirs, parent_dir_idx, component, Child::Dir(child_dir_idx));
                        let ghost g3 = facts(dirs@);
                        assert(lies_below(paths[f], g3[child_dir_idx as int].path));
                        own(&mut dirs, child_dir_idx, owner);
                        proof {
                            lemma_owned(
                                g3,
                                dirs_by_path@,
                                paths,
                                owners,
                                seen.update(f, c + 1),
                                f,
                                child_dir_idx as int,
                            );
                        }
                        parent_dir_idx = child_dir_idx;
                        assert(at_path(facts(dirs@), child_dir_idx as int, paths[f].take(c + 1)));
                    }
                    proof {
                        seen = seen.update(f, c + 1);
                        assert(seen =~= others.update(f, c + 1));
                    }
                    c = c + 1;
                }
                assert(seen[f] == paths[f].len());
            }
            j = j + 1;
        }
        proof {
            assert forall|f: int| 0 <= f < kept.len() implies (#[trigger] kept[f]).name is Some
                && paths[f] == file_path(kept[f]) && owners[f] == entry_owner(kept[f]) && seen[f]
                == paths[f].len() by {
                let s = normalized(kept[f].name->Some_0);
                assert(files_by_path@.contains_key(s));
                let k = choose|k: int|
                    0 <= k < pair_values.len() && (#[trigger] pair_values[k]).0 == s;
                assert(pair_values[k].1 == Child::File(f as usize));
            }
            lemma_complete(
                files@,
                dirs@,
                dirs_by_path@,
                kept,
                paths,
                owners,
                seen,
                device,
                first,
            );
            lemma_index_is_valid(
                tree_of(files@, dirs@),
                paths_of(dirs@),
                kept,
                device,
                first,
            );
        }
        TarIndex { files, dirs }
    }
}

/// Give a directory an owner, unless it has one.
fn own(dirs: &mut Vec<IndexedDir>, d: usize, owner: UserInfo)
    requires
        d < old(dirs)@.len(),
    ensures
        facts(final(dirs)@) == facts(old(dirs)@).update(
            d as int,
            owned(facts(old(dirs)@)[d as int], owner),
        ),
        final(dirs)@.len() == old(dirs)@.len(),
        forall|k: int|
            0 <= k < old(dirs)@.len() ==> (#[trigger] final(dirs)@[k]).node_info == old(
                dirs,
            )@[k].node_info,
{
    let ghost before = facts(dirs@);
    if dirs[d].owner.is_none() {
        dirs[d].owner = Some(owner);
    }
    assert(facts(dirs@) =~= before.update(d as int, owned(before[d as int], owner)));
}

/// Make an entry of a directory.
fn link(dirs: &mut Vec<IndexedDir>, d: usize, name: &String, child: Child)
    requires
        d < old(dirs)@.len(),
    ensures
        facts(final(dirs)@) == facts(old(dirs)@).update(
            d as int,
            linked(facts(old(dirs)@)[d as int], name@, child),
        ),
        final(dirs)@.len() == old(dirs)@.len(),
        forall|k: int|
            0 <= k < old(dirs)@.len() ==> (#[trigger] final(dirs)@[k]).node_info == old(
                dirs,
            )@[k].node_info,
{
    let ghost before = facts(dirs@);
    let was = dirs[d].children.insert(name.clone(), child);
    assert(facts(dirs@) =~= before.update(d as int, linked(before[d as int], name@, child)));
}

proof fn lemma_named_prefix(entries: Seq<TarEntryView>, n: int)
    requires
        0 <= n <= entries.len(),
    ensures
        named(entries.take(n)).len() <= named(entries).len(),
        named(entries.take(n)) == named(entries).take(named(entries.take(n)).len() as int),
        n > 0 ==> named(entries.take(n)) == if entries[n - 1].name is Some {
            named(entries.take(n - 1)).push(entries[n - 1])
        } else {
            named(entries.take(n - 1))
        },
    decreases entries.len() - n,
{
    reveal(Seq::filter);
    if n > 0 {
        assert(entries.take(n).drop_last() =~= entries.take(n - 1));
    }
    if n == entries.len() {
        assert(entries.take(n) =~= entries);
        assert(named(entries).take(named(entries).len() as int) =~= named(entries));
    } else {
        lemma_named_prefix(entries, n + 1);
        assert(entries.take(n + 1).drop_last() =~= entries.take(n));
        let shorter = named(entries.take(n));
        let longer = named(entries.take(n + 1));
        assert(longer.take(shorter.len() as int) =~= shorter);
        assert(named(entries).take(longer.len() as int).take(shorter.len() as int) =~= named(
            entries,
        ).take(shorter.len() as int));
    }
}

proof fn lemma_named_are_named(entries: Seq<TarEntryView>)
    ensures
        forall|k: int| 0 <= k < named(entries).len() ==> (#[trigger] named(entries)[k]).name is Some,
    decreases entries.len(),
{
    reveal(Seq::filter);
    if entries.len() > 0 {
        lemma_named_are_named(entries.drop_last());
    }
}

/// What the building of an index relies on.
proof fn lemma_partial(
    g: Seq<DirFacts>,
    by_path: Map<Seq<char>, Child>,
    paths: Seq<Seq<Seq<char>>>,
    owners: Seq<UserInfo>,
    seen: Seq<int>,
)
    requires
        is_partial(g, by_path, paths, owners, seen),
    ensures
        0 < g.len() <= usize::MAX,
        g[0].path.len() == 0,
        seen.len() == paths.len(),
        owners.len() == paths.len(),
{
    reveal(is_partial);
}

/// A known directory is found by its joined path.
proof fn lemma_lookup(
    g: Seq<DirFacts>,
    by_path: Map<Seq<char>, Child>,
    paths: Seq<Seq<Seq<char>>>,
    owners: Seq<UserInfo>,
    seen: Seq<int>,
    path: Seq<Seq<char>>,
)
    requires
        is_partial(g, by_path, paths, owners, seen),
        text::are_components(path),
        by_path.contains_key(text::join_components(path)),
    ensures
        match by_path[text::join_components(path)] {
            Child::Dir(k) => at_path(g, k as int, path),
            Child::File(_) => false,
        },
{
    reveal(is_partial);
    let key = text::join_components(path);
    assert(is_known(g, key));
    let l = choose|l: int| 0 <= l < g.len() && key == text::join_components((#[trigger] g[l]).path);
    text::lemma_components_of_joined(g[l].path);
    text::lemma_components_of_joined(path);
}

proof fn lemma_initial(
    g: Seq<DirFacts>,
    by_path: Map<Seq<char>, Child>,
    paths: Seq<Seq<Seq<char>>>,
    owners: Seq<UserInfo>,
    seen: Seq<int>,
)
    requires
        g.len() == 1,
        g[0].path.len() == 0,
        g[0].owner is None,
        g[0].children == names::no_names(),
        forall|s: Seq<char>| #[trigger] by_path.contains_key(s) <==> s.len() == 0,
        by_path[Seq::empty()] == Child::Dir(0),
        owners.len() == paths.len(),
        seen.len() == paths.len(),
        forall|f: int| 0 <= f < seen.len() ==> seen[f] == 0,
    ensures
        is_partial(g, by_path, paths, owners, seen),
{
    reveal(is_partial);
    assert(text::join_components(g[0].path) =~= Seq::empty());
    assert forall|s: Seq<char>| #[trigger] by_path.contains_key(s) implies is_known(g, s) by {
        assert(s =~= text::join_components(g[0].path));
    }
    assert forall|f: int, i: int|
        0 <= f < paths.len() && 0 <= i <= seen[f] && i < paths[f].len() implies is_directory(
        g,
        #[trigger] paths[f].take(i),
    ) by {
        assert(paths[f].take(i) =~= g[0].path);
        assert(at_path(g, 0, paths[f].take(i)));
    }
}

/// A read-only backend over a tar archive.
pub struct TarRo {
    tar_index: TarIndex,
}

#[derive(Clone, Copy, Debug)]
pub struct TarRoDirHandle {
    idx: usize,
}

#[derive(Clone, Copy, Debug)]
pub struct TarRoFileHandle {
    idx: usize,
}

impl View for TarRoDirHandle {
    type V = DirRef;

    closed spec fn view(&self) -> DirRef {
        DirRef { index: self.idx as int, flags: path_flags() }
    }
}

impl TarRoFileHandle {
    /// The number of the file.
    pub closed spec fn index(&self) -> int {
        self.idx as int
    }
}

/// The length of [`empty_tar_file`].
pub const EMPTY_TAR_FILE_LEN: usize = 10240;

/// An empty tar file to support an empty file system.
pub fn empty_tar_file() -> (r: Vec<u8>)
    ensures
        r@ == Seq::new(EMPTY_TAR_FILE_LEN as nat, |i: int| 0u8),
{
    let mut r: Vec<u8> = Vec::new();
    while r.len() < EMPTY_TAR_FILE_LEN
        invariant
            r.len() <= EMPTY_TAR_FILE_LEN,
            forall|i: int| 0 <= i < r.len() ==> r@[i] == 0,
        decreases EMPTY_TAR_FILE_LEN - r.len(),
    {
        r.push(0);
    }
    assert(r@ =~= Seq::new(EMPTY_TAR_FILE_LEN as nat, |i: int| 0u8));
    r
}

/// Whether entries can be indexed.
fn check_usable(entries: &Vec<TarEntry>) -> (r: bool)
    ensures
        r == are_usable(tar_entry_views(entries@)),
{
    let ghost views = tar_entry_views(entries@);
    let ghost kept = named(views);
    let mut paths: Vec<String> = Vec::new();
    let mut i: usize = 0;
    proof {
        lemma_named_prefix(views, 0);
        reveal(Seq::filter);
        assert(views.take(0) =~= Seq::empty());
    }
    while i < entries.len()
        invariant
            i <= entries.len(),
            views == tar_entry_views(entries@),
            kept == named(views),
            paths.len() <= kept.len(),
            paths.len() == named(views.take(i as int)).len(),
            named(views.take(i as int)) == kept.take(paths.len() as int),
            forall|k: int|
                0 <= k < paths.len() ==> is_usable(#[trigger] kept[k]) && paths@[k]@ == normalized(
                    kept[k].name->Some_0,
                ),
            forall|j: int, k: int|
                0 <= j < k < paths.len() ==> normalized((#[trigger] kept[j]).name->Some_0)
                    != normalized((#[trigger] kept[k]).name->Some_0),
        decreases entries.len() - i,
    {
        let entry = &entries[i];
        assert(views[i as int] == entry@);
        proof {
            lemma_named_prefix(views, i as int);
            lemma_named_prefix(views, i + 1);
        }
        if let Some(name) = &entry.name {
            let ghost f = paths.len() as int;
            assert(kept.take(f + 1)[f] == entry@);
            assert(kept[f] == entry@);
            let path = normalize_tar_filename(name.as_str());
            let chars = text::chars_of(path.as_str());
            if chars.len() == 0 || entry.mode.is_none() || entry.uid.is_none()
                || entry.gid.is_none() {
                assert(!is_usable(kept[f]));
                return false;
            }
            let mut j: usize = 0;
            while j < paths.len()
                invariant
                    j <= paths.len(),
                    f == paths.len(),
                    f < kept.len(),
                    kept == named(views),
                    views == tar_entry_views(entries@),
                    path@ == normalized(kept[f].name->Some_0),
                    forall|k: int|
                        0 <= k < paths.len() ==> paths@[k]@ == normalized(
                            (#[trigger] kept[k]).name->Some_0,
                        ),
                    forall|k: int|
                        0 <= k < j ==> normalized((#[trigger] kept[k]).name->Some_0)
                            != normalized(kept[f].name->Some_0),
                decreases paths.len() - j,
            {
                if text::same_text(paths[j].as_str(), path.as_str()) {
                    assert(normalized(kept[j as int].name->Some_0) == normalized(
                        kept[f].name->Some_0,
                    ));
                    return false;
                }
                j = j + 1;
            }
            paths.push(path);
        }
        i = i + 1;
    }
    assert(views.take(i as int) =~= views);
    true
}

impl TarRo {
    /// The files and directories. Directory 0 is the root.
    pub closed spec fn tree(&self) -> InMemState {
        self.tar_index.tree()
    }

    /// The paths of the directories.
    pub closed spec fn dir_paths(&self) -> Seq<Seq<Seq<char>>> {
        self.tar_index.dir_paths()
    }

    /// Construct a tar backend using a caller-provided inode allocator.
    #[must_use]
    pub fn new(tar_data: FileBytes, inode_allocator: InodeAllocator) -> (r: Self)
        requires
            is_tar_shaped(tar_data@),
            are_usable(tar_entries(tar_data@)),
        ensures
            r.wf(),
            is_index_of(
                r.tree(),
                r.dir_paths(),
                named(tar_entries(tar_data@)),
                inode_allocator.device(),
                inode_allocator.upcoming(),
            ),
    {
        let entries = archive_entries(tar_data.as_slice());
        TarRo { tar_index: TarIndex::new(entries, inode_allocator) }
    }

    /// Construct a tar backend, or nothing where the data is not a usable archive.
    pub fn try_new(tar_data: FileBytes, inode_allocator: InodeAllocator) -> (r: Option<Self>)
        ensures
            r is Some <==> is_tar_shaped(tar_data@) && are_usable(tar_entries(tar_data@)),
            r is Some ==> r->Some_0.wf() && is_index_of(
                r->Some_0.tree(),
                r->Some_0.dir_paths(),
                named(tar_entries(tar_data@)),
                inode_allocator.device(),
                inode_allocator.upcoming(),
            ),
    {
        let len: usize = tar_data.as_slice().len();
        let limit: u64 = usize::MAX as u64;
        if len % TAR_BLOCK_SIZE != 0 || len < 3 * TAR_BLOCK_SIZE {
            return None;
        }
        let is_small = limit < TAR_PAYLOAD_LIMIT || len as u64 > limit - TAR_PAYLOAD_LIMIT;
        if is_small && !payloads_fit(tar_data.as_slice()) {
            return None;
        }
        if !check_usable(&archive_entries(tar_data.as_slice())) {
            return None;
        }
        Some(TarRo::new(tar_data, inode_allocator))
    }
}

/// Whether opening with these flags could change a file that exists.
pub open spec fn wants_writing(flags: OFlags) -> bool {
    &&& !(flags.has(OFlags::CREAT) && flags.has(OFlags::EXCL))
    &&& (flags.has(OFlags::CREAT) || flags.has(OFlags::TRUNC) || flags.has(OFlags::WRONLY)
        || flags.has(OFlags::RDWR))
}

impl Backend for TarRo {
    type Walking = TarRoDirHandle;

    type Dir = TarRoDirHandle;

    type File = TarRoFileHandle;

    type WalkingV = DirRef;

    type DirV = DirRef;

    open spec fn walking_view(w: TarRoDirHandle) -> DirRef {
        w@
    }

    open spec fn dir_view(d: TarRoDirHandle) -> DirRef {
        d@
    }

    open spec fn wf(&self) -> bool {
        self.tree().valid()
    }

    open spec fn has_walking(&self, w: DirRef) -> bool {
        0 <= w.index < self.tree().dirs.len()
    }

    open spec fn has_dir(&self, d: DirRef) -> bool {
        0 <= d.index < self.tree().dirs.len()
    }

    open spec fn has_file(&self, f: TarRoFileHandle) -> bool {
        0 <= f.index() < self.tree().files.len()
    }

    open spec fn root_spec(&self) -> DirRef {
        DirRef { index: 0, flags: path_flags() }
    }

    open spec fn walk_spec(&self, from: DirRef, components: Seq<Seq<char>>) -> Result<
        WalkResult<DirRef>,
        WalkError,
    > {
        mem_walk(self.tree(), from, components, Seq::empty())
    }

    open spec fn can_own_dir(&self, dir: DirRef, flags: OFlags) -> bool {
        true
    }

    open spec fn own_dir_spec(&self, dir: DirRef, flags: OFlags) -> Result<DirRef, OpenError> {
        if flags.meets(OFlags::CREAT | OFlags::TRUNC | OFlags::WRONLY | OFlags::RDWR) {
            Err(OpenError::ReadOnlyFileSystem)
        } else {
            Ok(dir)
        }
    }

    open spec fn walking_dir_spec(&self, dir: DirRef) -> Option<DirRef> {
        Some(dir)
    }

    open spec fn can_open(&self, dir: DirRef, name: Seq<char>, flags: OFlags) -> bool {
        true
    }

    open spec fn opens(
        &self,
        dir: DirRef,
        name: Seq<char>,
        flags: OFlags,
        after: &Self,
        r: Result<Permissioned<TarRoFileHandle>, OpenError>,
    ) -> bool {
        let st = self.tree();
        &&& after == self
        &&& if !st.has(dir.index, name) {
            r is Err && r->Err_0 == OpenError::PathError(PathError::NoSuchFileOrDirectory)
        } else {
            match st.node(dir.index, name) {
                Child::File(f) if !flags.has(OFlags::DIRECTORY) => if wants_writing(flags) {
                    r is Err && r->Err_0 == OpenError::ReadOnlyFileSystem
                } else {
                    &&& r is Ok
                    &&& r->Ok_0.item.index() == f
                    &&& r->Ok_0.permissions == PermissionCheck::ByResolver(
                        st.files[f as int].perms,
                    )
                },
                _ => r is Err && r->Err_0 == OpenError::PathError(
                    PathError::ComponentNotADirectory,
                ),
            }
        }
    }

    open spec fn lists(&self, dir: DirRef, r: Result<Seq<EntryView>, ReadDirError>) -> bool {
        r is Ok && self.tree().is_listing(dir.index, r->Ok_0)
    }

    open spec fn can_read(&self, h: TarRoFileHandle, len: nat, offset: usize) -> bool {
        offset + len <= usize::MAX
    }

    open spec fn reads(
        &self,
        h: TarRoFileHandle,
        before: Seq<u8>,
        offset: usize,
        after: Seq<u8>,
        r: Result<usize, ReadError>,
    ) -> bool {
        is_read_of(self.tree().files[h.index()].data, before, offset as int, after, r)
    }

    open spec fn static_spec(&self, h: TarRoFileHandle) -> Option<Seq<u8>> {
        None
    }

    open spec fn can_write(&self, h: TarRoFileHandle, len: nat, offset: usize) -> bool {
        true
    }

    open spec fn writes(
        &self,
        h: TarRoFileHandle,
        data: Seq<u8>,
        offset: usize,
        after: &Self,
        r: Result<usize, WriteError>,
    ) -> bool {
        after == self && r is Err && r->Err_0 == WriteError::NotForWriting
    }

    open spec fn can_truncate(&self, h: TarRoFileHandle, length: usize) -> bool {
        true
    }

    open spec fn truncates(
        &self,
        h: TarRoFileHandle,
        length: usize,
        after: &Self,
        r: Result<(), TruncateError>,
    ) -> bool {
        after == self && r is Err && r->Err_0 == TruncateError::NotForWriting
    }

    open spec fn seek_spec(&self, h: TarRoFileHandle) -> SeekBehavior {
        SeekBehavior::PositionBased
    }

    open spec fn file_status_spec(&self, h: TarRoFileHandle) -> Result<
        FileStatus,
        FileStatusError,
    > {
        Ok(self.tree().status(Child::File(h.index() as usize)))
    }

    open spec fn dir_status_spec(&self, d: DirRef) -> Result<FileStatus, FileStatusError> {
        Ok(self.tree().status(Child::Dir(d.index as usize)))
    }

    open spec fn creates(
        &self,
        dir: DirRef,
        name: Seq<char>,
        mode: Mode,
        after: &Self,
        r: Result<TarRoFileHandle, OpenError>,
    ) -> bool {
        after == self && r is Err && r->Err_0 == OpenError::ReadOnlyFileSystem
    }

    open spec fn makes_dir(
        &self,
        dir: DirRef,
        name: Seq<char>,
        mode: Mode,
        after: &Self,
        r: Result<DirRef, MkdirError>,
    ) -> bool {
        after == self && r is Err && r->Err_0 == MkdirError::ReadOnlyFileSystem
    }

    open spec fn unlinks(
        &self,
        dir: DirRef,
        name: Seq<char>,
        after: &Self,
        r: Result<(), UnlinkError>,
    ) -> bool {
        let st = self.tree();
        &&& after == self
        &&& r is Err
        &&& r->Err_0 == if !st.has(dir.index, name) {
            UnlinkError::PathError(PathError::NoSuchFileOrDirectory)
        } else if st.node(dir.index, name) is Dir {
            UnlinkError::IsADirectory
        } else {
            UnlinkError::ReadOnlyFileSystem
        }
    }

    open spec fn removes_dir(
        &self,
        dir: DirRef,
        name: Seq<char>,
        after: &Self,
        r: Result<(), RmdirError>,
    ) -> bool {
        let st = self.tree();
        &&& after == self
        &&& r is Err
        &&& r->Err_0 == if !st.has(dir.index, name) {
            RmdirError::PathError(PathError::NoSuchFileOrDirectory)
        } else if st.node(dir.index, name) is Dir {
            RmdirError::ReadOnlyFileSystem
        } else {
            RmdirError::NotADirectory
        }
    }

    open spec fn chmods(
        &self,
        dir: DirRef,
        name: Seq<char>,
        mode: Mode,
        after: &Self,
        r: Result<(), ChmodError>,
    ) -> bool {
        &&& after == self
        &&& r is Err
        &&& r->Err_0 == if self.tree().has(dir.index, name) {
            ChmodError::ReadOnlyFileSystem
        } else {
            ChmodError::PathError(PathError::NoSuchFileOrDirectory)
        }
    }

    open spec fn chowns(
        &self,
        dir: DirRef,
        name: Seq<char>,
        user: Option<u16>,
        group: Option<u16>,
        after: &Self,
        r: Result<(), ChownError>,
    ) -> bool {
        &&& after == self
        &&& r is Err
        &&& r->Err_0 == if self.tree().has(dir.index, name) {
            ChownError::ReadOnlyFileSystem
        } else {
            ChownError::PathError(PathError::NoSuchFileOrDirectory)
        }
    }

    proof fn root_is_own(&self) {
    }

    proof fn walk_is_sound(&self, from: DirRef, components: Seq<Seq<char>>) {
        lemma_mem_walk(self.tree(), from, components, Seq::empty());
    }

    fn root(&self) -> (r: TarRoDirHandle) {
        TarRoDirHandle { idx: 0 }
    }

    fn walk_directories(&self, from: TarRoDirHandle, components: &[&str]) -> (r: Result<
        WalkOutcome<TarRoDirHandle>,
        WalkError,
    >) {
        let ghost st = self.tree();
        let ghost comps = text::words(components@);
        let mut current = from;
        let mut walked: Vec<WalkedComponent> = Vec::new();
        let mut i: usize = 0;
        assert(comps.skip(0) =~= comps);
        assert(walked@ =~= Seq::empty());
        while i < components.len()
            invariant
                i <= components@.len(),
                st == self.tree(),
                st.valid(),
                comps == text::words(components@),
                0 <= current@.index < st.dirs.len(),
                mem_walk(st, from@, comps, Seq::empty()) == mem_walk(
                    st,
                    current@,
                    comps.skip(i as int),
                    walked@,
                ),
            decreases components@.len() - i,
        {
            let ghost todo = comps.skip(i as int);
            assert(todo[0] == components@[i as int]@);
            assert(todo.drop_first() =~= comps.skip(i + 1));
            assert(st.dirs[current.idx as int].children
                == self.tar_index.dirs@[current.idx as int].children@);
            match self.tar_index.dirs[current.idx].children.get(components[i]) {
                None => {
                    return Err(WalkError::PathError(PathError::NoSuchFileOrDirectory));
                },
                Some(Child::File(_)) => {
                    return Ok(
                        WalkOutcome {
                            components: walked,
                            last: current,
                            stop_reason: WalkStopReason::StoppedAtNonDirectory,
                        },
                    );
                },
                Some(Child::Dir(k)) => {
                    assert(st.has(current@.index, todo[0]));
                    walked.push(
                        WalkedComponent {
                            permissions: PermissionCheck::ByResolver(self.tar_index.dirs[k].perms()),
                        },
                    );
                    current = TarRoDirHandle { idx: k };
                },
            }
            i = i + 1;
        }
        assert(comps.skip(i as int).len() == 0);
        Ok(
            WalkOutcome {
                components: walked,
                last: current,
                stop_reason: WalkStopReason::CompleteDirectory,
            },
        )
    }

    fn owned_dir_at(&self, dir: TarRoDirHandle, flags: OFlags) -> (r: Result<
        TarRoDirHandle,
        OpenError,
    >) {
        if flags.intersects(OFlags::CREAT | OFlags::TRUNC | OFlags::WRONLY | OFlags::RDWR) {
            return Err(OpenError::ReadOnlyFileSystem);
        }
        Ok(dir)
    }

    fn walking_dir_at(&self, dir: &TarRoDirHandle) -> (r: Option<TarRoDirHandle>) {
        Some(*dir)
    }

    fn open_file_at(&mut self, dir: TarRoDirHandle, name: &str, flags: OFlags) -> (r: Result<
        Permissioned<TarRoFileHandle>,
        OpenError,
    >) {
        let ghost st = self.tree();
        assert(st.dirs[dir.idx as int].children == self.tar_index.dirs@[dir.idx as int].children@);
        let file_idx = match self.tar_index.dirs[dir.idx].children.get(name) {
            None => {
                return Err(OpenError::PathError(PathError::NoSuchFileOrDirectory));
            },
            Some(Child::Dir(_)) => {
                return Err(OpenError::PathError(PathError::ComponentNotADirectory));
            },
            Some(Child::File(f)) => f,
        };
        assert(st.has(dir@.index, name@));
        if flags.contains(OFlags::DIRECTORY) {
            return Err(OpenError::PathError(PathError::ComponentNotADirectory));
        }
        if !(flags.contains(OFlags::CREAT) && flags.contains(OFlags::EXCL)) && (flags.contains(
            OFlags::CREAT,
        ) || flags.contains(OFlags::TRUNC) || flags.contains(OFlags::WRONLY) || flags.contains(
            OFlags::RDWR,
        )) {
            return Err(OpenError::ReadOnlyFileSystem);
        }
        let file = &self.tar_index.files[file_idx];
        Ok(
            Permissioned {
                item: TarRoFileHandle { idx: file_idx },
                permissions: PermissionCheck::ByResolver(
                    PermissionInfo { mode: file.mode, owner: file.owner },
                ),
            },
        )
    }

    fn list_dir_at(&self, dir: TarRoDirHandle) -> (r: Result<Vec<DirEntry>, ReadDirError>) {
        let ghost st = self.tree();
        let ghost d = dir@.index;
        assert(st.dirs[d].children == self.tar_index.dirs@[d].children@);
        let pairs = self.tar_index.dirs[dir.idx].children.entries();
        let ghost views = names::pair_views(pairs@);
        let mut entries: Vec<DirEntry> = Vec::new();
        let mut i: usize = 0;
        while i < pairs.len()
            invariant
                i <= pairs.len(),
                entries.len() == i,
                st == self.tree(),
                st.valid(),
                0 <= d < st.dirs.len(),
                views == names::pair_views(pairs@),
                names::is_enumeration(views, st.dirs[d].children),
                forall|k: int|
                    0 <= k < i ==> (#[trigger] entries@[k])@ == st.entry(d, views[k].0),
            decreases pairs.len() - i,
        {
            let (name, child) = &pairs[i];
            assert(views[i as int] == (name@, *child));
            assert(st.has(d, name@));
            let (file_type, node_info) = match *child {
                Child::File(f) => (FileType::RegularFile, self.tar_index.files[f].node_info),
                Child::Dir(k) => (FileType::Directory, self.tar_index.dirs[k].node_info),
            };
            entries.push(
                DirEntry { name: name.clone(), file_type, ino_info: Some(node_info) },
            );
            i = i + 1;
        }
        proof {
            let listed = fs::entry_views(entries@);
            assert forall|k: int| 0 <= k < listed.len() implies st.has(
                d,
                (#[trigger] listed[k]).name,
            ) && listed[k] == st.entry(d, listed[k].name) && listed[k].name == views[k].0 by {
                assert(entries@[k]@ == st.entry(d, views[k].0));
                assert(st.dirs[d].children.contains_key(views[k].0));
            }
            assert forall|a: int, b: int| 0 <= a < b < listed.len() implies (
            #[trigger] listed[a]).name != (#[trigger] listed[b]).name by {
                assert(views[a].0 != views[b].0);
            }
            assert forall|name: Seq<char>| #[trigger] st.has(d, name) implies exists|k: int|
                0 <= k < listed.len() && (#[trigger] listed[k]).name == name by {
                let k = choose|k: int| 0 <= k < views.len() && (#[trigger] views[k]).0 == name;
                assert(listed[k].name == name);
            }
        }
        Ok(entries)
    }

    fn read(&self, h: &TarRoFileHandle, buf: &mut [u8], offset: usize) -> (r: Result<
        usize,
        ReadError,
    >) {
        assert(self.tree().files[h.index()].data == self.tar_index.files@[h.index()].data@);
        Ok(in_mem::read_at(self.tar_index.files[h.idx].data.as_slice(), buf, offset))
    }

    fn get_static_backing_data(&self, h: &TarRoFileHandle) -> (r: Option<&'static [u8]>) {
        None
    }

    fn write(&mut self, h: &TarRoFileHandle, data: &[u8], offset: usize) -> (r: Result<
        usize,
        WriteError,
    >) {
        Err(WriteError::NotForWriting)
    }

    fn truncate(&mut self, h: &TarRoFileHandle, length: usize) -> (r: Result<(), TruncateError>) {
        Err(TruncateError::NotForWriting)
    }

    fn seek_behavior(&self, h: &TarRoFileHandle) -> (r: SeekBehavior) {
        SeekBehavior::PositionBased
    }

    fn file_status(&self, h: &TarRoFileHandle) -> (r: Result<FileStatus, FileStatusError>) {
        let file = &self.tar_index.files[h.idx];
        Ok(
            FileStatus {
                file_type: FileType::RegularFile,
                mode: file.mode,
                size: file.data.len(),
                owner: file.owner,
                node_info: file.node_info,
                blksize: BLOCK_SIZE,
            },
        )
    }

    fn dir_status(&self, d: &TarRoDirHandle) -> (r: Result<FileStatus, FileStatusError>) {
        let dir = &self.tar_index.dirs[d.idx];
        let perms = dir.perms();
        Ok(
            FileStatus {
                file_type: FileType::Directory,
                mode: perms.mode,
                size: fs::DEFAULT_DIRECTORY_SIZE,
                owner: perms.owner,
                node_info: dir.node_info,
                blksize: BLOCK_SIZE,
            },
        )
    }

    fn create_file_at(&mut self, dir: TarRoDirHandle, name: &str, mode: Mode) -> (r: Result<
        TarRoFileHandle,
        OpenError,
    >) {
        Err(OpenError::ReadOnlyFileSystem)
    }

    fn mkdir_at(&mut self, dir: TarRoDirHandle, name: &str, mode: Mode) -> (r: Result<
        TarRoDirHandle,
        MkdirError,
    >) {
        Err(MkdirError::ReadOnlyFileSystem)
    }

    fn unlink_at(&mut self, dir: TarRoDirHandle, name: &str) -> (r: Result<(), UnlinkError>) {
        assert(self.tree().dirs[dir@.index].children
            == self.tar_index.dirs@[dir@.index].children@);
        match self.tar_index.dirs[dir.idx].children.get(name) {
            Some(Child::Dir(_)) => Err(UnlinkError::IsADirectory),
            Some(Child::File(_)) => Err(UnlinkError::ReadOnlyFileSystem),
            None => Err(UnlinkError::PathError(PathError::NoSuchFileOrDirectory)),
        }
    }

    fn rmdir_at(&mut self, dir: TarRoDirHandle, name: &str) -> (r: Result<(), RmdirError>) {
        assert(self.tree().dirs[dir@.index].children
            == self.tar_index.dirs@[dir@.index].children@);
        match self.tar_index.dirs[dir.idx].children.get(name) {
            Some(Child::Dir(_)) => Err(RmdirError::ReadOnlyFileSystem),
            Some(Child::File(_)) => Err(RmdirError::NotADirectory),
            None => Err(RmdirError::PathError(PathError::NoSuchFileOrDirectory)),
        }
    }

    fn chmod_at(&mut self, dir: TarRoDirHandle, name: &str, mode: Mode) -> (r: Result<
        (),
        ChmodError,
    >) {
        assert(self.tree().dirs[dir@.index].children
            == self.tar_index.dirs@[dir@.index].children@);
        if self.tar_index.dirs[dir.idx].children.contains_key(name) {
            Err(ChmodError::ReadOnlyFileSystem)
        } else {
            Err(ChmodError::PathError(PathError::NoSuchFileOrDirectory))
        }
    }

    fn chown_at(
        &mut self,
        dir: TarRoDirHandle,
        name: &str,
        user: Option<u16>,
        group: Option<u16>,
    ) -> (r: Result<(), ChownError>) {
        assert(self.tree().dirs[dir@.index].children
            == self.tar_index.dirs@[dir@.index].children@);
        if self.tar_index.dirs[dir.idx].children.contains_key(name) {
            Err(ChownError::ReadOnlyFileSystem)
        } else {
            Err(ChownError::PathError(PathError::NoSuchFileOrDirectory))
        }
    }
}

} // verus!
