//! An in-memory file system, not backed by any physical device.
use crate::bytes;
use crate::fs;
use crate::fs::backend::{
    Backend, PermissionCheck, PermissionInfo, Permissioned, SeekBehavior, WalkOutcome, WalkResult,
    WalkStopReason, WalkedComponent,
};
use crate::fs::errors::{
    ChmodError, ChownError, FileStatusError, MkdirError, OpenError, PathError, ReadDirError,
    ReadError, RmdirError, TruncateError, UnlinkError, WalkError, WriteError,
};
use crate::fs::inode_allocator::InodeAllocator;
use crate::fs::names::{Child, NameMap};
use crate::fs::{names, DirEntry, EntryView, FileStatus, FileType, Mode, NodeInfo, OFlags, UserInfo};
use crate::text;
use vstd::prelude::*;
use vstd::string::*;

verus! {

/// Block size for file system I/O operations.
pub const BLOCK_SIZE: usize = 0;

/// The flags that this backend knows how to honor when opening files and directories.
pub const SUPPORTED_OFLAGS: u32 = 0x40 | 0x0 | 0x1 | 0x2 | 0x200 | 0x100 | 0x80 | 0x10000 | 0x800
    | 0x8000 | 0x20000 | 0x400 | 0x200000;

/// Whether the backend knows how to honor all of these flags.
pub open spec fn are_supported_oflags(flags: OFlags) -> bool {
    !flags.meets(!SUPPORTED_OFLAGS)
}

/// The contents of a file. Borrowed data is kept borrowed until the first write.
#[derive(Debug)]
pub enum FileBytes {
    Borrowed(&'static [u8]),
    Owned(Vec<u8>),
}

impl View for FileBytes {
    type V = Seq<u8>;

    open spec fn view(&self) -> Seq<u8> {
        match self {
            FileBytes::Borrowed(data) => data@,
            FileBytes::Owned(data) => data@,
        }
    }
}

impl FileBytes {
    fn len(&self) -> (r: usize)
        ensures
            r == self@.len(),
    {
        match self {
            FileBytes::Borrowed(data) => data.len(),
            FileBytes::Owned(data) => data.len(),
        }
    }

    pub(crate) fn as_slice(&self) -> (r: &[u8])
        ensures
            r@ == self@,
    {
        match self {
            FileBytes::Borrowed(data) => data,
            FileBytes::Owned(data) => data.as_slice(),
        }
    }
}

/// Contents with `data` written over them at `offset`. A gap before `offset` is filled with zeros.
pub open spec fn written(contents: Seq<u8>, data: Seq<u8>, offset: int) -> Seq<u8> {
    if offset > contents.len() {
        contents + bytes::zeros(offset - contents.len()) + data
    } else if offset + data.len() <= contents.len() {
        contents.take(offset) + data + contents.skip(offset + data.len() as int)
    } else {
        contents.take(offset) + data
    }
}

/// Contents cut or padded with zeros to `length`.
pub open spec fn resized(contents: Seq<u8>, length: int) -> Seq<u8> {
    if length <= contents.len() {
        contents.take(length)
    } else {
        contents + bytes::zeros(length - contents.len())
    }
}

struct FileData {
    perms: PermissionInfo,
    data: FileBytes,
    node_info: NodeInfo,
}

struct DirData {
    perms: PermissionInfo,
    children: NameMap,
    node_info: NodeInfo,
}

/// The value of a file.
#[verifier::ext_equal]
pub struct FileState {
    pub perms: PermissionInfo,
    pub data: Seq<u8>,
    /// Whether the contents are still the borrowed data that the file was made with.
    pub is_static: bool,
    pub node_info: NodeInfo,
}

/// The value of a directory.
#[verifier::ext_equal]
pub struct DirState {
    pub perms: PermissionInfo,
    pub children: Map<Seq<char>, Child>,
    pub node_info: NodeInfo,
}

/// The value of a whole [`InMem`]: its files and directories, by number. Directory 0 is the root.
/// A file or directory keeps its number when its name is removed, so open handles stay usable.
#[verifier::ext_equal]
pub struct InMemState {
    pub files: Seq<FileState>,
    pub dirs: Seq<DirState>,
    pub user: UserInfo,
    pub device: usize,
    pub upcoming: usize,
}

impl InMemState {
    /// Whether directory `d` has an entry `name`.
    pub open spec fn has(self, d: int, name: Seq<char>) -> bool {
        0 <= d < self.dirs.len() && self.dirs[d].children.contains_key(name)
    }

    /// What the entry `name` of directory `d` stands for.
    pub open spec fn node(self, d: int, name: Seq<char>) -> Child {
        self.dirs[d].children[name]
    }

    /// The names form a tree: each entry leads to something that exists, no two entries lead to
    /// the same node, and a directory lies below its parent.
    pub open spec fn valid(self) -> bool {
        &&& self.dirs.len() > 0
        &&& forall|d: int, name: Seq<char>| #[trigger]
            self.has(d, name) ==> match self.node(d, name) {
                Child::File(f) => f < self.files.len(),
                Child::Dir(k) => d < k < self.dirs.len(),
            }
        &&& forall|d: int, a: Seq<char>, e: int, b: Seq<char>|
            #![trigger self.has(d, a), self.has(e, b)]
            self.has(d, a) && self.has(e, b) && self.node(d, a) == self.node(e, b) ==> d == e && a
                == b
    }

    /// The node of the next file or directory.
    pub open spec fn next_node(self) -> NodeInfo {
        NodeInfo { dev: self.device, ino: self.upcoming, rdev: None }
    }

    /// The inode number after the next one.
    pub open spec fn advanced(self) -> usize {
        if self.upcoming < usize::MAX {
            (self.upcoming + 1) as usize
        } else {
            0
        }
    }

    /// The state in which the entry `name` of directory `d` leads to `child`.
    pub open spec fn with_entry(self, d: int, name: Seq<char>, child: Child) -> InMemState {
        let dir = self.dirs[d];
        InMemState {
            dirs: self.dirs.update(
                d,
                DirState { children: dir.children.insert(name, child), ..dir },
            ),
            ..self
        }
    }

    /// The state without the entry `name` of directory `d`.
    pub open spec fn without_entry(self, d: int, name: Seq<char>) -> InMemState {
        let dir = self.dirs[d];
        InMemState {
            dirs: self.dirs.update(d, DirState { children: dir.children.remove(name), ..dir }),
            ..self
        }
    }

    /// The state with a new file in directory `d`.
    pub open spec fn with_new_file(
        self,
        d: int,
        name: Seq<char>,
        perms: PermissionInfo,
        data: Seq<u8>,
        is_static: bool,
    ) -> InMemState {
        InMemState {
            files: self.files.push(
                FileState { perms, data, is_static, node_info: self.next_node() },
            ),
            upcoming: self.advanced(),
            ..self.with_entry(d, name, Child::File(self.files.len() as usize))
        }
    }

    /// The state with a new, empty directory in directory `d`.
    pub open spec fn with_new_dir(
        self,
        d: int,
        name: Seq<char>,
        perms: PermissionInfo,
    ) -> InMemState {
        let linked = self.with_entry(d, name, Child::Dir(self.dirs.len() as usize));
        InMemState {
            dirs: linked.dirs.push(
                DirState { perms, children: Map::empty(), node_info: self.next_node() },
            ),
            upcoming: self.advanced(),
            ..self
        }
    }

    /// The state with the contents of file `f` replaced.
    pub open spec fn with_data(self, f: int, data: Seq<u8>, is_static: bool) -> InMemState {
        InMemState {
            files: self.files.update(f, FileState { data, is_static, ..self.files[f] }),
            ..self
        }
    }

    /// The state with the permissions of file `f` replaced.
    pub open spec fn with_file_perms(self, f: int, perms: PermissionInfo) -> InMemState {
        InMemState {
            files: self.files.update(f, FileState { perms, ..self.files[f] }),
            ..self
        }
    }

    /// The state with the permissions of directory `d` replaced.
    pub open spec fn with_dir_perms(self, d: int, perms: PermissionInfo) -> InMemState {
        InMemState { dirs: self.dirs.update(d, DirState { perms, ..self.dirs[d] }), ..self }
    }

    /// The state with the permissions of a node replaced.
    pub open spec fn with_perms(self, node: Child, perms: PermissionInfo) -> InMemState {
        match node {
            Child::File(f) => self.with_file_perms(f as int, perms),
            Child::Dir(d) => self.with_dir_perms(d as int, perms),
        }
    }

    /// The permissions of a node.
    pub open spec fn perms(self, node: Child) -> PermissionInfo {
        match node {
            Child::File(f) => self.files[f as int].perms,
            Child::Dir(d) => self.dirs[d as int].perms,
        }
    }

    /// Whether a node exists.
    pub open spec fn holds(self, node: Child) -> bool {
        match node {
            Child::File(f) => f < self.files.len(),
            Child::Dir(d) => d < self.dirs.len(),
        }
    }

    /// Whether the acting user may change the permissions and the owner of a node.
    pub open spec fn may_change(self, node: Child) -> bool {
        self.user.user == 0 || self.user.user == self.perms(node).owner.user
    }

    /// The status of a node.
    pub open spec fn status(self, node: Child) -> FileStatus {
        match node {
            Child::File(f) => {
                let file = self.files[f as int];
                FileStatus {
                    file_type: FileType::RegularFile,
                    mode: file.perms.mode,
                    size: file.data.len() as usize,
                    owner: file.perms.owner,
                    node_info: file.node_info,
                    blksize: BLOCK_SIZE,
                }
            },
            Child::Dir(d) => {
                let dir = self.dirs[d as int];
                FileStatus {
                    file_type: FileType::Directory,
                    mode: dir.perms.mode,
                    size: fs::DEFAULT_DIRECTORY_SIZE,
                    owner: dir.perms.owner,
                    node_info: dir.node_info,
                    blksize: BLOCK_SIZE,
                }
            },
        }
    }

    /// The listing entry of a name.
    pub open spec fn entry(self, d: int, name: Seq<char>) -> EntryView {
        match self.node(d, name) {
            Child::File(f) => EntryView {
                name,
                file_type: FileType::RegularFile,
                ino_info: Some(self.files[f as int].node_info),
            },
            Child::Dir(k) => EntryView {
                name,
                file_type: FileType::Directory,
                ino_info: Some(self.dirs[k as int].node_info),
            },
        }
    }

    /// Whether `entries` lists directory `d`: every name once, in some order.
    pub open spec fn is_listing(self, d: int, entries: Seq<EntryView>) -> bool {
        &&& forall|i: int|
            0 <= i < entries.len() ==> self.has(d, (#[trigger] entries[i]).name) && entries[i]
                == self.entry(d, entries[i].name)
        &&& forall|i: int, j: int|
            0 <= i < j < entries.len() ==> (#[trigger] entries[i]).name != (
            #[trigger] entries[j]).name
        &&& forall|name: Seq<char>| #[trigger]
            self.has(d, name) ==> exists|i: int|
                0 <= i < entries.len() && (#[trigger] entries[i]).name == name
    }
}

/// A directory handle's value: the directory's number and the flags it was opened with.
#[verifier::ext_equal]
pub struct DirRef {
    pub index: int,
    pub flags: OFlags,
}

/// The flags of handles that are not opened for access.
pub open spec fn path_flags() -> OFlags {
    OFlags { bits: OFlags::PATH }
}

/// The walk of `components` from `at`, after the components `walked`.
pub open spec fn mem_walk(
    st: InMemState,
    at: DirRef,
    components: Seq<Seq<char>>,
    walked: Seq<WalkedComponent>,
) -> Result<WalkResult<DirRef>, WalkError>
    decreases components.len(),
{
    if components.len() == 0 {
        Ok(
            WalkResult {
                components: walked,
                last: at,
                stop_reason: WalkStopReason::CompleteDirectory,
            },
        )
    } else if !st.has(at.index, components[0]) {
        Err(WalkError::PathError(PathError::NoSuchFileOrDirectory))
    } else {
        match st.node(at.index, components[0]) {
            Child::File(_) => Ok(
                WalkResult {
                    components: walked,
                    last: at,
                    stop_reason: WalkStopReason::StoppedAtNonDirectory,
                },
            ),
            Child::Dir(k) => mem_walk(
                st,
                DirRef { index: k as int, flags: path_flags() },
                components.drop_first(),
                walked.push(
                    WalkedComponent {
                        permissions: PermissionCheck::ByResolver(st.dirs[k as int].perms),
                    },
                ),
            ),
        }
    }
}

pub(crate) proof fn lemma_mem_walk(
    st: InMemState,
    at: DirRef,
    components: Seq<Seq<char>>,
    walked: Seq<WalkedComponent>,
)
    requires
        st.valid(),
        0 <= at.index < st.dirs.len(),
    ensures
        mem_walk(st, at, components, walked) is Ok ==> {
            let r = mem_walk(st, at, components, walked)->Ok_0;
            let n = r.components.len() - walked.len();
            &&& 0 <= n <= components.len()
            &&& r.stop_reason == WalkStopReason::CompleteDirectory ==> n == components.len()
            &&& 0 <= r.last.index < st.dirs.len()
        },
    decreases components.len(),
{
    if components.len() > 0 && st.has(at.index, components[0]) {
        if let Child::Dir(k) = st.node(at.index, components[0]) {
            lemma_mem_walk(
                st,
                DirRef { index: k as int, flags: path_flags() },
                components.drop_first(),
                walked.push(
                    WalkedComponent {
                        permissions: PermissionCheck::ByResolver(st.dirs[k as int].perms),
                    },
                ),
            );
        }
    }
}

/// The directory that `components` lead to, walking only through directories.
pub open spec fn resolve_dir(st: InMemState, from: int, components: Seq<Seq<char>>) -> Option<int>
    decreases components.len(),
{
    if components.len() == 0 {
        Some(from)
    } else if !st.has(from, components[0]) {
        None
    } else {
        match st.node(from, components[0]) {
            Child::Dir(k) => resolve_dir(st, k as int, components.drop_first()),
            Child::File(_) => None,
        }
    }
}

proof fn lemma_resolve_dir(st: InMemState, from: int, components: Seq<Seq<char>>)
    requires
        st.valid(),
        0 <= from < st.dirs.len(),
    ensures
        resolve_dir(st, from, components) is Some ==> 0 <= resolve_dir(st, from, components)->Some_0
            < st.dirs.len(),
    decreases components.len(),
{
    if components.len() > 0 && st.has(from, components[0]) {
        if let Child::Dir(k) = st.node(from, components[0]) {
            lemma_resolve_dir(st, k as int, components.drop_first());
        }
    }
}

/// A node used to pre-populate an [`InMem`], via [`InMem::new_initialized`].
pub enum InitialNode {
    /// A directory.
    Directory {
        /// Permission bits for the directory.
        mode: Mode,
        /// Owning user and group.
        owner: UserInfo,
    },
    /// A regular file, along with its contents.
    File {
        /// Permission bits for the file.
        mode: Mode,
        /// Owning user and group.
        owner: UserInfo,
        /// The file's contents. Borrowed data is kept borrowed until the first write.
        data: FileBytes,
    },
}

/// The permissions of an initial node.
pub open spec fn initial_perms(node: InitialNode) -> PermissionInfo {
    match node {
        InitialNode::Directory { mode, owner } => PermissionInfo { mode, owner },
        InitialNode::File { mode, owner, .. } => PermissionInfo { mode, owner },
    }
}

/// Whether `node` can be inserted at the path with these components: the path is normalized, its
/// parent is a directory, and what stands there already is of the same type. The root is a
/// directory.
pub open spec fn can_initialize(
    st: InMemState,
    components: Seq<Seq<char>>,
    node: InitialNode,
) -> bool {
    &&& forall|i: int|
        0 <= i < components.len() ==> (#[trigger] components[i]) != seq!['.'] && components[i]
            != seq!['.', '.']
    &&& if components.len() == 0 {
        node is Directory
    } else {
        match resolve_dir(st, 0, components.drop_last()) {
            Some(d) => st.has(d, components.last()) ==> (st.node(d, components.last()) is Dir
                <==> node is Directory),
            None => false,
        }
    }
}

/// The state after inserting `node` at the path with these components.
pub open spec fn initialized(
    st: InMemState,
    components: Seq<Seq<char>>,
    node: InitialNode,
) -> InMemState {
    let perms = initial_perms(node);
    if components.len() == 0 {
        st.with_dir_perms(0, perms)
    } else {
        let d = resolve_dir(st, 0, components.drop_last())->Some_0;
        let name = components.last();
        match node {
            InitialNode::Directory { .. } => if st.has(d, name) {
                st.with_perms(st.node(d, name), perms)
            } else {
                st.with_new_dir(d, name, perms)
            },
            InitialNode::File { data, .. } => if st.has(d, name) {
                st.with_perms(st.node(d, name), perms).with_data(
                    st.node(d, name)->File_0 as int,
                    data@,
                    data is Borrowed,
                )
            } else {
                st.with_new_file(d, name, perms, data@, data is Borrowed)
            },
        }
    }
}

/// Whether the entries can be inserted one after the other.
pub open spec fn can_initialize_all(st: InMemState, entries: Seq<(String, InitialNode)>) -> bool
    decreases entries.len(),
{
    entries.len() == 0 || {
        let components = text::path_components(entries[0].0@);
        &&& can_initialize(st, components, entries[0].1)
        &&& can_initialize_all(
            initialized(st, components, entries[0].1),
            entries.drop_first(),
        )
    }
}

/// The state after inserting the entries one after the other.
pub open spec fn initialized_all(st: InMemState, entries: Seq<(String, InitialNode)>) -> InMemState
    decreases entries.len(),
{
    if entries.len() == 0 {
        st
    } else {
        initialized_all(
            initialized(st, text::path_components(entries[0].0@), entries[0].1),
            entries.drop_first(),
        )
    }
}

/// The state of a fresh backend: a root directory that root owns, and nothing else. Operations
/// act as user 1000.
pub open spec fn fresh_state(device: usize, upcoming: usize) -> InMemState {
    let before = InMemState {
        files: Seq::empty(),
        dirs: Seq::empty(),
        user: UserInfo { user: 1000, group: 1000 },
        device,
        upcoming,
    };
    InMemState {
        dirs: seq![
            DirState {
                perms: PermissionInfo {
                    mode: Mode { bits: fs::DIRECTORY_MODE },
                    owner: fs::root_user(),
                },
                children: Map::empty(),
                node_info: before.next_node(),
            },
        ],
        upcoming: before.advanced(),
        ..before
    }
}

/// Adding an entry for a node that no other entry leads to keeps the tree.
proof fn lemma_new_entry(st: InMemState, after: InMemState, d: int, name: Seq<char>, child: Child)
    requires
        st.valid(),
        0 <= d < st.dirs.len(),
        !st.has(d, name),
        after.files.len() >= st.files.len(),
        after.dirs.len() >= st.dirs.len(),
        forall|e: int|
            0 <= e < st.dirs.len() ==> (#[trigger] after.dirs[e]).children == if e == d {
                st.dirs[e].children.insert(name, child)
            } else {
                st.dirs[e].children
            },
        forall|e: int|
            st.dirs.len() <= e < after.dirs.len() ==> (#[trigger] after.dirs[e]).children
                == names::no_names(),
        match child {
            Child::File(f) => st.files.len() <= f < after.files.len(),
            Child::Dir(k) => st.dirs.len() <= k < after.dirs.len(),
        },
    ensures
        after.valid(),
{
    assert forall|e: int, b: Seq<char>| #[trigger] after.has(e, b) implies (st.has(e, b)
        && after.node(e, b) == st.node(e, b)) || (e == d && b == name && after.node(e, b) == child) by {
        if e < st.dirs.len() {
            assert(after.dirs[e].children == if e == d {
                st.dirs[e].children.insert(name, child)
            } else {
                st.dirs[e].children
            });
        }
    }
}

/// Removing entries, or changing what is no entry, keeps the tree.
proof fn lemma_fewer_entries(st: InMemState, after: InMemState)
    requires
        st.valid(),
        after.files.len() == st.files.len(),
        after.dirs.len() == st.dirs.len(),
        forall|e: int, b: Seq<char>| #[trigger]
            after.has(e, b) ==> st.has(e, b) && after.node(e, b) == st.node(e, b),
    ensures
        after.valid(),
{
}

/// Reading the bytes that were just written gives them back, and a write changes nothing before
/// `offset` that was there.
pub proof fn lemma_read_after_write(contents: Seq<u8>, data: Seq<u8>, offset: int)
    requires
        0 <= offset,
    ensures
        written(contents, data, offset).len() == if offset + data.len() > contents.len() {
            offset + data.len()
        } else {
            contents.len() as int
        },
        written(contents, data, offset).subrange(offset, offset + data.len()) == data,
        forall|i: int|
            0 <= i < contents.len() && (i < offset || offset + data.len() <= i) ==> #[trigger]
            written(contents, data, offset)[i] == contents[i],
        forall|i: int|
            contents.len() <= i < offset ==> #[trigger] written(contents, data, offset)[i] == 0,
{
    assert(written(contents, data, offset).subrange(offset, offset + data.len()) =~= data);
}

/// A file cut and padded again holds zeros past the cut.
pub proof fn lemma_resize(contents: Seq<u8>, length: int)
    requires
        0 <= length,
    ensures
        resized(contents, length).len() == length,
        forall|i: int|
            0 <= i < length && i < contents.len() ==> #[trigger] resized(contents, length)[i]
                == contents[i],
        forall|i: int|
            contents.len() <= i < length ==> #[trigger] resized(contents, length)[i] == 0,
{
}

/// A new file is found under its name with its contents, and no other entry or file changes.
pub proof fn lemma_created_is_found(
    st: InMemState,
    d: int,
    name: Seq<char>,
    perms: PermissionInfo,
    data: Seq<u8>,
)
    requires
        0 <= d < st.dirs.len(),
    ensures
        ({
            let after = st.with_new_file(d, name, perms, data, false);
            &&& after.has(d, name)
            &&& after.node(d, name) == Child::File(st.files.len() as usize)
            &&& after.files.len() == st.files.len() + 1
            &&& after.files.last().data == data
            &&& after.files.last().perms == perms
            &&& forall|e: int, other: Seq<char>|
                e != d || other != name ==> #[trigger] after.has(e, other) == st.has(e, other)
            &&& forall|e: int, other: Seq<char>|
                (e != d || other != name) && st.has(e, other) ==> #[trigger] after.node(e, other)
                    == st.node(e, other)
            &&& forall|f: int| 0 <= f < st.files.len() ==> #[trigger] after.files[f] == st.files[f]
        }),
{
}

/// A file that is created and removed again leaves no trace in its directory.
pub proof fn lemma_create_then_unlink(
    st: InMemState,
    d: int,
    name: Seq<char>,
    perms: PermissionInfo,
    data: Seq<u8>,
)
    requires
        0 <= d < st.dirs.len(),
        !st.has(d, name),
    ensures
        st.with_new_file(d, name, perms, data, false).without_entry(d, name).dirs == st.dirs,
{
    let after = st.with_new_file(d, name, perms, data, false).without_entry(d, name);
    assert(after.dirs[d].children =~= st.dirs[d].children);
    assert(after.dirs =~= st.dirs);
}

/// A directory that is made and removed again leaves no trace in its parent, and is empty while it
/// is there.
pub proof fn lemma_mkdir_then_rmdir(st: InMemState, d: int, name: Seq<char>, perms: PermissionInfo)
    requires
        0 <= d < st.dirs.len(),
        st.dirs.len() < usize::MAX,
        !st.has(d, name),
    ensures
        ({
            let made = st.with_new_dir(d, name, perms);
            &&& made.node(d, name) == Child::Dir(st.dirs.len() as usize)
            &&& forall|other: Seq<char>| !#[trigger] made.has(st.dirs.len() as int, other)
            &&& made.without_entry(d, name).dirs.take(st.dirs.len() as int) == st.dirs
        }),
{
    let after = st.with_new_dir(d, name, perms).without_entry(d, name);
    assert(after.dirs[d].children =~= st.dirs[d].children);
    assert(after.dirs.take(st.dirs.len() as int) =~= st.dirs);
}

/// A backend that stores all files in memory. What it holds is gone once it is dropped. What has
/// been removed from it can still be used through handles, and stays until then.
pub struct InMem {
    files: Vec<FileData>,
    dirs: Vec<DirData>,
    current_user: UserInfo,
    inode_allocator: InodeAllocator,
}

/// Directory handle.
#[derive(Clone, Copy, Debug, PartialEq, Eq, Structural)]
pub struct InMemDirHandle {
    dir: usize,
    /// The flags the directory was opened with; walking handles use `OFlags::PATH`.
    flags: OFlags,
}

/// File handle.
#[derive(Clone, Copy, Debug, PartialEq, Eq, Structural)]
pub struct InMemFileHandle {
    file: usize,
}

/// A handle of either type.
#[derive(Clone, Copy, Debug, PartialEq, Eq, Structural)]
pub enum HandleRef {
    File(InMemFileHandle),
    Dir(InMemDirHandle),
}

impl HandleRef {
    /// The node that the handle stands for.
    pub closed spec fn node(self) -> Child {
        match self {
            HandleRef::File(h) => Child::File(h.file),
            HandleRef::Dir(h) => Child::Dir(h.dir),
        }
    }
}

impl InMemFileHandle {
    /// The number of the file.
    pub closed spec fn index(self) -> int {
        self.file as int
    }
}

impl View for InMemDirHandle {
    type V = DirRef;

    closed spec fn view(&self) -> DirRef {
        DirRef { index: self.dir as int, flags: self.flags }
    }
}

spec fn file_state(f: FileData) -> FileState {
    FileState {
        perms: f.perms,
        data: f.data@,
        is_static: f.data is Borrowed,
        node_info: f.node_info,
    }
}

spec fn dir_state(d: DirData) -> DirState {
    DirState { perms: d.perms, children: d.children@, node_info: d.node_info }
}

impl InMem {
    /// The value of this backend.
    pub closed spec fn state(&self) -> InMemState {
        InMemState {
            files: self.files@.map_values(|f: FileData| file_state(f)),
            dirs: self.dirs@.map_values(|d: DirData| dir_state(d)),
            user: self.current_user,
            device: self.inode_allocator.device(),
            upcoming: self.inode_allocator.upcoming(),
        }
    }

    /// An empty backend.
    #[must_use]
    pub fn new(inode_allocator: InodeAllocator) -> (r: Self)
        ensures
            r.state() == fresh_state(inode_allocator.device(), inode_allocator.upcoming()),
            r.wf(),
    {
        let ghost device = inode_allocator.device();
        let ghost upcoming = inode_allocator.upcoming();
        let mut inode_allocator = inode_allocator;
        let node_info = inode_allocator.next();
        let root = DirData {
            perms: PermissionInfo {
                mode: Mode { bits: fs::DIRECTORY_MODE },
                owner: UserInfo::root(),
            },
            children: NameMap::new(),
            node_info,
        };
        let mut dirs: Vec<DirData> = Vec::new();
        dirs.push(root);
        let r = InMem {
            files: Vec::new(),
            dirs,
            current_user: UserInfo { user: 1000, group: 1000 },
            inode_allocator,
        };
        assert(r.state() =~~= fresh_state(device, upcoming));
        r
    }

    /// A backend pre-populated with `entries`.
    ///
    /// Entries are inserted in order, bypassing all permission checks. Each entry's parent must
    /// already exist, either as the root or from an earlier entry; re-specifying an existing path
    /// updates its mode and owner (and, for a file, its contents), which is how the root
    /// directory's own permissions are set (via the path `/`).
    #[must_use]
    pub fn new_initialized(entries: Vec<(String, InitialNode)>) -> (r: Self)
        requires
            can_initialize_all(standalone_state(), entries@),
        ensures
            r.state() == initialized_all(standalone_state(), entries@),
            r.wf(),
    {
        let mut this = Self::new(InodeAllocator::standalone());
        let ghost given = entries@;
        let mut pending = entries;
        let mut reversed: Vec<(String, InitialNode)> = Vec::new();
        while pending.len() > 0
            invariant
                pending@.len() + reversed@.len() == given.len(),
                forall|k: int| 0 <= k < pending@.len() ==> pending@[k] == given[k],
                forall|k: int|
                    0 <= k < reversed@.len() ==> reversed@[k] == given[given.len() - 1 - k],
            decreases pending.len(),
        {
            if let Some(entry) = pending.pop() {
                reversed.push(entry);
            }
        }
        let ghost mut n: int = 0;
        assert(given.skip(0) =~= given);
        while reversed.len() > 0
            invariant
                0 <= n,
                n + reversed@.len() == given.len(),
                forall|k: int|
                    0 <= k < reversed@.len() ==> reversed@[k] == given[given.len() - 1 - k],
                this.wf(),
                can_initialize_all(this.state(), given.skip(n)),
                initialized_all(this.state(), given.skip(n)) == initialized_all(
                    standalone_state(),
                    given,
                ),
            decreases reversed.len(),
        {
            if let Some((path, node)) = reversed.pop() {
                assert(given.skip(n)[0] == (path, node));
                assert(given.skip(n).drop_first() =~= given.skip(n + 1));
                this.insert_initial(path.as_str(), node);
                proof {
                    n = n + 1;
                }
            }
        }
        assert(given.skip(n).len() == 0);
        this
    }

    /// Insert a single [`InitialNode`], as described on [`Self::new_initialized`].
    fn insert_initial(&mut self, path: &str, node: InitialNode)
        requires
            old(self).wf(),
            can_initialize(old(self).state(), text::path_components(path@), node),
        ensures
            final(self).state() == initialized(
                old(self).state(),
                text::path_components(path@),
                node,
            ),
            final(self).wf(),
    {
        let ghost before = self.state();
        let components = text::split_path(path);
        let ghost comps = text::path_components(path@);
        let ghost perms = initial_perms(node);
        if components.len() == 0 {
            if let InitialNode::Directory { mode, owner } = node {
                self.set_perms(Child::Dir(0), PermissionInfo { mode, owner });
            }
            return;
        }
        let last: usize = components.len() - 1;
        let mut dir: usize = 0;
        let mut i: usize = 0;
        let ghost parents = comps.drop_last();
        assert(parents.skip(0) =~= parents);
        while i < last
            invariant
                i <= last,
                components.len() == last + 1,
                comps == text::texts(components@),
                parents == comps.drop_last(),
                self.state() == before,
                before.valid(),
                dir < before.dirs.len(),
                resolve_dir(before, 0, parents) is Some,
                resolve_dir(before, 0, parents) == resolve_dir(
                    before,
                    dir as int,
                    parents.skip(i as int),
                ),
            decreases last - i,
        {
            assert(parents.skip(i as int)[0] == components@[i as int]@);
            assert(parents.skip(i as int).drop_first() =~= parents.skip(i + 1));
            assert(before.dirs[dir as int].children == self.dirs@[dir as int].children@);
            if let Some(Child::Dir(child)) = self.dirs[dir].children.get(components[i].as_str()) {
                assert(before.has(dir as int, components@[i as int]@));
                dir = child;
            }
            i = i + 1;
        }
        assert(parents.skip(last as int).len() == 0);
        let name = components[last].as_str();
        assert(name@ == comps.last());
        assert(before.dirs[dir as int].children == self.dirs@[dir as int].children@);
        match (self.dirs[dir].children.get(name), node) {
            (Some(child), InitialNode::Directory { mode, owner }) => {
                assert(before.has(dir as int, name@));
                self.set_perms(child, PermissionInfo { mode, owner });
            },
            (Some(child), InitialNode::File { mode, owner, data }) => {
                assert(before.has(dir as int, name@));
                self.set_perms(child, PermissionInfo { mode, owner });
                if let Child::File(f) = child {
                    self.set_data(f, data);
                }
            },
            (None, InitialNode::Directory { mode, owner }) => {
                self.add_dir(dir, name, PermissionInfo { mode, owner });
            },
            (None, InitialNode::File { mode, owner, data }) => {
                self.add_file(dir, name, PermissionInfo { mode, owner }, data);
            },
        }
    }

    /// Replace the permissions of a node.
    fn set_perms(&mut self, node: Child, perms: PermissionInfo)
        requires
            old(self).wf(),
            old(self).state().holds(node),
        ensures
            final(self).state() == old(self).state().with_perms(node, perms),
            final(self).wf(),
    {
        let ghost before = self.state();
        match node {
            Child::File(f) => {
                self.files[f].perms = perms;
            },
            Child::Dir(d) => {
                self.dirs[d].perms = perms;
            },
        }
        assert(self.state() =~~= before.with_perms(node, perms));
        proof {
            lemma_fewer_entries(before, self.state());
        }
    }

    /// Replace the contents of a file.
    fn set_data(&mut self, f: usize, data: FileBytes)
        requires
            old(self).wf(),
            f < old(self).state().files.len(),
        ensures
            final(self).state() == old(self).state().with_data(f as int, data@, data is Borrowed),
            final(self).wf(),
    {
        let ghost before = self.state();
        self.files[f].data = data;
        assert(self.state() =~~= before.with_data(f as int, data@, data is Borrowed));
        proof {
            lemma_fewer_entries(before, self.state());
        }
    }

    /// Add a file to a directory, under a name that is not taken.
    fn add_file(&mut self, d: usize, name: &str, perms: PermissionInfo, data: FileBytes) -> (r:
        usize)
        requires
            old(self).wf(),
            d < old(self).state().dirs.len(),
            !old(self).state().has(d as int, name@),
        ensures
            final(self).state() == old(self).state().with_new_file(
                d as int,
                name@,
                perms,
                data@,
                data is Borrowed,
            ),
            r == old(self).state().files.len(),
            final(self).wf(),
    {
        let ghost before = self.state();
        let f: usize = self.files.len();
        let node_info = self.inode_allocator.next();
        self.files.push(FileData { perms, data, node_info });
        let old_entry = self.dirs[d].children.insert(name.to_owned(), Child::File(f));
        proof {
            let after = before.with_new_file(d as int, name@, perms, data@, data is Borrowed);
            assert(self.state() =~~= after);
            lemma_new_entry(before, after, d as int, name@, Child::File(f));
        }
        f
    }

    /// Add an empty directory to a directory, under a name that is not taken.
    fn add_dir(&mut self, d: usize, name: &str, perms: PermissionInfo) -> (r: usize)
        requires
            old(self).wf(),
            d < old(self).state().dirs.len(),
            !old(self).state().has(d as int, name@),
        ensures
            final(self).state() == old(self).state().with_new_dir(d as int, name@, perms),
            r == old(self).state().dirs.len(),
            final(self).wf(),
    {
        let ghost before = self.state();
        let k: usize = self.dirs.len();
        let node_info = self.inode_allocator.next();
        let old_entry = self.dirs[d].children.insert(name.to_owned(), Child::Dir(k));
        self.dirs.push(DirData { perms, children: NameMap::new(), node_info });
        proof {
            let after = before.with_new_dir(d as int, name@, perms);
            assert(self.state() =~~= after);
            lemma_new_entry(before, after, d as int, name@, Child::Dir(k));
        }
        k
    }

    /// Initialize an empty file with data that is mostly read. The data stays borrowed until the
    /// first write to the file.
    pub fn initialize_primarily_read_heavy_file(&mut self, h: &InMemFileHandle, data: FileBytes)
        requires
            old(self).wf(),
            old(self).has_file(*h),
            old(self).state().files[h.index()].data.len() == 0,
        ensures
            final(self).wf(),
            final(self).state() == old(self).state().with_data(h.index(), data@, data is Borrowed),
    {
        self.set_data(h.file, data);
    }

    /// Status of an open handle.
    pub fn status(&self, h: HandleRef) -> (r: Result<FileStatus, FileStatusError>)
        requires
            self.wf(),
            self.state().holds(h.node()),
        ensures
            r == Ok::<FileStatus, FileStatusError>(self.state().status(h.node())),
    {
        match h {
            HandleRef::File(h) => {
                let file = &self.files[h.file];
                Ok(
                    FileStatus {
                        file_type: FileType::RegularFile,
                        mode: file.perms.mode,
                        size: file.data.len(),
                        owner: file.perms.owner,
                        node_info: file.node_info,
                        blksize: BLOCK_SIZE,
                    },
                )
            },
            HandleRef::Dir(h) => {
                let dir = &self.dirs[h.dir];
                Ok(
                    FileStatus {
                        file_type: FileType::Directory,
                        mode: dir.perms.mode,
                        size: fs::DEFAULT_DIRECTORY_SIZE,
                        owner: dir.perms.owner,
                        node_info: dir.node_info,
                        blksize: BLOCK_SIZE,
                    },
                )
            },
        }
    }

    /// The permissions of a node.
    fn perms_of(&self, node: Child) -> (r: PermissionInfo)
        requires
            self.state().holds(node),
        ensures
            r == self.state().perms(node),
    {
        match node {
            Child::File(f) => self.files[f].perms,
            Child::Dir(d) => self.dirs[d].perms,
        }
    }

    fn chmod_node(&mut self, node: Child, mode: Mode) -> (r: Result<(), ChmodError>)
        requires
            old(self).wf(),
            old(self).state().holds(node),
        ensures
            final(self).wf(),
            (final(self).state(), r) == mem_chmod(old(self).state(), node, mode),
    {
        let perms = self.perms_of(node);
        if !(self.current_user.user == 0 || self.current_user.user == perms.owner.user) {
            return Err(ChmodError::NotTheOwner);
        }
        self.set_perms(node, PermissionInfo { mode, owner: perms.owner });
        Ok(())
    }

    fn chown_node(&mut self, node: Child, user: Option<u16>, group: Option<u16>) -> (r: Result<
        (),
        ChownError,
    >)
        requires
            old(self).wf(),
            old(self).state().holds(node),
        ensures
            final(self).wf(),
            (final(self).state(), r) == mem_chown(old(self).state(), node, user, group),
    {
        let perms = self.perms_of(node);
        if !(self.current_user.user == 0 || self.current_user.user == perms.owner.user) {
            return Err(ChownError::NotTheOwner);
        }
        let owner = UserInfo {
            user: match user {
                Some(u) => u,
                None => perms.owner.user,
            },
            group: match group {
                Some(g) => g,
                None => perms.owner.group,
            },
        };
        self.set_perms(node, PermissionInfo { mode: perms.mode, owner });
        Ok(())
    }

    /// Change the permissions of the file or directory at an open handle. Only its owner and root
    /// may do so.
    pub fn chmod(&mut self, h: HandleRef, mode: Mode) -> (r: Result<(), ChmodError>)
        requires
            old(self).wf(),
            old(self).state().holds(h.node()),
        ensures
            final(self).wf(),
            (final(self).state(), r) == mem_chmod(old(self).state(), h.node(), mode),
    {
        match h {
            HandleRef::File(h) => self.chmod_node(Child::File(h.file), mode),
            HandleRef::Dir(h) => self.chmod_node(Child::Dir(h.dir), mode),
        }
    }

    /// Change the owner of the file or directory at an open handle. Only its owner and root may
    /// do so.
    pub fn chown(&mut self, h: HandleRef, user: Option<u16>, group: Option<u16>) -> (r: Result<
        (),
        ChownError,
    >)
        requires
            old(self).wf(),
            old(self).state().holds(h.node()),
        ensures
            final(self).wf(),
            (final(self).state(), r) == mem_chown(old(self).state(), h.node(), user, group),
    {
        match h {
            HandleRef::File(h) => self.chown_node(Child::File(h.file), user, group),
            HandleRef::Dir(h) => self.chown_node(Child::Dir(h.dir), user, group),
        }
    }
}

/// What changing the permissions of a node does.
pub open spec fn mem_chmod(st: InMemState, node: Child, mode: Mode) -> (
    InMemState,
    Result<(), ChmodError>,
) {
    if st.may_change(node) {
        (st.with_perms(node, PermissionInfo { mode, owner: st.perms(node).owner }), Ok(()))
    } else {
        (st, Err(ChmodError::NotTheOwner))
    }
}

/// What changing the owner of a node does.
pub open spec fn mem_chown(
    st: InMemState,
    node: Child,
    user: Option<u16>,
    group: Option<u16>,
) -> (InMemState, Result<(), ChownError>) {
    if st.may_change(node) {
        let was = st.perms(node);
        let owner = UserInfo {
            user: if user is Some {
                user->Some_0
            } else {
                was.owner.user
            },
            group: if group is Some {
                group->Some_0
            } else {
                was.owner.group
            },
        };
        (st.with_perms(node, PermissionInfo { mode: was.mode, owner }), Ok(()))
    } else {
        (st, Err(ChownError::NotTheOwner))
    }
}

/// The state that [`InMem::new_initialized`] starts from.
pub open spec fn standalone_state() -> InMemState {
    fresh_state(fs::inode_allocator::STANDALONE_DEVICE_ID as usize, 1)
}

/// Whether a read that started with `before` in its buffer and `contents` in the file is this one.
pub open spec fn is_read_of(
    contents: Seq<u8>,
    before: Seq<u8>,
    offset: int,
    after: Seq<u8>,
    r: Result<usize, ReadError>,
) -> bool {
    let available = if offset < contents.len() {
        contents.skip(offset)
    } else {
        Seq::empty()
    };
    let n = if before.len() < available.len() {
        before.len() as int
    } else {
        available.len() as int
    };
    r is Ok && r->Ok_0 == n && after == available.take(n) + before.skip(n)
}

/// Copy what lies at `offset` into `buf`.
pub(crate) fn read_at(contents: &[u8], buf: &mut [u8], offset: usize) -> (r: usize)
    ensures
        is_read_of(contents@, old(buf)@, offset as int, final(buf)@, Ok(r)),
        final(buf)@.len() == old(buf)@.len(),
{
    if offset >= contents.len() {
        assert(Seq::<u8>::empty().take(0) + buf@.skip(0) =~= buf@);
        return 0;
    }
    let available = vstd::slice::slice_subrange(contents, offset, contents.len());
    assert(available@ =~= contents@.skip(offset as int));
    let n: usize = if buf.len() < available.len() {
        buf.len()
    } else {
        available.len()
    };
    bytes::copy_into(buf, available, n);
    n
}

impl Backend for InMem {
    type Walking = InMemDirHandle;

    type Dir = InMemDirHandle;

    type File = InMemFileHandle;

    type WalkingV = DirRef;

    type DirV = DirRef;

    open spec fn walking_view(w: InMemDirHandle) -> DirRef {
        w@
    }

    open spec fn dir_view(d: InMemDirHandle) -> DirRef {
        d@
    }

    open spec fn wf(&self) -> bool {
        self.state().valid()
    }

    open spec fn has_walking(&self, w: DirRef) -> bool {
        0 <= w.index < self.state().dirs.len()
    }

    open spec fn has_dir(&self, d: DirRef) -> bool {
        0 <= d.index < self.state().dirs.len()
    }

    open spec fn has_file(&self, f: InMemFileHandle) -> bool {
        0 <= f.index() < self.state().files.len()
    }

    open spec fn root_spec(&self) -> DirRef {
        DirRef { index: 0, flags: path_flags() }
    }

    open spec fn walk_spec(&self, from: DirRef, components: Seq<Seq<char>>) -> Result<
        WalkResult<DirRef>,
        WalkError,
    > {
        mem_walk(self.state(), from, components, Seq::empty())
    }

    open spec fn can_own_dir(&self, dir: DirRef, flags: OFlags) -> bool {
        are_supported_oflags(flags) && !flags.meets(OFlags::WRONLY | OFlags::RDWR)
    }

    open spec fn own_dir_spec(&self, dir: DirRef, flags: OFlags) -> Result<DirRef, OpenError> {
        Ok(DirRef { index: dir.index, flags })
    }

    open spec fn walking_dir_spec(&self, dir: DirRef) -> Option<DirRef> {
        Some(DirRef { index: dir.index, flags: path_flags() })
    }

    open spec fn can_open(&self, dir: DirRef, name: Seq<char>, flags: OFlags) -> bool {
        are_supported_oflags(flags)
    }

    open spec fn opens(
        &self,
        dir: DirRef,
        name: Seq<char>,
        flags: OFlags,
        after: &Self,
        r: Result<Permissioned<InMemFileHandle>, OpenError>,
    ) -> bool {
        let st = self.state();
        if !st.has(dir.index, name) {
            &&& after.state() == st
            &&& r is Err
            &&& r->Err_0 == OpenError::PathError(PathError::NoSuchFileOrDirectory)
        } else {
            match st.node(dir.index, name) {
                Child::File(f) if !flags.has(OFlags::DIRECTORY) => {
                    &&& r is Ok
                    &&& r->Ok_0.item.index() == f
                    &&& r->Ok_0.permissions == PermissionCheck::ByResolver(
                        st.files[f as int].perms,
                    )
                    &&& after.state() == if flags.has(OFlags::TRUNC) && !flags.has(OFlags::PATH) {
                        st.with_data(f as int, Seq::empty(), st.files[f as int].is_static)
                    } else {
                        st
                    }
                },
                _ => {
                    &&& after.state() == st
                    &&& r is Err
                    &&& r->Err_0 == OpenError::PathError(PathError::ComponentNotADirectory)
                },
            }
        }
    }

    open spec fn lists(&self, dir: DirRef, r: Result<Seq<EntryView>, ReadDirError>) -> bool {
        r is Ok && self.state().is_listing(dir.index, r->Ok_0)
    }

    open spec fn can_read(&self, h: InMemFileHandle, len: nat, offset: usize) -> bool {
        offset + len <= usize::MAX
    }

    open spec fn reads(
        &self,
        h: InMemFileHandle,
        before: Seq<u8>,
        offset: usize,
        after: Seq<u8>,
        r: Result<usize, ReadError>,
    ) -> bool {
        is_read_of(self.state().files[h.index()].data, before, offset as int, after, r)
    }

    open spec fn static_spec(&self, h: InMemFileHandle) -> Option<Seq<u8>> {
        let file = self.state().files[h.index()];
        if file.is_static {
            Some(file.data)
        } else {
            None
        }
    }

    open spec fn can_write(&self, h: InMemFileHandle, len: nat, offset: usize) -> bool {
        offset + len <= isize::MAX
    }

    open spec fn writes(
        &self,
        h: InMemFileHandle,
        data: Seq<u8>,
        offset: usize,
        after: &Self,
        r: Result<usize, WriteError>,
    ) -> bool {
        &&& r is Ok
        &&& r->Ok_0 == data.len()
        &&& after.state() == self.state().with_data(
            h.index(),
            written(self.state().files[h.index()].data, data, offset as int),
            false,
        )
    }

    open spec fn can_truncate(&self, h: InMemFileHandle, length: usize) -> bool {
        length <= isize::MAX
    }

    open spec fn truncates(
        &self,
        h: InMemFileHandle,
        length: usize,
        after: &Self,
        r: Result<(), TruncateError>,
    ) -> bool {
        let file = self.state().files[h.index()];
        &&& r is Ok
        &&& after.state() == self.state().with_data(
            h.index(),
            resized(file.data, length as int),
            file.is_static && length <= file.data.len(),
        )
    }

    open spec fn seek_spec(&self, h: InMemFileHandle) -> SeekBehavior {
        SeekBehavior::PositionBased
    }

    open spec fn file_status_spec(&self, h: InMemFileHandle) -> Result<
        FileStatus,
        FileStatusError,
    > {
        Ok(self.state().status(Child::File(h.index() as usize)))
    }

    open spec fn dir_status_spec(&self, d: DirRef) -> Result<FileStatus, FileStatusError> {
        Ok(self.state().status(Child::Dir(d.index as usize)))
    }

    open spec fn creates(
        &self,
        dir: DirRef,
        name: Seq<char>,
        mode: Mode,
        after: &Self,
        r: Result<InMemFileHandle, OpenError>,
    ) -> bool {
        let st = self.state();
        if st.has(dir.index, name) {
            after.state() == st && r is Err && r->Err_0 == OpenError::AlreadyExists
        } else {
            &&& r is Ok
            &&& r->Ok_0.index() == st.files.len()
            &&& after.state() == st.with_new_file(
                dir.index,
                name,
                PermissionInfo { mode, owner: st.user },
                Seq::empty(),
                false,
            )
        }
    }

    open spec fn makes_dir(
        &self,
        dir: DirRef,
        name: Seq<char>,
        mode: Mode,
        after: &Self,
        r: Result<DirRef, MkdirError>,
    ) -> bool {
        let st = self.state();
        if st.has(dir.index, name) {
            after.state() == st && r is Err && r->Err_0 == MkdirError::AlreadyExists
        } else {
            &&& r == Ok::<DirRef, MkdirError>(
                DirRef { index: st.dirs.len() as int, flags: path_flags() },
            )
            &&& after.state() == st.with_new_dir(
                dir.index,
                name,
                PermissionInfo { mode, owner: st.user },
            )
        }
    }

    open spec fn unlinks(
        &self,
        dir: DirRef,
        name: Seq<char>,
        after: &Self,
        r: Result<(), UnlinkError>,
    ) -> bool {
        let st = self.state();
        if !st.has(dir.index, name) {
            after.state() == st && r is Err && r->Err_0 == UnlinkError::PathError(
                PathError::NoSuchFileOrDirectory,
            )
        } else if st.node(dir.index, name) is Dir {
            after.state() == st && r is Err && r->Err_0 == UnlinkError::IsADirectory
        } else {
            r is Ok && after.state() == st.without_entry(dir.index, name)
        }
    }

    open spec fn removes_dir(
        &self,
        dir: DirRef,
        name: Seq<char>,
        after: &Self,
        r: Result<(), RmdirError>,
    ) -> bool {
        let st = self.state();
        if !st.has(dir.index, name) {
            after.state() == st && r is Err && r->Err_0 == RmdirError::PathError(
                PathError::NoSuchFileOrDirectory,
            )
        } else {
            match st.node(dir.index, name) {
                Child::File(_) => after.state() == st && r is Err && r->Err_0
                    == RmdirError::NotADirectory,
                Child::Dir(k) => if st.dirs[k as int].children != names::no_names() {
                    after.state() == st && r is Err && r->Err_0 == RmdirError::NotEmpty
                } else {
                    r is Ok && after.state() == st.without_entry(dir.index, name)
                },
            }
        }
    }

    open spec fn chmods(
        &self,
        dir: DirRef,
        name: Seq<char>,
        mode: Mode,
        after: &Self,
        r: Result<(), ChmodError>,
    ) -> bool {
        let st = self.state();
        if !st.has(dir.index, name) {
            after.state() == st && r is Err && r->Err_0 == ChmodError::PathError(
                PathError::NoSuchFileOrDirectory,
            )
        } else {
            (after.state(), r) == mem_chmod(st, st.node(dir.index, name), mode)
        }
    }

    open spec fn chowns(
        &self,
        dir: DirRef,
        name: Seq<char>,
        user: Option<u16>,
        group: Option<u16>,
        after: &Self,
        r: Result<(), ChownError>,
    ) -> bool {
        let st = self.state();
        if !st.has(dir.index, name) {
            after.state() == st && r is Err && r->Err_0 == ChownError::PathError(
                PathError::NoSuchFileOrDirectory,
            )
        } else {
            (after.state(), r) == mem_chown(st, st.node(dir.index, name), user, group)
        }
    }

    proof fn root_is_own(&self) {
    }

    proof fn walk_is_sound(&self, from: DirRef, components: Seq<Seq<char>>) {
        lemma_mem_walk(self.state(), from, components, Seq::empty());
    }

    fn root(&self) -> (r: InMemDirHandle) {
        InMemDirHandle { dir: 0, flags: OFlags { bits: OFlags::PATH } }
    }

    fn walk_directories(&self, from: InMemDirHandle, components: &[&str]) -> (r: Result<
        WalkOutcome<InMemDirHandle>,
        WalkError,
    >) {
        let ghost st = self.state();
        let ghost comps = text::words(components@);
        let mut current = from;
        let mut walked: Vec<WalkedComponent> = Vec::new();
        let mut i: usize = 0;
        assert(comps.skip(0) =~= comps);
        assert(walked@ =~= Seq::empty());
        while i < components.len()
            invariant
                i <= components@.len(),
                st == self.state(),
                st.valid(),
                comps == text::words(components@),
                0 <= current@.index < st.dirs.len(),
                mem_walk(st, from@, comps, Seq::empty()) == mem_walk(
                    st,
                    current@,
                    comps.skip(i as int),
                    walked@,
                ),
            decreases components@.len() - i,
        {
            let ghost todo = comps.skip(i as int);
            assert(todo[0] == components@[i as int]@);
            assert(todo.drop_first() =~= comps.skip(i + 1));
            assert(st.dirs[current.dir as int].children
                == self.dirs@[current.dir as int].children@);
            match self.dirs[current.dir].children.get(components[i]) {
                None => {
                    return Err(WalkError::PathError(PathError::NoSuchFileOrDirectory));
                },
                Some(Child::File(_)) => {
                    return Ok(
                        WalkOutcome {
                            components: walked,
                            last: current,
                            stop_reason: WalkStopReason::StoppedAtNonDirectory,
                        },
                    );
                },
                Some(Child::Dir(k)) => {
                    assert(st.has(current@.index, todo[0]));
                    walked.push(
                        WalkedComponent {
                            permissions: PermissionCheck::ByResolver(self.dirs[k].perms),
                        },
                    );
                    current = InMemDirHandle { dir: k, flags: OFlags { bits: OFlags::PATH } };
                },
            }
            i = i + 1;
        }
        assert(comps.skip(i as int).len() == 0);
        Ok(
            WalkOutcome {
                components: walked,
                last: current,
                stop_reason: WalkStopReason::CompleteDirectory,
            },
        )
    }

    fn owned_dir_at(&self, dir: InMemDirHandle, flags: OFlags) -> (r: Result<
        InMemDirHandle,
        OpenError,
    >) {
        Ok(InMemDirHandle { dir: dir.dir, flags })
    }

    fn walking_dir_at(&self, dir: &InMemDirHandle) -> (r: Option<InMemDirHandle>) {
        Some(InMemDirHandle { dir: dir.dir, flags: OFlags { bits: OFlags::PATH } })
    }

    fn open_file_at(&mut self, dir: InMemDirHandle, name: &str, flags: OFlags) -> (r: Result<
        Permissioned<InMemFileHandle>,
        OpenError,
    >) {
        let ghost st = self.state();
        assert(st.dirs[dir.dir as int].children == self.dirs@[dir.dir as int].children@);
        let file = match self.dirs[dir.dir].children.get(name) {
            None => {
                return Err(OpenError::PathError(PathError::NoSuchFileOrDirectory));
            },
            Some(Child::Dir(_)) => {
                return Err(OpenError::PathError(PathError::ComponentNotADirectory));
            },
            Some(Child::File(f)) => f,
        };
        assert(st.has(dir@.index, name@));
        if flags.contains(OFlags::DIRECTORY) {
            return Err(OpenError::PathError(PathError::ComponentNotADirectory));
        }
        let perms = self.files[file].perms;
        let handle = InMemFileHandle { file };
        if flags.contains(OFlags::TRUNC) && !flags.contains(OFlags::PATH) {
            // The file is emptied whatever the access mode is, as long as the open succeeds.
            if let Err(e) = self.truncate(&handle, 0) {
                return Err(OpenError::TruncateError(e));
            }
            assert(resized(st.files[file as int].data, 0) =~= Seq::empty());
        }
        Ok(Permissioned { item: handle, permissions: PermissionCheck::ByResolver(perms) })
    }

    fn list_dir_at(&self, dir: InMemDirHandle) -> (r: Result<Vec<DirEntry>, ReadDirError>) {
        let ghost st = self.state();
        let ghost d = dir@.index;
        assert(st.dirs[d].children == self.dirs@[d].children@);
        let pairs = self.dirs[dir.dir].children.entries();
        let ghost views = names::pair_views(pairs@);
        let mut entries: Vec<DirEntry> = Vec::new();
        let mut i: usize = 0;
        while i < pairs.len()
            invariant
                i <= pairs.len(),
                entries.len() == i,
                st == self.state(),
                st.valid(),
                0 <= d < st.dirs.len(),
                views == names::pair_views(pairs@),
                names::is_enumeration(views, st.dirs[d].children),
                forall|k: int|
                    0 <= k < i ==> (#[trigger] entries@[k])@ == st.entry(d, views[k].0),
            decreases pairs.len() - i,
        {
            let (name, child) = &pairs[i];
            assert(views[i as int] == (name@, *child));
            assert(st.has(d, name@));
            let (file_type, node_info) = match *child {
                Child::File(f) => (FileType::RegularFile, self.files[f].node_info),
                Child::Dir(k) => (FileType::Directory, self.dirs[k].node_info),
            };
            entries.push(
                DirEntry { name: name.clone(), file_type, ino_info: Some(node_info) },
            );
            i = i + 1;
        }
        proof {
            let listed = fs::entry_views(entries@);
            assert forall|k: int| 0 <= k < listed.len() implies st.has(
                d,
                (#[trigger] listed[k]).name,
            ) && listed[k] == st.entry(d, listed[k].name) && listed[k].name == views[k].0 by {
                assert(entries@[k]@ == st.entry(d, views[k].0));
                assert(st.dirs[d].children.contains_key(views[k].0));
            }
            assert forall|a: int, b: int| 0 <= a < b < listed.len() implies (
            #[trigger] listed[a]).name != (#[trigger] listed[b]).name by {
                assert(views[a].0 != views[b].0);
            }
            assert forall|name: Seq<char>| #[trigger] st.has(d, name) implies exists|k: int|
                0 <= k < listed.len() && (#[trigger] listed[k]).name == name by {
                let k = choose|k: int| 0 <= k < views.len() && (#[trigger] views[k]).0 == name;
                assert(listed[k].name == name);
            }
        }
        Ok(entries)
    }

    fn read(&self, h: &InMemFileHandle, buf: &mut [u8], offset: usize) -> (r: Result<
        usize,
        ReadError,
    >) {
        assert(self.state().files[h.index()].data == self.files@[h.index()].data@);
        Ok(read_at(self.files[h.file].data.as_slice(), buf, offset))
    }

    fn get_static_backing_data(&self, h: &InMemFileHandle) -> (r: Option<&'static [u8]>) {
        match &self.files[h.file].data {
            FileBytes::Borrowed(data) => Some(*data),
            FileBytes::Owned(_) => None,
        }
    }

    fn write(&mut self, h: &InMemFileHandle, data: &[u8], offset: usize) -> (r: Result<
        usize,
        WriteError,
    >) {
        let ghost was = self.state().files[h.index()].data;
        assert(was == self.files@[h.index()].data@);
        let mut contents = bytes::to_vec(self.files[h.file].data.as_slice());
        let mut overwritten: usize = 0;
        if offset < contents.len() {
            let room: usize = contents.len() - offset;
            overwritten =
            if data.len() < room {
                data.len()
            } else {
                room
            };
            let mut i: usize = 0;
            while i < overwritten
                invariant
                    i <= overwritten <= data@.len(),
                    offset + overwritten <= usize::MAX,
                    offset + overwritten <= contents@.len(),
                    contents@.len() == was.len(),
                    forall|k: int|
                        0 <= k < was.len() ==> contents@[k] == if offset <= k < offset + i {
                            data@[k - offset]
                        } else {
                            was[k]
                        },
                decreases overwritten - i,
            {
                contents.set(offset + i, data[i]);
                i = i + 1;
            }
        } else if offset > contents.len() {
            bytes::pad_to(&mut contents, offset);
        }
        bytes::append_from(&mut contents, data, overwritten);
        assert(contents@ =~= written(was, data@, offset as int));
        self.set_data(h.file, FileBytes::Owned(contents));
        Ok(data.len())
    }

    fn truncate(&mut self, h: &InMemFileHandle, length: usize) -> (r: Result<(), TruncateError>) {
        let ghost st = self.state();
        let ghost was = st.files[h.index()].data;
        assert(was == self.files@[h.index()].data@);
        let size: usize = self.files[h.file].data.len();
        if length < size {
            let shorter = match &self.files[h.file].data {
                FileBytes::Borrowed(data) => {
                    let cut = vstd::slice::slice_subrange(*data, 0, length);
                    assert(cut@ =~= was.take(length as int));
                    FileBytes::Borrowed(cut)
                },
                FileBytes::Owned(data) => {
                    let mut data = bytes::to_vec(data.as_slice());
                    data.truncate(length);
                    assert(data@ =~= was.take(length as int));
                    FileBytes::Owned(data)
                },
            };
            self.set_data(h.file, shorter);
        } else if length > size {
            let mut contents = bytes::to_vec(self.files[h.file].data.as_slice());
            bytes::pad_to(&mut contents, length);
            self.set_data(h.file, FileBytes::Owned(contents));
        } else {
            assert(was.take(length as int) =~= was);
            assert(st =~~= st.with_data(h.index(), was, st.files[h.index()].is_static));
        }
        Ok(())
    }

    fn seek_behavior(&self, h: &InMemFileHandle) -> (r: SeekBehavior) {
        SeekBehavior::PositionBased
    }

    fn file_status(&self, h: &InMemFileHandle) -> (r: Result<FileStatus, FileStatusError>) {
        self.status(HandleRef::File(*h))
    }

    fn dir_status(&self, d: &InMemDirHandle) -> (r: Result<FileStatus, FileStatusError>) {
        self.status(HandleRef::Dir(*d))
    }

    fn create_file_at(&mut self, dir: InMemDirHandle, name: &str, mode: Mode) -> (r: Result<
        InMemFileHandle,
        OpenError,
    >) {
        assert(self.state().dirs[dir@.index].children == self.dirs@[dir@.index].children@);
        if self.dirs[dir.dir].children.contains_key(name) {
            return Err(OpenError::AlreadyExists);
        }
        let perms = PermissionInfo { mode, owner: self.current_user };
        let file = self.add_file(dir.dir, name, perms, FileBytes::Owned(Vec::new()));
        Ok(InMemFileHandle { file })
    }

    fn mkdir_at(&mut self, dir: InMemDirHandle, name: &str, mode: Mode) -> (r: Result<
        InMemDirHandle,
        MkdirError,
    >) {
        assert(self.state().dirs[dir@.index].children == self.dirs@[dir@.index].children@);
        if self.dirs[dir.dir].children.contains_key(name) {
            return Err(MkdirError::AlreadyExists);
        }
        let perms = PermissionInfo { mode, owner: self.current_user };
        let child = self.add_dir(dir.dir, name, perms);
        Ok(InMemDirHandle { dir: child, flags: OFlags { bits: OFlags::PATH } })
    }

    fn unlink_at(&mut self, dir: InMemDirHandle, name: &str) -> (r: Result<(), UnlinkError>) {
        assert(self.state().dirs[dir@.index].children == self.dirs@[dir@.index].children@);
        match self.dirs[dir.dir].children.get(name) {
            None => Err(UnlinkError::PathError(PathError::NoSuchFileOrDirectory)),
            Some(Child::Dir(_)) => Err(UnlinkError::IsADirectory),
            Some(Child::File(_)) => {
                self.remove_entry(dir.dir, name);
                Ok(())
            },
        }
    }

    fn rmdir_at(&mut self, dir: InMemDirHandle, name: &str) -> (r: Result<(), RmdirError>) {
        let ghost st = self.state();
        assert(st.dirs[dir@.index].children == self.dirs@[dir@.index].children@);
        match self.dirs[dir.dir].children.get(name) {
            None => Err(RmdirError::PathError(PathError::NoSuchFileOrDirectory)),
            Some(Child::File(_)) => Err(RmdirError::NotADirectory),
            Some(Child::Dir(k)) => {
                assert(st.has(dir@.index, name@));
                assert(st.dirs[k as int].children == self.dirs@[k as int].children@);
                if !self.dirs[k].children.is_empty() {
                    return Err(RmdirError::NotEmpty);
                }
                self.remove_entry(dir.dir, name);
                Ok(())
            },
        }
    }

    fn chmod_at(&mut self, dir: InMemDirHandle, name: &str, mode: Mode) -> (r: Result<
        (),
        ChmodError,
    >) {
        assert(self.state().dirs[dir@.index].children == self.dirs@[dir@.index].children@);
        match self.dirs[dir.dir].children.get(name) {
            None => Err(ChmodError::PathError(PathError::NoSuchFileOrDirectory)),
            Some(child) => {
                assert(self.state().has(dir@.index, name@));
                self.chmod_node(child, mode)
            },
        }
    }

    fn chown_at(
        &mut self,
        dir: InMemDirHandle,
        name: &str,
        user: Option<u16>,
        group: Option<u16>,
    ) -> (r: Result<(), ChownError>) {
        assert(self.state().dirs[dir@.index].children == self.dirs@[dir@.index].children@);
        match self.dirs[dir.dir].children.get(name) {
            None => Err(ChownError::PathError(PathError::NoSuchFileOrDirectory)),
            Some(child) => {
                assert(self.state().has(dir@.index, name@));
                self.chown_node(child, user, group)
            },
        }
    }
}

impl InMem {
    /// Remove an entry of a directory.
    fn remove_entry(&mut self, d: usize, name: &str)
        requires
            old(self).wf(),
            old(self).state().has(d as int, name@),
        ensures
            final(self).state() == old(self).state().without_entry(d as int, name@),
            final(self).wf(),
    {
        let ghost before = self.state();
        let removed = self.dirs[d].children.remove(name);
        assert(self.state() =~~= before.without_entry(d as int, name@));
        proof {
            lemma_fewer_entries(before, self.state());
        }
    }
}

} // verus!
