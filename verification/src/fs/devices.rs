//! The standard devices, under `/dev`.
use crate::fs;
use crate::fs::backend::{
    Backend, PermissionCheck, Permissioned, SeekBehavior, WalkOutcome, WalkResult, WalkStopReason,
    WalkedComponent,
};
use crate::fs::errors::{
    ChmodError, ChownError, FileStatusError, MkdirError, OpenError, PathError, ReadDirError,
    ReadError, RmdirError, TruncateError, UnlinkError, WalkError, WriteError,
};
use crate::fs::inode_allocator::{InodeAllocator, STANDALONE_DEVICE_ID};
use crate::fs::{DirEntry, EntryView, FileStatus, FileType, Mode, NodeInfo, OFlags, UserInfo};
use crate::platform::{
    CrngProvider, StdioOutStream, StdioProvider, StdioReadError, StdioWriteError,
};
use crate::text;
use vstd::prelude::*;
use vstd::string::*;

verus! {

/// Block size for stdio devices.
pub const STDIO_BLOCK_SIZE: usize = 1024;

/// Block size for `/dev/null`.
pub const NULL_BLOCK_SIZE: usize = 0x1000;

/// Block size for `/dev/urandom`.
pub const URANDOM_BLOCK_SIZE: usize = 0x1000;

/// A device.
#[derive(Debug, Clone, Copy, PartialEq, Eq, Structural)]
pub enum Device {
    Stdin,
    Stdout,
    Stderr,
    Null,
    URandom,
}

/// The devices, in the order in which they are listed.
pub open spec fn all_devices() -> Seq<Device> {
    seq![Device::Stdin, Device::Stdout, Device::Stderr, Device::Null, Device::URandom]
}

/// The device with a name.
pub open spec fn device_named(name: Seq<char>) -> Option<Device> {
    if name == "stdin"@ {
        Some(Device::Stdin)
    } else if name == "stdout"@ {
        Some(Device::Stdout)
    } else if name == "stderr"@ {
        Some(Device::Stderr)
    } else if name == "null"@ {
        Some(Device::Null)
    } else if name == "urandom"@ {
        Some(Device::URandom)
    } else {
        None
    }
}

impl Device {
    /// The name of the device.
    pub open spec fn name_spec(self) -> Seq<char> {
        match self {
            Device::Stdin => "stdin"@,
            Device::Stdout => "stdout"@,
            Device::Stderr => "stderr"@,
            Device::Null => "null"@,
            Device::URandom => "urandom"@,
        }
    }

    /// The status of the device.
    pub open spec fn status_spec(self) -> FileStatus {
        let (mode, node_info, blksize) = match self {
            Device::Stdin | Device::Stdout | Device::Stderr => (
                0o620u32,
                NodeInfo { dev: 64, ino: 9, rdev: Some(34822) },
                STDIO_BLOCK_SIZE,
            ),
            // major=1, minor=3
            Device::Null => (
                0o666u32,
                NodeInfo { dev: 5, ino: 4, rdev: Some(0x103) },
                NULL_BLOCK_SIZE,
            ),
            // major=1, minor=9
            Device::URandom => (
                0o666u32,
                NodeInfo { dev: 5, ino: 8, rdev: Some(0x109) },
                URANDOM_BLOCK_SIZE,
            ),
        };
        FileStatus {
            file_type: FileType::CharacterDevice,
            mode: Mode { bits: mode },
            size: 0,
            owner: fs::root_user(),
            node_info,
            blksize,
        }
    }

    /// Whether the device is a terminal stream.
    pub open spec fn is_stdio(self) -> bool {
        self is Stdin || self is Stdout || self is Stderr
    }

    /// The device with a name.
    pub fn from_name(name: &str) -> (r: Option<Device>)
        ensures
            r == device_named(name@),
    {
        if text::same_text(name, "stdin") {
            Some(Device::Stdin)
        } else if text::same_text(name, "stdout") {
            Some(Device::Stdout)
        } else if text::same_text(name, "stderr") {
            Some(Device::Stderr)
        } else if text::same_text(name, "null") {
            Some(Device::Null)
        } else if text::same_text(name, "urandom") {
            Some(Device::URandom)
        } else {
            None
        }
    }

    /// The name of the device.
    pub fn name(self) -> (r: &'static str)
        ensures
            r@ == self.name_spec(),
    {
        match self {
            Device::Stdin => "stdin",
            Device::Stdout => "stdout",
            Device::Stderr => "stderr",
            Device::Null => "null",
            Device::URandom => "urandom",
        }
    }

    /// The status of the device.
    pub fn file_status(self) -> (r: FileStatus)
        ensures
            r == self.status_spec(),
    {
        let read_write: u32 = Mode::RUSR | Mode::WUSR | Mode::RGRP | Mode::WGRP | Mode::ROTH
            | Mode::WOTH;
        assert(0o400u32 | 0o200 | 0o020 == 0o620) by (bit_vector);
        assert(0o400u32 | 0o200 | 0o040 | 0o020 | 0o004 | 0o002 == 0o666) by (bit_vector);
        match self {
            Device::Stdin | Device::Stdout | Device::Stderr => FileStatus {
                file_type: FileType::CharacterDevice,
                mode: Mode { bits: Mode::RUSR | Mode::WUSR | Mode::WGRP },
                size: 0,
                owner: UserInfo::root(),
                node_info: NodeInfo { dev: 64, ino: 9, rdev: Some(34822) },
                blksize: STDIO_BLOCK_SIZE,
            },
            Device::Null => FileStatus {
                file_type: FileType::CharacterDevice,
                mode: Mode { bits: read_write },
                size: 0,
                owner: UserInfo::root(),
                node_info: NodeInfo { dev: 5, ino: 4, rdev: Some(0x103) },
                blksize: NULL_BLOCK_SIZE,
            },
            Device::URandom => FileStatus {
                file_type: FileType::CharacterDevice,
                mode: Mode { bits: read_write },
                size: 0,
                owner: UserInfo::root(),
                node_info: NodeInfo { dev: 5, ino: 8, rdev: Some(0x109) },
                blksize: URANDOM_BLOCK_SIZE,
            },
        }
    }
}

/// Every device is found under its name, and under no other.
pub proof fn lemma_device_names(device: Device, name: Seq<char>)
    ensures
        device_named(name) == Some(device) <==> name == device.name_spec(),
{
    reveal_strlit("stdin");
    reveal_strlit("stdout");
    reveal_strlit("stderr");
    reveal_strlit("null");
    reveal_strlit("urandom");
    assert("stdin"@[3] == 'i' && "stderr"@[3] == 'e' && "stdout"@[3] == 'o');
    assert("null"@[0] == 'n' && "urandom"@[0] == 'u' && "stdin"@[0] == 's' && "stdout"@[0] == 's'
        && "stderr"@[0] == 's');
}

/// A directory of the backend.
#[derive(Debug, Clone, Copy, PartialEq, Eq, Structural)]
pub enum Location {
    Root,
    Dev,
}

#[derive(Debug, Clone, Copy)]
pub struct DeviceFileHandle {
    device: Device,
}

impl DeviceFileHandle {
    /// The device that the handle is open on.
    pub closed spec fn target(&self) -> Device {
        self.device
    }
}

#[derive(Debug, Clone, Copy)]
pub struct DeviceDirHandle {
    location: Location,
}

impl View for DeviceDirHandle {
    type V = Location;

    closed spec fn view(&self) -> Location {
        self.location
    }
}

/// What reading a standard input that may be closed reports.
pub open spec fn stdin_result(r: Result<usize, StdioReadError>) -> Result<usize, ReadError> {
    match r {
        Ok(n) => Ok(n),
        Err(StdioReadError::Closed) => Err(ReadError::Io),
    }
}

/// What writing to a stream that may be closed reports.
pub open spec fn stdout_result(r: Result<usize, StdioWriteError>) -> Result<usize, WriteError> {
    match r {
        Ok(n) => Ok(n),
        Err(StdioWriteError::Closed) => Err(WriteError::Io),
    }
}

/// What a walk from a directory finds. This backend only exposes one directory below root. Device
/// files are final path targets, so directory walking must stop before them.
pub open spec fn device_walk(from: Location, components: Seq<Seq<char>>) -> Result<
    WalkResult<Location>,
    WalkError,
> {
    let step = WalkedComponent { permissions: PermissionCheck::ByBackend };
    let (at, walked, rest) = if from is Root && components.len() > 0 && components[0] == "dev"@ {
        (Location::Dev, seq![step], components.drop_first())
    } else {
        (from, Seq::empty(), components)
    };
    if rest.len() == 0 {
        Ok(
            WalkResult {
                components: walked,
                last: at,
                stop_reason: WalkStopReason::CompleteDirectory,
            },
        )
    } else if at is Dev && device_named(rest[0]) is Some {
        Ok(
            WalkResult {
                components: walked,
                last: at,
                stop_reason: WalkStopReason::StoppedAtNonDirectory,
            },
        )
    } else {
        Err(WalkError::PathError(PathError::NoSuchFileOrDirectory))
    }
}

/// The backend of the standard devices.
pub struct Devices<P: StdioProvider + CrngProvider> {
    platform: P,
    /// Stable inode info for `/dev`.
    dev_dir_inode: NodeInfo,
}

impl<P: StdioProvider + CrngProvider> Devices<P> {
    /// The platform that devices are read from and written to.
    pub closed spec fn provider(&self) -> P {
        self.platform
    }

    /// The node of `/dev`.
    pub closed spec fn dev_node(&self) -> NodeInfo {
        self.dev_dir_inode
    }

    /// Construct a new `Devices` backend.
    #[must_use]
    pub fn new(platform: P, allocator: InodeAllocator) -> (r: Self)
        ensures
            r.provider() == platform,
            r.dev_node() == allocator.next_node(),
    {
        let mut allocator = allocator;
        let dev_dir_inode = allocator.next();
        Devices { platform, dev_dir_inode }
    }

    /// A `Devices` backend with an inode allocator of its own.
    #[must_use]
    pub fn migration_helper_standalone_new(platform: P) -> (r: Self)
        ensures
            r.provider() == platform,
            r.dev_node() == (NodeInfo {
                dev: STANDALONE_DEVICE_ID as usize,
                ino: 1,
                rdev: None,
            }),
    {
        Self::new(platform, InodeAllocator::standalone())
    }

    /// The status of a directory.
    pub open spec fn location_status(&self, location: Location) -> FileStatus {
        FileStatus {
            file_type: FileType::Directory,
            mode: Mode { bits: fs::DIRECTORY_MODE },
            size: fs::DEFAULT_DIRECTORY_SIZE,
            owner: fs::root_user(),
            node_info: match location {
                Location::Root => NodeInfo { dev: self.dev_node().dev, ino: 0, rdev: None },
                Location::Dev => self.dev_node(),
            },
            blksize: fs::DEFAULT_DIRECTORY_SIZE,
        }
    }

    /// The listing of a directory.
    pub open spec fn location_listing(&self, location: Location) -> Seq<EntryView> {
        match location {
            Location::Root => seq![
                EntryView {
                    name: "dev"@,
                    file_type: FileType::Directory,
                    ino_info: Some(self.dev_node()),
                },
            ],
            Location::Dev => all_devices().map_values(|d: Device| device_entry(d)),
        }
    }
}

/// The listing entry of a device.
pub open spec fn device_entry(d: Device) -> EntryView {
    EntryView {
        name: d.name_spec(),
        file_type: FileType::CharacterDevice,
        ino_info: Some(d.status_spec().node_info),
    }
}

fn list_device(d: Device) -> (r: DirEntry)
    ensures
        r@ == device_entry(d),
{
    DirEntry {
        name: d.name().to_owned(),
        file_type: FileType::CharacterDevice,
        ino_info: Some(d.file_status().node_info),
    }
}

impl<P: StdioProvider + CrngProvider> Backend for Devices<P> {
    type Walking = DeviceDirHandle;

    type Dir = DeviceDirHandle;

    type File = DeviceFileHandle;

    type WalkingV = Location;

    type DirV = Location;

    open spec fn walking_view(w: DeviceDirHandle) -> Location {
        w@
    }

    open spec fn dir_view(d: DeviceDirHandle) -> Location {
        d@
    }

    open spec fn wf(&self) -> bool {
        true
    }

    open spec fn has_walking(&self, w: Location) -> bool {
        true
    }

    open spec fn has_dir(&self, d: Location) -> bool {
        true
    }

    open spec fn has_file(&self, f: DeviceFileHandle) -> bool {
        true
    }

    open spec fn root_spec(&self) -> Location {
        Location::Root
    }

    open spec fn walk_spec(&self, from: Location, components: Seq<Seq<char>>) -> Result<
        WalkResult<Location>,
        WalkError,
    > {
        device_walk(from, components)
    }

    open spec fn can_own_dir(&self, dir: Location, flags: OFlags) -> bool {
        true
    }

    open spec fn own_dir_spec(&self, dir: Location, flags: OFlags) -> Result<Location, OpenError> {
        Ok(dir)
    }

    open spec fn walking_dir_spec(&self, dir: Location) -> Option<Location> {
        Some(dir)
    }

    /// Non-blocking I/O is supported for `/dev/null` only.
    open spec fn can_open(&self, dir: Location, name: Seq<char>, flags: OFlags) -> bool {
        dir is Dev && device_named(name) is Some && device_named(name)->Some_0 != Device::Null
            && !flags.has(OFlags::DIRECTORY) ==> !flags.has(OFlags::NONBLOCK)
    }

    open spec fn opens(
        &self,
        dir: Location,
        name: Seq<char>,
        flags: OFlags,
        after: &Self,
        r: Result<Permissioned<DeviceFileHandle>, OpenError>,
    ) -> bool {
        &&& after == self
        &&& if dir is Root || device_named(name) is None {
            r is Err && r->Err_0 == OpenError::PathError(PathError::NoSuchFileOrDirectory)
        } else if flags.has(OFlags::DIRECTORY) {
            r is Err && r->Err_0 == OpenError::PathError(PathError::ComponentNotADirectory)
        } else {
            &&& r is Ok
            &&& r->Ok_0.item.target() == device_named(name)->Some_0
            &&& r->Ok_0.permissions == PermissionCheck::ByBackend
        }
    }

    open spec fn lists(&self, dir: Location, r: Result<Seq<EntryView>, ReadDirError>) -> bool {
        r == Ok::<Seq<EntryView>, ReadDirError>(self.location_listing(dir))
    }

    open spec fn can_read(&self, h: DeviceFileHandle, len: nat, offset: usize) -> bool {
        true
    }

    open spec fn reads(
        &self,
        h: DeviceFileHandle,
        before: Seq<u8>,
        offset: usize,
        after: Seq<u8>,
        r: Result<usize, ReadError>,
    ) -> bool {
        match h.target() {
            Device::Stdin => exists|q: Result<usize, StdioReadError>| #[trigger]
                self.provider().stdin_outcome(before, after, q) && r == stdin_result(q),
            Device::Stdout | Device::Stderr => after == before && r
                == Err::<usize, ReadError>(ReadError::NotForReading),
            Device::Null => after == before && r == Ok::<usize, ReadError>(0),
            Device::URandom => self.provider().crng_outcome(before, after) && r == Ok::<
                usize,
                ReadError,
            >(before.len() as usize),
        }
    }

    open spec fn static_spec(&self, h: DeviceFileHandle) -> Option<Seq<u8>> {
        None
    }

    open spec fn can_write(&self, h: DeviceFileHandle, len: nat, offset: usize) -> bool {
        true
    }

    open spec fn writes(
        &self,
        h: DeviceFileHandle,
        data: Seq<u8>,
        offset: usize,
        after: &Self,
        r: Result<usize, WriteError>,
    ) -> bool {
        &&& after == self
        &&& match h.target() {
            Device::Stdin => r == Err::<usize, WriteError>(WriteError::NotForWriting),
            Device::Stdout => exists|q: Result<usize, StdioWriteError>| #[trigger]
                self.provider().write_outcome(StdioOutStream::Stdout, data, q) && r
                    == stdout_result(q),
            Device::Stderr => exists|q: Result<usize, StdioWriteError>| #[trigger]
                self.provider().write_outcome(StdioOutStream::Stderr, data, q) && r
                    == stdout_result(q),
            Device::Null | Device::URandom => r == Ok::<usize, WriteError>(data.len() as usize),
        }
    }

    open spec fn can_truncate(&self, h: DeviceFileHandle, length: usize) -> bool {
        true
    }

    open spec fn truncates(
        &self,
        h: DeviceFileHandle,
        length: usize,
        after: &Self,
        r: Result<(), TruncateError>,
    ) -> bool {
        after == self && r == Err::<(), TruncateError>(TruncateError::IsTerminalDevice)
    }

    open spec fn seek_spec(&self, h: DeviceFileHandle) -> SeekBehavior {
        if h.target().is_stdio() {
            SeekBehavior::NonSeekable
        } else {
            SeekBehavior::ZeroPosition
        }
    }

    open spec fn file_status_spec(&self, h: DeviceFileHandle) -> Result<
        FileStatus,
        FileStatusError,
    > {
        Ok(h.target().status_spec())
    }

    open spec fn dir_status_spec(&self, d: Location) -> Result<FileStatus, FileStatusError> {
        Ok(self.location_status(d))
    }

    open spec fn creates(
        &self,
        dir: Location,
        name: Seq<char>,
        mode: Mode,
        after: &Self,
        r: Result<DeviceFileHandle, OpenError>,
    ) -> bool {
        after == self && r is Err && r->Err_0 == OpenError::ReadOnlyFileSystem
    }

    open spec fn makes_dir(
        &self,
        dir: Location,
        name: Seq<char>,
        mode: Mode,
        after: &Self,
        r: Result<Location, MkdirError>,
    ) -> bool {
        after == self && r is Err && r->Err_0 == MkdirError::ReadOnlyFileSystem
    }

    open spec fn unlinks(
        &self,
        dir: Location,
        name: Seq<char>,
        after: &Self,
        r: Result<(), UnlinkError>,
    ) -> bool {
        after == self && r is Err && r->Err_0 == UnlinkError::ReadOnlyFileSystem
    }

    open spec fn removes_dir(
        &self,
        dir: Location,
        name: Seq<char>,
        after: &Self,
        r: Result<(), RmdirError>,
    ) -> bool {
        after == self && r is Err && r->Err_0 == RmdirError::ReadOnlyFileSystem
    }

    open spec fn chmods(
        &self,
        dir: Location,
        name: Seq<char>,
        mode: Mode,
        after: &Self,
        r: Result<(), ChmodError>,
    ) -> bool {
        after == self && r is Err && r->Err_0 == ChmodError::ReadOnlyFileSystem
    }

    open spec fn chowns(
        &self,
        dir: Location,
        name: Seq<char>,
        user: Option<u16>,
        group: Option<u16>,
        after: &Self,
        r: Result<(), ChownError>,
    ) -> bool {
        after == self && r is Err && r->Err_0 == ChownError::ReadOnlyFileSystem
    }

    proof fn root_is_own(&self) {
    }

    proof fn walk_is_sound(&self, from: Location, components: Seq<Seq<char>>) {
    }

    fn root(&self) -> (r: DeviceDirHandle) {
        DeviceDirHandle { location: Location::Root }
    }

    fn walk_directories(&self, from: DeviceDirHandle, components: &[&str]) -> (r: Result<
        WalkOutcome<DeviceDirHandle>,
        WalkError,
    >) {
        let ghost comps = text::words(components@);
        let mut location = from.location;
        let mut walked: Vec<WalkedComponent> = Vec::new();
        let mut i: usize = 0;
        assert(walked@ =~= Seq::empty());
        while i < components.len()
            invariant
                i <= components@.len(),
                comps == text::words(components@),
                i > 0 ==> i == 1 && from.location is Root && comps[0] == "dev"@ && location is Dev
                    && walked@ =~= seq![
                    WalkedComponent { permissions: PermissionCheck::ByBackend },
                ],
                i == 0 ==> location == from.location && walked@ =~= Seq::empty(),
            decreases components@.len() - i,
        {
            let c = components[i];
            assert(comps[i as int] == c@);
            if i == 1 {
                assert(comps.drop_first()[0] == c@);
            }
            if location == Location::Root && text::same_text(c, "dev") {
                walked.push(WalkedComponent { permissions: PermissionCheck::ByBackend });
                location = Location::Dev;
            } else if location == Location::Dev && Device::from_name(c).is_some() {
                return Ok(
                    WalkOutcome {
                        components: walked,
                        last: DeviceDirHandle { location },
                        stop_reason: WalkStopReason::StoppedAtNonDirectory,
                    },
                );
            } else {
                return Err(WalkError::PathError(PathError::NoSuchFileOrDirectory));
            }
            i = i + 1;
        }
        Ok(
            WalkOutcome {
                components: walked,
                last: DeviceDirHandle { location },
                stop_reason: WalkStopReason::CompleteDirectory,
            },
        )
    }

    fn owned_dir_at(&self, dir: DeviceDirHandle, flags: OFlags) -> (r: Result<
        DeviceDirHandle,
        OpenError,
    >) {
        Ok(dir)
    }

    fn walking_dir_at(&self, dir: &DeviceDirHandle) -> (r: Option<DeviceDirHandle>) {
        Some(*dir)
    }

    fn open_file_at(&mut self, dir: DeviceDirHandle, name: &str, flags: OFlags) -> (r: Result<
        Permissioned<DeviceFileHandle>,
        OpenError,
    >) {
        if dir.location != Location::Dev {
            return Err(OpenError::PathError(PathError::NoSuchFileOrDirectory));
        }
        let device = match Device::from_name(name) {
            Some(device) => device,
            None => {
                return Err(OpenError::PathError(PathError::NoSuchFileOrDirectory));
            },
        };
        if flags.contains(OFlags::DIRECTORY) {
            return Err(OpenError::PathError(PathError::ComponentNotADirectory));
        }
        // Truncation upon opening is silently ignored: no device has contents to truncate.
        Ok(
            Permissioned {
                item: DeviceFileHandle { device },
                permissions: PermissionCheck::ByBackend,
            },
        )
    }

    fn list_dir_at(&self, dir: DeviceDirHandle) -> (r: Result<Vec<DirEntry>, ReadDirError>) {
        let mut entries: Vec<DirEntry> = Vec::new();
        match dir.location {
            Location::Root => {
                entries.push(
                    DirEntry {
                        name: "dev".to_owned(),
                        file_type: FileType::Directory,
                        ino_info: Some(self.dev_dir_inode),
                    },
                );
            },
            Location::Dev => {
                entries.push(list_device(Device::Stdin));
                entries.push(list_device(Device::Stdout));
                entries.push(list_device(Device::Stderr));
                entries.push(list_device(Device::Null));
                entries.push(list_device(Device::URandom));
            },
        }
        assert(fs::entry_views(entries@) =~= self.location_listing(dir@));
        Ok(entries)
    }

    fn read(&self, h: &DeviceFileHandle, buf: &mut [u8], offset: usize) -> (r: Result<
        usize,
        ReadError,
    >) {
        match h.device {
            Device::Stdin => {
                let ghost before = buf@;
                let q = self.platform.read_from_stdin(buf);
                assert(self.provider().stdin_outcome(before, buf@, q));
                match q {
                    Ok(n) => Ok(n),
                    Err(StdioReadError::Closed) => Err(ReadError::Io),
                }
            },
            Device::Stdout | Device::Stderr => Err(ReadError::NotForReading),
            Device::Null => {
                // /dev/null read returns EOF
                Ok(0)
            },
            Device::URandom => {
                let len: usize = buf.len();
                self.platform.fill_bytes_crng(buf);
                Ok(len)
            },
        }
    }

    fn get_static_backing_data(&self, h: &DeviceFileHandle) -> (r: Option<&'static [u8]>) {
        None
    }

    fn write(&mut self, h: &DeviceFileHandle, data: &[u8], offset: usize) -> (r: Result<
        usize,
        WriteError,
    >) {
        let stream = match h.device {
            Device::Stdin => {
                return Err(WriteError::NotForWriting);
            },
            Device::Stdout => StdioOutStream::Stdout,
            Device::Stderr => StdioOutStream::Stderr,
            Device::Null | Device::URandom => {
                // /dev/null discards data: report as if written fully. For simplicity, so does
                // /dev/urandom.
                return Ok(data.len());
            },
        };
        let q = self.platform.write_to(stream, data);
        assert(self.provider().write_outcome(stream, data@, q));
        match q {
            Ok(n) => Ok(n),
            Err(StdioWriteError::Closed) => Err(WriteError::Io),
        }
    }

    fn truncate(&mut self, h: &DeviceFileHandle, length: usize) -> (r: Result<(), TruncateError>) {
        Err(TruncateError::IsTerminalDevice)
    }

    fn seek_behavior(&self, h: &DeviceFileHandle) -> (r: SeekBehavior) {
        match h.device {
            Device::Stdin | Device::Stdout | Device::Stderr => SeekBehavior::NonSeekable,
            Device::Null | Device::URandom => SeekBehavior::ZeroPosition,
        }
    }

    fn file_status(&self, h: &DeviceFileHandle) -> (r: Result<FileStatus, FileStatusError>) {
        Ok(h.device.file_status())
    }

    fn dir_status(&self, d: &DeviceDirHandle) -> (r: Result<FileStatus, FileStatusError>) {
        let node_info = match d.location {
            Location::Root => NodeInfo { dev: self.dev_dir_inode.dev, ino: 0, rdev: None },
            Location::Dev => self.dev_dir_inode,
        };
        Ok(
            FileStatus {
                file_type: FileType::Directory,
                mode: Mode { bits: fs::DIRECTORY_MODE },
                size: fs::DEFAULT_DIRECTORY_SIZE,
                owner: UserInfo::root(),
                node_info,
                blksize: fs::DEFAULT_DIRECTORY_SIZE,
            },
        )
    }

    fn create_file_at(&mut self, dir: DeviceDirHandle, name: &str, mode: Mode) -> (r: Result<
        DeviceFileHandle,
        OpenError,
    >) {
        Err(OpenError::ReadOnlyFileSystem)
    }

    fn mkdir_at(&mut self, dir: DeviceDirHandle, name: &str, mode: Mode) -> (r: Result<
        DeviceDirHandle,
        MkdirError,
    >) {
        Err(MkdirError::ReadOnlyFileSystem)
    }

    fn unlink_at(&mut self, dir: DeviceDirHandle, name: &str) -> (r: Result<(), UnlinkError>) {
        Err(UnlinkError::ReadOnlyFileSystem)
    }

    fn rmdir_at(&mut self, dir: DeviceDirHandle, name: &str) -> (r: Result<(), RmdirError>) {
        Err(RmdirError::ReadOnlyFileSystem)
    }

    fn chmod_at(&mut self, dir: DeviceDirHandle, name: &str, mode: Mode) -> (r: Result<
        (),
        ChmodError,
    >) {
        Err(ChmodError::ReadOnlyFileSystem)
    }

    fn chown_at(
        &mut self,
        dir: DeviceDirHandle,
        name: &str,
        user: Option<u16>,
        group: Option<u16>,
    ) -> (r: Result<(), ChownError>) {
        Err(ChownError::ReadOnlyFileSystem)
    }
}

} // verus!
