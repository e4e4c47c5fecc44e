//! What holds of the standard devices.
use crate::fs::backend::{Backend, Permissioned, SeekBehavior, WalkStopReason};
use crate::fs::devices::{
    device_named, lemma_device_names, Device, DeviceFileHandle, Devices, Location,
};
use crate::fs::errors::{
    ChmodError, ChownError, MkdirError, OpenError, PathError, ReadDirError, ReadError, RmdirError,
    TruncateError, UnlinkError, WalkError, WriteError,
};
use crate::fs::{EntryView, Mode, OFlags};
use crate::platform::{CrngProvider, StdioOutStream, StdioProvider, StdioReadError, StdioWriteError};
use vstd::prelude::*;

verus! {

/// Nothing is ever read from the null device, and all that is written to it is taken.
pub proof fn lemma_null_device<P: StdioProvider + CrngProvider>(
    fs: Devices<P>,
    h: DeviceFileHandle,
    before: Seq<u8>,
    offset: usize,
    after: Seq<u8>,
    r: Result<usize, ReadError>,
    data: Seq<u8>,
    written: Devices<P>,
    w: Result<usize, WriteError>,
)
    requires
        h.target() is Null,
        fs.reads(h, before, offset, after, r),
        fs.writes(h, data, offset, &written, w),
        data.len() <= usize::MAX,
    ensures
        r is Ok,
        r->Ok_0 == 0,
        after == before,
        w is Ok,
        w->Ok_0 == data.len(),
        written == fs,
{
}

/// The random device fills the whole buffer with what the platform gives, and takes all that is
/// written to it.
pub proof fn lemma_random_device<P: StdioProvider + CrngProvider>(
    fs: Devices<P>,
    h: DeviceFileHandle,
    before: Seq<u8>,
    offset: usize,
    after: Seq<u8>,
    r: Result<usize, ReadError>,
    data: Seq<u8>,
    written: Devices<P>,
    w: Result<usize, WriteError>,
)
    requires
        h.target() is URandom,
        fs.reads(h, before, offset, after, r),
        fs.writes(h, data, offset, &written, w),
        data.len() <= usize::MAX,
        before.len() <= usize::MAX,
    ensures
        r is Ok,
        r->Ok_0 == before.len(),
        fs.provider().crng_outcome(before, after),
        w is Ok,
        w->Ok_0 == data.len(),
{
}

/// Standard input is read from the platform: as many bytes as it says, and an I/O error where it is
/// closed. It cannot be written.
pub proof fn lemma_standard_input<P: StdioProvider + CrngProvider>(
    fs: Devices<P>,
    h: DeviceFileHandle,
    before: Seq<u8>,
    offset: usize,
    after: Seq<u8>,
    r: Result<usize, ReadError>,
    data: Seq<u8>,
    written: Devices<P>,
    w: Result<usize, WriteError>,
)
    requires
        h.target() is Stdin,
        fs.reads(h, before, offset, after, r),
        fs.writes(h, data, offset, &written, w),
    ensures
        match r {
            Ok(n) => fs.provider().stdin_outcome(before, after, Ok(n)),
            Err(e) => e is Io && fs.provider().stdin_outcome(
                before,
                after,
                Err(StdioReadError::Closed),
            ),
        },
        w is Err,
        w->Err_0 == WriteError::NotForWriting,
{
    let q = choose|q: Result<usize, StdioReadError>| #[trigger]
        fs.provider().stdin_outcome(before, after, q) && r == crate::fs::devices::stdin_result(q);
    assert(fs.provider().stdin_outcome(before, after, q));
    match q {
        Ok(n) => {
            assert(q == Ok::<usize, StdioReadError>(n) && r == Ok::<usize, ReadError>(n));
        },
        Err(e) => {
            assert(q == Err::<usize, StdioReadError>(StdioReadError::Closed));
        },
    }
}

/// What is written to an output device goes to the stream of the same name: as many bytes are taken
/// as the platform says, and an I/O error comes where it is closed. It cannot be read.
pub proof fn lemma_standard_output<P: StdioProvider + CrngProvider>(
    fs: Devices<P>,
    h: DeviceFileHandle,
    before: Seq<u8>,
    offset: usize,
    after: Seq<u8>,
    r: Result<usize, ReadError>,
    data: Seq<u8>,
    written: Devices<P>,
    w: Result<usize, WriteError>,
)
    requires
        h.target() is Stdout || h.target() is Stderr,
        fs.reads(h, before, offset, after, r),
        fs.writes(h, data, offset, &written, w),
    ensures
        ({
            let stream = if h.target() is Stdout {
                StdioOutStream::Stdout
            } else {
                StdioOutStream::Stderr
            };
            match w {
                Ok(n) => fs.provider().write_outcome(stream, data, Ok(n)),
                Err(e) => e is Io && fs.provider().write_outcome(
                    stream,
                    data,
                    Err(StdioWriteError::Closed),
                ),
            }
        }),
        r is Err,
        r->Err_0 == ReadError::NotForReading,
        after == before,
{
    let stream = if h.target() is Stdout {
        StdioOutStream::Stdout
    } else {
        StdioOutStream::Stderr
    };
    let q = choose|q: Result<usize, StdioWriteError>| #[trigger]
        fs.provider().write_outcome(stream, data, q) && w == crate::fs::devices::stdout_result(q);
    assert(fs.provider().write_outcome(stream, data, q));
    match q {
        Ok(n) => {
            assert(q == Ok::<usize, StdioWriteError>(n) && w == Ok::<usize, WriteError>(n));
        },
        Err(e) => {
            assert(q == Err::<usize, StdioWriteError>(StdioWriteError::Closed));
        },
    }
}

/// The devices are in the directory `dev` of the root, and can be opened there by their names, on
/// the device of the name. Nothing else is there.
pub proof fn lemma_devices_are_in_dev<P: StdioProvider + CrngProvider>(
    fs: Devices<P>,
    device: Device,
    flags: OFlags,
    after: Devices<P>,
    r: Result<Permissioned<DeviceFileHandle>, OpenError>,
)
    requires
        fs.opens(Location::Dev, device.name_spec(), flags, &after, r),
        flags.bits & 0x10000 == 0,
    ensures
        r is Ok,
        r->Ok_0.item.target() == device,
        r->Ok_0.permissions is ByBackend,
        after == fs,
        fs.walk_spec(fs.root_spec(), seq!["dev"@]) is Ok,
        fs.walk_spec(fs.root_spec(), seq!["dev"@])->Ok_0.last is Dev,
        fs.walk_spec(fs.root_spec(), seq!["dev"@])->Ok_0.stop_reason
            == WalkStopReason::CompleteDirectory,
        fs.walk_spec(fs.root_spec(), seq!["dev"@, device.name_spec()]) is Ok,
        fs.walk_spec(fs.root_spec(), seq!["dev"@, device.name_spec()])->Ok_0.last is Dev,
        fs.walk_spec(fs.root_spec(), seq!["dev"@, device.name_spec()])->Ok_0.stop_reason
            == WalkStopReason::StoppedAtNonDirectory,
{
    lemma_device_names(device, device.name_spec());
    assert(seq!["dev"@].drop_first().len() == 0);
    assert(seq!["dev"@, device.name_spec()].drop_first() =~= seq![device.name_spec()]);
}

/// What is no device cannot be opened or walked to, nor can anything in the root be opened.
pub proof fn lemma_other_names_are_missing<P: StdioProvider + CrngProvider>(
    fs: Devices<P>,
    dir: Location,
    name: Seq<char>,
    flags: OFlags,
    after: Devices<P>,
    r: Result<Permissioned<DeviceFileHandle>, OpenError>,
)
    requires
        fs.opens(dir, name, flags, &after, r),
        dir is Root || forall|device: Device| name != #[trigger] device.name_spec(),
    ensures
        r is Err,
        r->Err_0 == OpenError::PathError(PathError::NoSuchFileOrDirectory),
        after == fs,
        dir is Root && name != "dev"@ ==> fs.walk_spec(dir, seq![name]) is Err && fs.walk_spec(
            dir,
            seq![name],
        )->Err_0 == WalkError::PathError(PathError::NoSuchFileOrDirectory),
        dir is Dev ==> fs.walk_spec(dir, seq![name]) is Err && fs.walk_spec(
            dir,
            seq![name],
        )->Err_0 == WalkError::PathError(PathError::NoSuchFileOrDirectory),
{
    assert(seq![name][0] == name);
    if !(dir is Root) && device_named(name) is Some {
        let device = device_named(name)->Some_0;
        lemma_device_names(device, name);
        assert(name == device.name_spec());
    }
}

/// The names of the devices.
pub proof fn lemma_names_of_devices()
    ensures
        Device::Stdin.name_spec() == "stdin"@,
        Device::Stdout.name_spec() == "stdout"@,
        Device::Stderr.name_spec() == "stderr"@,
        Device::Null.name_spec() == "null"@,
        Device::URandom.name_spec() == "urandom"@,
{
}

/// The listing of the directory of devices has each device once, as a character device with the
/// node that its status tells; the root lists that directory, with the node that its status tells.
pub proof fn lemma_devices_are_listed<P: StdioProvider + CrngProvider>(
    fs: Devices<P>,
    device: Device,
    r: Result<Seq<EntryView>, ReadDirError>,
    root: Result<Seq<EntryView>, ReadDirError>,
)
    requires
        fs.lists(Location::Dev, r),
        fs.lists(Location::Root, root),
    ensures
        r is Ok,
        r->Ok_0.len() == 5,
        exists|i: int|
            0 <= i < r->Ok_0.len() && (#[trigger] r->Ok_0[i]).name == device.name_spec()
                && r->Ok_0[i].file_type is CharacterDevice && r->Ok_0[i].ino_info == Some(
                device.status_spec().node_info,
            ),
        forall|i: int, j: int|
            0 <= i < j < r->Ok_0.len() ==> (#[trigger] r->Ok_0[i]).name != (
            #[trigger] r->Ok_0[j]).name,
        root is Ok,
        root->Ok_0.len() == 1,
        root->Ok_0[0].name == "dev"@,
        root->Ok_0[0].file_type is Directory,
        root->Ok_0[0].ino_info == Some(fs.dir_status_spec(Location::Dev)->Ok_0.node_info),
{
    let all = seq![Device::Stdin, Device::Stdout, Device::Stderr, Device::Null, Device::URandom];
    let i: int = match device {
        Device::Stdin => 0,
        Device::Stdout => 1,
        Device::Stderr => 2,
        Device::Null => 3,
        Device::URandom => 4,
    };
    assert(all[i] == device);
    assert(r->Ok_0[i].name == device.name_spec());
    assert forall|i: int, j: int| 0 <= i < j < r->Ok_0.len() implies (#[trigger] r->Ok_0[i]).name
        != (#[trigger] r->Ok_0[j]).name by {
        lemma_device_names(all[i], all[i].name_spec());
        lemma_device_names(all[j], all[i].name_spec());
        assert(all[i] != all[j]);
    }
}

/// The status of a device: a character device of the root user, with nothing in it. The streams can
/// be read and written by their owner and written by their group, the others by everyone. Devices
/// that are not streams are told apart by the number of the device: 1 and 3, 1 and 9.
pub proof fn lemma_status_of_devices<P: StdioProvider + CrngProvider>(
    fs: Devices<P>,
    h: DeviceFileHandle,
)
    ensures
        fs.file_status_spec(h) is Ok,
        ({
            let status = fs.file_status_spec(h)->Ok_0;
            let is_stream = h.target() is Stdin || h.target() is Stdout || h.target() is Stderr;
            &&& status.file_type is CharacterDevice
            &&& status.size == 0
            &&& status.owner.user == 0
            &&& status.owner.group == 0
            &&& status.mode.bits == if is_stream {
                0o620u32
            } else {
                0o666u32
            }
            &&& status.blksize == if is_stream {
                1024usize
            } else {
                4096usize
            }
            &&& status.node_info.rdev == if is_stream {
                Some(34822usize)
            } else if h.target() is Null {
                Some(0x103usize)
            } else {
                Some(0x109usize)
            }
            &&& status.node_info.dev == if is_stream {
                64usize
            } else {
                5usize
            }
            &&& status.node_info.ino == if is_stream {
                9usize
            } else if h.target() is Null {
                4usize
            } else {
                8usize
            }
            &&& fs.seek_spec(h) == if is_stream {
                SeekBehavior::NonSeekable
            } else {
                SeekBehavior::ZeroPosition
            }
        }),
{
}

/// The status of the directories: they belong to the root user, who may change them, and anyone may
/// look into them.
pub proof fn lemma_status_of_device_directories<P: StdioProvider + CrngProvider>(
    fs: Devices<P>,
    dir: Location,
)
    ensures
        fs.dir_status_spec(dir) is Ok,
        ({
            let status = fs.dir_status_spec(dir)->Ok_0;
            &&& status.file_type is Directory
            &&& status.mode.bits == 0o755
            &&& status.size == 4096
            &&& status.owner.user == 0
            &&& status.owner.group == 0
            &&& status.node_info.dev == fs.dev_node().dev
            &&& dir is Root ==> status.node_info.ino == 0
            &&& dir is Dev ==> status.node_info.ino == fs.dev_node().ino
        }),
{
}

/// Devices are neither created nor removed, nor given other permissions, nor truncated.
pub proof fn lemma_devices_never_change<P: StdioProvider + CrngProvider>(
    fs: Devices<P>,
    h: DeviceFileHandle,
    dir: Location,
    name: Seq<char>,
    length: usize,
    mode: Mode,
    user: Option<u16>,
    group: Option<u16>,
    after: Devices<P>,
)
    ensures
        forall|r: Result<(), TruncateError>| #[trigger]
            fs.truncates(h, length, &after, r) ==> after == fs && r == Err::<(), TruncateError>(
                TruncateError::IsTerminalDevice,
            ),
        forall|r: Result<DeviceFileHandle, OpenError>| #[trigger]
            fs.creates(dir, name, mode, &after, r) ==> after == fs && r is Err && r->Err_0
                == OpenError::ReadOnlyFileSystem,
        forall|r: Result<Location, MkdirError>| #[trigger]
            fs.makes_dir(dir, name, mode, &after, r) ==> after == fs && r is Err && r->Err_0
                == MkdirError::ReadOnlyFileSystem,
        forall|r: Result<(), UnlinkError>| #[trigger]
            fs.unlinks(dir, name, &after, r) ==> after == fs && r is Err && r->Err_0
                == UnlinkError::ReadOnlyFileSystem,
        forall|r: Result<(), RmdirError>| #[trigger]
            fs.removes_dir(dir, name, &after, r) ==> after == fs && r is Err && r->Err_0
                == RmdirError::ReadOnlyFileSystem,
        forall|r: Result<(), ChmodError>| #[trigger]
            fs.chmods(dir, name, mode, &after, r) ==> after == fs && r is Err && r->Err_0
                == ChmodError::ReadOnlyFileSystem,
        forall|r: Result<(), ChownError>| #[trigger]
            fs.chowns(dir, name, user, group, &after, r) ==> after == fs && r is Err && r->Err_0
                == ChownError::ReadOnlyFileSystem,
{
}

/// The directories can be taken over whatever the flags, and walks can go on from there. They start
/// at the root.
pub proof fn lemma_device_directories_are_taken_over<P: StdioProvider + CrngProvider>(
    fs: Devices<P>,
    dir: Location,
    flags: OFlags,
)
    ensures
        fs.own_dir_spec(dir, flags) == Ok::<Location, OpenError>(dir),
        fs.walking_dir_spec(dir) == Some(dir),
        fs.root_spec() is Root,
{
}

} // verus!
