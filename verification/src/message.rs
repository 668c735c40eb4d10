//! What the boot manager and its clients tell one another: devices and their
//! boot entries, requests and responses.
//!
//! Times are counted in milliseconds.

use vstd::prelude::*;

verus! {

/// A kernel that can be booted.
#[derive(Debug, PartialEq, Eq)]
pub struct LinuxBootEntry {
    /// Whether the boot loader marks this entry as its default.
    pub default: bool,
    /// The title shown to the user.
    pub display: String,
    /// The kernel.
    pub linux: String,
    /// The initial RAM disk.
    pub initrd: Option<String>,
    /// The command line of the kernel.
    pub cmdline: Option<String>,
}

/// The mathematical form of [`LinuxBootEntry`].
pub struct EntryModel {
    pub default: bool,
    pub display: Seq<char>,
    pub linux: Seq<char>,
    pub initrd: Option<Seq<char>>,
    pub cmdline: Option<Seq<char>>,
}

/// The view of an optional text.
pub open spec fn text_view(text: Option<String>) -> Option<Seq<char>> {
    match text {
        Some(s) => Some(s@),
        None => None,
    }
}

impl View for LinuxBootEntry {
    type V = EntryModel;

    open spec fn view(&self) -> EntryModel {
        EntryModel {
            default: self.default,
            display: self.display@,
            linux: self.linux@,
            initrd: text_view(self.initrd),
            cmdline: text_view(self.cmdline),
        }
    }
}

/// The views of a list of boot entries.
pub open spec fn entries_view(entries: Seq<LinuxBootEntry>) -> Seq<EntryModel> {
    entries.map_values(|e: LinuxBootEntry| e@)
}

/// A copy of an optional text.
pub fn copy_text(text: &Option<String>) -> (r: Option<String>)
    ensures
        text_view(r) == text_view(*text),
{
    match text {
        Some(s) => Some(s.clone()),
        None => None,
    }
}

impl LinuxBootEntry {
    /// A copy of the entry.
    pub fn duplicate(&self) -> (r: Self)
        ensures
            r@ == self@,
    {
        LinuxBootEntry {
            default: self.default,
            display: self.display.clone(),
            linux: self.linux.clone(),
            initrd: copy_text(&self.initrd),
            cmdline: copy_text(&self.cmdline),
        }
    }
}

/// A mounted device on which a boot loader was found.
#[derive(Debug, PartialEq, Eq)]
pub struct Device {
    /// The name shown to the user.
    pub name: String,
    /// Where the device is mounted.
    pub mountpoint: String,
    /// The entries of its boot loader, in the order of its menu.
    pub boot_entries: Vec<LinuxBootEntry>,
    /// How long its boot loader waits before it boots its default.
    pub timeout: u64,
    /// Whether the device can be removed, like a USB stick.
    pub removable: bool,
}

/// The mathematical form of [`Device`].
pub struct DeviceModel {
    pub name: Seq<char>,
    pub mountpoint: Seq<char>,
    pub boot_entries: Seq<EntryModel>,
    pub timeout: u64,
    pub removable: bool,
}

impl View for Device {
    type V = DeviceModel;

    open spec fn view(&self) -> DeviceModel {
        DeviceModel {
            name: self.name@,
            mountpoint: self.mountpoint@,
            boot_entries: entries_view(self.boot_entries@),
            timeout: self.timeout,
            removable: self.removable,
        }
    }
}

/// The views of a list of devices.
pub open spec fn devices_view(devices: Seq<Device>) -> Seq<DeviceModel> {
    devices.map_values(|d: Device| d@)
}

impl Device {
    /// A copy of the device.
    pub fn duplicate(&self) -> (r: Self)
        ensures
            r@ == self@,
    {
        let mut boot_entries: Vec<LinuxBootEntry> = Vec::new();
        let mut i: usize = 0;
        while i < self.boot_entries.len()
            invariant
                i <= self.boot_entries.len(),
                entries_view(boot_entries@) == entries_view(self.boot_entries@).take(i as int),
            decreases self.boot_entries.len() - i,
        {
            let ghost before = entries_view(boot_entries@);
            let entry = self.boot_entries[i].duplicate();
            boot_entries.push(entry);
            proof {
                assert(entries_view(boot_entries@) =~= before.push(entry@));
                assert(entries_view(boot_entries@) =~= entries_view(self.boot_entries@).take(
                    i + 1,
                ));
            }
            i += 1;
        }
        proof {
            assert(entries_view(boot_entries@) =~= entries_view(self.boot_entries@));
        }
        Device {
            name: self.name.clone(),
            mountpoint: self.mountpoint.clone(),
            boot_entries,
            timeout: self.timeout,
            removable: self.removable,
        }
    }
}

/// Seconds in milliseconds; what a `u64` does not hold is cut to the
/// largest value that it holds.
pub open spec fn millis(seconds: u64) -> u64 {
    if seconds * 1000 > u64::MAX {
        u64::MAX
    } else {
        (seconds * 1000) as u64
    }
}

/// The device that the coordinator is told of: a mounted device with the
/// entries that its boot loader offers and with the timeout of its boot
/// loader, which is given in seconds.
pub fn device_of(
    name: &str,
    mountpoint: &str,
    boot_entries: Vec<LinuxBootEntry>,
    timeout_seconds: u64,
    removable: bool,
) -> (r: Device)
    ensures
        r@ == (DeviceModel {
            name: name@,
            mountpoint: mountpoint@,
            boot_entries: entries_view(boot_entries@),
            timeout: millis(timeout_seconds),
            removable,
        }),
{
    let timeout = if timeout_seconds > u64::MAX / 1000 {
        u64::MAX
    } else {
        timeout_seconds * 1000
    };
    Device {
        name: name.to_string(),
        mountpoint: mountpoint.to_string(),
        boot_entries,
        timeout,
        removable,
    }
}

/// A copy of a list of devices.
pub fn copy_devices(devices: &Vec<Device>) -> (r: Vec<Device>)
    ensures
        devices_view(r@) == devices_view(devices@),
{
    let mut r: Vec<Device> = Vec::new();
    let mut i: usize = 0;
    while i < devices.len()
        invariant
            i <= devices.len(),
            devices_view(r@) == devices_view(devices@).take(i as int),
        decreases devices.len() - i,
    {
        let ghost before = devices_view(r@);
        let device = devices[i].duplicate();
        r.push(device);
        proof {
            assert(devices_view(r@) =~= before.push(device@));
            assert(devices_view(r@) =~= devices_view(devices@).take(i + 1));
        }
        i += 1;
    }
    proof {
        assert(devices_view(r@) =~= devices_view(devices@));
    }
    r
}

/// What a client asks of the boot manager.
#[derive(Debug, PartialEq, Eq)]
pub enum Request {
    Ping,
    StartStreaming,
    StopStreaming,
    ListBlockDevices,
    UserIsPresent,
    Boot(LinuxBootEntry),
    Reboot,
    Poweroff,
}

/// Why the boot manager could not boot.
#[derive(Clone, Copy, Debug, PartialEq, Eq)]
pub enum ServerError {
    /// The kernel refused what it was asked to load.
    ValidationFailed,
    Unknown,
}

/// What the boot manager tells its clients.
#[derive(Debug, PartialEq, Eq)]
pub enum Response {
    Pong,
    /// The last message of a run.
    ServerDone,
    ServerError(ServerError),
    ListBlockDevices(Vec<Device>),
    NewDevice(Device),
    /// The time left until the default entry is booted; none once a user
    /// is present.
    TimeLeft(Option<u64>),
}

/// The mathematical form of [`Response`].
pub enum ResponseModel {
    Pong,
    ServerDone,
    ServerError(ServerError),
    ListBlockDevices(Seq<DeviceModel>),
    NewDevice(DeviceModel),
    TimeLeft(Option<u64>),
}

impl View for Response {
    type V = ResponseModel;

    open spec fn view(&self) -> ResponseModel {
        match self {
            Response::Pong => ResponseModel::Pong,
            Response::ServerDone => ResponseModel::ServerDone,
            Response::ServerError(e) => ResponseModel::ServerError(*e),
            Response::ListBlockDevices(devices) => ResponseModel::ListBlockDevices(
                devices_view(devices@),
            ),
            Response::NewDevice(device) => ResponseModel::NewDevice(device@),
            Response::TimeLeft(left) => ResponseModel::TimeLeft(*left),
        }
    }
}

/// The views of a list of responses.
pub open spec fn responses_view(responses: Seq<Response>) -> Seq<ResponseModel> {
    responses.map_values(|r: Response| r@)
}

/// The mathematical form of [`Request`].
pub enum RequestModel {
    Ping,
    StartStreaming,
    StopStreaming,
    ListBlockDevices,
    UserIsPresent,
    Boot(EntryModel),
    Reboot,
    Poweroff,
}

impl View for Request {
    type V = RequestModel;

    open spec fn view(&self) -> RequestModel {
        match self {
            Request::Ping => RequestModel::Ping,
            Request::StartStreaming => RequestModel::StartStreaming,
            Request::StopStreaming => RequestModel::StopStreaming,
            Request::ListBlockDevices => RequestModel::ListBlockDevices,
            Request::UserIsPresent => RequestModel::UserIsPresent,
            Request::Boot(entry) => RequestModel::Boot(entry@),
            Request::Reboot => RequestModel::Reboot,
            Request::Poweroff => RequestModel::Poweroff,
        }
    }
}

} // verus!
