//! Block devices as the boot manager sees them: what file system a device
//! holds and where it is mounted.

use crate::text::{chars_of, push_char};
use vstd::prelude::*;
use vstd::string::*;

verus! {

/// The file system found on a device.
#[derive(Debug, PartialEq, Eq)]
pub enum FsType {
    /// ext4, with UUID and label.
    Ext4(String, String),
    /// FAT32, with OEM name, volume serial and label.
    Fat32(String, String, String),
    /// FAT16, with OEM name, volume serial and label.
    Fat16(String, String, String),
}

/// The mathematical form of [`FsType`].
pub enum FsModel {
    Ext4(Seq<char>, Seq<char>),
    Fat32(Seq<char>, Seq<char>, Seq<char>),
    Fat16(Seq<char>, Seq<char>, Seq<char>),
}

impl View for FsType {
    type V = FsModel;

    open spec fn view(&self) -> FsModel {
        match self {
            FsType::Ext4(uuid, label) => FsModel::Ext4(uuid@, label@),
            FsType::Fat32(oem, uuid, label) => FsModel::Fat32(oem@, uuid@, label@),
            FsType::Fat16(oem, uuid, label) => FsModel::Fat16(oem@, uuid@, label@),
        }
    }
}

/// The UUID, or volume serial, of a file system.
pub open spec fn fs_uuid(fs: FsModel) -> Seq<char> {
    match fs {
        FsModel::Ext4(uuid, _) => uuid,
        FsModel::Fat32(_, uuid, _) => uuid,
        FsModel::Fat16(_, uuid, _) => uuid,
    }
}

/// The label of a file system.
pub open spec fn fs_label(fs: FsModel) -> Seq<char> {
    match fs {
        FsModel::Ext4(_, label) => label,
        FsModel::Fat32(_, _, label) => label,
        FsModel::Fat16(_, _, label) => label,
    }
}

/// The name under which the kernel mounts a file system: `ext4` for ext4,
/// `vfat` for both kinds of FAT.
pub open spec fn fs_mount_type(fs: FsModel) -> Seq<char> {
    match fs {
        FsModel::Ext4(_, _) => "ext4"@,
        _ => "vfat"@,
    }
}

impl FsType {
    /// The UUID, or volume serial, of the file system.
    pub fn uuid(&self) -> (r: &String)
        ensures
            r@ == fs_uuid(self@),
    {
        match self {
            FsType::Ext4(uuid, _) => uuid,
            FsType::Fat32(_, uuid, _) => uuid,
            FsType::Fat16(_, uuid, _) => uuid,
        }
    }

    /// The label of the file system.
    pub fn label(&self) -> (r: &String)
        ensures
            r@ == fs_label(self@),
    {
        match self {
            FsType::Ext4(_, label) => label,
            FsType::Fat32(_, _, label) => label,
            FsType::Fat16(_, _, label) => label,
        }
    }

    /// The name under which the kernel mounts the file system.
    pub fn mount_type(&self) -> (r: &'static str)
        ensures
            r@ == fs_mount_type(self@),
    {
        match self {
            FsType::Ext4(_, _) => "ext4",
            _ => "vfat",
        }
    }
}

/// A block device and the file system that was found on it, if any was.
#[derive(Debug, PartialEq, Eq)]
pub struct ProbedDevice {
    /// The path of the device node.
    pub path: String,
    /// Its file system, unless none was recognized.
    pub fs_type: Option<FsType>,
}

/// The mathematical form of [`ProbedDevice`].
pub struct ProbedModel {
    pub path: Seq<char>,
    pub fs_type: Option<FsModel>,
}

impl View for ProbedDevice {
    type V = ProbedModel;

    open spec fn view(&self) -> ProbedModel {
        ProbedModel {
            path: self.path@,
            fs_type: match self.fs_type {
                Some(fs) => Some(fs@),
                None => None,
            },
        }
    }
}

/// The views of a list of probed devices.
pub open spec fn probed(devices: Seq<ProbedDevice>) -> Seq<ProbedModel> {
    devices.map_values(|d: ProbedDevice| d@)
}

/// The first index at or after `i` that does not hold `/`.
pub open spec fn after_slashes(s: Seq<char>, i: int) -> int
    decreases s.len() - i,
{
    if i < 0 || i >= s.len() || s[i] != '/' {
        i
    } else {
        after_slashes(s, i + 1)
    }
}

/// A text with `-` in place of each `/`.
pub open spec fn dashed(s: Seq<char>) -> Seq<char> {
    s.map_values(
        |c: char|
            if c == '/' {
                '-'
            } else {
                c
            },
    )
}

/// Where a device is mounted: under `/mnt/`, in a directory named by the
/// path of the device without its leading `/`, with `-` for each further
/// `/`. `/dev/sda1` is mounted at `/mnt/dev-sda1`.
pub open spec fn mount_name(dev: Seq<char>) -> Seq<char> {
    "/mnt/"@ + dashed(dev.skip(after_slashes(dev, 0)))
}

/// Executable form of [`mount_name`].
pub fn mountpoint_for(dev: &str) -> (r: String)
    ensures
        r@ == mount_name(dev@),
{
    let v = chars_of(dev);
    let n = v.len();
    let mut start: usize = 0;
    while start < n && v[start] == '/'
        invariant
            start <= n,
            n == v.len(),
            after_slashes(v@, 0) == after_slashes(v@, start as int),
        decreases n - start,
    {
        start += 1;
    }
    let mut r = "/mnt/".to_string();
    let ghost tail = v@.skip(start as int);
    let mut i: usize = start;
    proof {
        assert(dashed(tail.take(0)) =~= Seq::<char>::empty());
        assert(r@ =~= "/mnt/"@ + dashed(tail.take(0)));
    }
    while i < n
        invariant
            start <= i <= n,
            n == v.len(),
            tail == v@.skip(start as int),
            r@ == "/mnt/"@ + dashed(tail.take(i - start)),
        decreases n - i,
    {
        let c = v[i];
        let ghost before = r@;
        if c == '/' {
            push_char(&mut r, '-');
        } else {
            push_char(&mut r, c);
        }
        proof {
            assert(tail[i - start] == c);
            assert(dashed(tail.take(i - start + 1)) =~= dashed(tail.take(i - start)).push(
                if c == '/' {
                    '-'
                } else {
                    c
                },
            ));
        }
        i += 1;
    }
    proof {
        assert(tail.take(n - start) =~= tail);
    }
    r
}

} // verus!
