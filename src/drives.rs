use vstd::prelude::*;

verus! {

/// The storage medium of a disk, as the system reports it.
#[derive(Clone, Copy, Debug, PartialEq, Eq, Structural)]
pub enum DiskKind {
    Hdd,
    Ssd,
    Unknown(isize),
}

/// How a drive is shown to the user.
#[derive(Clone, Copy, Debug, PartialEq, Eq, Structural)]
pub enum DriveType {
    Fixed,
    Removable,
    Network,
    CdRom,
    Unknown,
}

/// A removable drive is shown as such whatever its medium; otherwise a known
/// medium is a fixed drive.
pub open spec fn drive_type_of(kind: DiskKind, is_removable: bool) -> DriveType {
    if is_removable {
        DriveType::Removable
    } else {
        match kind {
            DiskKind::Hdd | DiskKind::Ssd => DriveType::Fixed,
            DiskKind::Unknown(_) => DriveType::Unknown,
        }
    }
}

impl From<(DiskKind, bool)> for DriveType {
    fn from(v: (DiskKind, bool)) -> (r: DriveType)
        ensures
            r == drive_type_of(v.0, v.1),
    {
        let (kind, is_removable) = v;
        if is_removable {
            DriveType::Removable
        } else {
            match kind {
                DiskKind::Hdd | DiskKind::Ssd => DriveType::Fixed,
                DiskKind::Unknown(_) => DriveType::Unknown,
            }
        }
    }
}

impl vstd::std_specs::convert::FromSpecImpl<(DiskKind, bool)> for DriveType {
    open spec fn obeys_from_spec() -> bool {
        true
    }

    open spec fn from_spec(v: (DiskKind, bool)) -> DriveType {
        drive_type_of(v.0, v.1)
    }
}

/// A mounted drive as the file explorer lists it.
#[derive(Debug, PartialEq, Eq)]
pub struct DriveInfo {
    pub name: String,
    pub path: String,
    pub drive_type: DriveType,
    pub total_space: u64,
    pub available_space: u64,
    pub is_removable: bool,
    pub file_system: Option<String>,
    pub volume_name: Option<String>,
}

/// A drive's display name: the drive letter with its colon where the mount
/// point starts with one (`C:\` gives `C:`), else the disk's own name.
pub open spec fn drive_name_of(mount_point: Seq<char>, disk_name: Seq<char>) -> Seq<char> {
    if mount_point.len() >= 2 && mount_point[1] == ':' {
        mount_point.take(2)
    } else {
        disk_name
    }
}

pub fn drive_name(mount_point: &str, disk_name: &str) -> (r: String)
    ensures
        r@ == drive_name_of(mount_point@, disk_name@),
{
    let n = mount_point.unicode_len();
    if n >= 2 && mount_point.get_char(1) == ':' {
        String::from_str(mount_point.substring_char(0, 2))
    } else {
        String::from_str(disk_name)
    }
}

/// The volume label, where the disk has a non-empty name.
pub fn volume_name(disk_name: String) -> (r: Option<String>)
    ensures
        match r {
            Some(s) => disk_name@.len() > 0 && s@ == disk_name@,
            None => disk_name@.len() == 0,
        },
{
    if disk_name.as_str().unicode_len() == 0 {
        None
    } else {
        Some(disk_name)
    }
}

/// Gathers what the system reports of one disk into the entry the explorer shows.
pub fn drive_info(
    mount_point: String,
    disk_name: String,
    kind: DiskKind,
    is_removable: bool,
    total_space: u64,
    available_space: u64,
    file_system: String,
) -> (r: DriveInfo)
    ensures
        r.name@ == drive_name_of(mount_point@, disk_name@),
        r.path@ == mount_point@,
        r.drive_type == drive_type_of(kind, is_removable),
        r.total_space == total_space,
        r.available_space == available_space,
        r.is_removable == is_removable,
        r.file_system matches Some(fs) && fs@ == file_system@,
        match r.volume_name {
            Some(v) => disk_name@.len() > 0 && v@ == disk_name@,
            None => disk_name@.len() == 0,
        },
{
    let name = drive_name(mount_point.as_str(), disk_name.as_str());
    let drive_type = DriveType::from((kind, is_removable));
    DriveInfo {
        name,
        path: mount_point,
        drive_type,
        total_space,
        available_space,
        is_removable,
        file_system: Some(file_system),
        volume_name: volume_name(disk_name),
    }
}

} // verus!
