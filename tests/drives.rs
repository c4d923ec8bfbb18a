use explorer_core::drives::{drive_info, drive_name, volume_name, DiskKind, DriveType};

#[test]
fn drive_type_from_kind() {
    assert_eq!(DriveType::from((DiskKind::Hdd, false)), DriveType::Fixed);
    assert_eq!(DriveType::from((DiskKind::Ssd, false)), DriveType::Fixed);
    assert_eq!(DriveType::from((DiskKind::Unknown(-1), false)), DriveType::Unknown);
    assert_eq!(DriveType::from((DiskKind::Ssd, true)), DriveType::Removable);
    assert_eq!(DriveType::from((DiskKind::Unknown(3), true)), DriveType::Removable);
}

#[test]
fn drive_names() {
    assert_eq!(drive_name("C:\\", "Windows"), "C:");
    assert_eq!(drive_name("/", "nvme0n1p2"), "nvme0n1p2");
    assert_eq!(drive_name("/media/usb", "sdb1"), "sdb1");
    assert_eq!(drive_name("D", "disk"), "disk");
}

#[test]
fn volume_names() {
    assert_eq!(volume_name(String::new()), None);
    assert_eq!(volume_name("Data".to_string()), Some("Data".to_string()));
}

#[test]
fn drive_info_gathers_fields() {
    let d = drive_info(
        "E:\\".to_string(),
        "USB".to_string(),
        DiskKind::Ssd,
        true,
        1000,
        400,
        "FAT32".to_string(),
    );
    assert_eq!(d.name, "E:");
    assert_eq!(d.path, "E:\\");
    assert_eq!(d.drive_type, DriveType::Removable);
    assert_eq!(d.total_space, 1000);
    assert_eq!(d.available_space, 400);
    assert!(d.is_removable);
    assert_eq!(d.file_system, Some("FAT32".to_string()));
    assert_eq!(d.volume_name, Some("USB".to_string()));
}
