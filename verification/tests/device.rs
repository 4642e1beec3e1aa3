use phoinix_fs_native::device::model::{device_source_id, DeviceBus, DevicePath};
use phoinix_fs_native::device::names::{classify_bus, display_name, major, minor, skip_device};
use phoinix_fs_native::device::model::{listing_order, DeviceKind};
use phoinix_fs_native::device::windows::{
    in_device_namespace, physical_drive_number, physical_drive_path, storage_device_number, volume_handle,
};

#[test]
fn ids_are_stable_per_path() {
    let a = device_source_id(&DevicePath::new("/dev/sda"));
    let b = device_source_id(&DevicePath::new("/dev/sda"));
    let c = device_source_id(&DevicePath::new("/dev/sdb"));
    assert_eq!(a, b);
    assert_ne!(a, c);
}

#[test]
fn source_ids_are_version_5_uuids() {
    let a = device_source_id(&DevicePath::new("/dev/nvme0n1"));
    assert_eq!((a.0 >> 76) & 0xF, 5);
    assert_eq!((a.0 >> 62) & 0x3, 0b10);
}

#[test]
fn bus_labels() {
    assert_eq!(DeviceBus::Nvme.label(), "NVMe");
    assert_eq!(DeviceBus::Virtual.label(), "Virtual");
    assert_eq!(DevicePath::new("/dev/sda").as_str(), "/dev/sda");
}

#[test]
fn classifies_buses_from_sysfs_paths() {
    assert_eq!(classify_bus("loop0", "/sys/devices/virtual/block/loop0", ""), DeviceBus::Virtual);
    assert_eq!(classify_bus("nvme0n1", "/sys/devices/pci0000:00/nvme/nvme0/nvme0n1", ""), DeviceBus::Nvme);
    assert_eq!(classify_bus("sdb", "/sys/devices/pci0000:00/usb2/2-1/host3/block/sdb", ""), DeviceBus::Usb);
    assert_eq!(classify_bus("sda", "/sys/devices/pci0000:00/ata1/host0/block/sda", ""), DeviceBus::Sata);
    assert_eq!(classify_bus("mmcblk0", "/sys/devices/platform/block/mmcblk0", ""), DeviceBus::Sd);
    assert_eq!(classify_bus("vda", "/sys/devices/pci0000:00/block/vda", ""), DeviceBus::Virtual);
    assert_eq!(
        classify_bus("sdc", "/sys/devices/pci0000:00/host7/port-7:0/expander-7:0/block/sdc", "/x/expander"),
        DeviceBus::Sas
    );
    assert_eq!(classify_bus("sdd", "/sys/devices/other/block/sdd", ""), DeviceBus::Unknown);
}

#[test]
fn skips_ram_and_empty_loop_devices() {
    assert!(skip_device("ram0", 4096));
    assert!(skip_device("zram0", 4096));
    assert!(skip_device("loop3", 0));
    assert!(!skip_device("loop3", 4096));
    assert!(skip_device("sr0", 0));
    assert!(!skip_device("sda", 0));
}

#[test]
fn display_names() {
    assert_eq!(display_name(Some("ATA"), Some("Disk X"), "sda"), "ATA Disk X");
    assert_eq!(display_name(Some(""), Some("Disk X"), "sda"), "Disk X");
    assert_eq!(display_name(None, Some("Disk X"), "sda"), "Disk X");
    assert_eq!(display_name(Some("ATA"), None, "sda"), "sda");
}

#[test]
fn device_numbers() {
    let dev: u64 = (8 << 8) | 17;
    assert_eq!(major(dev), 8);
    assert_eq!(minor(dev), 17);
    let big: u64 = (0x1234u64 << 32) | (0xABCu64 << 8) | 0x56 | (0x789u64 << 12) << 8;
    assert_eq!(major(big), ((big >> 32) & 0xFFFF_F000) | ((big >> 8) & 0xFFF));
}

#[test]
fn devices_are_listed_disks_first_then_by_path() {
    let devices = vec![
        (DeviceKind::Partition, "/dev/sda1".to_string()),
        (DeviceKind::Disk, "/dev/sdb".to_string()),
        (DeviceKind::Disk, "/dev/sda".to_string()),
        (DeviceKind::Partition, "/dev/nvme0n1p1".to_string()),
    ];
    assert_eq!(listing_order(&devices), vec![2, 1, 3, 0]);
}

#[test]
fn physical_drive_paths() {
    assert_eq!(physical_drive_number(r"\\.\PhysicalDrive0"), Some(0));
    assert_eq!(physical_drive_number(r"\\.\PhysicalDrive17"), Some(17));
    assert_eq!(physical_drive_number(r"\\.\PhysicalDrive+3"), Some(3));
    assert_eq!(physical_drive_number(r"\\.\PhysicalDrive"), None);
    assert_eq!(physical_drive_number(r"\\.\PhysicalDrive1x"), None);
    assert_eq!(physical_drive_number(r"\\.\PhysicalDrive4294967296"), None);
    assert_eq!(physical_drive_number(r"\\.\PhysicalDrive4294967295"), Some(u32::MAX));
    assert_eq!(physical_drive_number(r"\\.\C:"), None);
    assert_eq!(physical_drive_path(3).as_str(), r"\\.\PhysicalDrive3");
    assert_eq!(physical_drive_path(1234).as_str(), r"\\.\PhysicalDrive1234");
    assert!(in_device_namespace(r"\\.\C:"));
    assert!(!in_device_namespace(r"C:\data"));
}

#[test]
fn volume_roots_become_handles() {
    assert_eq!(volume_handle(r"C:\"), r"\\.\C:");
    assert_eq!(volume_handle(r"\\?\Volume{abc}\"), r"\\.\Volume{abc}");
    assert_eq!(volume_handle(r"D:"), r"\\.\D:");
}

#[test]
fn storage_device_numbers() {
    let mut out = [0u8; 12];
    out[4..8].copy_from_slice(&2u32.to_le_bytes());
    assert_eq!(storage_device_number(true, &out, 12), Some(2));
    assert_eq!(storage_device_number(true, &out, 4), None);
    assert_eq!(storage_device_number(false, &out, 12), None);
}
