use playlist_core::volumes::{
    lsblk_volumes, macos_offered, macos_volume_uid, mounted_device_of, mounted_volume_uid,
    read_size, sane_phone_size, system_volume, windows_volume_device, BlockDevice, FlagValue,
    SizeReading, SizeValue, WindowsVolume,
};

fn s(x: &str) -> Option<String> {
    Some(x.to_string())
}

fn dev(name: &str) -> BlockDevice {
    BlockDevice {
        name: s(name),
        label: None,
        uuid: None,
        mountpoint: None,
        tran: None,
        model: None,
        serial: None,
        hotplug: FlagValue::Missing,
        size_text: String::new(),
        fssize: SizeValue::Missing,
        fsavail: SizeValue::Missing,
        children: vec![],
    }
}

#[test]
fn usb_partition_inherits_transport_and_serial() {
    let mut part = dev("sdb1");
    part.mountpoint = s("/mnt/stick");
    part.hotplug = FlagValue::Text("1".to_string());
    part.label = s("");
    part.size_text = "1000".to_string();
    part.fssize = SizeValue::Int(4096);
    part.fsavail = SizeValue::Text(" 2048 ".to_string());
    let mut disk = dev("sdb");
    disk.tran = s("usb");
    disk.model = s("  Flash Disk ");
    disk.serial = s("ABC123");
    disk.hotplug = FlagValue::Bool(true);
    disk.children = vec![part];
    let vols = lsblk_volumes(&vec![disk]);
    assert_eq!(vols.len(), 1);
    let v = &vols[0];
    assert_eq!(v.device_uid, "serial:ABC123");
    assert_eq!(v.name, "Flash Disk");
    assert_eq!(v.mount_path, "/mnt/stick");
    assert_eq!(v.model.as_deref(), Some("Flash Disk"));
    assert!(matches!(v.capacity, SizeReading::Bytes(4096)));
    assert!(matches!(v.free, SizeReading::Bytes(2048)));
}

#[test]
fn uuid_wins_and_internal_disks_are_skipped() {
    let mut sd = dev("mmcblk0p1");
    sd.mountpoint = s("/run/media/me/CARD");
    sd.hotplug = FlagValue::Bool(true);
    sd.uuid = s("1234-ABCD");
    sd.label = s("CARD");
    let mut internal = dev("nvme0n1p2");
    internal.mountpoint = s("/");
    internal.hotplug = FlagValue::Bool(false);
    let vols = lsblk_volumes(&vec![internal, sd]);
    assert_eq!(vols.len(), 1);
    assert_eq!(vols[0].device_uid, "uuid:1234-ABCD");
    assert_eq!(vols[0].name, "CARD");
}

#[test]
fn label_uid_and_mount_folder_name() {
    let mut d = dev("sdc");
    d.mountpoint = s("/media/me/NONAME");
    d.hotplug = FlagValue::Text("1".to_string());
    d.size_text = "15931539456".to_string();
    let vols = lsblk_volumes(&vec![d]);
    assert_eq!(vols[0].device_uid, "label::15931539456");
    assert_eq!(vols[0].name, "NONAME");
    let mut e = dev("sdd");
    e.mountpoint = s("");
    e.hotplug = FlagValue::Bool(true);
    e.tran = s("usb");
    assert!(lsblk_volumes(&vec![e]).is_empty());
}

#[test]
fn size_readings() {
    assert!(matches!(read_size(&SizeValue::Text("14.9G".to_string())), SizeReading::Scaled { ref number, factor: 1073741824 } if number == "14.9"));
    assert!(matches!(read_size(&SizeValue::Text("500M".to_string())), SizeReading::Scaled { factor: 1048576, .. }));
    assert!(matches!(read_size(&SizeValue::Text("1T".to_string())), SizeReading::Scaled { factor: 1099511627776, .. }));
    assert!(matches!(read_size(&SizeValue::Text("8K".to_string())), SizeReading::Scaled { factor: 1024, .. }));
    assert!(matches!(read_size(&SizeValue::Text("12X".to_string())), SizeReading::Unknown));
    assert!(matches!(read_size(&SizeValue::Text("  ".to_string())), SizeReading::Unknown));
    assert!(matches!(read_size(&SizeValue::Missing), SizeReading::Unknown));
}

#[test]
fn windows_volumes() {
    let v = WindowsVolume { drive_letter: s("E"), label: s(""), size: Some(64), free: Some(32), unique_id: s("  ") };
    let d = windows_volume_device(&v).unwrap();
    assert_eq!(d.device_uid, "E::64");
    assert_eq!(d.name, "Removable Drive (E:)");
    assert_eq!(d.mount_path, "E:\\");
    assert_eq!(d.capacity_bytes, Some(64));
    let w = WindowsVolume { drive_letter: s("F"), label: s("MUSIC"), size: None, free: None, unique_id: s(" \\\\?\\Volume{x}\\ ") };
    let d = windows_volume_device(&w).unwrap();
    assert_eq!(d.device_uid, "winvol:\\\\?\\Volume{x}\\");
    assert_eq!(d.name, "MUSIC");
    let none = WindowsVolume { drive_letter: None, label: None, size: None, free: None, unique_id: None };
    assert!(windows_volume_device(&none).is_none());
}

#[test]
fn macos_and_mount_rules() {
    assert!(system_volume("Macintosh HD"));
    assert!(system_volume("Macintosh HD - Data"));
    assert!(!system_volume("USB"));
    assert!(macos_offered(Some(true), Some(true)));
    assert!(macos_offered(None, Some(false)));
    assert!(!macos_offered(Some(false), None));
    assert_eq!(macos_volume_uid(&s("U-1"), "Stick", Some(5)), "uuid:U-1");
    assert_eq!(macos_volume_uid(&s(""), "Stick", Some(5)), "vol:Stick:5");
    assert_eq!(macos_volume_uid(&None, "Stick", None), "vol:Stick:0");
    assert_eq!(mounted_volume_uid(&s("AB"), "STICK"), "uuid:AB");
    assert_eq!(mounted_volume_uid(&None, "STICK"), "mount:STICK");
    assert_eq!(sane_phone_size(Some(1 << 30)), Some(1 << 30));
    assert_eq!(sane_phone_size(Some(5)), None);
}

#[test]
fn mount_table_lookup() {
    let table = "/dev/sda2 / ext4 rw 0 0\n/dev/sdb1 /run/media/me/My\\040Stick vfat rw 0 0\n/dev/sdc1 /run/media/me/My\\040Stick vfat rw 0 0\n";
    assert_eq!(mounted_device_of(table, "/run/media/me/My Stick").as_deref(), Some("/dev/sdb1"));
    assert_eq!(mounted_device_of(table, "/").as_deref(), Some("/dev/sda2"));
    assert_eq!(mounted_device_of(table, "/nowhere"), None);
}
