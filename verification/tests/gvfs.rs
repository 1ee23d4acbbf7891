use playlist_core::detect::{
    friendly_gvfs_name, gvfs_device_uid, is_portable_gvfs_scheme, plist_bool_after_key,
    plist_string_after_key,
};

#[test]
fn gvfs_scheme_recognizes_portable_devices_only() {
    assert!(is_portable_gvfs_scheme("mtp:host=Google_Pixel_7a_3ABC"));
    assert!(is_portable_gvfs_scheme("mtp:host=Xiaomi_2201123G_abc::"));
    assert!(is_portable_gvfs_scheme("gphoto2:host=Apple_iPhone"));
    assert!(is_portable_gvfs_scheme("afc:host=Apple_iPhone"));
    assert!(!is_portable_gvfs_scheme("smb-share:server= nas,share=music"));
    assert!(!is_portable_gvfs_scheme("disk:host"));
    assert!(!is_portable_gvfs_scheme("trash:"));
}

#[test]
fn gvfs_name_is_human_readable() {
    assert_eq!(
        friendly_gvfs_name("mtp:host=Google_Pixel_7a_3ABC"),
        "Google Pixel 7a 3ABC"
    );
    assert_eq!(
        friendly_gvfs_name("gphoto2:host=Apple_iPhone_14;serial=XYZ"),
        "Apple iPhone 14"
    );
    assert_eq!(friendly_gvfs_name("mtp:"), "mtp:");
}

#[test]
fn gvfs_device_uid_is_stable_per_phone() {
    let a = format!("gvfs:{}", "mtp:host=Google_Pixel_7a_3ABC");
    let b = format!("gvfs:{}", "mtp:host=Google_Pixel_7a_3ABC");
    assert_eq!(a, b);
    assert_ne!(a, format!("gvfs:{}", "mtp:host=Samsung_Galaxy_S23_zz"));
    assert_eq!(gvfs_device_uid("mtp:host=Google_Pixel_7a_3ABC"), a);
    assert_ne!(
        gvfs_device_uid("mtp:host=Google_Pixel_7a_3ABC"),
        gvfs_device_uid("mtp:host=Samsung_Galaxy_S23_zz")
    );
}

#[test]
fn gvfs_name_takes_segment_between_hosts() {
    assert_eq!(friendly_gvfs_name("mtp:host=A_B;x host=C"), "A B");
    assert_eq!(friendly_gvfs_name("mtp:host=A host=C"), "A");
    assert!(is_portable_gvfs_scheme("mtp2"));
}

#[test]
fn plist_values_follow_their_key() {
    let info = "<dict><key>Internal</key>\n  <false/><key>Removable</key> <true/>\
                <key>VolumeUUID</key><string>ABC-123</string><key>Other</key><integer>1</integer></dict>";
    assert_eq!(plist_bool_after_key(info, "Removable"), Some(true));
    assert_eq!(plist_bool_after_key(info, "Internal"), Some(false));
    assert_eq!(plist_bool_after_key(info, "Other"), None);
    assert_eq!(plist_bool_after_key(info, "Missing"), None);
    assert_eq!(plist_string_after_key(info, "VolumeUUID"), Some("ABC-123".to_string()));
    assert_eq!(plist_string_after_key(info, "Other"), None);
    assert_eq!(plist_string_after_key("<key>K</key><string>open", "K"), None);
}
