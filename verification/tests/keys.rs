//! Translating key codes between a Mac and everyone else.

use inputshare::keys::{from_pc, to_pc};

/// Mac key code, scan code, virtual key, and whether the key is extended.
const KEYS: &[(u16, u16, u16, bool)] = &[
    (0, 0x1E, 0x41, false),
    (11, 0x30, 0x42, false),
    (8, 0x2E, 0x43, false),
    (2, 0x20, 0x44, false),
    (14, 0x12, 0x45, false),
    (3, 0x21, 0x46, false),
    (5, 0x22, 0x47, false),
    (4, 0x23, 0x48, false),
    (34, 0x17, 0x49, false),
    (38, 0x24, 0x4A, false),
    (40, 0x25, 0x4B, false),
    (37, 0x26, 0x4C, false),
    (46, 0x32, 0x4D, false),
    (45, 0x31, 0x4E, false),
    (31, 0x18, 0x4F, false),
    (35, 0x19, 0x50, false),
    (12, 0x10, 0x51, false),
    (15, 0x13, 0x52, false),
    (1, 0x1F, 0x53, false),
    (17, 0x14, 0x54, false),
    (32, 0x16, 0x55, false),
    (9, 0x2F, 0x56, false),
    (13, 0x11, 0x57, false),
    (7, 0x2D, 0x58, false),
    (16, 0x15, 0x59, false),
    (6, 0x2C, 0x5A, false),
    (29, 0x0B, 0x30, false),
    (18, 0x02, 0x31, false),
    (19, 0x03, 0x32, false),
    (20, 0x04, 0x33, false),
    (21, 0x05, 0x34, false),
    (23, 0x06, 0x35, false),
    (22, 0x07, 0x36, false),
    (26, 0x08, 0x37, false),
    (28, 0x09, 0x38, false),
    (25, 0x0A, 0x39, false),
    (27, 0x0C, 0xBD, false),
    (24, 0x0D, 0xBB, false),
    (33, 0x1A, 0xDB, false),
    (30, 0x1B, 0xDD, false),
    (41, 0x27, 0xBA, false),
    (39, 0x28, 0xDE, false),
    (50, 0x29, 0xC0, false),
    (42, 0x2B, 0xDC, false),
    (43, 0x33, 0xBC, false),
    (47, 0x34, 0xBE, false),
    (44, 0x35, 0xBF, false),
    (36, 0x1C, 0x0D, false),
    (48, 0x0F, 0x09, false),
    (49, 0x39, 0x20, false),
    (51, 0x0E, 0x08, false),
    (53, 0x01, 0x1B, false),
    (114, 0x52, 0x2D, true),
    (115, 0x47, 0x24, true),
    (116, 0x49, 0x21, true),
    (117, 0x53, 0x2E, true),
    (119, 0x4F, 0x23, true),
    (121, 0x51, 0x22, true),
    (123, 0x4B, 0x25, true),
    (124, 0x4D, 0x27, true),
    (125, 0x50, 0x28, true),
    (126, 0x48, 0x26, true),
    (56, 0x2A, 0xA0, false),
    (60, 0x36, 0xA1, false),
    (59, 0x1D, 0xA2, false),
    (62, 0x1D, 0xA3, true),
    (58, 0x38, 0xA4, false),
    (61, 0x38, 0xA5, true),
    (55, 0x5B, 0x5B, true),
    (54, 0x5C, 0x5C, true),
    (57, 0x3A, 0x14, false),
    (122, 0x3B, 0x70, false),
    (120, 0x3C, 0x71, false),
    (99, 0x3D, 0x72, false),
    (118, 0x3E, 0x73, false),
    (96, 0x3F, 0x74, false),
    (97, 0x40, 0x75, false),
    (98, 0x41, 0x76, false),
    (100, 0x42, 0x77, false),
    (101, 0x43, 0x78, false),
    (109, 0x44, 0x79, false),
    (103, 0x57, 0x7A, false),
    (111, 0x58, 0x7B, false),
    (82, 0x52, 0x60, false),
    (83, 0x4F, 0x61, false),
    (84, 0x50, 0x62, false),
    (85, 0x51, 0x63, false),
    (86, 0x4B, 0x64, false),
    (87, 0x4C, 0x65, false),
    (88, 0x4D, 0x66, false),
    (89, 0x47, 0x67, false),
    (91, 0x48, 0x68, false),
    (92, 0x49, 0x69, false),
    (65, 0x53, 0x6E, false),
    (67, 0x37, 0x6A, false),
    (69, 0x4E, 0x6B, false),
    (78, 0x4A, 0x6D, false),
    (75, 0x35, 0x6F, true),
    (76, 0x1C, 0x0D, true),
    (71, 0x45, 0x90, false),
];

#[test]
fn every_key_survives_the_round_trip() {
    for &(mac, scan, vk, extended) in KEYS {
        let (out_scan, out_vk, out_extended) =
            to_pc(mac).expect("a key in the table translates out");
        assert_eq!((out_scan, out_vk, out_extended), (scan, vk, extended));
        assert_eq!(
            from_pc(out_scan, out_vk, out_extended),
            Some(mac),
            "key code {mac} came back as a different key"
        );
    }
}

#[test]
fn the_shared_scan_codes_are_told_apart_by_the_extended_flag() {
    // 0x47 is home on a PC keyboard and keypad-7 on the keypad.
    assert_eq!(from_pc(0x47, 0, true), Some(115)); // home
    assert_eq!(from_pc(0x47, 0, false), Some(89)); // keypad 7
    // 0x1C is return, and return again on the keypad.
    assert_eq!(from_pc(0x1C, 0, false), Some(36));
    assert_eq!(from_pc(0x1C, 0, true), Some(76));
}

#[test]
fn a_key_this_mac_has_no_equivalent_for_is_dropped_rather_than_guessed() {
    assert_eq!(to_pc(0xFFFF), None);
    assert_eq!(from_pc(0x00, 0x00, false), None);
}

#[test]
fn a_sender_without_scan_codes_still_names_the_key() {
    assert_eq!(from_pc(0, 0x41, false), Some(0));
    assert_eq!(from_pc(0, 0x0D, true), Some(36));
    // A scan code that no key has falls back to the name too.
    assert_eq!(from_pc(0x7F, 0x7B, false), Some(111));
    assert_eq!(from_pc(0x7F, 0xFF, false), None);
}

#[test]
fn no_two_keys_share_a_code() {
    for (i, a) in KEYS.iter().enumerate() {
        for b in &KEYS[i + 1..] {
            assert_ne!(a.0, b.0);
            assert_ne!((a.1, a.3), (b.1, b.3));
        }
    }
}
