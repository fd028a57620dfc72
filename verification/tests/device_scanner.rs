use sd_flasher::scanner::{
    candidates, device_node_path, discover, entry_qualifies, is_large_enough, is_valid,
    is_white_space, parse_sector_count, parse_u64, size_attribute_path, trim, RegistryEntry,
    ScanError, SECTOR_BYTES,
};

const GB: u64 = 1_000_000_000;

fn entry(name: &str, size_text: Option<&str>) -> RegistryEntry {
    RegistryEntry {
        path: format!("/sys/block/{name}"),
        size_text: size_text.map(|text| text.to_string()),
    }
}

fn sized(name: &str, bytes: u64) -> RegistryEntry {
    let sectors = bytes / SECTOR_BYTES;
    RegistryEntry { path: format!("/sys/block/{name}"), size_text: Some(format!("{sectors}\n")) }
}

#[test]
fn white_space_is_what_the_standard_library_calls_white_space() {
    for code in 0..=0x10ffffu32 {
        if let Some(c) = char::from_u32(code) {
            assert_eq!(is_white_space(c), c.is_whitespace(), "U+{code:04X}");
        }
    }
}

#[test]
fn trim_agrees_with_the_standard_library() {
    for text in [
        "",
        " ",
        "\n",
        "abc",
        "  abc",
        "abc  ",
        " \t abc \r\n",
        "a b",
        "  a  b  ",
        "\u{a0}12\u{2003}",
        "\u{3000}",
        "x\u{85}",
        "\u{200b}7\u{200b}",
    ] {
        assert_eq!(trim(text), text.trim(), "{text:?}");
    }
}

#[test]
fn numbers_parse_as_in_the_standard_library() {
    for text in [
        "",
        "0",
        "7",
        "007",
        "+5",
        "+",
        "++5",
        "-5",
        "-0",
        "5+",
        "12a",
        "a12",
        " 12",
        "12 ",
        "1_000",
        "1.5",
        "0x10",
        "18446744073709551615",
        "18446744073709551616",
        "+18446744073709551615",
        "99999999999999999999999",
        "000000000000000000000000000001",
        "\u{663}",
        "\u{ff11}\u{ff12}",
    ] {
        assert_eq!(parse_u64(text), text.parse::<u64>().ok(), "{text:?}");
    }
}

#[test]
fn numbers_have_their_decimal_value() {
    assert_eq!(parse_u64("0"), Some(0));
    assert_eq!(parse_u64("42"), Some(42));
    assert_eq!(parse_u64("+42"), Some(42));
    assert_eq!(parse_u64("250069680"), Some(250_069_680));
    assert_eq!(parse_u64("18446744073709551615"), Some(u64::MAX));
    assert_eq!(parse_u64("18446744073709551616"), None);
    assert_eq!(parse_u64("forty"), None);
}

#[test]
fn sector_counts_are_read_without_the_white_space_around_them() {
    assert_eq!(parse_sector_count("250069680\n"), Some(250_069_680));
    assert_eq!(parse_sector_count("  12  "), Some(12));
    assert_eq!(parse_sector_count("\t+9\r\n"), Some(9));
    assert_eq!(parse_sector_count("1 2"), None);
    assert_eq!(parse_sector_count("\n"), None);
    assert_eq!(parse_sector_count(""), None);
    assert_eq!(parse_sector_count("n/a"), None);
    for text in ["12\n", " 0 ", "x", "", "  ", "3 4", "\u{a0}5"] {
        assert_eq!(parse_sector_count(text), text.trim().parse::<u64>().ok(), "{text:?}");
    }
}

#[test]
fn size_is_sectors_times_512() {
    assert_eq!(SECTOR_BYTES, 512);
    assert!(is_large_enough(2, 1024));
    assert!(!is_large_enough(2, 1025));
    assert!(is_large_enough(0, 0));
    assert!(!is_large_enough(0, 1));
    assert!(is_large_enough(250_000_000, 128 * GB));
    assert!(!is_large_enough(249_999_999, 128 * GB));
}

#[test]
fn a_size_beyond_64_bits_is_large_enough() {
    assert!(is_large_enough(u64::MAX, u64::MAX));
    assert!(is_large_enough(u64::MAX / 512 + 1, u64::MAX));
    assert!(!is_large_enough(u64::MAX / 512, u64::MAX));
}

#[test]
fn discovery_keeps_the_large_devices_in_registry_order() {
    let entries = vec![sized("sda", 50 * GB), sized("sdb", 130 * GB), sized("sdc", 999 * GB)];
    assert_eq!(
        candidates(&entries, 128 * GB),
        vec!["/sys/block/sdb".to_string(), "/sys/block/sdc".to_string()]
    );
    let reversed = vec![sized("sdc", 999 * GB), sized("sda", 50 * GB), sized("sdb", 130 * GB)];
    assert_eq!(
        candidates(&reversed, 128 * GB),
        vec!["/sys/block/sdc".to_string(), "/sys/block/sdb".to_string()]
    );
}

#[test]
fn discovery_passes_over_entries_without_a_usable_size() {
    let entries = vec![
        entry("loop0", None),
        sized("sda", 50 * GB),
        entry("sdx", Some("unknown\n")),
        sized("sdb", 130 * GB),
        entry("sdy", Some("")),
        entry("sdz", Some("-1")),
        sized("sdc", 999 * GB),
    ];
    assert_eq!(
        discover(&Ok(entries), 128 * GB),
        Ok(vec!["/sys/block/sdb".to_string(), "/sys/block/sdc".to_string()])
    );
}

#[test]
fn discovery_includes_a_device_of_exactly_the_threshold() {
    let entries = vec![sized("sda", 128 * GB), sized("sdb", 128 * GB - 512)];
    assert_eq!(candidates(&entries, 128 * GB), vec!["/sys/block/sda".to_string()]);
}

#[test]
fn discovery_of_nothing_finds_nothing() {
    assert_eq!(candidates(&Vec::new(), 128 * GB), Vec::<String>::new());
    assert_eq!(discover(&Ok(vec![sized("sda", GB)]), 128 * GB), Ok(Vec::new()));
}

#[test]
fn discovery_fails_only_when_the_registry_cannot_be_listed() {
    assert_eq!(
        discover(&Err(ScanError::RegistryUnreadable), 128 * GB),
        Err(ScanError::RegistryUnreadable)
    );
    assert_eq!(discover(&Ok(vec![entry("sda", None)]), 0), Ok(Vec::new()));
}

#[test]
fn an_entry_qualifies_by_its_size() {
    assert!(entry_qualifies(&sized("sda", 200 * GB), 128 * GB));
    assert!(!entry_qualifies(&sized("sda", 100 * GB), 128 * GB));
    assert!(!entry_qualifies(&entry("sda", None), 0));
    assert!(!entry_qualifies(&entry("sda", Some("big")), 0));
    assert!(entry_qualifies(&entry("sda", Some("0")), 0));
}

#[test]
fn a_device_is_there_while_its_sector_count_is_positive() {
    assert!(is_valid(&Some("250069680\n".to_string())));
    assert!(is_valid(&Some("1".to_string())));
    assert!(!is_valid(&Some("0\n".to_string())));
    assert!(!is_valid(&Some("".to_string())));
    assert!(!is_valid(&Some("gone".to_string())));
    assert!(!is_valid(&None));
}

#[test]
fn device_node_is_derived_from_the_registry_entry() {
    assert_eq!(device_node_path("/sys/block/sda"), "/dev/sda");
    assert_eq!(device_node_path("/sys/block/mmcblk0"), "/dev/mmcblk0");
    assert_eq!(device_node_path("sda"), "sda");
    assert_eq!(device_node_path(""), "");
    for path in ["/sys/block/sda", "/sys/block//sys/block/x", "/sys/block", "/sys/blockk/a", "a/sys/block/b/sys/block/"] {
        assert_eq!(device_node_path(path), path.replace("/sys/block/", "/dev/"), "{path:?}");
    }
}

#[test]
fn size_attribute_is_derived_from_the_device_node() {
    assert_eq!(size_attribute_path("/dev/sda"), "/sys/block/sda/size");
    assert_eq!(size_attribute_path("/dev/mmcblk0"), "/sys/block/mmcblk0/size");
    for path in ["/dev/sda", "/dev//dev/x", "/dev", "sda", "", "/de/dev/v/"] {
        let mut expected = path.replace("/dev/", "/sys/block/");
        expected.push_str("/size");
        assert_eq!(size_attribute_path(path), expected, "{path:?}");
    }
}

#[test]
fn node_and_attribute_paths_fit_together() {
    let node = device_node_path("/sys/block/sdb");
    assert_eq!(size_attribute_path(&node), "/sys/block/sdb/size");
}
