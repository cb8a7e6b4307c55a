use xdcc_extractor::disk::{format_bytes, multiply_to_u64, DiskUsageLevel};

#[test]
fn formats_byte_values() {
    assert_eq!(format_bytes(0), "0 B");

    assert_eq!(format_bytes(1024), "1,0 KiB");

    assert_eq!(format_bytes(1024 * 1024 * 1024), "1,0 GiB");
}

#[test]
fn formats_with_one_rounded_decimal() {
    assert_eq!(format_bytes(1023), "1023 B");
    assert_eq!(format_bytes(1536), "1,5 KiB");
    assert_eq!(format_bytes(1048575), "1024,0 KiB");
    assert_eq!(format_bytes(5 * 1024 * 1024 * 1024 * 1024), "5,0 TiB");
    assert_eq!(format_bytes(u64::MAX), "16384,0 PiB");
}

#[test]
fn disk_levels_have_classes_and_labels() {
    assert_eq!(DiskUsageLevel::Normal.css_class(), "ok");
    assert_eq!(DiskUsageLevel::Warning.label(), "beobachten");
    assert_eq!(DiskUsageLevel::Critical.css_class(), "bad");
}

#[test]
fn multiplies_with_saturation() {
    assert_eq!(multiply_to_u64(4096, 10), 40960);
    assert_eq!(multiply_to_u64(u128::MAX, 2), u64::MAX);
    assert_eq!(multiply_to_u64(1 << 40, 1 << 40), u64::MAX);
}
