use aurora_kernel::fmt::format_decimal;
use aurora_kernel::fs::FsStats;
use aurora_kernel::text::{starts_with, str_eq, str_less, utf8_byte_len};
use aurora_kernel::acpi::{hibernate, sleep};

#[test]
fn decimal_formatting() {
    assert_eq!(format_decimal(0), "0");
    assert_eq!(format_decimal(1234567890), "1234567890");
    assert_eq!(format_decimal(u64::MAX), "18446744073709551615");
}

#[test]
fn string_helpers() {
    assert!(str_eq("abc", "abc"));
    assert!(!str_eq("abc", "abd"));
    assert!(starts_with("/home/a", "/home"));
    assert!(!starts_with("/ho", "/home"));
    assert!(str_less("abc", "abd"));
    assert!(str_less("ab", "abc"));
    assert!(!str_less("b", "a"));
    assert_eq!(utf8_byte_len("héllo"), 6);
}

#[test]
fn fs_stats_text() {
    let st = FsStats { block_size: 4096, total_blocks: 10, free_blocks: 4, total_inodes: 7, free_inodes: 6, fs_type: "tmpfs" };
    assert_eq!(
        st.to_string(),
        "Filesystem: tmpfs\nBlock size: 4096 bytes\nTotal blocks: 10, Free: 4\nTotal inodes: 7, Free: 6"
    );
}

#[test]
fn power_states_do_nothing() {
    sleep();
    hibernate();
}
