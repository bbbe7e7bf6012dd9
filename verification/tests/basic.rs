use ruskish::units::human_readable_size;

#[test]
fn it_works() {
    assert_eq!(2 + 2, 4);
}

#[test]
fn zero_bytes_special_case() {
    assert_eq!(human_readable_size(0), "0B");
}

#[test]
fn unit_boundaries() {
    assert_eq!(human_readable_size(1023), "1023.0B");
    assert_eq!(human_readable_size(1024), "1.0KB");
    assert_eq!(human_readable_size(1024 * 1024), "1.0MB");
}

#[test]
fn more_units() {
    assert_eq!(human_readable_size(1), "1.0B");
    assert_eq!(human_readable_size(1536), "1.5KB");
    assert_eq!(human_readable_size(1024 * 1024 * 1024), "1.0GB");
    assert_eq!(human_readable_size(1024u64 * 1024 * 1024 * 1024), "1.0TB");
    assert_eq!(human_readable_size(5 * 1024 * 1024), "5.0MB");
}

#[test]
fn rounding_to_one_decimal() {
    // 1048575 bytes is 1023.999KB; one decimal place rounds it up.
    assert_eq!(human_readable_size(1024 * 1024 - 1), "1024.0KB");
    // 1100 bytes is 1.0742KB.
    assert_eq!(human_readable_size(1100), "1.1KB");
    // 2355 bytes is 2.2998KB.
    assert_eq!(human_readable_size(2355), "2.3KB");
}

#[test]
fn decimal_rendering() {
    assert_eq!(ruskish::units::u64_to_decimal(0), "0");
    assert_eq!(ruskish::units::u64_to_decimal(7), "7");
    assert_eq!(ruskish::units::u64_to_decimal(1234567890), "1234567890");
    assert_eq!(ruskish::units::u64_to_decimal(u64::MAX), "18446744073709551615");
}

#[test]
fn config_and_dir_entry_records() {
    let cli = ruskish::models::Cli {
        dir: ".".to_string(),
        dirs_to_delete: vec!["target".to_string(), "node_modules".to_string()],
        dry_run: true,
        verbose: false,
        force: false,
        recursive: true,
        search: None,
    };
    assert_eq!(cli.dirs_to_delete.len(), 2);
    assert!(cli.dry_run && cli.search.is_none());
    let d = ruskish::models::DirEntry {
        path: "root/target".to_string(),
        size: 42,
        is_directory: true,
    };
    assert!(d.is_directory);
    assert_eq!(human_readable_size(d.size), "42.0B");
}
