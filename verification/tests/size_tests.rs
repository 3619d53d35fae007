use m3u8_downloader::size::format_size;

fn by_floats(size: usize) -> String {
    let units = ["B", "KB", "MB", "GB", "TB"];
    let mut size = size as f64;
    let mut unit_index = 0;
    for _ in 0..units.len() - 1 {
        if size < 1024.0 {
            break;
        }
        size /= 1024.0;
        unit_index += 1;
    }
    format!("{:.2} {}", size, units[unit_index])
}

#[test]
fn known_sizes() {
    assert_eq!(format_size(0), "0.00 B");
    assert_eq!(format_size(1023), "1023.00 B");
    assert_eq!(format_size(1024), "1.00 KB");
    assert_eq!(format_size(1536), "1.50 KB");
    assert_eq!(format_size(1048575), "1024.00 KB");
    assert_eq!(format_size(1048576), "1.00 MB");
    assert_eq!(format_size(5368709120), "5.00 GB");
    assert_eq!(format_size(1099511627776), "1.00 TB");
    assert_eq!(format_size(usize::MAX), "16777216.00 TB");
}

#[test]
fn ties_are_rounded_to_the_even_digit() {
    assert_eq!(format_size(1024 + 128), "1.12 KB");
    assert_eq!(format_size(1024 + 384), "1.38 KB");
    assert_eq!(format_size(1024 + 640), "1.62 KB");
    assert_eq!(format_size(1024 + 896), "1.88 KB");
}

#[test]
fn the_same_as_by_floats() {
    for size in 0..20000usize {
        assert_eq!(format_size(size), by_floats(size));
    }
    let mut size: usize = 1;
    while size < usize::MAX / 7 {
        for d in 0..40usize {
            assert_eq!(format_size(size + d), by_floats(size + d));
            assert_eq!(format_size(size * 5 + d * 13), by_floats(size * 5 + d * 13));
            assert_eq!(format_size(size + size / 8 * (d % 8)), by_floats(size + size / 8 * (d % 8)));
        }
        size = size * 2 + size / 3;
    }
    for e in 52..64u32 {
        let p = 1usize << e;
        for d in 0..5000usize {
            assert_eq!(format_size(p + d), by_floats(p + d));
            assert_eq!(format_size(p - d), by_floats(p - d));
        }
    }
    for k in [10u32, 20, 30, 40] {
        let unit = 1usize << k;
        for eighth in 0..8192usize {
            let size = unit + unit / 8 * eighth;
            assert_eq!(format_size(size), by_floats(size));
        }
    }
}
