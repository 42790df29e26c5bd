use lattice::format::{format_file_size, format_size, picker_size_label};

fn float_file_size(bytes: u64) -> String {
    const UNITS: [&str; 5] = ["B", "KB", "MB", "GB", "TB"];
    let mut size = bytes as f64;
    let mut unit = 0usize;
    while size >= 1024.0 && unit < UNITS.len() - 1 {
        size /= 1024.0;
        unit += 1;
    }
    if unit == 0 {
        format!("{bytes} {}", UNITS[unit])
    } else {
        format!("{size:.1} {}", UNITS[unit])
    }
}

fn float_picker_size(bytes: Option<u64>) -> String {
    match bytes {
        None => String::new(),
        Some(b) if b < 1_024 => format!("{b} B"),
        Some(b) if b < 1_024 * 1_024 => format!("{:.1} KB", b as f64 / 1_024.0),
        Some(b) if b < 1_024 * 1_024 * 1_024 => {
            format!("{:.1} MB", b as f64 / (1_024.0 * 1_024.0))
        }
        Some(b) => format!("{:.1} GB", b as f64 / (1_024.0 * 1_024.0 * 1_024.0)),
    }
}

fn samples() -> Vec<u64> {
    let mut v: Vec<u64> = vec![0, 1, 9, 10, 512, 1023, 1024, 1025, 1075, 1126, 1177, 1280, 1331, 1792, 2048, 2559, 2560];
    let mut x: u64 = 1;
    for _ in 0..200 {
        x = x.wrapping_mul(6364136223846793005).wrapping_add(1442695040888963407);
        v.push(x);
        v.push(x >> 11);
        v.push(x >> 23);
        v.push(x >> 37);
        v.push(x >> 50);
    }
    for e in 0..64u32 {
        let p = 1u64 << e;
        v.push(p);
        v.push(p.wrapping_sub(1));
        v.push(p.wrapping_add(1));
        v.push(p + p / 20);
        v.push(p + p / 4);
    }
    v.push(u64::MAX);
    v.push(u64::MAX - 1024);
    v.push((1u64 << 53) + 1);
    v.push((1u64 << 53) + 3);
    v
}

#[test]
fn file_size_matches_double_formatting() {
    for b in samples() {
        assert_eq!(format_file_size(b), float_file_size(b), "bytes = {b}");
        assert_eq!(format_size(b), float_file_size(b), "bytes = {b}");
    }
}

#[test]
fn picker_size_matches_double_formatting() {
    assert_eq!(picker_size_label(None), float_picker_size(None));
    for b in samples() {
        assert_eq!(picker_size_label(Some(b)), float_picker_size(Some(b)), "bytes = {b}");
    }
}

#[test]
fn file_size_exact_values() {
    assert_eq!(format_file_size(0), "0 B");
    assert_eq!(format_file_size(1023), "1023 B");
    assert_eq!(format_file_size(1024), "1.0 KB");
    assert_eq!(format_file_size(1536), "1.5 KB");
    assert_eq!(format_file_size(1280), "1.2 KB");
    assert_eq!(format_file_size(5 * 1024 * 1024), "5.0 MB");
    assert_eq!(format_size(0), "0 B");
}
