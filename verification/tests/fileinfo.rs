use universal_launcher::fileinfo::{file_info_text, file_search_result, human_size_text};
use universal_launcher::state::FileEntry;

fn float_human_size(size: u64) -> String {
    if size < 1024 {
        return format!("{} B", size);
    }
    if size < 1024 * 1024 {
        return format!("{:.1} KB", size as f64 / 1024.0);
    }
    if size < 1024 * 1024 * 1024 {
        return format!("{:.1} MB", size as f64 / (1024.0 * 1024.0));
    }
    format!("{:.1} GB", size as f64 / (1024.0 * 1024.0 * 1024.0))
}

#[test]
fn human_size_matches_float_formatting() {
    let mut sizes: Vec<u64> = vec![
        0, 1, 999, 1023, 1024, 1075, 1126, 1280, 1331, 1536, 10240, 1048575, 1048576,
        1310720, 1073741823, 1073741824, 1342177280, 1395864371, u64::MAX, u64::MAX - 1,
        (1u64 << 53) + 1, (1u64 << 60) + 12345, 9_007_199_254_740_993, 123_456_789_012_345,
    ];
    let mut x: u64 = 0x9e37_79b9_7f4a_7c15;
    for _ in 0..20000 {
        x ^= x << 13;
        x ^= x >> 7;
        x ^= x << 17;
        let shift = (x % 64) as u32;
        sizes.push(x >> shift);
        sizes.push((x >> shift) & 0xfffff);
    }
    for k in 0..5000u64 {
        sizes.push(1024 + k * 51);
        sizes.push(1048576 + k * 52429);
    }
    for s in sizes {
        assert_eq!(human_size_text(Some(s)), float_human_size(s), "size {}", s);
    }
}

#[test]
fn human_size_unknown() {
    assert_eq!(human_size_text(None), "?");
}

#[test]
fn human_size_examples() {
    assert_eq!(human_size_text(Some(512)), "512 B");
    assert_eq!(human_size_text(Some(1536)), "1.5 KB");
    assert_eq!(human_size_text(Some(5 * 1024 * 1024)), "5.0 MB");
    assert_eq!(human_size_text(Some(3 * 1024 * 1024 * 1024)), "3.0 GB");
}

#[test]
fn file_info_uppercases_extension() {
    assert_eq!(file_info_text(Some("pdf"), "1.5 KB", "01/02/24 10:00"), "PDF • 1.5 KB • 01/02/24 10:00");
    assert_eq!(file_info_text(None, "?", "?"), "FILE • ? • ?");
}

#[test]
fn file_result_is_described() {
    let entry = FileEntry { path: "/home/u/Report.PDF".to_string(), extension: Some("PDF".to_string()) };
    let r = file_search_result("report.pdf".to_string(), &entry, Some(2048), "05/06/24 12:30");
    assert_eq!(r.name, "report.pdf");
    assert_eq!(r.desc, "PDF • 2.0 KB • 05/06/24 12:30");
    assert_eq!(r.icon, "📕");
    assert_eq!(r.result_type, "file");
    assert_eq!(r.path, "/home/u/Report.PDF");
}
