use wgpu_3dgs_viewer_app::tab::Type;
use wgpu_3dgs_viewer_app::text::human_readable_size;

fn by_float(size: usize) -> String {
    let kb = 1024.0_f64;
    let (v, unit) = if size < 1024 {
        (size as f64, "B")
    } else if size < 1 << 20 {
        (size as f64 / kb, "KB")
    } else if size < 1 << 30 {
        (size as f64 / (kb * kb), "MB")
    } else if size < 1 << 40 {
        (size as f64 / (kb * kb * kb), "GB")
    } else if size < 1 << 50 {
        (size as f64 / (kb * kb * kb * kb), "TB")
    } else {
        (size as f64 / (kb * kb * kb * kb * kb), "PB")
    };
    format!("{:.2} {}", v, unit)
}

#[test]
fn human_readable_size_examples() {
    assert_eq!(human_readable_size(0), "0.00 B");
    assert_eq!(human_readable_size(1023), "1023.00 B");
    assert_eq!(human_readable_size(1024), "1.00 KB");
    assert_eq!(human_readable_size(1536), "1.50 KB");
    assert_eq!(human_readable_size(1152), "1.12 KB");
    assert_eq!(human_readable_size(1 << 20), "1.00 MB");
    assert_eq!(human_readable_size(usize::MAX), "16384.00 PB");
}

#[test]
fn human_readable_size_matches_float_formatting() {
    let mut samples: Vec<usize> = Vec::new();
    for i in 0..4000usize {
        samples.push(i);
        samples.push(i * 128 + 1000);
        samples.push(i * 1_000_003);
        samples.push(i.wrapping_mul(0x9E37_79B9_7F4A_7C15) >> (i % 40));
    }
    for shift in 0..64u32 {
        let base = 1usize << shift;
        for d in [0usize, 1, 2, 3, 1023, 1025] {
            samples.push(base.wrapping_add(d));
            samples.push(base.wrapping_sub(d));
        }
    }
    samples.push(usize::MAX);
    samples.push(usize::MAX - 1024);
    for s in samples {
        assert_eq!(human_readable_size(s), by_float(s), "size {}", s);
    }
}

#[test]
fn tab_menu_titles() {
    let titles: Vec<&str> = Type::all().iter().map(|t| t.menu_title()).collect();
    assert_eq!(
        titles,
        vec!["Scene", "Transform", "Camera", "Measurement", "Selection", "Metadata", "Models", "Mask"]
    );
}
