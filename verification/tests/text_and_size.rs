use phi_launcher::size::human_size;
use phi_launcher::text::{chars_of, has_visible_char, is_whitespace};
use phi_launcher::ui::{notes_preview, truncate_notes};

/// The formatting of a byte count as a float, as the launcher always did it.
fn float_human_size(bytes: u64) -> String {
    const UNITS: [&str; 4] = ["B", "KB", "MB", "GB"];
    let mut v = bytes as f64;
    let mut i = 0;
    while v >= 1024.0 && i < UNITS.len() - 1 {
        v /= 1024.0;
        i += 1;
    }
    format!("{v:.1} {}", UNITS[i])
}

fn std_truncate_notes(body: &str, max_chars: usize) -> String {
    let cleaned: String = body
        .lines()
        .map(|l| l.trim_end())
        .collect::<Vec<_>>()
        .join("\n");
    if cleaned.chars().count() > max_chars {
        let mut s: String = cleaned.chars().take(max_chars).collect();
        s.push('…');
        s
    } else {
        cleaned
    }
}

#[test]
fn whitespace_matches_std_for_every_char() {
    for u in 0u32..=0x10FFFF {
        if let Some(c) = char::from_u32(u) {
            assert_eq!(is_whitespace(c), c.is_whitespace(), "char {u:#x}");
        }
    }
}

#[test]
fn chars_and_lowercase() {
    assert_eq!(chars_of("héllo"), vec!['h', 'é', 'l', 'l', 'o']);
    assert!(has_visible_char(" \t x "));
    assert!(!has_visible_char(" \u{3000}\n\t"));
    assert!(!has_visible_char(""));
}

#[test]
fn human_size_exact_values() {
    assert_eq!(human_size(0), "0.0 B");
    assert_eq!(human_size(1023), "1023.0 B");
    assert_eq!(human_size(1024), "1.0 KB");
    assert_eq!(human_size(1536), "1.5 KB");
    assert_eq!(human_size(1048576), "1.0 MB");
    assert_eq!(human_size(5 * 1024 * 1024 * 1024), "5.0 GB");
    assert_eq!(human_size(3 * 1024 * 1024 * 1024 * 1024), "3072.0 GB");
}

#[test]
fn human_size_rounds_ties_to_even() {
    // 1280 B = 1.25 KB and 1792 B = 1.75 KB sit exactly between two tenths.
    assert_eq!(human_size(1280), float_human_size(1280));
    assert_eq!(human_size(1792), float_human_size(1792));
}

#[test]
fn human_size_matches_float_formatting() {
    let mut samples: Vec<u64> = (0..5000).collect();
    for k in 0..64u32 {
        let p = 1u64 << k;
        samples.extend([p - 1, p, p.wrapping_add(1), p.wrapping_add(p / 2), p.wrapping_mul(3)]);
    }
    let mut x: u64 = 0x9E37_79B9_7F4A_7C15;
    for _ in 0..20000 {
        x ^= x << 13;
        x ^= x >> 7;
        x ^= x << 17;
        samples.push(x);
        samples.push(x >> (x % 64));
    }
    samples.extend([u64::MAX, u64::MAX - 1, (1u64 << 53) + 1, (1u64 << 53) + 3, (1u64 << 54) + 2]);
    for b in samples {
        assert_eq!(human_size(b), float_human_size(b), "bytes {b}");
    }
}

#[test]
fn truncate_notes_matches_line_trimming() {
    let cases = [
        "",
        "\n",
        "a",
        "a\n",
        "a\n\n",
        "line one  \r\nline two\t\n",
        "  indented\n\n\nend  ",
        "x\r\ry\r",
        "tail\u{3000}\nnext\u{a0}",
        "多行\n说明  \n",
    ];
    for c in cases {
        for max in [0usize, 1, 3, 5, 500] {
            assert_eq!(truncate_notes(c, max), std_truncate_notes(c, max), "{c:?} {max}");
        }
    }
    assert_eq!(truncate_notes("abcdef", 3), "abc…");
}

#[test]
fn notes_preview_trims_and_cuts() {
    assert_eq!(notes_preview(&None), None);
    assert_eq!(notes_preview(&Some("  \n\t ".to_string())), None);
    assert_eq!(notes_preview(&Some("\n  hello  \nworld \n".to_string())), Some("hello\nworld".to_string()));
    let long = "x".repeat(600);
    let p = notes_preview(&Some(long)).unwrap();
    assert_eq!(p.chars().count(), 501);
    assert!(p.ends_with('…'));
}
