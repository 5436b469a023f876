use graphflow::text::{format_color, strip_md_suffix, strip_one_md_suffix, u64_to_string};

#[test]
fn test_strip_md_suffix() {
    assert_eq!(strip_md_suffix("notes.md"), "notes");
    assert_eq!(strip_md_suffix("notes"), "notes");
    assert_eq!(strip_md_suffix("a.md.md"), "a");
    assert_eq!(strip_md_suffix(".md"), "");
    assert_eq!(strip_md_suffix("md"), "md");
}

#[test]
fn test_strip_one_md_suffix() {
    assert_eq!(strip_one_md_suffix("a.md.md"), "a.md");
    assert_eq!(strip_one_md_suffix("a.md"), "a");
    assert_eq!(strip_one_md_suffix("a"), "a");
}

#[test]
fn test_u64_to_string() {
    assert_eq!(u64_to_string(0), "0");
    assert_eq!(u64_to_string(7), "7");
    assert_eq!(u64_to_string(10), "10");
    assert_eq!(u64_to_string(1000), "1000");
    assert_eq!(u64_to_string(u64::MAX), "18446744073709551615");
}

#[test]
fn test_format_color() {
    assert_eq!(format_color("0x00ff00"), "#00ff00");
    assert_eq!(format_color("#ff0000"), "#ff0000");
    assert_eq!(format_color("\"#ff0000\""), "#ff0000");
    assert_eq!(format_color("rgba(1,2,3,0.5)"), "rgba(1,2,3,0.5)");
    assert_eq!(format_color("abc123"), "#abc123");
    assert_eq!(format_color(""), "#");
}
