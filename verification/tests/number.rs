use ebpf_tracker::number::{is_float_text, parse_u32};
use ebpf_tracker::text::{decimal_string, hex16_string, join_path, trim};

#[test]
fn u32_text_reads_as_the_standard_library_reads_it() {
    for text in [
        "0", "42", "+7", "007", "4294967295", "4294967296", "", "+", "-1", "-0", "1 ", " 1", "1a",
        "99999999999999999999",
    ] {
        assert_eq!(parse_u32(text), text.parse::<u32>().ok(), "{text:?}");
    }
}

#[test]
fn float_text_is_accepted_as_the_standard_library_accepts_it() {
    for text in [
        "0.2", "1", "1.", ".5", ".", "", "+", "-", "1e5", "1E-5", "1e", "e5", "1.5e+3", "inf",
        "-Infinity", "NaN", "+nan", "infinit", "0x10", " 1", "1 ", "1.2.3", "1e5.0", "1_0",
        "-.5e-0", "+.e1",
    ] {
        assert_eq!(is_float_text(text), text.parse::<f32>().is_ok(), "{text:?}");
    }
}

#[test]
fn numbers_and_paths_are_written_as_std_writes_them() {
    for n in [0u64, 7, 10, 123456789, u64::MAX] {
        assert_eq!(decimal_string(n), n.to_string());
        assert_eq!(hex16_string(n), format!("{n:016x}"));
    }
    assert_eq!(join_path("a", "b"), "a/b");
    assert_eq!(join_path("", "b"), "b");
    assert_eq!(join_path("a/", "b"), "a/b");
    assert_eq!(join_path("a", "/b"), "/b");
    assert_eq!(trim("\u{3000} x \u{85}"), " x ".trim());
}
