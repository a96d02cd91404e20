//! Lines, trimming, decimals and the records read out of a checkpoint.
use astra_optimizer::checkpoint::checkpoint_geometry;
use astra_optimizer::stack::{find_record, record_lines, tilt_tool_records};
use astra_optimizer::text::{
    chars_of, decimal, is_blank, is_white_space, join, lines, same_text, signed_decimal,
    strip_suffix, trim,
};

#[test]
fn white_space_is_what_the_standard_library_says() {
    for code in 0..=0x10FFFFu32 {
        if let Some(c) = char::from_u32(code) {
            assert_eq!(is_white_space(c), c.is_whitespace());
        }
    }
}

#[test]
fn lines_and_trimming_are_what_the_standard_library_says() {
    for s in [
        "",
        "\n",
        "\r\n",
        "\r",
        "a",
        "a\n",
        "a\r\n",
        "a\r",
        "a\n\nb",
        "\n\na\r\r\nb\rc\n",
        "  é\u{a0}x \t\n ",
        "\u{3000}\u{85}",
        "one\r\ntwo\nthree\r",
    ] {
        let expected: Vec<&str> = s.lines().collect();
        assert_eq!(lines(s), expected);
        assert_eq!(trim(s), s.trim());
        assert_eq!(is_blank(s), s.trim().is_empty());
        assert_eq!(chars_of(s), s.chars().collect::<Vec<char>>());
    }
}

#[test]
fn decimal_forms() {
    for n in [0, 7, 10, 99, 100, 1234567890, usize::MAX] {
        assert_eq!(decimal(n), format!("{}", n));
    }
    for n in [0, -1, 42, i64::MIN, i64::MAX, -1000] {
        assert_eq!(signed_decimal(n), format!("{}", n));
    }
}

#[test]
fn joining_and_suffixes() {
    let parts = |list: &[&str]| list.iter().map(|s| s.to_string()).collect::<Vec<String>>();
    assert_eq!(join(&parts(&[]), " | "), "");
    assert_eq!(join(&parts(&["a"]), " | "), "a");
    assert_eq!(join(&parts(&["a", "", "b"]), " | "), "a |  | b");
    assert_eq!(strip_suffix("SIRT_CUDA", "_CUDA"), Some("SIRT"));
    assert_eq!(strip_suffix("_CUDA", "_CUDA"), Some(""));
    assert_eq!(strip_suffix("CUDA", "_CUDA"), None);
    assert_eq!(strip_suffix("é_CUDA", "_CUDA"), Some("é"));
    assert!(same_text("hann", "hann"));
    assert!(!same_text("hann", "hanN"));
}

fn record(name: &str, value: &str) -> (String, String) {
    (name.to_owned(), value.to_owned())
}

#[test]
fn tilt_records_are_the_lines_that_are_not_blank() {
    let text = "{\"tilt\":0.1}\r\n\n   \n{\"tilt\":0.2}";
    let metadata = vec![
        record("tilt_correction", "no"),
        record("tilt_center_of_rotation", text),
        record("tilt_center_of_rotation", "second"),
    ];
    assert_eq!(tilt_tool_records(&metadata), ["{\"tilt\":0.1}", "{\"tilt\":0.2}"]);
    assert!(tilt_tool_records(&metadata[..1]).is_empty());
    assert!(tilt_tool_records(&[]).is_empty());
    assert_eq!(find_record(&metadata, "tilt_correction"), Some("no"));
    assert_eq!(find_record(&metadata, "tilt"), None);
}

#[test]
fn geometry_has_the_records_of_the_metadata() {
    let text = "{\"tilt\":0.1}\n \n{\"tilt\":0.2}\n";
    let metadata = [record("tilt_center_of_rotation", text)];
    let read = Ok((Some(4.5), Some(text.to_owned())));
    let expected = Ok((Some(4.5), tilt_tool_records(&metadata)));
    assert_eq!(checkpoint_geometry("c.h5", read), expected);
    assert_eq!(checkpoint_geometry::<f64>("c.h5", Ok((None, None))), Ok((None, Vec::new())));
    assert_eq!(
        checkpoint_geometry::<f64>("c.h5", Err("no such file".to_owned())),
        Err("cannot open c.h5: no such file".to_owned())
    );
}

#[test]
fn an_appended_record_comes_last() {
    let before = "{\"tilt\":0.1}\n";
    let mut after = before.to_owned();
    after.push_str("{\"tilt\":0.2}\n");
    let mut expected = record_lines(before);
    expected.push("{\"tilt\":0.2}".to_owned());
    assert_eq!(record_lines(&after), expected);
}
