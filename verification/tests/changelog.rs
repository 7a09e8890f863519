use secubot::commands::changelog::{changelog, version};

#[test]
fn headings_are_bold_and_lines_end_with_a_line_feed() {
    assert_eq!(changelog("# Title\r\nline\r\n## Sub\r\nlast"), "**# Title**\nline\n**## Sub**\nlast\n");
}

#[test]
fn empty_notes_have_one_empty_line() {
    assert_eq!(changelog(""), "\n");
    assert_eq!(changelog("\r\n"), "\n\n");
    assert_eq!(changelog("\r\n\r\n"), "\n\n\n");
}

#[test]
fn lines_end_only_at_carriage_return_and_line_feed() {
    assert_eq!(changelog("a\rb\nc"), "a\rb\nc\n");
    assert_eq!(changelog("a\r\r\nb"), "a\r\nb\n");
    assert_eq!(changelog("a\n#b"), "a\n#b\n");
    assert_eq!(changelog("#\r"), "**#\r**\n");
    assert_eq!(changelog(" # no heading"), " # no heading\n");
}

#[test]
fn changelog_is_what_splitting_and_styling_gives() {
    for notes in ["", "x", "# a\r\n\r\n- b\r\n- c", "\r\n#\r\n", "a\r\n", "\n\r\n\r"] {
        let expected: String = notes
            .split("\r\n")
            .map(|line| {
                if line.starts_with('#') {
                    format!("**{}**\n", line)
                } else {
                    format!("{}\n", line)
                }
            })
            .collect();
        assert_eq!(changelog(notes), expected);
    }
}

#[test]
fn version_has_a_v_before_it() {
    assert_eq!(version("1.2.3"), "v1.2.3");
    assert_eq!(version(""), "v");
}
