use plaintextree::lines::lines_with_last_line_flag;

/// Collects the lines of `s` with their flags.
fn collect(s: &str) -> Vec<(&str, bool)> {
    let mut lines = lines_with_last_line_flag(s);
    let mut out = Vec::new();
    loop {
        match lines.next_line() {
            Some(line) => out.push(line),
            None => return out,
        }
    }
}

/// Joins the lines with one line feed between neighbours.
fn join(lines: &[(&str, bool)]) -> String {
    let mut out = String::new();
    let mut first = true;
    for (line, _) in lines {
        if !first {
            out.push('\n');
        }
        first = false;
        out.push_str(line);
    }
    out
}

#[test]
fn empty_text_has_no_line() {
    assert_eq!(collect(""), Vec::<(&str, bool)>::new());
}

#[test]
fn single_line_is_last() {
    assert_eq!(collect("foo"), vec![("foo", true)]);
}

#[test]
fn trailing_newline_gives_empty_last_line() {
    assert_eq!(collect("foo\n"), vec![("foo", false), ("", true)]);
}

#[test]
fn single_newline_gives_two_empty_lines() {
    assert_eq!(collect("\n"), vec![("", false), ("", true)]);
}

#[test]
fn consecutive_newlines_give_empty_lines() {
    assert_eq!(
        collect("a\n\nb"),
        vec![("a", false), ("", false), ("b", true)]
    );
    assert_eq!(
        collect("a\n\n"),
        vec![("a", false), ("", false), ("", true)]
    );
}

#[test]
fn lines_are_cut_at_line_feeds_only() {
    assert_eq!(collect("a\r\nb\r"), vec![("a\r", false), ("b\r", true)]);
}

#[test]
fn lines_hold_whole_characters() {
    assert_eq!(
        collect("├── é\n日本語\n\u{1F333}"),
        vec![("├── é", false), ("日本語", false), ("\u{1F333}", true)]
    );
}

#[test]
fn next_line_after_the_last_gives_none_again() {
    let mut lines = lines_with_last_line_flag("x");
    assert_eq!(lines.next_line(), Some(("x", true)));
    assert_eq!(lines.next_line(), None);
    assert_eq!(lines.next_line(), None);
}

#[test]
fn joined_lines_are_the_text() {
    for text in [
        "",
        "\n",
        "\n\n",
        "foo",
        "foo\n",
        "foo\n\nbar",
        "\nfoo",
        "a\r\nb",
        "é\n日本語\n",
    ] {
        let lines = collect(text);
        assert_eq!(join(&lines), text);
        // Exactly the last line is flagged.
        for (i, (_, last)) in lines.iter().enumerate() {
            assert_eq!(*last, i + 1 == lines.len());
        }
        // No line holds a line feed.
        for (line, _) in &lines {
            assert!(!line.contains('\n'));
        }
    }
}

#[test]
fn written_lines_and_final_newline_are_the_text() {
    for text in ["", "\n", "foo", "foo\n", "foo\n\nbar\n", "a\n\n"] {
        let mut lines = collect(text);
        if let Some((line, true)) = lines.last() {
            if line.is_empty() {
                lines.pop();
            }
        }
        let mut joined = join(&lines);
        if text.ends_with('\n') {
            joined.push('\n');
        }
        assert_eq!(joined, text);
    }
}
