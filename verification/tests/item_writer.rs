use std::fmt::{self, Write};

use plaintextree::{EdgeConfig, ItemWriter, ItemWriterOptions, ItemWriterState};

#[test]
fn empty_tree() {
    let mut buf = String::new();
    let _writer = ItemWriter::new(
        &mut buf,
        &mut [ItemWriterState::new(false, EdgeConfig::Ascii)],
    );
    assert!(
        buf.is_empty(),
        "Writer should write nothing until it is told to write something"
    );
}

/// Emits the tree for testing.
///
/// ```text
/// .
/// |-- foo
/// |   |-- bar
/// |   |   `-- baz
/// |   |
/// |   |       baz2
/// |   `-- qux
/// |       `-- quux
/// |-- corge
/// `-- grault
/// ```
fn emit_test_tree(edge: EdgeConfig, opts: ItemWriterOptions) -> Result<String, fmt::Error> {
    let mut buf = String::new();
    let mut states = Vec::new();
    buf.write_str(".\n")?;

    {
        states.push(ItemWriterState::new(false, edge.clone()));
        opts.build(&mut buf, &mut states).write_str("foo\n")?;
        {
            states.push(ItemWriterState::new(false, edge.clone()));
            opts.build(&mut buf, &mut states).write_str("bar\n")?;
            {
                states.push(ItemWriterState::new(true, edge.clone()));
                opts.build(&mut buf, &mut states)
                    .write_str("baz\n\nbaz2\n")?;
                states.pop();
            }
            states.pop();
        }
        {
            states.push(ItemWriterState::new(true, edge.clone()));
            opts.build(&mut buf, &mut states).write_str("qux\n")?;
            {
                states.push(ItemWriterState::new(true, edge.clone()));
                opts.build(&mut buf, &mut states).write_str("quux\n")?;
                states.pop();
            }
            states.pop();
        }
        states.pop();
    }
    {
        states.push(ItemWriterState::new(false, edge.clone()));
        opts.build(&mut buf, &mut states).write_str("corge\n")?;
        states.pop();
    }
    {
        states.push(ItemWriterState::new(true, edge.clone()));
        opts.build(&mut buf, &mut states).write_str("grault\n")?;
        states.pop();
    }

    Ok(buf)
}

#[test]
fn ascii_tree() -> fmt::Result {
    let got = emit_test_tree(EdgeConfig::Ascii, ItemWriterOptions::new())?;

    let expected = "\
                    .\n\
                    |-- foo\n\
                    |   |-- bar\n\
                    |   |   `-- baz\n\
                    |   |\n\
                    |   |       baz2\n\
                    |   `-- qux\n\
                    |       `-- quux\n\
                    |-- corge\n\
                    `-- grault\n";
    assert_eq!(got, expected);
    Ok(())
}

#[test]
fn unicode_single_width_tree() -> fmt::Result {
    let got = emit_test_tree(EdgeConfig::UnicodeSingleWidth, ItemWriterOptions::new())?;

    let expected = "\
                    .\n\
                    ├── foo\n\
                    │   ├── bar\n\
                    │   │   └── baz\n\
                    │   │\n\
                    │   │       baz2\n\
                    │   └── qux\n\
                    │       └── quux\n\
                    ├── corge\n\
                    └── grault\n";
    assert_eq!(got, expected);
    Ok(())
}

#[test]
fn unicode_double_width_tree() -> fmt::Result {
    let got = emit_test_tree(EdgeConfig::UnicodeDoubleWidth, ItemWriterOptions::new())?;

    let expected = "\
                    .\n\
                    ├─ foo\n\
                    │   ├─ bar\n\
                    │   │   └─ baz\n\
                    │   │\n\
                    │   │        baz2\n\
                    │   └─ qux\n\
                    │        └─ quux\n\
                    ├─ corge\n\
                    └─ grault\n";
    assert_eq!(got, expected);
    Ok(())
}

#[test]
fn non_last_item_single_line() -> fmt::Result {
    let mut buf = String::new();
    let states = &mut [ItemWriterState::new(false, EdgeConfig::Ascii)];
    let mut writer = ItemWriter::new(&mut buf, states);
    writer.write_str("foo")?;

    assert_eq!(buf, "|-- foo");
    Ok(())
}

#[test]
fn last_item_single_line() -> fmt::Result {
    let mut buf = String::new();
    let states = &mut [ItemWriterState::new(true, EdgeConfig::Ascii)];
    let mut writer = ItemWriter::new(&mut buf, states);
    writer.write_str("foo")?;

    assert_eq!(buf, "`-- foo");
    Ok(())
}

#[test]
fn non_last_item_multi_line() -> fmt::Result {
    let mut buf = String::new();
    let states = &mut [ItemWriterState::new(false, EdgeConfig::Ascii)];
    let mut writer = ItemWriter::new(&mut buf, states);
    writer.write_str("foo\n\nbar")?;

    assert_eq!(buf, "|-- foo\n|\n|   bar");
    Ok(())
}

#[test]
fn last_item_multi_line() -> fmt::Result {
    let mut buf = String::new();
    let states = &mut [ItemWriterState::new(true, EdgeConfig::Ascii)];
    let mut writer = ItemWriter::new(&mut buf, states);
    writer.write_str("foo\n\nbar")?;

    assert_eq!(buf, "`-- foo\n\n    bar");
    Ok(())
}

#[test]
fn non_last_item_multi_line_with_trailing_spaces() -> fmt::Result {
    let mut buf = String::new();
    let states = &mut [ItemWriterState::new(false, EdgeConfig::Ascii)];
    let mut writer = {
        let mut opts = ItemWriterOptions::new();
        opts.emit_trailing_whitespace();
        opts.build(&mut buf, states)
    };
    writer.write_str("foo\n\nbar")?;

    assert_eq!(buf, "|-- foo\n|   \n|   bar");
    Ok(())
}

#[test]
fn last_item_multi_line_with_trailing_spaces() -> fmt::Result {
    let mut buf = String::new();
    let states = &mut [ItemWriterState::new(true, EdgeConfig::Ascii)];
    let mut writer = {
        let mut opts = ItemWriterOptions::new();
        opts.emit_trailing_whitespace();
        opts.build(&mut buf, states)
    };
    writer.write_str("foo\n\nbar")?;

    assert_eq!(buf, "`-- foo\n    \n    bar");
    Ok(())
}
