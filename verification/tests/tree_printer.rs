use std::fmt::Write;

use plaintextree::unicode::{self, UnicodeEdgeConfigBuilder};
use plaintextree::{EdgeConfig, Error, ItemStyle, TreeConfig, TreePrinter};

fn emit_test_tree(edge: EdgeConfig) -> Result<String, Error> {
    let mut buf = String::new();
    buf.write_str(".\n")?;
    let mut printer = TreePrinter::new(&mut buf, TreeConfig::new());

    printer.open_node(ItemStyle::non_last(edge.clone()), "foo")?;
    printer.open_node(ItemStyle::non_last(edge.clone()), "bar")?;
    printer.open_node(ItemStyle::last(edge.clone()), "baz\n\nbaz2")?;
    printer.close_node()?;
    printer.close_node()?;
    printer.open_node(ItemStyle::last(edge.clone()), "qux")?;
    printer.open_node(ItemStyle::last(edge.clone()), "quux")?;
    printer.close_node()?;
    printer.close_node()?;
    printer.close_node()?;
    printer.open_node(ItemStyle::non_last(edge.clone()), "corge\n")?;
    printer.close_node()?;
    printer.open_node(ItemStyle::last(edge.clone()), "grault")?;
    printer.close_node()?;

    printer.finalize()?;
    Ok(buf)
}

#[test]
fn ascii() -> Result<(), Error> {
    let got = emit_test_tree(EdgeConfig::Ascii)?;

    let expected = ".\n\
                    |-- foo\n\
                    |   |-- bar\n\
                    |   |   `-- baz\n\
                    |   |\n\
                    |   |       baz2\n\
                    |   `-- qux\n\
                    |       `-- quux\n\
                    |-- corge\n\
                    `-- grault\n";
    assert_eq!(got, expected);
    Ok(())
}

#[test]
fn unicode_single_width() -> Result<(), Error> {
    let got = emit_test_tree(EdgeConfig::UnicodeSingleWidth)?;

    let expected = ".\n\
                    ├── foo\n\
                    │   ├── bar\n\
                    │   │   └── baz\n\
                    │   │\n\
                    │   │       baz2\n\
                    │   └── qux\n\
                    │       └── quux\n\
                    ├── corge\n\
                    └── grault\n";
    assert_eq!(got, expected);
    Ok(())
}

#[test]
fn unicode_double_width() -> Result<(), Error> {
    let uniconf = UnicodeEdgeConfigBuilder::with_ambiwidth(unicode::AmbiWidth::Double)
        .build()
        .expect("Should never fail: Valid styles combination");
    let got = emit_test_tree(EdgeConfig::Unicode(uniconf))?;

    let expected = ".\n\
                    ├─ foo\n\
                    │   ├─ bar\n\
                    │   │   └─ baz\n\
                    │   │\n\
                    │   │        baz2\n\
                    │   └─ qux\n\
                    │        └─ quux\n\
                    ├─ corge\n\
                    └─ grault\n";
    assert_eq!(got, expected);
    Ok(())
}

#[test]
fn unicode_custom1() -> Result<(), Error> {
    let uniconf = UnicodeEdgeConfigBuilder::with_ambiwidth(unicode::AmbiWidth::Single)
        .vertical(unicode::EdgeStyle::Double)
        .build()
        .expect("Should never fail: Valid styles combination");
    let got = emit_test_tree(EdgeConfig::Unicode(uniconf))?;

    let expected = ".\n\
                    ╟── foo\n\
                    ║   ╟── bar\n\
                    ║   ║   ╙── baz\n\
                    ║   ║\n\
                    ║   ║       baz2\n\
                    ║   ╙── qux\n\
                    ║       ╙── quux\n\
                    ╟── corge\n\
                    ╙── grault\n";
    assert_eq!(got, expected);
    Ok(())
}

#[test]
fn unicode_custom2() -> Result<(), Error> {
    let uniconf = UnicodeEdgeConfigBuilder::with_ambiwidth(unicode::AmbiWidth::Single)
        .horizontal(unicode::EdgeStyle::Double)
        .build()
        .expect("Should never fail: Valid styles combination");
    let got = emit_test_tree(EdgeConfig::Unicode(uniconf))?;

    let expected = ".\n\
                    ╞══ foo\n\
                    │   ╞══ bar\n\
                    │   │   ╘══ baz\n\
                    │   │\n\
                    │   │       baz2\n\
                    │   ╘══ qux\n\
                    │       ╘══ quux\n\
                    ╞══ corge\n\
                    ╘══ grault\n";
    assert_eq!(got, expected);
    Ok(())
}

#[test]
fn unicode_custom3() -> Result<(), Error> {
    let uniconf = UnicodeEdgeConfigBuilder::with_ambiwidth(unicode::AmbiWidth::Single)
        .vertical(unicode::EdgeStyle::Solid(unicode::EdgeWidth::Bold))
        .horizontal(unicode::EdgeStyle::Dashed(
            unicode::EdgeWidth::Narrow,
            unicode::DashLevel::Triple,
        ))
        .build()
        .expect("Should never fail: Valid styles combination");
    let got = emit_test_tree(EdgeConfig::Unicode(uniconf))?;

    let expected = ".\n\
                    ┠┄┄ foo\n\
                    ┃   ┠┄┄ bar\n\
                    ┃   ┃   ┖┄┄ baz\n\
                    ┃   ┃\n\
                    ┃   ┃       baz2\n\
                    ┃   ┖┄┄ qux\n\
                    ┃       ┖┄┄ quux\n\
                    ┠┄┄ corge\n\
                    ┖┄┄ grault\n";
    assert_eq!(got, expected);
    Ok(())
}

#[test]
fn unicode_custom4() -> Result<(), Error> {
    let got = {
        let mut printer = TreePrinter::new(".\n".to_owned(), TreeConfig::new());

        let foo_uniconf = UnicodeEdgeConfigBuilder::with_ambiwidth(unicode::AmbiWidth::Single)
            .build()
            .expect("Should never fail: Valid styles combination");
        printer.open_node(ItemStyle::non_last(EdgeConfig::Unicode(foo_uniconf)), "foo")?;
        printer.close_node()?; // foo
        let bar_uniconf = UnicodeEdgeConfigBuilder::with_ambiwidth(unicode::AmbiWidth::Single)
            .vertical_forward(unicode::EdgeStyle::Solid(unicode::EdgeWidth::Bold))
            .horizontal(unicode::EdgeStyle::Solid(unicode::EdgeWidth::Bold))
            .build()
            .expect("Should never fail: Valid styles combination");
        printer.open_node(
            ItemStyle::non_last(EdgeConfig::Unicode(bar_uniconf)),
            "bar\nbar2",
        )?;
        printer.close_node()?; // bar
        let baz_uniconf = UnicodeEdgeConfigBuilder::with_ambiwidth(unicode::AmbiWidth::Single)
            .vertical_backward(unicode::EdgeStyle::Solid(unicode::EdgeWidth::Bold))
            .horizontal(unicode::EdgeStyle::Solid(unicode::EdgeWidth::Bold))
            .build()
            .expect("Should never fail: Valid styles combination");
        printer.open_node(ItemStyle::non_last(EdgeConfig::Unicode(baz_uniconf)), "baz")?;
        let qux_uniconf = UnicodeEdgeConfigBuilder::with_ambiwidth(unicode::AmbiWidth::Single)
            .vertical(unicode::EdgeStyle::Solid(unicode::EdgeWidth::Bold))
            .build()
            .expect("Should never fail: Valid styles combination");
        printer.open_node(ItemStyle::non_last(EdgeConfig::Unicode(qux_uniconf)), "qux")?;
        let quux_uniconf = UnicodeEdgeConfigBuilder::with_ambiwidth(unicode::AmbiWidth::Single)
            .horizontal(unicode::EdgeStyle::Dashed(
                unicode::EdgeWidth::Narrow,
                unicode::DashLevel::Triple,
            ))
            .build()
            .expect("Should never fail: Valid styles combination");
        printer.open_node(ItemStyle::last(EdgeConfig::Unicode(quux_uniconf)), "quux")?;
        printer.close_node()?; // quux
        printer.close_node()?; // qux
        let corge_uniconf =
            UnicodeEdgeConfigBuilder::with_ambiwidth(unicode::AmbiWidth::Single)
                .vertical(unicode::EdgeStyle::Solid(unicode::EdgeWidth::Bold))
                .horizontal(unicode::EdgeStyle::Dashed(
                    unicode::EdgeWidth::Bold,
                    unicode::DashLevel::Double,
                ))
                .build()
                .expect("Should never fail: Valid styles combination");
        printer.open_node(ItemStyle::last(EdgeConfig::Unicode(corge_uniconf)), "corge")?;
        printer.close_node()?; // corge
        printer.close_node()?; // baz
        let grault_uniconf =
            UnicodeEdgeConfigBuilder::with_ambiwidth(unicode::AmbiWidth::Single)
                .corner(unicode::CornerStyle::Round)
                .build()
                .expect("Should never fail: Valid styles combination");
        printer.open_node(
            ItemStyle::last(EdgeConfig::Unicode(grault_uniconf)),
            "grault",
        )?;
        printer.close_node()?; // grault

        printer.finalize()?
    };

    let expected = ".\n\
                    ├── foo\n\
                    ┢━━ bar\n\
                    ┃   bar2\n\
                    ┡━━ baz\n\
                    │   ┠── qux\n\
                    │   ┃   └┄┄ quux\n\
                    │   ┗╍╍ corge\n\
                    ╰── grault\n";
    assert_eq!(got, expected);
    Ok(())
}
