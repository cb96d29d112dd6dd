use plaintextree::config::unicode::{
    any_first_succeeding, last_first_first, preceding_first_first, preceding_succeeding_first,
    AmbiWidth, CornerStyle, DashLevel, EdgeStyle, EdgeStyleWithoutDashed, EdgeWidth,
    UnicodeEdgeConfigBuilder,
};
use plaintextree::config::PrefixPart;
use plaintextree::EdgeConfig;

/// All edge styles.
fn styles() -> Vec<EdgeStyle> {
    let mut out = Vec::new();
    for width in [EdgeWidth::Narrow, EdgeWidth::Bold] {
        out.push(EdgeStyle::Solid(width));
        for level in [DashLevel::Double, DashLevel::Triple, DashLevel::Quadruple] {
            out.push(EdgeStyle::Dashed(width, level));
        }
    }
    out.push(EdgeStyle::Double);
    out
}

/// What the edge draws as the given fragment.
fn edge_text(edge: &EdgeConfig, last_child: bool, first_line: bool, part: PrefixPart) -> String {
    let mut out = String::new();
    edge.write_edge(&mut out, last_child, first_line, part)
        .expect("a string takes every write");
    out
}

#[test]
fn dashed_collapses_to_solid_of_its_width() {
    assert_eq!(
        EdgeStyle::Dashed(EdgeWidth::Bold, DashLevel::Triple).dashed_to_solid(),
        EdgeStyleWithoutDashed::Solid(EdgeWidth::Bold)
    );
    assert_eq!(
        EdgeStyle::Solid(EdgeWidth::Narrow).dashed_to_solid(),
        EdgeStyleWithoutDashed::Solid(EdgeWidth::Narrow)
    );
    assert_eq!(
        EdgeStyle::Double.dashed_to_solid(),
        EdgeStyleWithoutDashed::Double
    );
    assert_eq!(
        EdgeStyleWithoutDashed::from(EdgeStyle::Dashed(EdgeWidth::Narrow, DashLevel::Double)),
        EdgeStyleWithoutDashed::Solid(EdgeWidth::Narrow)
    );
}

#[test]
fn defaults_are_narrow_solid_angle() {
    assert_eq!(EdgeWidth::default(), EdgeWidth::Narrow);
    assert_eq!(EdgeStyle::default(), EdgeStyle::Solid(EdgeWidth::Narrow));
    assert_eq!(CornerStyle::default(), CornerStyle::Angle);
    assert!(matches!(EdgeConfig::default(), EdgeConfig::Ascii));
}

#[test]
fn build_succeeds_for_all_solid_narrow() {
    for ambiwidth in [AmbiWidth::Single, AmbiWidth::Double] {
        assert!(UnicodeEdgeConfigBuilder::with_ambiwidth(ambiwidth)
            .vertical(EdgeStyle::Solid(EdgeWidth::Narrow))
            .horizontal(EdgeStyle::Solid(EdgeWidth::Narrow))
            .corner(CornerStyle::Angle)
            .build()
            .is_some());
    }
}

#[test]
fn build_fails_for_double_with_bold_dashed() {
    assert!(UnicodeEdgeConfigBuilder::with_ambiwidth(AmbiWidth::Single)
        .vertical(EdgeStyle::Double)
        .horizontal(EdgeStyle::Dashed(EdgeWidth::Bold, DashLevel::Triple))
        .build()
        .is_none());
    assert!(UnicodeEdgeConfigBuilder::with_ambiwidth(AmbiWidth::Single)
        .vertical(EdgeStyle::Dashed(EdgeWidth::Bold, DashLevel::Double))
        .horizontal(EdgeStyle::Double)
        .build()
        .is_none());
}

#[test]
fn build_fails_for_mixed_vertical_double() {
    assert!(UnicodeEdgeConfigBuilder::with_ambiwidth(AmbiWidth::Single)
        .vertical_backward(EdgeStyle::Double)
        .build()
        .is_none());
    assert!(UnicodeEdgeConfigBuilder::with_ambiwidth(AmbiWidth::Single)
        .vertical_forward(EdgeStyle::Double)
        .build()
        .is_none());
}

#[test]
fn build_fails_for_round_corner_of_other_than_narrow_lines() {
    assert!(UnicodeEdgeConfigBuilder::with_ambiwidth(AmbiWidth::Single)
        .corner(CornerStyle::Round)
        .horizontal(EdgeStyle::Solid(EdgeWidth::Bold))
        .build()
        .is_none());
    assert!(UnicodeEdgeConfigBuilder::with_ambiwidth(AmbiWidth::Single)
        .corner(CornerStyle::Round)
        .horizontal(EdgeStyle::Dashed(EdgeWidth::Narrow, DashLevel::Quadruple))
        .build()
        .is_some());
}

#[test]
fn build_succeeds_exactly_where_junctions_exist() {
    let narrow = EdgeStyleWithoutDashed::Solid(EdgeWidth::Narrow);
    let bold = EdgeStyleWithoutDashed::Solid(EdgeWidth::Bold);
    let double = EdgeStyleWithoutDashed::Double;
    let mut built = 0;
    let mut all = 0;
    for up_style in styles() {
        for down_style in styles() {
            for right_style in styles() {
                for corner in [CornerStyle::Angle, CornerStyle::Round] {
                    let up = up_style.dashed_to_solid();
                    let down = down_style.dashed_to_solid();
                    let right = right_style.dashed_to_solid();
                    let expected = ((up == double) == (down == double))
                        && (!(up == double || right == double)
                            || (up != bold && down != bold && right != bold))
                        && (!(right == double && up != double) || (up == narrow && down == narrow))
                        && (corner != CornerStyle::Round || (up == narrow && right == narrow));
                    let got = UnicodeEdgeConfigBuilder::with_ambiwidth(AmbiWidth::Single)
                        .vertical_backward(up_style)
                        .vertical_forward(down_style)
                        .horizontal(right_style)
                        .corner(corner)
                        .build();
                    assert_eq!(got.is_some(), expected);
                    assert_eq!(
                        got.is_some(),
                        preceding_first_first(up_style, down_style, right_style).is_some()
                            && last_first_first(up_style, right_style, corner).is_some()
                    );
                    all += 1;
                    if got.is_some() {
                        built += 1;
                    }
                }
            }
        }
    }
    assert_eq!(all, 9 * 9 * 9 * 2);
    assert!(0 < built && built < all);
}

#[test]
fn every_glyph_is_a_box_drawing_character() {
    for a in styles() {
        for glyph in [preceding_succeeding_first(a), any_first_succeeding(a)] {
            let c = glyph.expect("every line style has a glyph");
            assert!(('\u{2500}'..='\u{257f}').contains(&c));
        }
        for b in styles() {
            for c in styles() {
                if let Some(glyph) = preceding_first_first(a, b, c) {
                    assert!(('\u{2500}'..='\u{257f}').contains(&glyph));
                }
            }
            for corner in [CornerStyle::Angle, CornerStyle::Round] {
                if let Some(glyph) = last_first_first(a, b, corner) {
                    assert!(('\u{2500}'..='\u{257f}').contains(&glyph));
                }
            }
        }
    }
}

#[test]
fn line_glyphs_by_style() {
    assert_eq!(
        preceding_succeeding_first(EdgeStyle::Solid(EdgeWidth::Narrow)),
        Some('│')
    );
    assert_eq!(
        preceding_succeeding_first(EdgeStyle::Dashed(EdgeWidth::Bold, DashLevel::Quadruple)),
        Some('┋')
    );
    assert_eq!(preceding_succeeding_first(EdgeStyle::Double), Some('║'));
    assert_eq!(
        any_first_succeeding(EdgeStyle::Solid(EdgeWidth::Bold)),
        Some('━')
    );
    assert_eq!(
        any_first_succeeding(EdgeStyle::Dashed(EdgeWidth::Narrow, DashLevel::Double)),
        Some('╌')
    );
    assert_eq!(any_first_succeeding(EdgeStyle::Double), Some('═'));
}

#[test]
fn junction_glyphs_by_style() {
    let narrow = EdgeStyle::Solid(EdgeWidth::Narrow);
    let bold = EdgeStyle::Solid(EdgeWidth::Bold);
    assert_eq!(preceding_first_first(narrow, narrow, narrow), Some('├'));
    assert_eq!(preceding_first_first(narrow, bold, bold), Some('┢'));
    assert_eq!(preceding_first_first(bold, narrow, bold), Some('┡'));
    assert_eq!(
        preceding_first_first(EdgeStyle::Double, EdgeStyle::Double, EdgeStyle::Double),
        Some('╠')
    );
    assert_eq!(preceding_first_first(narrow, narrow, EdgeStyle::Double), Some('╞'));
    assert_eq!(preceding_first_first(bold, bold, EdgeStyle::Double), None);
    assert_eq!(last_first_first(narrow, narrow, CornerStyle::Angle), Some('└'));
    assert_eq!(last_first_first(narrow, narrow, CornerStyle::Round), Some('╰'));
    assert_eq!(last_first_first(bold, bold, CornerStyle::Angle), Some('┗'));
    assert_eq!(last_first_first(bold, bold, CornerStyle::Round), None);
    assert_eq!(
        last_first_first(EdgeStyle::Double, bold, CornerStyle::Angle),
        None
    );
}

#[test]
fn ascii_edge_table() {
    let edge = EdgeConfig::Ascii;
    assert_eq!(edge_text(&edge, true, true, PrefixPart::Prefix), "`--");
    assert_eq!(edge_text(&edge, false, true, PrefixPart::Prefix), "|--");
    assert_eq!(edge_text(&edge, true, true, PrefixPart::Padding), " ");
    assert_eq!(edge_text(&edge, false, true, PrefixPart::Padding), " ");
    assert_eq!(edge_text(&edge, true, false, PrefixPart::Prefix), "");
    assert_eq!(edge_text(&edge, true, false, PrefixPart::Padding), "    ");
    assert_eq!(edge_text(&edge, false, false, PrefixPart::Prefix), "|");
    assert_eq!(edge_text(&edge, false, false, PrefixPart::Padding), "   ");
}

#[test]
fn unicode_single_width_edge_table() {
    let edge = EdgeConfig::UnicodeSingleWidth;
    assert_eq!(edge_text(&edge, true, true, PrefixPart::Prefix), "└──");
    assert_eq!(edge_text(&edge, false, true, PrefixPart::Prefix), "├──");
    assert_eq!(edge_text(&edge, true, true, PrefixPart::Padding), " ");
    assert_eq!(edge_text(&edge, true, false, PrefixPart::Prefix), "");
    assert_eq!(edge_text(&edge, true, false, PrefixPart::Padding), "    ");
    assert_eq!(edge_text(&edge, false, false, PrefixPart::Prefix), "│");
    assert_eq!(edge_text(&edge, false, false, PrefixPart::Padding), "   ");
}

#[test]
fn unicode_double_width_edge_table() {
    let edge = EdgeConfig::UnicodeDoubleWidth;
    assert_eq!(edge_text(&edge, true, true, PrefixPart::Prefix), "└─");
    assert_eq!(edge_text(&edge, false, true, PrefixPart::Prefix), "├─");
    assert_eq!(edge_text(&edge, false, true, PrefixPart::Padding), " ");
    assert_eq!(edge_text(&edge, true, false, PrefixPart::Prefix), "");
    assert_eq!(edge_text(&edge, true, false, PrefixPart::Padding), "     ");
    assert_eq!(edge_text(&edge, false, false, PrefixPart::Prefix), "│");
    assert_eq!(edge_text(&edge, false, false, PrefixPart::Padding), "   ");
}

#[test]
fn ready_made_unicode_styles_are_the_default_custom_ones() {
    for (ambiwidth, ready) in [
        (AmbiWidth::Single, EdgeConfig::UnicodeSingleWidth),
        (AmbiWidth::Double, EdgeConfig::UnicodeDoubleWidth),
    ] {
        let custom = EdgeConfig::Unicode(
            UnicodeEdgeConfigBuilder::with_ambiwidth(ambiwidth)
                .build()
                .expect("the default styles have glyphs"),
        );
        for last_child in [false, true] {
            for first_line in [false, true] {
                for part in [PrefixPart::Prefix, PrefixPart::Padding] {
                    assert_eq!(
                        edge_text(&custom, last_child, first_line, part),
                        edge_text(&ready, last_child, first_line, part)
                    );
                }
            }
        }
    }
}

#[test]
fn custom_edge_writes_its_glyphs() {
    let config = UnicodeEdgeConfigBuilder::with_ambiwidth(AmbiWidth::Single)
        .vertical(EdgeStyle::Solid(EdgeWidth::Bold))
        .horizontal(EdgeStyle::Dashed(EdgeWidth::Bold, DashLevel::Double))
        .build()
        .expect("bold lines meet");
    assert_eq!(config.first_line_first_char(false), '┣');
    assert_eq!(config.first_line_first_char(true), '┗');
    let edge = EdgeConfig::Unicode(config);
    assert_eq!(edge_text(&edge, false, true, PrefixPart::Prefix), "┣╍╍");
    assert_eq!(edge_text(&edge, true, true, PrefixPart::Prefix), "┗╍╍");
    assert_eq!(edge_text(&edge, false, false, PrefixPart::Prefix), "┃");
    assert_eq!(edge_text(&edge, true, false, PrefixPart::Prefix), "");
    let mut out = String::from("x");
    config
        .write_edge(&mut out, true, false, PrefixPart::Padding)
        .expect("a string takes every write");
    assert_eq!(out, "x    ");
}

#[test]
fn edge_text_is_the_same_every_time() {
    let custom = EdgeConfig::Unicode(
        UnicodeEdgeConfigBuilder::with_ambiwidth(AmbiWidth::Double)
            .horizontal(EdgeStyle::Double)
            .build()
            .expect("a double line leaves narrow ones"),
    );
    for edge in [
        EdgeConfig::Ascii,
        EdgeConfig::UnicodeSingleWidth,
        EdgeConfig::UnicodeDoubleWidth,
        custom,
    ] {
        for last_child in [false, true] {
            for first_line in [false, true] {
                for part in [PrefixPart::Prefix, PrefixPart::Padding] {
                    let first = edge_text(&edge, last_child, first_line, part);
                    let mut sink = String::from("already there\n");
                    edge.write_edge(&mut sink, last_child, first_line, part)
                        .expect("a string takes every write");
                    assert_eq!(sink, format!("already there\n{}", first));
                    assert_eq!(edge_text(&edge, last_child, first_line, part), first);
                }
            }
        }
    }
}

#[test]
fn prefix_is_whitespace_exactly_below_a_last_child() {
    let custom = EdgeConfig::Unicode(
        UnicodeEdgeConfigBuilder::with_ambiwidth(AmbiWidth::Single)
            .corner(CornerStyle::Round)
            .build()
            .expect("narrow lines take a round corner"),
    );
    for edge in [
        EdgeConfig::Ascii,
        EdgeConfig::UnicodeSingleWidth,
        EdgeConfig::UnicodeDoubleWidth,
        custom,
    ] {
        for last_child in [false, true] {
            for first_line in [false, true] {
                let all = format!(
                    "{}{}",
                    edge_text(&edge, last_child, first_line, PrefixPart::Prefix),
                    edge_text(&edge, last_child, first_line, PrefixPart::Padding)
                );
                let blank = all.chars().all(|c| c == ' ');
                assert_eq!(edge.is_prefix_whitespace(last_child, first_line), blank);
                assert_eq!(blank, last_child && !first_line);
            }
        }
    }
}

#[test]
fn edges_take_the_same_columns_on_every_line() {
    for (edge, wide) in [
        (EdgeConfig::Ascii, false),
        (EdgeConfig::UnicodeSingleWidth, false),
        (EdgeConfig::UnicodeDoubleWidth, true),
    ] {
        for last_child in [false, true] {
            for first_line in [false, true] {
                let all = format!(
                    "{}{}",
                    edge_text(&edge, last_child, first_line, PrefixPart::Prefix),
                    edge_text(&edge, last_child, first_line, PrefixPart::Padding)
                );
                let columns: usize = all
                    .chars()
                    .map(|c| if c != ' ' && wide { 2 } else { 1 })
                    .sum();
                assert_eq!(columns, if wide { 5 } else { 4 });
            }
        }
    }
}
