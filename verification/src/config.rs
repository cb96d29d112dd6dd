//! Config types.

use vstd::prelude::*;

use crate::config::unicode::UnicodeEdgeConfig;
use crate::item_writer::{ItemWriter, ItemWriterOptions, ItemWriterState};
use crate::sink::Sink;

pub mod unicode;

verus! {

/// Part of a prefix.
#[derive(Debug, Clone, Copy, PartialEq, Eq, Structural)]
pub enum PrefixPart {
    /// Non-whitespace part of a prefix.
    Prefix,
    /// Padding, whitespace-only suffix part of a prefix.
    Padding,
}

/// `n` spaces.
pub open spec fn spaces(n: nat) -> Seq<char> {
    Seq::new(n, |i: int| ' ')
}

/// The characters that an edge is drawn with, and whether they take two columns each.
pub struct Glyphs {
    /// Stands before the first line of an item that has a later sibling.
    pub branch: char,
    /// Stands before the first line of an item that is the last child.
    pub corner: char,
    /// Follows the branch or the corner, up to the item's text.
    pub horizontal: char,
    /// Stands before the later lines of an item that has a later sibling.
    pub vertical: char,
    /// Whether the glyphs are shown two columns wide, as in East Asian environments.
    pub wide: bool,
}

impl Glyphs {
    /// The glyph that starts the first line of an item.
    pub open spec fn junction(self, last_child: bool) -> char {
        if last_child {
            self.corner
        } else {
            self.branch
        }
    }

    /// What is drawn as the given fragment before a line of an item.
    ///
    /// The first line starts with the junction and the horizontal line, twice where glyphs are
    /// narrow and once where they are wide, and one space follows. A later line starts with the
    /// vertical line and three spaces where the item has a later sibling. Under a last child
    /// there is no line to draw: spaces fill the full width, which is four columns with narrow
    /// glyphs and five with wide ones.
    pub open spec fn text(self, last_child: bool, first_line: bool, fragment: PrefixPart) -> Seq<
        char,
    > {
        match fragment {
            PrefixPart::Prefix => if first_line {
                if self.wide {
                    seq![self.junction(last_child), self.horizontal]
                } else {
                    seq![self.junction(last_child), self.horizontal, self.horizontal]
                }
            } else if last_child {
                Seq::empty()
            } else {
                seq![self.vertical]
            },
            PrefixPart::Padding => if first_line {
                spaces(1)
            } else if last_child {
                if self.wide {
                    spaces(5)
                } else {
                    spaces(4)
                }
            } else {
                spaces(3)
            },
        }
    }

    /// Whether no glyph is a space or a line feed.
    pub open spec fn visible(self) -> bool {
        &&& self.branch != ' ' && self.branch != '\n'
        &&& self.corner != ' ' && self.corner != '\n'
        &&& self.horizontal != ' ' && self.horizontal != '\n'
        &&& self.vertical != ' ' && self.vertical != '\n'
    }

    /// The columns of the character at `i`, none where `text` has no such character.
    pub open spec fn width_at(self, text: Seq<char>, i: int) -> nat {
        if 0 <= i < text.len() {
            if text[i] != ' ' && self.wide {
                2
            } else {
                1
            }
        } else {
            0
        }
    }

    /// The number of columns that `text` takes on a terminal that shows the glyphs one column
    /// wide, or two where `wide` is set, and a space one column wide.
    pub open spec fn columns(self, text: Seq<char>) -> nat
        decreases text.len(),
    {
        if text.len() == 0 {
            0
        } else {
            let first: nat = if text[0] != ' ' && self.wide {
                2
            } else {
                1
            };
            first + self.columns(text.drop_first())
        }
    }
}

/// Edge config.
#[derive(Debug, Clone, Copy)]
#[non_exhaustive]
pub enum EdgeConfig {
    /// Standard ASCII tree.
    ///
    /// The same style as `tree` command with `LANG=C` for UNIX.
    ///
    /// ```text
    /// .
    /// |-- foo
    /// |   |-- bar
    /// |   |   `-- baz
    /// |   |
    /// |   |       baz2
    /// |   `-- qux
    /// |       `-- quux
    /// |-- corge
    /// `-- grault
    /// ```
    Ascii,
    /// Unicode assuming ruled line characters are single width (half width).
    ///
    /// The same style as `tree` command with `LANG=(lang).utf8` for UNIX.
    ///
    /// This won't be shown correctly in CJK fonts, because they usually have double-width glyphs
    /// for ruled lines.
    /// Consider using `UnicodeDoubleWidth` for East Asian environment.
    ///
    /// ```text
    /// .
    /// ├── foo
    /// │   ├── bar
    /// │   │   └── baz
    /// │   │
    /// │   │       baz2
    /// │   └── qux
    /// │       └── quux
    /// ├── corge
    /// └── grault
    /// ```
    UnicodeSingleWidth,
    /// Unicode assuming ruled line characters are double width (full width).
    ///
    /// This would be useful for **East Asian** environment.
    ///
    /// This won't be shown correctly in non-east-asian fonts, because they usually have
    /// single-width glyphs for ruled lines.
    ///
    /// ```text
    /// .
    /// ├─ foo
    /// │   ├─ bar
    /// │   │   └─ baz
    /// │   │
    /// │   │        baz2
    /// │   └─ qux
    /// │        └─ quux
    /// ├─ corge
    /// └─ grault
    /// ```
    ///
    /// Note that the single indent depth has the width of 5 spaces, not 4 spaces.
    UnicodeDoubleWidth,
    /// Unicode ruled lines in a custom style.
    Unicode(UnicodeEdgeConfig),
}

impl EdgeConfig {
    /// The glyphs that the edge is drawn with.
    pub open spec fn glyphs(self) -> Glyphs {
        match self {
            EdgeConfig::Ascii => Glyphs {
                branch: '|',
                corner: '`',
                horizontal: '-',
                vertical: '|',
                wide: false,
            },
            EdgeConfig::UnicodeSingleWidth => Glyphs {
                branch: '\u{251c}',
                corner: '\u{2514}',
                horizontal: '\u{2500}',
                vertical: '\u{2502}',
                wide: false,
            },
            EdgeConfig::UnicodeDoubleWidth => Glyphs {
                branch: '\u{251c}',
                corner: '\u{2514}',
                horizontal: '\u{2500}',
                vertical: '\u{2502}',
                wide: true,
            },
            EdgeConfig::Unicode(config) => config.glyphs(),
        }
    }

    /// What is drawn as the given fragment before a line of an item.
    pub open spec fn edge_text(self, last_child: bool, first_line: bool, fragment: PrefixPart) -> Seq<
        char,
    > {
        self.glyphs().text(last_child, first_line, fragment)
    }

    /// Whether the config is one that the library hands out: a custom config holds
    /// box-drawing glyphs.
    pub open spec fn wf(self) -> bool {
        match self {
            EdgeConfig::Unicode(config) => config.wf(),
            _ => true,
        }
    }

    /// Writes the prefix or padding with the given config.
    pub fn write_edge<W: Sink>(
        &self,
        writer: &mut W,
        last_child: bool,
        first_line: bool,
        fragment: PrefixPart,
    ) -> (r: Result<(), core::fmt::Error>)
        ensures
            r is Ok ==> (*final(writer)).text() == (*old(writer)).text() + self.edge_text(
                last_child,
                first_line,
                fragment,
            ),
            W::infallible() ==> r is Ok,
    {
        proof {
            reveal_strlit("");
            reveal_strlit(" ");
            reveal_strlit("   ");
            reveal_strlit("    ");
            reveal_strlit("     ");
            assert(""@ == Seq::<char>::empty());
            assert(" "@ == spaces(1));
            assert("   "@ == spaces(3));
            assert("    "@ == spaces(4));
            assert("     "@ == spaces(5));
        }
        match self {
            EdgeConfig::Ascii => {
                proof {
                    reveal_strlit("`--");
                    reveal_strlit("|--");
                    reveal_strlit("|");
                    assert("`--"@ == seq!['`', '-', '-']);
                    assert("|--"@ == seq!['|', '-', '-']);
                    assert("|"@ == seq!['|']);
                }
                match (first_line, last_child, fragment) {
                    (true, true, PrefixPart::Prefix) => writer.write_str("`--"),
                    (true, false, PrefixPart::Prefix) => writer.write_str("|--"),
                    (true, _, PrefixPart::Padding) => writer.write_str(" "),
                    (false, true, PrefixPart::Prefix) => writer.write_str(""),
                    (false, true, PrefixPart::Padding) => writer.write_str("    "),
                    (false, false, PrefixPart::Prefix) => writer.write_str("|"),
                    (false, false, PrefixPart::Padding) => writer.write_str("   "),
                }
            },
            EdgeConfig::UnicodeSingleWidth => {
                proof {
                    reveal_strlit("\u{2514}\u{2500}\u{2500}");
                    reveal_strlit("\u{251C}\u{2500}\u{2500}");
                    reveal_strlit("\u{2502}");
                    assert("\u{2514}\u{2500}\u{2500}"@ == seq!['\u{2514}', '\u{2500}', '\u{2500}']);
                    assert("\u{251C}\u{2500}\u{2500}"@ == seq!['\u{251c}', '\u{2500}', '\u{2500}']);
                    assert("\u{2502}"@ == seq!['\u{2502}']);
                }
                match (first_line, last_child, fragment) {
                    (true, true, PrefixPart::Prefix) => writer.write_str(
                        "\u{2514}\u{2500}\u{2500}",
                    ),
                    (true, false, PrefixPart::Prefix) => writer.write_str(
                        "\u{251C}\u{2500}\u{2500}",
                    ),
                    (true, _, PrefixPart::Padding) => writer.write_str(" "),
                    (false, true, PrefixPart::Prefix) => writer.write_str(""),
                    (false, true, PrefixPart::Padding) => writer.write_str("    "),
                    (false, false, PrefixPart::Prefix) => writer.write_str("\u{2502}"),
                    (false, false, PrefixPart::Padding) => writer.write_str("   "),
                }
            },
            EdgeConfig::UnicodeDoubleWidth => {
                proof {
                    reveal_strlit("\u{2514}\u{2500}");
                    reveal_strlit("\u{251C}\u{2500}");
                    reveal_strlit("\u{2502}");
                    assert("\u{2514}\u{2500}"@ == seq!['\u{2514}', '\u{2500}']);
                    assert("\u{251C}\u{2500}"@ == seq!['\u{251c}', '\u{2500}']);
                    assert("\u{2502}"@ == seq!['\u{2502}']);
                }
                match (first_line, last_child, fragment) {
                    (true, true, PrefixPart::Prefix) => writer.write_str("\u{2514}\u{2500}"),
                    (true, false, PrefixPart::Prefix) => writer.write_str("\u{251C}\u{2500}"),
                    (true, _, PrefixPart::Padding) => writer.write_str(" "),
                    (false, true, PrefixPart::Prefix) => writer.write_str(""),
                    (false, true, PrefixPart::Padding) => writer.write_str("     "),
                    (false, false, PrefixPart::Prefix) => writer.write_str("\u{2502}"),
                    (false, false, PrefixPart::Padding) => writer.write_str("   "),
                }
            },
            EdgeConfig::Unicode(config) => config.write_edge(
                writer,
                last_child,
                first_line,
                fragment,
            ),
        }
    }

    /// Returns whether the prefix and padding consist of whitespaces.
    ///
    /// When both of prefix and padding are empty, this should return `true` (i.e. an empty string
    /// should be considered as "whitespaces").
    pub fn is_prefix_whitespace(&self, last_child: bool, first_line: bool) -> (r: bool)
        ensures
            r == (last_child && !first_line),
    {
        match self {
            EdgeConfig::Ascii | EdgeConfig::UnicodeSingleWidth | EdgeConfig::UnicodeDoubleWidth => {
                last_child && !first_line
            },
            EdgeConfig::Unicode(config) => config.is_prefix_whitespace(last_child, first_line),
        }
    }
}

/// Whether `text` holds spaces only; the empty text does.
pub open spec fn only_spaces(text: Seq<char>) -> bool {
    forall|i: int| 0 <= i < text.len() ==> text[i] == ' '
}

/// What an edge draws is a function of the style and the position alone: the same fragment
/// of the same edge, written to any two sinks, appends the same characters to both.
pub proof fn lemma_edge_text_repeatable(
    edge: EdgeConfig,
    last_child: bool,
    first_line: bool,
    fragment: PrefixPart,
    before1: Seq<char>,
    after1: Seq<char>,
    before2: Seq<char>,
    after2: Seq<char>,
)
    requires
        after1 == before1 + edge.edge_text(last_child, first_line, fragment),
        after2 == before2 + edge.edge_text(last_child, first_line, fragment),
    ensures
        after1.skip(before1.len() as int) == after2.skip(before2.len() as int),
        after1.skip(before1.len() as int) == edge.edge_text(last_child, first_line, fragment),
{
    let text = edge.edge_text(last_child, first_line, fragment);
    assert((before1 + text).skip(before1.len() as int) == text);
    assert((before2 + text).skip(before2.len() as int) == text);
}

/// The glyphs of a well-formed edge are visible: none is a space or a line feed.
pub proof fn lemma_glyphs_visible(edge: EdgeConfig)
    requires
        edge.wf(),
    ensures
        edge.glyphs().visible(),
{
    match edge {
        EdgeConfig::Unicode(config) => {
            config.lemma_wf_glyphs();
        },
        _ => {},
    }
}

/// `is_prefix_whitespace` says what it is named for: the prefix and the padding of a
/// well-formed edge hold spaces only exactly on the later lines of a last child, where the
/// prefix is empty.
pub proof fn lemma_blank_edge(edge: EdgeConfig, last_child: bool, first_line: bool)
    requires
        edge.wf(),
    ensures
        (last_child && !first_line) <==> only_spaces(
            edge.edge_text(last_child, first_line, PrefixPart::Prefix) + edge.edge_text(
                last_child,
                first_line,
                PrefixPart::Padding,
            ),
        ),
        (last_child && !first_line) <==> edge.edge_text(
            last_child,
            first_line,
            PrefixPart::Prefix,
        ).len() == 0,
        only_spaces(edge.edge_text(last_child, first_line, PrefixPart::Padding)),
{
    lemma_glyphs_visible(edge);
    let prefix = edge.edge_text(last_child, first_line, PrefixPart::Prefix);
    let padding = edge.edge_text(last_child, first_line, PrefixPart::Padding);
    if !(last_child && !first_line) {
        assert(prefix.len() > 0);
        assert((prefix + padding)[0] == prefix[0]);
        assert(prefix[0] != ' ');
    } else {
        assert(prefix + padding == padding);
    }
}

/// What an edge draws holds no line feed.
pub proof fn lemma_edge_text_one_line(
    edge: EdgeConfig,
    last_child: bool,
    first_line: bool,
    fragment: PrefixPart,
)
    requires
        edge.wf(),
    ensures
        forall|i: int|
            0 <= i < edge.edge_text(last_child, first_line, fragment).len() ==> edge.edge_text(
                last_child,
                first_line,
                fragment,
            )[i] != '\n',
{
    lemma_glyphs_visible(edge);
}

/// Every line of an item is indented by the same number of columns: the prefix and the padding
/// of an edge take four columns together where the glyphs are narrow, and five where they are
/// wide.
pub proof fn lemma_edge_columns(edge: EdgeConfig, last_child: bool, first_line: bool)
    requires
        edge.wf(),
    ensures
        edge.glyphs().columns(
            edge.edge_text(last_child, first_line, PrefixPart::Prefix) + edge.edge_text(
                last_child,
                first_line,
                PrefixPart::Padding,
            ),
        ) == if edge.glyphs().wide {
            5nat
        } else {
            4nat
        },
{
    lemma_glyphs_visible(edge);
    let g = edge.glyphs();
    let text = edge.edge_text(last_child, first_line, PrefixPart::Prefix) + edge.edge_text(
        last_child,
        first_line,
        PrefixPart::Padding,
    );
    reveal_with_fuel(Glyphs::columns, 6);
    if first_line {
        if g.wide {
            assert(text == seq![g.junction(last_child), g.horizontal, ' ']);
        } else {
            assert(text == seq![g.junction(last_child), g.horizontal, g.horizontal, ' ']);
        }
    } else if last_child {
        if g.wide {
            assert(text == seq![' ', ' ', ' ', ' ', ' ']);
        } else {
            assert(text == seq![' ', ' ', ' ', ' ']);
        }
    } else {
        assert(text == seq![g.vertical, ' ', ' ', ' ']);
    }
    lemma_columns_unfold(g, text);
}

/// The columns of a text of at most five characters, one by one.
proof fn lemma_columns_unfold(g: Glyphs, text: Seq<char>)
    requires
        text.len() <= 5,
    ensures
        g.columns(text) == g.width_at(text, 0) + g.width_at(text, 1) + g.width_at(text, 2)
            + g.width_at(text, 3) + g.width_at(text, 4),
{
    reveal_with_fuel(Glyphs::columns, 6);
    let t1 = text.drop_first();
    let t2 = t1.drop_first();
    let t3 = t2.drop_first();
    let t4 = t3.drop_first();
    if text.len() > 1 {
        assert(t1[0] == text[1]);
    }
    if text.len() > 2 {
        assert(t2[0] == text[2]);
    }
    if text.len() > 3 {
        assert(t3[0] == text[3]);
    }
    if text.len() > 4 {
        assert(t4[0] == text[4]);
    }
}

impl Default for EdgeConfig {
    fn default() -> (r: Self)
        ensures
            r is Ascii,
    {
        EdgeConfig::Ascii
    }
}

/// Item style.
#[derive(Debug, Clone, Copy)]
pub struct ItemStyle {
    /// Whether the item is the last child.
    pub is_last_child: bool,
    /// Edge config.
    pub edge: EdgeConfig,
}

impl ItemStyle {
    /// Creates a new `ItemStyle`.
    ///
    /// Prefer `last()` and `non_last()` when `is_last_child` argument is constant.
    pub fn new(is_last_child: bool, edge: EdgeConfig) -> (r: Self)
        ensures
            r == (ItemStyle { is_last_child, edge }),
    {
        Self { is_last_child, edge }
    }

    /// Creates a new `ItemStyle` for the last child.
    ///
    /// This is same as `ItemStyle::new(true, edge)`.
    pub fn last(edge: EdgeConfig) -> (r: Self)
        ensures
            r == (ItemStyle { is_last_child: true, edge }),
    {
        Self::new(true, edge)
    }

    /// Creates a new `ItemStyle` for a non-last child.
    ///
    /// This is same as `ItemStyle::new(false, edge)`.
    pub fn non_last(edge: EdgeConfig) -> (r: Self)
        ensures
            r == (ItemStyle { is_last_child: false, edge }),
    {
        Self::new(false, edge)
    }

    /// Returns whether the item is the last child.
    pub fn is_last_child(&self) -> (r: bool)
        ensures
            r == self.is_last_child,
    {
        self.is_last_child
    }

    /// Returns the edge config.
    pub fn edge(&self) -> (r: &EdgeConfig)
        ensures
            *r == self.edge,
    {
        &self.edge
    }
}

/// `TreeConfig` builder.
#[derive(Debug, Clone, Copy)]
pub struct TreeConfigBuilder {
    /// Current config.
    pub config: TreeConfig,
}

impl Default for TreeConfigBuilder {
    fn default() -> (r: Self)
        ensures
            r.config == TreeConfig::initial(),
    {
        Self { config: TreeConfig::default() }
    }
}

impl TreeConfigBuilder {
    /// Creates a new `TreeConfig`.
    pub fn new() -> (r: Self)
        ensures
            r.config == TreeConfig::initial(),
    {
        Self::default()
    }

    /// Let the writer emit trailing whitespace if the line has no content.
    ///
    /// The value is `false` by default. With it set, the empty line between `foo` and `bar` in
    /// the text `"foo\n\nbar"` of a last child is written as four spaces.
    pub fn emit_trailing_whitespace(&mut self, v: bool) -> (r: &mut Self)
        ensures
            r.config == (TreeConfig { emit_trailing_whitespace: v, ..old(self).config }),
            *final(self) == *final(r),
    {
        self.config.emit_trailing_whitespace = v;
        self
    }

    /// Let the writer emit trailing newline automatically at the end of the tree.
    ///
    /// The value is `true` by default: the tree printer puts a newline at the end of a node
    /// unless there is one already. With the flag unset it writes none of its own.
    pub fn emit_trailing_newline(&mut self, v: bool) -> (r: &mut Self)
        ensures
            r.config == (TreeConfig { emit_trailing_newline: v, ..old(self).config }),
            *final(self) == *final(r),
    {
        self.config.emit_trailing_newline = v;
        self
    }

    /// Builds a `TreeConfig`.
    pub fn build(self) -> (r: TreeConfig)
        ensures
            r == self.config,
    {
        self.config
    }
}

/// Options common for a tree.
#[derive(Debug, Clone, Copy)]
pub struct TreeConfig {
    /// Whether to emit trailing whitespace.
    ///
    /// Default is `false`.
    pub emit_trailing_whitespace: bool,
    /// Whether to emit a newline automatically at the tail of the tree.
    ///
    /// Default is `true`.
    pub emit_trailing_newline: bool,
}

impl Default for TreeConfig {
    fn default() -> (r: Self)
        ensures
            r == TreeConfig::initial(),
    {
        Self { emit_trailing_whitespace: false, emit_trailing_newline: true }
    }
}

impl TreeConfig {
    /// The default options: no trailing whitespace, and a newline at the end of each node.
    pub open spec fn initial() -> Self {
        TreeConfig { emit_trailing_whitespace: false, emit_trailing_newline: true }
    }

    /// Creates a new default `TreeConfig`.
    pub fn new() -> (r: Self)
        ensures
            r == TreeConfig::initial(),
    {
        Self::default()
    }

    /// Returns whether the writer should emit trailing whitespace if the line has no content.
    pub fn emit_trailing_whitespace(self) -> (r: bool)
        ensures
            r == self.emit_trailing_whitespace,
    {
        self.emit_trailing_whitespace
    }

    /// Returns whether the writer should emit trailing newline at the tail of the tree.
    pub fn emit_trailing_newline(self) -> (r: bool)
        ensures
            r == self.emit_trailing_newline,
    {
        self.emit_trailing_newline
    }

    /// Creates a new `ItemWriter`.
    pub fn writer<'a, W: Sink>(self, writer: &'a mut W, states: &'a mut [ItemWriterState]) -> (r:
        ItemWriter<'a, W>)
        ensures
            r.opts.emit_trailing_whitespace == self.emit_trailing_whitespace,
            *r.writer == *old(writer),
            *final(writer) == *final(r.writer),
            r.states@ == old(states)@,
            final(states)@ == final(r.states)@,
    {
        ItemWriter::with_options(
            writer,
            states,
            ItemWriterOptions { emit_trailing_whitespace: self.emit_trailing_whitespace },
        )
    }
}

} // verus!
