//! Unicode ruled lines in custom styles.
//!
//! An edge is drawn with four glyphs, chosen by the styles of the three lines that meet at a
//! node's junction and by the shape of the corner:
//!
//! ```text
//! root
//! ├── foo     `├` is the branch, `─` the horizontal line
//! │   foo2    `│` is the vertical line
//! └── bar     `└` is the corner
//!     bar2
//! ```
//!
//! The box-drawing block of Unicode does not have a glyph for every combination of styles. The
//! tables below give the glyph of each combination that has one, and `build` fails for the
//! others.

use vstd::prelude::*;
use vstd::std_specs::convert::FromSpecImpl;

use crate::config::{spaces, EdgeConfig, Glyphs, PrefixPart};
use crate::sink::Sink;

verus! {

/// Dash level.
#[derive(Debug, Clone, Copy, PartialEq, Eq, Hash, Structural)]
pub enum DashLevel {
    /// Double,
    Double,
    /// Triple.
    Triple,
    /// Quadruple.
    Quadruple,
}

/// Edge width.
#[derive(Debug, Clone, Copy, PartialEq, Eq, Hash, Structural)]
pub enum EdgeWidth {
    /// Narrow.
    Narrow,
    /// Bold.
    Bold,
}

impl Default for EdgeWidth {
    fn default() -> (r: Self)
        ensures
            r == EdgeWidth::Narrow,
    {
        EdgeWidth::Narrow
    }
}

/// Unicode edge style.
#[derive(Debug, Clone, Copy, PartialEq, Eq, Hash, Structural)]
#[non_exhaustive]
pub enum EdgeStyle {
    /// Solid (single line).
    Solid(EdgeWidth),
    /// Dashed line.
    Dashed(EdgeWidth, DashLevel),
    /// Double line.
    Double,
}

impl EdgeStyle {
    /// The style of the junction that a line of this style ends in: a dashed line meets a
    /// junction as a solid line of its width.
    pub open spec fn collapsed(self) -> EdgeStyleWithoutDashed {
        match self {
            EdgeStyle::Solid(width) => EdgeStyleWithoutDashed::Solid(width),
            EdgeStyle::Dashed(width, _) => EdgeStyleWithoutDashed::Solid(width),
            EdgeStyle::Double => EdgeStyleWithoutDashed::Double,
        }
    }

    /// Collapses the `Dashed` variant into `Solid`.
    pub fn dashed_to_solid(self) -> (r: EdgeStyleWithoutDashed)
        ensures
            r == self.collapsed(),
    {
        EdgeStyleWithoutDashed::from(self)
    }
}

impl Default for EdgeStyle {
    fn default() -> (r: Self)
        ensures
            r == EdgeStyle::Solid(EdgeWidth::Narrow),
    {
        EdgeStyle::Solid(EdgeWidth::Narrow)
    }
}

/// Unicode edge style without `Dashed`.
#[derive(Debug, Clone, Copy, PartialEq, Eq, Hash, Structural)]
#[non_exhaustive]
pub enum EdgeStyleWithoutDashed {
    /// Solid (single line).
    Solid(EdgeWidth),
    /// Double line.
    Double,
}

impl From<EdgeStyle> for EdgeStyleWithoutDashed {
    fn from(v: EdgeStyle) -> (r: Self) {
        match v {
            EdgeStyle::Solid(width) => EdgeStyleWithoutDashed::Solid(width),
            EdgeStyle::Dashed(width, _) => EdgeStyleWithoutDashed::Solid(width),
            EdgeStyle::Double => EdgeStyleWithoutDashed::Double,
        }
    }
}

impl FromSpecImpl<EdgeStyle> for EdgeStyleWithoutDashed {
    open spec fn obeys_from_spec() -> bool {
        true
    }

    open spec fn from_spec(v: EdgeStyle) -> Self {
        v.collapsed()
    }
}

/// Unicode corner style.
#[derive(Debug, Clone, Copy, PartialEq, Eq, Hash, Structural)]
pub enum CornerStyle {
    /// Angle.
    Angle,
    /// Round.
    Round,
}

impl Default for CornerStyle {
    fn default() -> (r: Self)
        ensures
            r == CornerStyle::Angle,
    {
        CornerStyle::Angle
    }
}

/// Width of ambiguous width characters.
#[derive(Debug, Clone, Copy, PartialEq, Eq, Hash, Structural)]
pub enum AmbiWidth {
    /// Use single width (half width).
    ///
    /// Usually use this for non-CJK environment.
    Single,
    /// Use double width.
    ///
    /// Usually use this for CJK environment.
    Double,
}

/// Whether `c` lies in the box-drawing block, U+2500 to U+257F.
pub open spec fn is_box_drawing(c: char) -> bool {
    '\u{2500}' <= c <= '\u{257f}'
}

/// The glyph of a branch: the junction of a line that comes from above in the style `up`, goes
/// on below in the style `down`, and sends a line to the right in the style `right`.
pub open spec fn branch_glyph(
    up: EdgeStyleWithoutDashed,
    down: EdgeStyleWithoutDashed,
    right: EdgeStyleWithoutDashed,
) -> Option<char> {
    match (up, down, right) {
        (EdgeStyleWithoutDashed::Solid(u), EdgeStyleWithoutDashed::Solid(d), EdgeStyleWithoutDashed::Solid(r)) => Some(
            match (u, d, r) {
                (EdgeWidth::Narrow, EdgeWidth::Narrow, EdgeWidth::Narrow) => '\u{251c}',
                (EdgeWidth::Narrow, EdgeWidth::Narrow, EdgeWidth::Bold) => '\u{251d}',
                (EdgeWidth::Bold, EdgeWidth::Narrow, EdgeWidth::Narrow) => '\u{251e}',
                (EdgeWidth::Narrow, EdgeWidth::Bold, EdgeWidth::Narrow) => '\u{251f}',
                (EdgeWidth::Bold, EdgeWidth::Bold, EdgeWidth::Narrow) => '\u{2520}',
                (EdgeWidth::Bold, EdgeWidth::Narrow, EdgeWidth::Bold) => '\u{2521}',
                (EdgeWidth::Narrow, EdgeWidth::Bold, EdgeWidth::Bold) => '\u{2522}',
                (EdgeWidth::Bold, EdgeWidth::Bold, EdgeWidth::Bold) => '\u{2523}',
            },
        ),
        (
            EdgeStyleWithoutDashed::Solid(EdgeWidth::Narrow),
            EdgeStyleWithoutDashed::Solid(EdgeWidth::Narrow),
            EdgeStyleWithoutDashed::Double,
        ) => Some('\u{255e}'),
        (
            EdgeStyleWithoutDashed::Double,
            EdgeStyleWithoutDashed::Double,
            EdgeStyleWithoutDashed::Solid(EdgeWidth::Narrow),
        ) => Some('\u{255f}'),
        (
            EdgeStyleWithoutDashed::Double,
            EdgeStyleWithoutDashed::Double,
            EdgeStyleWithoutDashed::Double,
        ) => Some('\u{2560}'),
        _ => None,
    }
}

/// The glyph of a corner: the end of a line that comes from above in the style `up` and turns
/// to the right in the style `right`, in the shape `corner`.
pub open spec fn corner_glyph(
    up: EdgeStyleWithoutDashed,
    right: EdgeStyleWithoutDashed,
    corner: CornerStyle,
) -> Option<char> {
    match corner {
        CornerStyle::Round => if up == EdgeStyleWithoutDashed::Solid(EdgeWidth::Narrow) && right
            == EdgeStyleWithoutDashed::Solid(EdgeWidth::Narrow) {
            Some('\u{2570}')
        } else {
            None
        },
        CornerStyle::Angle => match (up, right) {
            (EdgeStyleWithoutDashed::Solid(u), EdgeStyleWithoutDashed::Solid(r)) => Some(
                match (u, r) {
                    (EdgeWidth::Narrow, EdgeWidth::Narrow) => '\u{2514}',
                    (EdgeWidth::Narrow, EdgeWidth::Bold) => '\u{2515}',
                    (EdgeWidth::Bold, EdgeWidth::Narrow) => '\u{2516}',
                    (EdgeWidth::Bold, EdgeWidth::Bold) => '\u{2517}',
                },
            ),
            (
                EdgeStyleWithoutDashed::Solid(EdgeWidth::Narrow),
                EdgeStyleWithoutDashed::Double,
            ) => Some('\u{2558}'),
            (
                EdgeStyleWithoutDashed::Double,
                EdgeStyleWithoutDashed::Solid(EdgeWidth::Narrow),
            ) => Some('\u{2559}'),
            (EdgeStyleWithoutDashed::Double, EdgeStyleWithoutDashed::Double) => Some('\u{255a}'),
            _ => None,
        },
    }
}

/// The glyph of a vertical line in the given style.
pub open spec fn vertical_glyph(style: EdgeStyle) -> char {
    match style {
        EdgeStyle::Solid(EdgeWidth::Narrow) => '\u{2502}',
        EdgeStyle::Solid(EdgeWidth::Bold) => '\u{2503}',
        EdgeStyle::Dashed(EdgeWidth::Narrow, DashLevel::Double) => '\u{254e}',
        EdgeStyle::Dashed(EdgeWidth::Narrow, DashLevel::Triple) => '\u{2506}',
        EdgeStyle::Dashed(EdgeWidth::Narrow, DashLevel::Quadruple) => '\u{250a}',
        EdgeStyle::Dashed(EdgeWidth::Bold, DashLevel::Double) => '\u{254f}',
        EdgeStyle::Dashed(EdgeWidth::Bold, DashLevel::Triple) => '\u{2507}',
        EdgeStyle::Dashed(EdgeWidth::Bold, DashLevel::Quadruple) => '\u{250b}',
        EdgeStyle::Double => '\u{2551}',
    }
}

/// The glyph of a horizontal line in the given style: in every style the one that precedes the
/// vertical line's glyph in the block.
pub open spec fn horizontal_glyph(style: EdgeStyle) -> char {
    match style {
        EdgeStyle::Solid(EdgeWidth::Narrow) => '\u{2500}',
        EdgeStyle::Solid(EdgeWidth::Bold) => '\u{2501}',
        EdgeStyle::Dashed(EdgeWidth::Narrow, DashLevel::Double) => '\u{254c}',
        EdgeStyle::Dashed(EdgeWidth::Narrow, DashLevel::Triple) => '\u{2504}',
        EdgeStyle::Dashed(EdgeWidth::Narrow, DashLevel::Quadruple) => '\u{2508}',
        EdgeStyle::Dashed(EdgeWidth::Bold, DashLevel::Double) => '\u{254d}',
        EdgeStyle::Dashed(EdgeWidth::Bold, DashLevel::Triple) => '\u{2505}',
        EdgeStyle::Dashed(EdgeWidth::Bold, DashLevel::Quadruple) => '\u{2509}',
        EdgeStyle::Double => '\u{2550}',
    }
}

/// Returns a character for the non-last item, first line, first character.
pub fn preceding_first_first(
    vertical_backward: EdgeStyle,
    vertical_forward: EdgeStyle,
    horizontal: EdgeStyle,
) -> (r: Option<char>)
    ensures
        r == branch_glyph(
            vertical_backward.collapsed(),
            vertical_forward.collapsed(),
            horizontal.collapsed(),
        ),
        r matches Some(c) ==> is_box_drawing(c),
{
    match (
        vertical_backward.dashed_to_solid(),
        vertical_forward.dashed_to_solid(),
        horizontal.dashed_to_solid(),
    ) {
        // ├
        (
            EdgeStyleWithoutDashed::Solid(EdgeWidth::Narrow),
            EdgeStyleWithoutDashed::Solid(EdgeWidth::Narrow),
            EdgeStyleWithoutDashed::Solid(EdgeWidth::Narrow),
        ) => Some('\u{251c}'),
        // ┝
        (
            EdgeStyleWithoutDashed::Solid(EdgeWidth::Narrow),
            EdgeStyleWithoutDashed::Solid(EdgeWidth::Narrow),
            EdgeStyleWithoutDashed::Solid(EdgeWidth::Bold),
        ) => Some('\u{251d}'),
        // ╞
        (
            EdgeStyleWithoutDashed::Solid(EdgeWidth::Narrow),
            EdgeStyleWithoutDashed::Solid(EdgeWidth::Narrow),
            EdgeStyleWithoutDashed::Double,
        ) => Some('\u{255e}'),
        // ┟
        (
            EdgeStyleWithoutDashed::Solid(EdgeWidth::Narrow),
            EdgeStyleWithoutDashed::Solid(EdgeWidth::Bold),
            EdgeStyleWithoutDashed::Solid(EdgeWidth::Narrow),
        ) => Some('\u{251f}'),
        // ┢
        (
            EdgeStyleWithoutDashed::Solid(EdgeWidth::Narrow),
            EdgeStyleWithoutDashed::Solid(EdgeWidth::Bold),
            EdgeStyleWithoutDashed::Solid(EdgeWidth::Bold),
        ) => Some('\u{2522}'),
        // ┞
        (
            EdgeStyleWithoutDashed::Solid(EdgeWidth::Bold),
            EdgeStyleWithoutDashed::Solid(EdgeWidth::Narrow),
            EdgeStyleWithoutDashed::Solid(EdgeWidth::Narrow),
        ) => Some('\u{251e}'),
        // ┡
        (
            EdgeStyleWithoutDashed::Solid(EdgeWidth::Bold),
            EdgeStyleWithoutDashed::Solid(EdgeWidth::Narrow),
            EdgeStyleWithoutDashed::Solid(EdgeWidth::Bold),
        ) => Some('\u{2521}'),
        // ┠
        (
            EdgeStyleWithoutDashed::Solid(EdgeWidth::Bold),
            EdgeStyleWithoutDashed::Solid(EdgeWidth::Bold),
            EdgeStyleWithoutDashed::Solid(EdgeWidth::Narrow),
        ) => Some('\u{2520}'),
        // ┣
        (
            EdgeStyleWithoutDashed::Solid(EdgeWidth::Bold),
            EdgeStyleWithoutDashed::Solid(EdgeWidth::Bold),
            EdgeStyleWithoutDashed::Solid(EdgeWidth::Bold),
        ) => Some('\u{2523}'),
        // ╟
        (
            EdgeStyleWithoutDashed::Double,
            EdgeStyleWithoutDashed::Double,
            EdgeStyleWithoutDashed::Solid(EdgeWidth::Narrow),
        ) => Some('\u{255f}'),
        // ╠
        (
            EdgeStyleWithoutDashed::Double,
            EdgeStyleWithoutDashed::Double,
            EdgeStyleWithoutDashed::Double,
        ) => Some('\u{2560}'),
        // A double line joins only double lines above and below, and a single line
        // only lines of its own kind; a bold line never meets a double one.
        _ => None,
    }
}

/// Returns a character for the last item, first line, first character.
pub fn last_first_first(vertical_backward: EdgeStyle, horizontal: EdgeStyle, corner: CornerStyle) -> (r:
    Option<char>)
    ensures
        r == corner_glyph(vertical_backward.collapsed(), horizontal.collapsed(), corner),
        r matches Some(c) ==> is_box_drawing(c),
{
    match (vertical_backward.dashed_to_solid(), horizontal.dashed_to_solid(), corner) {
        // └
        (
            EdgeStyleWithoutDashed::Solid(EdgeWidth::Narrow),
            EdgeStyleWithoutDashed::Solid(EdgeWidth::Narrow),
            CornerStyle::Angle,
        ) => Some('\u{2514}'),
        // ╰
        (
            EdgeStyleWithoutDashed::Solid(EdgeWidth::Narrow),
            EdgeStyleWithoutDashed::Solid(EdgeWidth::Narrow),
            CornerStyle::Round,
        ) => Some('\u{2570}'),
        // ┕
        (
            EdgeStyleWithoutDashed::Solid(EdgeWidth::Narrow),
            EdgeStyleWithoutDashed::Solid(EdgeWidth::Bold),
            CornerStyle::Angle,
        ) => Some('\u{2515}'),
        // ╘
        (
            EdgeStyleWithoutDashed::Solid(EdgeWidth::Narrow),
            EdgeStyleWithoutDashed::Double,
            CornerStyle::Angle,
        ) => Some('\u{2558}'),
        // ┖
        (
            EdgeStyleWithoutDashed::Solid(EdgeWidth::Bold),
            EdgeStyleWithoutDashed::Solid(EdgeWidth::Narrow),
            CornerStyle::Angle,
        ) => Some('\u{2516}'),
        // ┗
        (
            EdgeStyleWithoutDashed::Solid(EdgeWidth::Bold),
            EdgeStyleWithoutDashed::Solid(EdgeWidth::Bold),
            CornerStyle::Angle,
        ) => Some('\u{2517}'),
        // ╙
        (
            EdgeStyleWithoutDashed::Double,
            EdgeStyleWithoutDashed::Solid(EdgeWidth::Narrow),
            CornerStyle::Angle,
        ) => Some('\u{2559}'),
        // ╚
        (
            EdgeStyleWithoutDashed::Double,
            EdgeStyleWithoutDashed::Double,
            CornerStyle::Angle,
        ) => Some('\u{255a}'),
        // Only the corner of two narrow lines can be round, and a bold line never
        // meets a double one.
        _ => None,
    }
}

/// Returns a character for the non-last item, succeeding line, first character.
pub fn preceding_succeeding_first(vertical_forward: EdgeStyle) -> (r: Option<char>)
    ensures
        r == Some(vertical_glyph(vertical_forward)),
        is_box_drawing(vertical_glyph(vertical_forward)),
{
    match vertical_forward {
        // │
        EdgeStyle::Solid(EdgeWidth::Narrow) => Some('\u{2502}'),
        // ┃
        EdgeStyle::Solid(EdgeWidth::Bold) => Some('\u{2503}'),
        // ╎
        EdgeStyle::Dashed(EdgeWidth::Narrow, DashLevel::Double) => Some('\u{254e}'),
        // ┆
        EdgeStyle::Dashed(EdgeWidth::Narrow, DashLevel::Triple) => Some('\u{2506}'),
        // ┊
        EdgeStyle::Dashed(EdgeWidth::Narrow, DashLevel::Quadruple) => Some('\u{250a}'),
        // ╏
        EdgeStyle::Dashed(EdgeWidth::Bold, DashLevel::Double) => Some('\u{254f}'),
        // ┇
        EdgeStyle::Dashed(EdgeWidth::Bold, DashLevel::Triple) => Some('\u{2507}'),
        // ┋
        EdgeStyle::Dashed(EdgeWidth::Bold, DashLevel::Quadruple) => Some('\u{250b}'),
        // ║
        EdgeStyle::Double => Some('\u{2551}'),
    }
}

/// Returns a character for any item, first line, succeeding character.
pub fn any_first_succeeding(horizontal: EdgeStyle) -> (r: Option<char>)
    ensures
        r == Some(horizontal_glyph(horizontal)),
        is_box_drawing(horizontal_glyph(horizontal)),
{
    match horizontal {
        // ─
        EdgeStyle::Solid(EdgeWidth::Narrow) => Some('\u{2500}'),
        // ━
        EdgeStyle::Solid(EdgeWidth::Bold) => Some('\u{2501}'),
        // ╌
        EdgeStyle::Dashed(EdgeWidth::Narrow, DashLevel::Double) => Some('\u{254c}'),
        // ┄
        EdgeStyle::Dashed(EdgeWidth::Narrow, DashLevel::Triple) => Some('\u{2504}'),
        // ┈
        EdgeStyle::Dashed(EdgeWidth::Narrow, DashLevel::Quadruple) => Some('\u{2508}'),
        // ╍
        EdgeStyle::Dashed(EdgeWidth::Bold, DashLevel::Double) => Some('\u{254d}'),
        // ┅
        EdgeStyle::Dashed(EdgeWidth::Bold, DashLevel::Triple) => Some('\u{2505}'),
        // ┉
        EdgeStyle::Dashed(EdgeWidth::Bold, DashLevel::Quadruple) => Some('\u{2509}'),
        // ═
        EdgeStyle::Double => Some('\u{2550}'),
    }
}

/// Unicode edge style.
#[derive(Debug, Clone, Copy)]
pub struct UnicodeEdgeConfigBuilder {
    /// Width of ambiguous width characters.
    pub ambiwidth: AmbiWidth,
    /// Vertical backward edge style.
    pub vertical_backward: EdgeStyle,
    /// Vertical forward edge style.
    pub vertical_forward: EdgeStyle,
    /// Horizontal edge style.
    pub horizontal: EdgeStyle,
    /// Corner style.
    pub corner: CornerStyle,
}

impl UnicodeEdgeConfigBuilder {
    /// The glyphs of the chosen styles, if the block has a branch and a corner for them.
    pub open spec fn glyphs(&self) -> Option<Glyphs> {
        let branch = branch_glyph(
            self.vertical_backward.collapsed(),
            self.vertical_forward.collapsed(),
            self.horizontal.collapsed(),
        );
        let corner = corner_glyph(
            self.vertical_backward.collapsed(),
            self.horizontal.collapsed(),
            self.corner,
        );
        if branch is Some && corner is Some {
            Some(
                Glyphs {
                    branch: branch->0,
                    corner: corner->0,
                    horizontal: horizontal_glyph(self.horizontal),
                    vertical: vertical_glyph(self.vertical_forward),
                    wide: self.ambiwidth == AmbiWidth::Double,
                },
            )
        } else {
            None
        }
    }

    /// Creates a new Unicode edge config builder.
    pub fn with_ambiwidth(ambiwidth: AmbiWidth) -> (r: Self)
        ensures
            r == (UnicodeEdgeConfigBuilder {
                ambiwidth,
                vertical_backward: EdgeStyle::Solid(EdgeWidth::Narrow),
                vertical_forward: EdgeStyle::Solid(EdgeWidth::Narrow),
                horizontal: EdgeStyle::Solid(EdgeWidth::Narrow),
                corner: CornerStyle::Angle,
            }),
    {
        Self {
            ambiwidth,
            vertical_backward: EdgeStyle::default(),
            vertical_forward: EdgeStyle::default(),
            horizontal: EdgeStyle::default(),
            corner: CornerStyle::default(),
        }
    }

    /// Sets the vertical ruled line style for both backward and forward.
    pub fn vertical(&mut self, style: EdgeStyle) -> (r: &mut Self)
        ensures
            *r == (UnicodeEdgeConfigBuilder {
                vertical_backward: style,
                vertical_forward: style,
                ..*old(self)
            }),
            *final(self) == *final(r),
    {
        self.vertical_backward = style;
        self.vertical_forward = style;
        self
    }

    /// Sets the vertical backward ruled line style.
    pub fn vertical_backward(&mut self, style: EdgeStyle) -> (r: &mut Self)
        ensures
            *r == (UnicodeEdgeConfigBuilder { vertical_backward: style, ..*old(self) }),
            *final(self) == *final(r),
    {
        self.vertical_backward = style;
        self
    }

    /// Sets the vertical forward ruled line style.
    pub fn vertical_forward(&mut self, style: EdgeStyle) -> (r: &mut Self)
        ensures
            *r == (UnicodeEdgeConfigBuilder { vertical_forward: style, ..*old(self) }),
            *final(self) == *final(r),
    {
        self.vertical_forward = style;
        self
    }

    /// Sets the horizontal ruled line style.
    pub fn horizontal(&mut self, style: EdgeStyle) -> (r: &mut Self)
        ensures
            *r == (UnicodeEdgeConfigBuilder { horizontal: style, ..*old(self) }),
            *final(self) == *final(r),
    {
        self.horizontal = style;
        self
    }

    /// Sets the corner line style.
    pub fn corner(&mut self, corner: CornerStyle) -> (r: &mut Self)
        ensures
            *r == (UnicodeEdgeConfigBuilder { corner, ..*old(self) }),
            *final(self) == *final(r),
    {
        self.corner = corner;
        self
    }

    /// Creates a `UnicodeEdgeConfig`.
    ///
    /// Fails when the box-drawing block has no branch or no corner for the chosen styles.
    pub fn build(&self) -> (r: Option<UnicodeEdgeConfig>)
        ensures
            r is Some <==> self.glyphs() is Some,
            r matches Some(c) ==> c.glyphs() == self.glyphs()->0 && c.wf(),
    {
        let preceding_first_first = preceding_first_first(
            self.vertical_backward,
            self.vertical_forward,
            self.horizontal,
        )?;
        let last_first_first = last_first_first(
            self.vertical_backward,
            self.horizontal,
            self.corner,
        )?;
        let preceding_succeeding_first = preceding_succeeding_first(self.vertical_forward)?;
        let any_first_succeeding = any_first_succeeding(self.horizontal)?;

        Some(
            UnicodeEdgeConfig {
                ambiwidth: self.ambiwidth,
                preceding_first_first,
                last_first_first,
                any_first_succeeding,
                preceding_succeeding_first,
            },
        )
    }
}

/// The two ready-made Unicode styles are the custom style of narrow solid lines with an angled
/// corner, for narrow and for wide glyphs.
pub proof fn lemma_ready_made_styles(ambiwidth: AmbiWidth)
    ensures
        (UnicodeEdgeConfigBuilder {
            ambiwidth,
            vertical_backward: EdgeStyle::Solid(EdgeWidth::Narrow),
            vertical_forward: EdgeStyle::Solid(EdgeWidth::Narrow),
            horizontal: EdgeStyle::Solid(EdgeWidth::Narrow),
            corner: CornerStyle::Angle,
        }).glyphs() == Some(
            match ambiwidth {
                AmbiWidth::Single => EdgeConfig::UnicodeSingleWidth.glyphs(),
                AmbiWidth::Double => EdgeConfig::UnicodeDoubleWidth.glyphs(),
            },
        ),
{
}

/// A combination of styles has glyphs exactly when its junctions exist in the box-drawing
/// block: lines of single strokes, narrow or bold, meet in any combination, with a round
/// corner for narrow lines only; a double line meets a narrow line or a double one, never a
/// bold one, and runs through a branch unchanged.
pub proof fn lemma_styles_with_glyphs(builder: UnicodeEdgeConfigBuilder)
    ensures
        builder.glyphs() is Some <==> {
            let up = builder.vertical_backward.collapsed();
            let down = builder.vertical_forward.collapsed();
            let right = builder.horizontal.collapsed();
            let narrow = EdgeStyleWithoutDashed::Solid(EdgeWidth::Narrow);
            let bold = EdgeStyleWithoutDashed::Solid(EdgeWidth::Bold);
            let double = EdgeStyleWithoutDashed::Double;
            &&& (up == double <==> down == double)
            &&& (up == double || right == double) ==> up != bold && down != bold && right != bold
            &&& right == double && up != double ==> up == narrow && down == narrow
            &&& builder.corner == CornerStyle::Round ==> up == narrow && right == narrow
        },
{
}

/// Unicode edge style.
///
/// A value of this type holds glyphs of the box-drawing block only: `build` is the one way to
/// make one.
#[derive(Debug, Clone, Copy)]
pub struct UnicodeEdgeConfig {
    /// Width of ambiguous width characters.
    ambiwidth: AmbiWidth,
    /// Preceding item, first line, first character.
    preceding_first_first: char,
    /// Last item, first line, first character.
    last_first_first: char,
    /// Any item, first line, succeeding character.
    any_first_succeeding: char,
    /// Preceding item, succeeding line, first character.
    preceding_succeeding_first: char,
}

impl UnicodeEdgeConfig {
    /// The glyphs that the edge is drawn with.
    pub closed spec fn glyphs(&self) -> Glyphs {
        Glyphs {
            branch: self.preceding_first_first,
            corner: self.last_first_first,
            horizontal: self.any_first_succeeding,
            vertical: self.preceding_succeeding_first,
            wide: self.ambiwidth == AmbiWidth::Double,
        }
    }

    /// Every glyph is a box-drawing character.
    #[verifier::type_invariant]
    pub closed spec fn wf(&self) -> bool {
        &&& is_box_drawing(self.preceding_first_first)
        &&& is_box_drawing(self.last_first_first)
        &&& is_box_drawing(self.any_first_succeeding)
        &&& is_box_drawing(self.preceding_succeeding_first)
    }

    /// The glyphs of a well-formed config are box-drawing characters.
    pub proof fn lemma_wf_glyphs(&self)
        requires
            self.wf(),
        ensures
            is_box_drawing(self.glyphs().branch),
            is_box_drawing(self.glyphs().corner),
            is_box_drawing(self.glyphs().horizontal),
            is_box_drawing(self.glyphs().vertical),
    {
    }

    /// Returns a character for the first line, first char.
    pub fn first_line_first_char(&self, last_child: bool) -> (r: char)
        ensures
            r == self.glyphs().junction(last_child),
    {
        if last_child {
            self.last_first_first
        } else {
            self.preceding_first_first
        }
    }

    /// Writes the prefix or padding with the given config.
    pub fn write_edge<W: Sink>(
        &self,
        writer: &mut W,
        last_child: bool,
        first_line: bool,
        fragment: PrefixPart,
    ) -> (r: Result<(), core::fmt::Error>)
        ensures
            r is Ok ==> (*final(writer)).text() == (*old(writer)).text() + self.glyphs().text(
                last_child,
                first_line,
                fragment,
            ),
            W::infallible() ==> r is Ok,
    {
        match (first_line, last_child, self.ambiwidth, fragment) {
            (true, _, AmbiWidth::Single, PrefixPart::Prefix) => {
                let ghost before = writer.text();
                writer.write_char(self.first_line_first_char(last_child))?;
                writer.write_char(self.any_first_succeeding)?;
                writer.write_char(self.any_first_succeeding)?;
                assert(writer.text() == before + self.glyphs().text(
                    last_child,
                    first_line,
                    fragment,
                ));
                Ok(())
            },
            (true, _, AmbiWidth::Double, PrefixPart::Prefix) => {
                let ghost before = writer.text();
                writer.write_char(self.first_line_first_char(last_child))?;
                writer.write_char(self.any_first_succeeding)?;
                assert(writer.text() == before + self.glyphs().text(
                    last_child,
                    first_line,
                    fragment,
                ));
                Ok(())
            },
            (true, _, _, PrefixPart::Padding) => {
                proof {
                    reveal_strlit(" ");
                    assert(" "@ == spaces(1));
                }
                writer.write_str(" ")
            },
            (false, true, _, PrefixPart::Prefix) => {
                assert(writer.text() == writer.text() + Seq::<char>::empty());
                Ok(())
            },
            (false, true, AmbiWidth::Single, PrefixPart::Padding) => {
                proof {
                    reveal_strlit("    ");
                    assert("    "@ == spaces(4));
                }
                writer.write_str("    ")
            },
            (false, true, AmbiWidth::Double, PrefixPart::Padding) => {
                proof {
                    reveal_strlit("     ");
                    assert("     "@ == spaces(5));
                }
                writer.write_str("     ")
            },
            (false, false, _, PrefixPart::Prefix) => {
                let ghost before = writer.text();
                writer.write_char(self.preceding_succeeding_first)?;
                assert(writer.text() == before + self.glyphs().text(
                    last_child,
                    first_line,
                    fragment,
                ));
                Ok(())
            },
            (false, false, _, PrefixPart::Padding) => {
                proof {
                    reveal_strlit("   ");
                    assert("   "@ == spaces(3));
                }
                writer.write_str("   ")
            },
        }
    }

    /// Returns whether the prefix and padding consist of whitespaces.
    ///
    /// When both of prefix and padding are empty, this should return `true` (i.e. an empty string
    /// should be considered as "whitespaces").
    pub fn is_prefix_whitespace(&self, last_child: bool, first_line: bool) -> (r: bool)
        ensures
            r == (last_child && !first_line),
    {
        last_child && !first_line
    }
}

} // verus!
