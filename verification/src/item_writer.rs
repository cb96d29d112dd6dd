//! Tree node writer.
//!
//! An item is written below a stack of open nodes, one state per depth. Before each line of the
//! item every depth draws its edge: a prefix (the ruled line) and a padding (the spaces after
//! it). A depth draws each of the two once per line, and its state records how far it has come.
//!
//! A line without content gets no trailing whitespace unless the options ask for it: on such a
//! line the edges are drawn up to the deepest one that shows a ruled line, and that one is drawn
//! without its padding.

use vstd::prelude::*;

use crate::config::{lemma_edge_text_one_line, EdgeConfig, PrefixPart};
use crate::lines::{
    ends_in_one_newline, ends_without_newline, lemma_last_line_empty, lemma_split_lines_fed,
    lemma_split_lines_pieces, lines_of, lines_with_last_line_flag, newline_free, split_lines,
};
use crate::sink::Sink;

verus! {

/// Line prefix emission status.
#[derive(Debug, Clone, Copy, PartialEq, Eq, Structural)]
pub enum LineEdgeStatus {
    /// At the beginning of the current line.
    LineStart,
    /// Emitted the prefix for the current line, but padding is not yet written.
    PrefixEmitted,
    /// Emitted both prefix and padding for the current line.
    PaddingEmitted,
}

/// Item writer state for single nest level.
#[derive(Debug, Clone, Copy)]
pub struct ItemWriterState {
    /// Whether the item is the last child.
    pub is_last_child: bool,
    /// Edge config.
    pub edge: EdgeConfig,
    /// Whether the current line is the first line.
    pub at_first_line: bool,
    /// Edge emission status.
    pub edge_status: LineEdgeStatus,
}

impl ItemWriterState {
    /// The state of an item of which nothing has been written yet.
    pub open spec fn fresh(is_last_child: bool, edge: EdgeConfig) -> Self {
        ItemWriterState {
            is_last_child,
            edge,
            at_first_line: true,
            edge_status: LineEdgeStatus::LineStart,
        }
    }

    /// The prefix of the current line.
    pub open spec fn prefix(self) -> Seq<char> {
        self.edge.edge_text(self.is_last_child, self.at_first_line, PrefixPart::Prefix)
    }

    /// The padding of the current line.
    pub open spec fn padding(self) -> Seq<char> {
        self.edge.edge_text(self.is_last_child, self.at_first_line, PrefixPart::Padding)
    }

    /// Whether the edge shows no ruled line on the current line: it is a last child's edge
    /// below the item's first line.
    pub open spec fn blank(self) -> bool {
        self.is_last_child && !self.at_first_line
    }

    /// What the edge has yet to draw on the current line, with its padding or without.
    pub open spec fn pending(self, padded: bool) -> Seq<char> {
        match self.edge_status {
            LineEdgeStatus::LineStart => if padded {
                self.prefix() + self.padding()
            } else {
                self.prefix()
            },
            LineEdgeStatus::PrefixEmitted => if padded {
                self.padding()
            } else {
                Seq::empty()
            },
            LineEdgeStatus::PaddingEmitted => Seq::empty(),
        }
    }

    /// The state once the edge has drawn what was pending.
    pub open spec fn advanced(self, padded: bool) -> Self {
        ItemWriterState {
            edge_status: if padded || self.edge_status == LineEdgeStatus::PaddingEmitted {
                LineEdgeStatus::PaddingEmitted
            } else {
                LineEdgeStatus::PrefixEmitted
            },
            ..self
        }
    }

    /// The state at the start of the next line.
    pub open spec fn at_next_line(self) -> Self {
        ItemWriterState { at_first_line: false, edge_status: LineEdgeStatus::LineStart, ..self }
    }

    /// Whether `other` is a state of the same item on the same line: only the emission status
    /// may differ.
    pub open spec fn same_line(self, other: Self) -> bool {
        &&& self.is_last_child == other.is_last_child
        &&& self.edge == other.edge
        &&& self.at_first_line == other.at_first_line
    }

    /// Creates a new `ItemWriterState`.
    pub fn new(is_last_child: bool, edge: EdgeConfig) -> (r: Self)
        ensures
            r == Self::fresh(is_last_child, edge),
    {
        Self { is_last_child, edge, at_first_line: true, edge_status: LineEdgeStatus::LineStart }
    }

    /// Returns whether the cursor is at the beginning of the line.
    pub fn is_at_line_head(&self) -> (r: bool)
        ensures
            r == (self.edge_status == LineEdgeStatus::LineStart),
    {
        self.edge_status == LineEdgeStatus::LineStart
    }

    /// Writes a line prefix (and padding if possible) for the current line.
    ///
    /// The prefix is written once per line: the state must be at the start of the line.
    pub fn write_prefix<W: Sink>(&mut self, writer: &mut W, emit_trailing_whitespace: bool) -> (r:
        Result<(), core::fmt::Error>)
        requires
            old(self).edge_status == LineEdgeStatus::LineStart,
        ensures
            final(self).same_line(*old(self)),
            r is Ok ==> *final(self) == old(self).advanced(emit_trailing_whitespace),
            r is Ok ==> (*final(writer)).text() == (*old(writer)).text() + old(self).pending(
                emit_trailing_whitespace,
            ),
            W::infallible() ==> r is Ok,
    {
        self.edge_status = LineEdgeStatus::PrefixEmitted;

        self.edge.write_edge(writer, self.is_last_child, self.at_first_line, PrefixPart::Prefix)?;

        if emit_trailing_whitespace {
            // Padding is always necessary.
            self.write_padding(writer)?;
        }
        Ok(())
    }

    /// Writes a padding after the line prefix.
    ///
    /// The padding is written once per line, after the prefix.
    pub fn write_padding<W: Sink>(&mut self, writer: &mut W) -> (r: Result<(), core::fmt::Error>)
        requires
            old(self).edge_status == LineEdgeStatus::PrefixEmitted,
        ensures
            final(self).same_line(*old(self)),
            r is Ok ==> *final(self) == old(self).advanced(true),
            r is Ok ==> (*final(writer)).text() == (*old(writer)).text() + old(self).pending(true),
            W::infallible() ==> r is Ok,
    {
        self.edge_status = LineEdgeStatus::PaddingEmitted;

        self.edge.write_edge(writer, self.is_last_child, self.at_first_line, PrefixPart::Padding)
    }

    /// Writes what the edge has yet to draw on the current line: the prefix unless it is
    /// written, then the padding unless it is written or left out.
    ///
    /// Where trailing whitespace is emitted, no padding is left out.
    pub fn write_pending<W: Sink>(
        &mut self,
        writer: &mut W,
        emit_trailing_whitespace: bool,
        padded: bool,
    ) -> (r: Result<(), core::fmt::Error>)
        requires
            emit_trailing_whitespace ==> padded,
        ensures
            final(self).same_line(*old(self)),
            r is Ok ==> *final(self) == old(self).advanced(padded),
            r is Ok ==> (*final(writer)).text() == (*old(writer)).text() + old(self).pending(
                padded,
            ),
            W::infallible() ==> r is Ok,
    {
        let ghost before = (*writer).text();
        if self.edge_status == LineEdgeStatus::LineStart {
            self.write_prefix(writer, emit_trailing_whitespace)?;
        }
        if self.edge_status == LineEdgeStatus::PrefixEmitted && padded {
            self.write_padding(writer)?;
        }
        proof {
            let state = *old(self);
            assert(before + state.prefix() + state.padding() == before + (state.prefix()
                + state.padding()));
            assert(before + Seq::<char>::empty() == before);
        }
        Ok(())
    }

    /// Resets the writer status for the next new line.
    pub fn reset_line_state(&mut self)
        ensures
            *final(self) == old(self).at_next_line(),
    {
        self.at_first_line = false;
        self.edge_status = LineEdgeStatus::LineStart;
    }
}

/// The number of depths up to the deepest one whose edge shows a ruled line on the current
/// line, that one included; zero where no edge does.
pub open spec fn visible_depths(states: Seq<ItemWriterState>) -> nat
    decreases states.len(),
{
    if states.len() == 0 {
        0
    } else if !states.last().blank() {
        states.len()
    } else {
        visible_depths(states.drop_last())
    }
}

/// The number of depths that draw their edge before a line: all of them where the last one is
/// padded, else those up to the deepest visible one.
pub open spec fn decorated_depths(states: Seq<ItemWriterState>, pad_last: bool) -> nat {
    if pad_last {
        states.len()
    } else {
        visible_depths(states)
    }
}

/// Whether depth `i` draws its padding before a line: every decorated depth does but the
/// deepest, which does so where `pad_last` is set.
pub open spec fn padded_at(states: Seq<ItemWriterState>, pad_last: bool, i: int) -> bool {
    pad_last || i + 1 < decorated_depths(states, pad_last)
}

/// What depth `i` draws before a line.
pub open spec fn pending_at(states: Seq<ItemWriterState>, pad_last: bool, i: int) -> Seq<char> {
    if 0 <= i < decorated_depths(states, pad_last) {
        states[i].pending(padded_at(states, pad_last, i))
    } else {
        Seq::empty()
    }
}

/// The state of depth `i` once the edges are drawn.
pub open spec fn advanced_at(states: Seq<ItemWriterState>, pad_last: bool, i: int) -> ItemWriterState {
    if 0 <= i < decorated_depths(states, pad_last) {
        states[i].advanced(padded_at(states, pad_last, i))
    } else {
        states[i]
    }
}

/// What the depths below `upto` draw before a line, from the outermost inwards.
pub open spec fn decoration_upto(states: Seq<ItemWriterState>, pad_last: bool, upto: nat) -> Seq<
    char,
>
    decreases upto,
{
    if upto == 0 {
        Seq::empty()
    } else {
        decoration_upto(states, pad_last, (upto - 1) as nat) + pending_at(
            states,
            pad_last,
            upto - 1,
        )
    }
}

/// What is drawn before a line of an item: the pending edges of all depths.
pub open spec fn line_decoration(states: Seq<ItemWriterState>, pad_last: bool) -> Seq<char> {
    decoration_upto(states, pad_last, states.len())
}

/// The states once the edges are drawn.
pub open spec fn after_decoration(states: Seq<ItemWriterState>, pad_last: bool) -> Seq<
    ItemWriterState,
> {
    Seq::new(states.len(), |i: int| advanced_at(states, pad_last, i))
}

/// The states at the start of the next line.
pub open spec fn reset_all(states: Seq<ItemWriterState>) -> Seq<ItemWriterState> {
    Seq::new(states.len(), |i: int| states[i].at_next_line())
}

/// Whether the two stacks hold the same items: at each depth the edge and the place among the
/// siblings agree.
pub open spec fn same_nodes(a: Seq<ItemWriterState>, b: Seq<ItemWriterState>) -> bool {
    &&& a.len() == b.len()
    &&& forall|i: int|
        #![trigger a[i]]
        #![trigger b[i]]
        0 <= i < a.len() ==> a[i].is_last_child == b[i].is_last_child && a[i].edge == b[i].edge
}

/// What is written for the given lines of an item's text, the last of them being the last line
/// of the text.
///
/// Every line is written after the edges of all depths, and a line feed follows it unless it is
/// the last. A last line that is empty is not written at all: it stands for a text that ends in
/// a line feed, and the cursor stays at the head of a line that has no edge drawn yet.
pub open spec fn item_text(states: Seq<ItemWriterState>, trailing_whitespace: bool, lines: Seq<
    Seq<char>,
>) -> Seq<char>
    decreases lines.len(),
{
    if lines.len() == 0 {
        Seq::empty()
    } else if lines.len() == 1 {
        if lines[0].len() == 0 {
            Seq::empty()
        } else {
            line_decoration(states, true) + lines[0]
        }
    } else {
        line_decoration(states, trailing_whitespace || lines[0].len() > 0) + lines[0] + seq!['\n']
            + item_text(reset_all(states), trailing_whitespace, lines.drop_first())
    }
}

/// The states after the given lines of an item's text are written.
pub open spec fn item_states(states: Seq<ItemWriterState>, lines: Seq<Seq<char>>) -> Seq<
    ItemWriterState,
>
    decreases lines.len(),
{
    if lines.len() == 0 {
        states
    } else if lines.len() == 1 {
        if lines[0].len() == 0 {
            states
        } else {
            after_decoration(states, true)
        }
    } else {
        item_states(reset_all(states), lines.drop_first())
    }
}

/// What moves the cursor to the head of a fresh line: nothing where the innermost item is at
/// the head of a line already, else the edges that an empty line is due and a line feed.
pub open spec fn fresh_line_text(states: Seq<ItemWriterState>, trailing_whitespace: bool) -> Seq<
    char,
> {
    if states.len() > 0 && states.last().edge_status != LineEdgeStatus::LineStart {
        line_decoration(states, trailing_whitespace) + seq!['\n']
    } else {
        Seq::empty()
    }
}

/// The states once the cursor is at the head of a fresh line.
pub open spec fn fresh_line_states(states: Seq<ItemWriterState>) -> Seq<ItemWriterState> {
    if states.len() > 0 && states.last().edge_status != LineEdgeStatus::LineStart {
        reset_all(states)
    } else {
        states
    }
}

/// The edges past the decorated depths draw nothing more.
pub proof fn lemma_decoration_stops(states: Seq<ItemWriterState>, pad_last: bool, upto: nat)
    requires
        decorated_depths(states, pad_last) <= upto,
    ensures
        decoration_upto(states, pad_last, upto) == decoration_upto(
            states,
            pad_last,
            decorated_depths(states, pad_last),
        ),
    decreases upto,
{
    if upto > decorated_depths(states, pad_last) {
        lemma_decoration_stops(states, pad_last, (upto - 1) as nat);
    }
}

/// The depths counted by `visible_depths` end in one that shows a ruled line, and every deeper
/// one is blank.
pub proof fn lemma_visible_depths(states: Seq<ItemWriterState>)
    ensures
        visible_depths(states) <= states.len(),
        visible_depths(states) > 0 ==> !states[visible_depths(states) - 1].blank(),
        forall|i: int| visible_depths(states) <= i < states.len() ==> (#[trigger] states[i]).blank(),
    decreases states.len(),
{
    if states.len() > 0 && states.last().blank() {
        let front = states.drop_last();
        lemma_visible_depths(front);
        assert forall|i: int| visible_depths(states) <= i < states.len() implies (
        #[trigger] states[i]).blank() by {
            if i < front.len() {
                assert(states[i] == front[i]);
            }
        }
    }
}

/// Returns the deepest depth whose edge shows a ruled line on the current line.
pub fn last_visible_depth(states: &[ItemWriterState]) -> (r: Option<usize>)
    ensures
        visible_depths(states@) == 0 ==> r is None,
        visible_depths(states@) > 0 ==> r == Some((visible_depths(states@) - 1) as usize),
{
    let mut i = states.len();
    proof {
        assert(states@.take(i as int) == states@);
    }
    while i > 0
        invariant
            i <= states@.len(),
            visible_depths(states@) == visible_depths(states@.take(i as int)),
        decreases i,
    {
        let state = &states[i - 1];
        if !state.edge.is_prefix_whitespace(state.is_last_child, state.at_first_line) {
            proof {
                assert(states@.take(i as int).last() == states@[i - 1]);
            }
            return Some(i - 1);
        }
        proof {
            assert(states@.take(i as int).last() == states@[i - 1]);
            assert(states@.take(i as int).drop_last() == states@.take(i - 1));
        }
        i -= 1;
    }
    None
}

/// Options for `ItemWriter`.
#[derive(Debug, Clone, Copy)]
pub struct ItemWriterOptions {
    /// Whether to emit trailing whitespace.
    pub emit_trailing_whitespace: bool,
}

impl Default for ItemWriterOptions {
    fn default() -> (r: Self)
        ensures
            !r.emit_trailing_whitespace,
    {
        Self { emit_trailing_whitespace: false }
    }
}

impl ItemWriterOptions {
    /// Creates a new `ItemWriterOptions`.
    pub fn new() -> (r: Self)
        ensures
            !r.emit_trailing_whitespace,
    {
        Self::default()
    }

    /// Let the writer emit trailing whitespace if the line has no content.
    pub fn emit_trailing_whitespace(&mut self) -> (r: &mut Self)
        ensures
            r.emit_trailing_whitespace,
            *final(self) == *final(r),
    {
        self.emit_trailing_whitespace = true;
        self
    }

    /// Creates a new `ItemWriter`.
    pub fn build<'a, W: Sink>(self, writer: &'a mut W, states: &'a mut [ItemWriterState]) -> (r:
        ItemWriter<'a, W>)
        ensures
            r.opts == self,
            *r.writer == *old(writer),
            *final(writer) == *final(r.writer),
            r.states@ == old(states)@,
            final(states)@ == final(r.states)@,
    {
        ItemWriter::with_options(writer, states, self)
    }
}

/// A sink to write single item.
///
/// The writer borrows the destination and the stack of states for as long as it lives; what it
/// writes and how it leaves the states is seen through the two borrows when it is gone.
pub struct ItemWriter<'a, W> {
    /// Writer.
    pub writer: &'a mut W,
    /// Writer options.
    pub opts: ItemWriterOptions,
    /// Item writer state.
    pub states: &'a mut [ItemWriterState],
}

impl<'a, W: Sink> ItemWriter<'a, W> {
    /// Creates a new `ItemWriter` with the given node writer states.
    pub fn new(writer: &'a mut W, states: &'a mut [ItemWriterState]) -> (r: Self)
        ensures
            !r.opts.emit_trailing_whitespace,
            *r.writer == *old(writer),
            *final(writer) == *final(r.writer),
            r.states@ == old(states)@,
            final(states)@ == final(r.states)@,
    {
        Self::with_options(writer, states, ItemWriterOptions::default())
    }

    /// Creates a new `ItemWriter` with the given node writer states and options.
    pub fn with_options(
        writer: &'a mut W,
        states: &'a mut [ItemWriterState],
        opts: ItemWriterOptions,
    ) -> (r: Self)
        ensures
            r.opts == opts,
            *r.writer == *old(writer),
            *final(writer) == *final(r.writer),
            r.states@ == old(states)@,
            final(states)@ == final(r.states)@,
    {
        Self { writer, states, opts }
    }

    /// Writes line prefixes and paddings if necessary.
    pub fn write_prefix_and_padding(&mut self, line_is_empty: bool) -> (r: Result<
        (),
        core::fmt::Error,
    >)
        ensures
            final(self).opts == old(self).opts,
            *final(final(self).writer) == *final(old(self).writer),
            final(final(self).states)@ == final(old(self).states)@,
            same_nodes(old(self).states@, final(self).states@),
            r is Ok ==> (*final(self).writer).text() == (*old(self).writer).text()
                + line_decoration(
                old(self).states@,
                old(self).opts.emit_trailing_whitespace || !line_is_empty,
            ),
            r is Ok ==> final(self).states@ == after_decoration(
                old(self).states@,
                old(self).opts.emit_trailing_whitespace || !line_is_empty,
            ),
            W::infallible() ==> r is Ok,
    {
        let ghost before = (*self.writer).text();
        let ghost orig = self.states@;
        if self.states.len() == 0 {
            proof {
                assert(after_decoration(orig, self.opts.emit_trailing_whitespace || !line_is_empty)
                    == orig);
                assert(before + Seq::<char>::empty() == before);
            }
            return Ok(());
        }
        // Delay the emission of the prefixes and paddings in some cases.

        let emit_last_padding = self.opts.emit_trailing_whitespace || !line_is_empty;
        let last_non_omissible_prefix_index = if emit_last_padding {
            Some(self.states.len() - 1)
        } else {
            last_visible_depth(self.states)
        };
        let ghost depths = decorated_depths(orig, emit_last_padding);
        proof {
            lemma_visible_depths(orig);
            lemma_decoration_stops(orig, emit_last_padding, orig.len());
        }
        if let Some(last_non_omissible_prefix_index) = last_non_omissible_prefix_index {
            let emit_trailing_whitespace = self.opts.emit_trailing_whitespace;
            let mut i: usize = 0;
            while i < last_non_omissible_prefix_index
                invariant
                    orig == old(self).states@,
                    i <= last_non_omissible_prefix_index < orig.len(),
                    depths == last_non_omissible_prefix_index + 1,
                    depths == decorated_depths(orig, emit_last_padding),
                    emit_trailing_whitespace ==> emit_last_padding,
                    self.opts == old(self).opts,
                    *final(self.writer) == *final(old(self).writer),
                    final(self.states)@ == final(old(self).states)@,
                    self.states@.len() == orig.len(),
                    forall|j: int|
                        0 <= j < i ==> #[trigger] self.states@[j] == advanced_at(
                            orig,
                            emit_last_padding,
                            j,
                        ),
                    forall|j: int| i <= j < orig.len() ==> #[trigger] self.states@[j] == orig[j],
                    (*self.writer).text() == before + decoration_upto(
                        orig,
                        emit_last_padding,
                        i as nat,
                    ),
                decreases last_non_omissible_prefix_index - i,
            {
                let ghost line_so_far = decoration_upto(orig, emit_last_padding, i as nat);
                self.states[i].write_pending(self.writer, emit_trailing_whitespace, true)?;
                proof {
                    assert(padded_at(orig, emit_last_padding, i as int));
                    assert(before + line_so_far + orig[i as int].pending(true) == before + (
                    line_so_far + orig[i as int].pending(true)));
                }
                i += 1;
            }

            let ghost line_so_far = decoration_upto(orig, emit_last_padding, i as nat);
            self.states[i].write_pending(
                self.writer,
                emit_trailing_whitespace,
                emit_last_padding,
            )?;
            proof {
                assert(padded_at(orig, emit_last_padding, i as int) == emit_last_padding);
                assert(before + line_so_far + orig[i as int].pending(emit_last_padding) == before
                    + (line_so_far + orig[i as int].pending(emit_last_padding)));
                assert(self.states@ == after_decoration(orig, emit_last_padding));
            }
        } else {
            proof {
                assert(before + Seq::<char>::empty() == before);
                assert(self.states@ == after_decoration(orig, emit_last_padding));
            }
        }
        Ok(())
    }

    /// Resets the writer status for the next new line.
    pub fn reset_line_state(&mut self)
        ensures
            final(self).opts == old(self).opts,
            *final(self).writer == *old(self).writer,
            *final(final(self).writer) == *final(old(self).writer),
            final(final(self).states)@ == final(old(self).states)@,
            final(self).states@ == reset_all(old(self).states@),
    {
        let ghost orig = self.states@;
        let mut i: usize = 0;
        while i < self.states.len()
            invariant
                self.opts == old(self).opts,
                *self.writer == *old(self).writer,
                *final(self.writer) == *final(old(self).writer),
                final(self.states)@ == final(old(self).states)@,
                self.states@.len() == orig.len(),
                i <= orig.len(),
                forall|j: int| 0 <= j < i ==> #[trigger] self.states@[j] == orig[j].at_next_line(),
                forall|j: int| i <= j < orig.len() ==> #[trigger] self.states@[j] == orig[j],
            decreases orig.len() - i,
        {
            self.states[i].reset_line_state();
            i += 1;
        }
        proof {
            assert(self.states@ == reset_all(orig));
        }
    }

    /// Writes a newline character if necessary, and moves the cursor to the head of the next line.
    ///
    /// There must be an item to write below: the stack of states is not empty.
    pub fn go_to_next_line(&mut self) -> (r: Result<(), core::fmt::Error>)
        requires
            old(self).states@.len() > 0,
        ensures
            final(self).opts == old(self).opts,
            *final(final(self).writer) == *final(old(self).writer),
            final(final(self).states)@ == final(old(self).states)@,
            same_nodes(old(self).states@, final(self).states@),
            r is Ok ==> (*final(self).writer).text() == (*old(self).writer).text()
                + fresh_line_text(old(self).states@, old(self).opts.emit_trailing_whitespace),
            r is Ok ==> final(self).states@ == fresh_line_states(old(self).states@),
            W::infallible() ==> r is Ok,
    {
        let ghost before = (*self.writer).text();
        let ghost orig = self.states@;
        let last = self.states.len() - 1;
        if !self.states[last].is_at_line_head() {
            proof {
                lemma_line_feed_alone(orig, self.opts.emit_trailing_whitespace);
            }
            self.write_str("\n")?;
        } else {
            proof {
                assert(before + Seq::<char>::empty() == before);
            }
        }
        Ok(())
    }

    /// Writes the text of an item: each of its lines after the edges of all depths.
    pub fn write_str(&mut self, s: &str) -> (r: Result<(), core::fmt::Error>)
        ensures
            final(self).opts == old(self).opts,
            *final(final(self).writer) == *final(old(self).writer),
            final(final(self).states)@ == final(old(self).states)@,
            same_nodes(old(self).states@, final(self).states@),
            r is Ok ==> (*final(self).writer).text() == (*old(self).writer).text() + item_text(
                old(self).states@,
                old(self).opts.emit_trailing_whitespace,
                lines_of(s@),
            ),
            r is Ok ==> final(self).states@ == item_states(old(self).states@, lines_of(s@)),
            W::infallible() ==> r is Ok,
    {
        let ghost before = (*self.writer).text();
        let ghost orig = self.states@;
        let ghost whitespace = self.opts.emit_trailing_whitespace;
        let ghost all = lines_of(s@);
        let ghost mut done = Seq::<char>::empty();
        let mut lines = lines_with_last_line_flag(s);
        proof {
            assert(before + done == before);
            assert(done + item_text(orig, whitespace, all) == item_text(orig, whitespace, all));
        }
        loop
            invariant
                orig == old(self).states@,
                before == (*old(self).writer).text(),
                all == lines_of(s@),
                self.opts == old(self).opts,
                whitespace == self.opts.emit_trailing_whitespace,
                *final(self.writer) == *final(old(self).writer),
                final(self.states)@ == final(old(self).states)@,
                same_nodes(orig, self.states@),
                (*self.writer).text() == before + done,
                done + item_text(self.states@, whitespace, lines.remaining()) == item_text(
                    orig,
                    whitespace,
                    all,
                ),
                item_states(self.states@, lines.remaining()) == item_states(orig, all),
            decreases lines.remaining().len(),
        {
            let ghost rest = lines.remaining();
            let ghost now = self.states@;
            match lines.next_line() {
                None => {
                    proof {
                        assert(done + Seq::<char>::empty() == done);
                    }
                    return Ok(());
                },
                Some((line, at_last_line)) => {
                    // Delay the emission of the prefix (and padding) until the line content is given.
                    if at_last_line && line.is_empty() {
                        proof {
                            assert(done + Seq::<char>::empty() == done);
                        }
                        return Ok(());
                    }
                    // Write line prefixes and paddings if necessary.

                    self.write_prefix_and_padding(line.is_empty())?;

                    // Write the line content.
                    self.writer.write_str(line)?;

                    let ghost drawn = line_decoration(now, whitespace || line@.len() > 0);
                    // Write the newline if there are next lines to be written.
                    if !at_last_line {
                        self.writer.write_char('\n')?;
                        self.reset_line_state();
                        proof {
                            assert(self.states@ == reset_all(now));
                            let piece = drawn + line@ + seq!['\n'];
                            assert(before + done + drawn + line@ + seq!['\n'] == before + (done
                                + piece));
                            assert(before + done + drawn + line@ == (before + done + drawn)
                                + line@);
                            assert((before + done + drawn + line@).push('\n') == before + done
                                + drawn + line@ + seq!['\n']);
                            assert(done + (piece + item_text(
                                reset_all(now),
                                whitespace,
                                rest.drop_first(),
                            )) == (done + piece) + item_text(
                                reset_all(now),
                                whitespace,
                                rest.drop_first(),
                            ));
                            done = done + piece;
                        }
                    } else {
                        proof {
                            let piece = drawn + line@;
                            assert(before + done + drawn + line@ == before + (done + piece));
                            assert(rest.drop_first().len() == 0);
                            assert((done + piece) + Seq::<char>::empty() == done + piece);
                            done = done + piece;
                        }
                    }
                },
            }
        }
    }
}

/// The lines of a line feed alone are two empty lines, so writing one draws the edges due to
/// an empty line, feeds the line, and leaves every depth at the start of the next line.
pub proof fn lemma_line_feed_alone(states: Seq<ItemWriterState>, trailing_whitespace: bool)
    ensures
        "\n"@ == seq!['\n'],
        lines_of(seq!['\n']) == seq![Seq::<char>::empty(), Seq::<char>::empty()],
        item_text(states, trailing_whitespace, lines_of(seq!['\n'])) == line_decoration(
            states,
            trailing_whitespace,
        ) + seq!['\n'],
        item_states(states, lines_of(seq!['\n'])) == reset_all(states),
{
    reveal_strlit("\n");
    assert("\n"@ == seq!['\n']);
    let s = seq!['\n'];
    let empty = Seq::<char>::empty();
    assert(s.take(0) == empty);
    assert(s.skip(1) == empty);
    assert(split_lines(empty) == seq![empty]);
    assert(split_lines(s) == seq![empty] + seq![empty]);
    let lines = seq![empty, empty];
    assert(split_lines(s) == lines);
    assert(lines.drop_first() == seq![empty]);
    let drawn = line_decoration(states, trailing_whitespace);
    assert(item_text(reset_all(states), trailing_whitespace, seq![empty]) == empty);
    assert(item_text(states, trailing_whitespace, lines) == drawn + empty + seq!['\n'] + empty);
    assert(drawn + empty + seq!['\n'] + empty == drawn + seq!['\n']);
    assert(item_states(reset_all(states), seq![empty]) == reset_all(states));
}

/// Whether every depth holds a well-formed edge.
pub open spec fn edges_wf(states: Seq<ItemWriterState>) -> bool {
    forall|i: int| 0 <= i < states.len() ==> (#[trigger] states[i]).edge.wf()
}

/// Whether every depth is in the given emission status.
pub open spec fn all_at(states: Seq<ItemWriterState>, status: LineEdgeStatus) -> bool {
    forall|i: int| 0 <= i < states.len() ==> (#[trigger] states[i]).edge_status == status
}

/// Whether the depths agree on where the cursor is: at the head of a line, with no edge
/// drawn, or behind the edges of all depths.
pub open spec fn settled(states: Seq<ItemWriterState>) -> bool {
    all_at(states, LineEdgeStatus::LineStart) || all_at(states, LineEdgeStatus::PaddingEmitted)
}

/// The edges before a line hold no line feed.
pub proof fn lemma_decoration_one_line(states: Seq<ItemWriterState>, pad_last: bool, upto: nat)
    requires
        edges_wf(states),
        upto <= states.len(),
    ensures
        newline_free(decoration_upto(states, pad_last, upto)),
    decreases upto,
{
    if upto > 0 {
        lemma_decoration_one_line(states, pad_last, (upto - 1) as nat);
        let state = states[upto - 1];
        lemma_edge_text_one_line(
            state.edge,
            state.is_last_child,
            state.at_first_line,
            PrefixPart::Prefix,
        );
        lemma_edge_text_one_line(
            state.edge,
            state.is_last_child,
            state.at_first_line,
            PrefixPart::Padding,
        );
    }
}

/// Once every depth has drawn its edge in full, nothing is left to draw on the line.
pub proof fn lemma_decoration_done(states: Seq<ItemWriterState>, pad_last: bool, upto: nat)
    requires
        all_at(states, LineEdgeStatus::PaddingEmitted),
        upto <= states.len(),
    ensures
        decoration_upto(states, pad_last, upto) == Seq::<char>::empty(),
    decreases upto,
{
    if upto > 0 {
        lemma_decoration_done(states, pad_last, (upto - 1) as nat);
    }
}

/// The text of an item that ends in a line that is not empty ends as that line does.
pub proof fn lemma_item_text_last_line(
    states: Seq<ItemWriterState>,
    trailing_whitespace: bool,
    lines: Seq<Seq<char>>,
)
    requires
        lines.len() >= 1,
        lines.last().len() > 0,
    ensures
        item_text(states, trailing_whitespace, lines).len() > 0,
        item_text(states, trailing_whitespace, lines).last() == lines.last().last(),
    decreases lines.len(),
{
    if lines.len() > 1 {
        let rest = lines.drop_first();
        assert(rest.last() == lines.last());
        lemma_item_text_last_line(reset_all(states), trailing_whitespace, rest);
    }
}

/// The text of an item whose last line is empty, and not its only one, ends in the line feed
/// that follows the line before: behind that line's last character or, where the item is a
/// line feed alone, behind the edges.
pub proof fn lemma_item_text_fed(
    states: Seq<ItemWriterState>,
    trailing_whitespace: bool,
    lines: Seq<Seq<char>>,
)
    requires
        lines.len() >= 2,
        lines.last().len() == 0,
    ensures
        item_text(states, trailing_whitespace, lines).len() > 0,
        item_text(states, trailing_whitespace, lines).last() == '\n',
        lines[lines.len() - 2].len() > 0 ==> item_text(
            states,
            trailing_whitespace,
            lines,
        ).drop_last().len() > 0 && item_text(states, trailing_whitespace, lines).drop_last().last()
            == lines[lines.len() - 2].last(),
        lines.len() == 2 && lines[0].len() == 0 ==> item_text(
            states,
            trailing_whitespace,
            lines,
        ).drop_last() == line_decoration(states, trailing_whitespace),
    decreases lines.len(),
{
    let text = item_text(states, trailing_whitespace, lines);
    let rest = lines.drop_first();
    let head = line_decoration(states, trailing_whitespace || lines[0].len() > 0) + lines[0]
        + seq!['\n'];
    let tail = item_text(reset_all(states), trailing_whitespace, rest);
    assert(text == head + tail);
    assert(rest.last() == lines.last());
    if lines.len() == 2 {
        assert(tail == Seq::<char>::empty());
        assert(text == head);
        assert(text.drop_last() == line_decoration(
            states,
            trailing_whitespace || lines[0].len() > 0,
        ) + lines[0]);
        if lines[0].len() == 0 {
            assert(text.drop_last() == line_decoration(states, trailing_whitespace));
        }
    } else {
        lemma_item_text_fed(reset_all(states), trailing_whitespace, rest);
        assert(rest[rest.len() - 2] == lines[lines.len() - 2]);
        assert(text.drop_last() == head + tail.drop_last());
    }
}

/// The text written for an item ends as the item's text does: without a line feed where the
/// text has none at its end, and in one line feed, not two, where the text ends in one.
pub proof fn lemma_item_text_ending(
    states: Seq<ItemWriterState>,
    trailing_whitespace: bool,
    s: Seq<char>,
)
    requires
        edges_wf(states),
    ensures
        ends_without_newline(s) ==> ends_without_newline(
            item_text(states, trailing_whitespace, lines_of(s)),
        ),
        ends_in_one_newline(s) ==> ends_in_one_newline(
            item_text(states, trailing_whitespace, lines_of(s)),
        ),
{
    let lines = lines_of(s);
    let text = item_text(states, trailing_whitespace, lines);
    if s.len() > 0 {
        lemma_split_lines_pieces(s);
        lemma_last_line_empty(s);
        if s.last() != '\n' {
            lemma_item_text_last_line(states, trailing_whitespace, lines);
            let last = lines.last();
            assert(last[last.len() - 1] != '\n');
        } else if ends_in_one_newline(s) {
            let t = s.drop_last();
            assert(s == t.push('\n'));
            lemma_split_lines_fed(t);
            lemma_split_lines_pieces(t);
            lemma_last_line_empty(t);
            let before = split_lines(t);
            assert(lines == before.push(Seq::empty()));
            assert(lines[lines.len() - 2] == before.last());
            lemma_item_text_fed(states, trailing_whitespace, lines);
            if t.len() == 0 {
                assert(t == Seq::<char>::empty());
                assert(before == seq![t]);
                assert(lines.len() == 2 && lines[0].len() == 0);
                lemma_decoration_one_line(states, trailing_whitespace, states.len());
                let drawn = line_decoration(states, trailing_whitespace);
                if drawn.len() > 0 {
                    assert(drawn[drawn.len() - 1] != '\n');
                }
            } else {
                let piece = before.last();
                assert(piece[piece.len() - 1] != '\n');
            }
        }
    }
}

/// Writing an item leaves the depths settled when it found them so: at the head of a line
/// after a text that ends in a line feed, behind the edges after any other text that is not
/// empty.
pub proof fn lemma_item_states_settled(states: Seq<ItemWriterState>, lines: Seq<Seq<char>>)
    ensures
        settled(states) ==> settled(item_states(states, lines)),
        lines.len() >= 1 && lines.last().len() > 0 ==> all_at(
            item_states(states, lines),
            LineEdgeStatus::PaddingEmitted,
        ),
        lines.len() >= 2 && lines.last().len() == 0 ==> all_at(
            item_states(states, lines),
            LineEdgeStatus::LineStart,
        ),
        item_states(states, lines).len() == states.len(),
        edges_wf(states) ==> edges_wf(item_states(states, lines)),
    decreases lines.len(),
{
    if lines.len() >= 2 {
        let rest = lines.drop_first();
        assert(rest.last() == lines.last());
        lemma_item_states_settled(reset_all(states), rest);
        if rest.len() == 1 && rest[0].len() == 0 {
            assert(item_states(reset_all(states), rest) == reset_all(states));
        }
    }
}

/// Bringing the cursor of settled depths to a fresh line takes one line feed where it
/// stands behind the edges, and nothing where it is at the head of a line; every depth is at
/// the head of a line then.
pub proof fn lemma_fresh_line_settled(states: Seq<ItemWriterState>, trailing_whitespace: bool)
    requires
        settled(states),
    ensures
        fresh_line_text(states, trailing_whitespace) == if states.len() > 0
            && states.last().edge_status != LineEdgeStatus::LineStart {
            seq!['\n']
        } else {
            Seq::<char>::empty()
        },
        all_at(fresh_line_states(states), LineEdgeStatus::LineStart),
        fresh_line_states(states).len() == states.len(),
        edges_wf(states) ==> edges_wf(fresh_line_states(states)),
{
    if states.len() > 0 && states.last().edge_status != LineEdgeStatus::LineStart {
        assert(all_at(states, LineEdgeStatus::PaddingEmitted));
        lemma_decoration_done(states, trailing_whitespace, states.len());
        assert(Seq::<char>::empty() + seq!['\n'] == seq!['\n']);
    } else if states.len() > 0 {
        assert(states.last().edge_status == LineEdgeStatus::LineStart);
        assert(all_at(states, LineEdgeStatus::LineStart));
    }
}

} // verus!
