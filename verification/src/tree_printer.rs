//! Tree printer.
//!
//! The printer keeps the stack of the nodes that are open, outermost first, and writes each node
//! into the sink when it is opened. Its contracts give the exact text that each call appends
//! and the exact stack that it leaves.

use vstd::prelude::*;
use vstd::std_specs::convert::FromSpecImpl;

use crate::config::{ItemStyle, TreeConfig};
use crate::item_writer::{
    all_at, decoration_upto, edges_wf, fresh_line_states, fresh_line_text, item_states, item_text,
    lemma_fresh_line_settled, lemma_item_states_settled,
    lemma_item_text_ending, lemma_item_text_fed, lemma_item_text_last_line, lemma_visible_depths,
    line_decoration, pending_at, same_nodes, settled, ItemWriterState, LineEdgeStatus,
};
use crate::lines::{
    ends_in_one_newline, ends_without_newline, lemma_last_line_empty, lemma_split_lines_pieces,
    lines_of,
};
use crate::sink::Sink;

verus! {

/// Tree print error.
#[derive(Debug, Clone)]
pub enum Error {
    /// Attempt to close a node when there are no open nodes.
    ExtraNodeClose,
    /// Backend formatter error.
    Format(core::fmt::Error),
}

impl From<core::fmt::Error> for Error {
    fn from(e: core::fmt::Error) -> (r: Self) {
        Error::Format(e)
    }
}

impl FromSpecImpl<core::fmt::Error> for Error {
    open spec fn obeys_from_spec() -> bool {
        true
    }

    open spec fn from_spec(e: core::fmt::Error) -> Self {
        Error::Format(e)
    }
}

/// The outcome of a write, as the printer reports it: a refused write is a `Format` error.
pub fn surfaced(written: Result<(), core::fmt::Error>) -> (r: Result<(), Error>)
    ensures
        written is Ok <==> r is Ok,
        written matches Err(e) ==> r == Err::<(), Error>(Error::Format(e)),
{
    match written {
        Ok(()) => Ok(()),
        Err(e) => Err(Error::from(e)),
    }
}

/// The stack once the cursor is on a fresh line and a node of the given style is pushed.
pub open spec fn pushed_states(states: Seq<ItemWriterState>, style: ItemStyle) -> Seq<
    ItemWriterState,
> {
    fresh_line_states(states).push(ItemWriterState::fresh(style.is_last_child, style.edge))
}

/// What opening a node writes: what brings the cursor to a fresh line, where a node is open
/// already, and then the node's text below the stack that the node is pushed on.
pub open spec fn opened_text(
    states: Seq<ItemWriterState>,
    config: TreeConfig,
    style: ItemStyle,
    content: Seq<char>,
) -> Seq<char> {
    fresh_line_text(states, config.emit_trailing_whitespace) + item_text(
        pushed_states(states, style),
        config.emit_trailing_whitespace,
        lines_of(content),
    )
}

/// The stack after a node is opened.
pub open spec fn opened_states(states: Seq<ItemWriterState>, style: ItemStyle, content: Seq<char>) -> Seq<
    ItemWriterState,
> {
    item_states(pushed_states(states, style), lines_of(content))
}

/// What closing the innermost node writes: what brings the cursor to a fresh line, where the
/// options ask for a newline at the end of a node, else nothing.
pub open spec fn closed_text(states: Seq<ItemWriterState>, config: TreeConfig) -> Seq<char> {
    if config.emit_trailing_newline {
        fresh_line_text(states, config.emit_trailing_whitespace)
    } else {
        Seq::empty()
    }
}

/// The stack after the innermost node is closed.
pub open spec fn closed_states(states: Seq<ItemWriterState>, config: TreeConfig) -> Seq<
    ItemWriterState,
> {
    if config.emit_trailing_newline {
        fresh_line_states(states).drop_last()
    } else {
        states.drop_last()
    }
}

/// What closing all open nodes writes, innermost first.
pub open spec fn finalized_text(states: Seq<ItemWriterState>, config: TreeConfig) -> Seq<char>
    decreases states.len(),
{
    if states.len() == 0 {
        Seq::empty()
    } else {
        closed_text(states, config) + finalized_text(closed_states(states, config), config)
    }
}

/// Tree printer.
pub struct TreePrinter<W> {
    /// Writer.
    writer: W,
    /// Options.
    opts: TreeConfig,
    /// Item writer states for each nest level.
    states: Vec<ItemWriterState>,
}

impl<W: Sink> TreePrinter<W> {
    /// The sink that the printer writes into.
    pub closed spec fn sink(&self) -> W {
        self.writer
    }

    /// The options that the printer was made with.
    pub closed spec fn config(&self) -> TreeConfig {
        self.opts
    }

    /// The states of the open nodes, outermost first.
    pub closed spec fn states(&self) -> Seq<ItemWriterState> {
        self.states@
    }

    /// The number of open nodes.
    pub open spec fn depth(&self) -> nat {
        self.states().len()
    }

    /// Creates a new `TreePrinter`.
    pub fn new(writer: W, opts: TreeConfig) -> (r: Self)
        ensures
            r.sink() == writer,
            r.config() == opts,
            r.states() == Seq::<ItemWriterState>::empty(),
    {
        Self { writer, opts, states: Vec::new() }
    }

    /// Lends the sink, to read what has been written or to take it out.
    ///
    /// What the printer writes next goes behind whatever the sink holds by then.
    pub fn writer_mut(&mut self) -> (r: &mut W)
        ensures
            *r == old(self).sink(),
            final(self).sink() == *final(r),
            final(self).config() == old(self).config(),
            final(self).states() == old(self).states(),
    {
        &mut self.writer
    }

    /// Opens a new node with the given content.
    ///
    /// The node is written at once, on a line of its own, below the nodes that are open.
    pub fn open_node(&mut self, style: ItemStyle, content: &str) -> (r: Result<(), Error>)
        ensures
            final(self).config() == old(self).config(),
            W::infallible() ==> r is Ok,
            r is Ok ==> final(self).sink().text() == old(self).sink().text() + opened_text(
                old(self).states(),
                old(self).config(),
                style,
                content@,
            ),
            r is Ok ==> final(self).states() == opened_states(old(self).states(), style, content@),
            r is Err ==> r matches Err(Error::Format(_)),
            r is Err ==> old(self).depth() <= final(self).depth() <= old(self).depth() + 1,
            r is Err ==> same_nodes(
                old(self).states(),
                final(self).states().take(old(self).depth() as int),
            ),
    {
        let ghost before = self.writer.text();
        let ghost orig = self.states@;
        let ghost whitespace = self.opts.emit_trailing_whitespace;
        // Go to newline before emitting new node.
        if self.states.len() > 0 {
            let mut writer = self.opts.writer(&mut self.writer, self.states.as_mut_slice());
            let moved = writer.go_to_next_line();
            if moved.is_err() {
                proof {
                    assert(self.states@.take(orig.len() as int) == self.states@);
                }
                return surfaced(moved);
            }
        } else {
            proof {
                assert(before + Seq::<char>::empty() == before);
            }
        }
        let ghost fresh = self.writer.text();
        self.states.push(ItemWriterState::new(style.is_last_child(), *style.edge()));
        let ghost stack = self.states@;
        let mut writer = self.opts.writer(&mut self.writer, self.states.as_mut_slice());
        let written = writer.write_str(content);
        proof {
            assert(stack == pushed_states(orig, style));
            let text = item_text(stack, whitespace, lines_of(content@));
            assert(before + fresh_line_text(orig, whitespace) + text == before + (fresh_line_text(
                orig,
                whitespace,
            ) + text));
            assert(same_nodes(orig, self.states@.take(orig.len() as int))) by {
                let now = self.states@.take(orig.len() as int);
                assert forall|i: int| 0 <= i < orig.len() implies orig[i].is_last_child
                    == now[i].is_last_child && orig[i].edge == now[i].edge by {
                    assert(now[i] == self.states@[i]);
                    assert(stack[i] == fresh_line_states(orig)[i]);
                }
            }
        }
        surfaced(written)
    }

    /// Closes a node.
    ///
    /// Fails with `ExtraNodeClose`, and does nothing, when no node is open.
    pub fn close_node(&mut self) -> (r: Result<(), Error>)
        ensures
            final(self).config() == old(self).config(),
            old(self).depth() == 0 <==> r matches Err(Error::ExtraNodeClose),
            old(self).depth() == 0 ==> final(self).sink() == old(self).sink() && final(self).states() == old(self).states(),
            old(self).depth() > 0 && W::infallible() ==> r is Ok,
            r is Ok ==> final(self).sink().text() == old(self).sink().text() + closed_text(
                old(self).states(),
                old(self).config(),
            ),
            r is Ok ==> final(self).states() == closed_states(
                old(self).states(),
                old(self).config(),
            ),
            r is Err ==> same_nodes(old(self).states(), final(self).states()),
    {
        let ghost before = self.writer.text();
        let ghost orig = self.states@;
        if self.states.len() == 0 {
            // Too much close!
            return Err(Error::ExtraNodeClose);
        }
        if self.opts.emit_trailing_newline() {
            // Go to newline automatically at the end of a node.
            let mut writer = self.opts.writer(&mut self.writer, self.states.as_mut_slice());
            let moved = writer.go_to_next_line();
            if moved.is_err() {
                return surfaced(moved);
            }
        } else {
            proof {
                assert(before + Seq::<char>::empty() == before);
            }
        }
        self.states.pop();

        Ok(())
    }

    /// Finishes writing the tree and returns the inner writer.
    ///
    /// Closes the nodes that are still open, innermost first.
    pub fn finalize(self) -> (r: Result<W, Error>)
        ensures
            W::infallible() ==> r is Ok,
            r matches Ok(sink) ==> sink.text() == self.sink().text() + finalized_text(
                self.states(),
                self.config(),
            ),
            r is Err ==> r matches Err(Error::Format(_)),
    {
        let mut printer = self;
        let ghost before = printer.writer.text();
        let ghost config = printer.opts;
        let ghost mut done = Seq::<char>::empty();
        proof {
            assert(before + done == before);
            assert(done + finalized_text(printer.states@, config) == finalized_text(
                printer.states@,
                config,
            ));
        }
        while printer.states.len() > 0
            invariant
                printer.opts == config,
                config == self.config(),
                before == self.sink().text(),
                printer.writer.text() == before + done,
                done + finalized_text(printer.states@, config) == finalized_text(
                    self.states(),
                    config,
                ),
            decreases printer.states@.len(),
        {
            let ghost now = printer.states@;
            match printer.close_node() {
                Ok(()) => {},
                Err(e) => {
                    return Err(e);
                },
            }
            proof {
                let piece = closed_text(now, config);
                assert(before + done + piece == before + (done + piece));
                assert(done + (piece + finalized_text(closed_states(now, config), config)) == (done
                    + piece) + finalized_text(closed_states(now, config), config));
                done = done + piece;
            }
        }
        proof {
            assert(done + Seq::<char>::empty() == done);
        }
        Ok(printer.writer)
    }
}

/// A call that a caller makes on a printer.
pub enum Call {
    /// `open_node` with a style and a text.
    Open(ItemStyle, Seq<char>),
    /// `close_node`.
    Close,
}

/// Whether the calls are nested in balance below `depth` open nodes: no call closes a node
/// that is not open.
pub open spec fn well_nested(depth: nat, calls: Seq<Call>) -> bool
    decreases calls.len(),
{
    calls.len() == 0 || match calls[0] {
        Call::Open(_, _) => well_nested(depth + 1, calls.drop_first()),
        Call::Close => depth > 0 && well_nested((depth - 1) as nat, calls.drop_first()),
    }
}

/// The stack that the calls leave when every write succeeds, or `None` where one of them is a
/// `close_node` that finds no node open.
pub open spec fn states_after(states: Seq<ItemWriterState>, config: TreeConfig, calls: Seq<Call>) -> Option<
    Seq<ItemWriterState>,
>
    decreases calls.len(),
{
    if calls.len() == 0 {
        Some(states)
    } else {
        match calls[0] {
            Call::Open(style, content) => states_after(
                opened_states(states, style, content),
                config,
                calls.drop_first(),
            ),
            Call::Close => if states.len() == 0 {
                None
            } else {
                states_after(closed_states(states, config), config, calls.drop_first())
            },
        }
    }
}

/// The stack that `finalize` leaves: it closes the innermost node until none is open.
pub open spec fn finalized_states(states: Seq<ItemWriterState>, config: TreeConfig) -> Seq<
    ItemWriterState,
>
    decreases states.len(),
{
    if states.len() == 0 {
        states
    } else {
        finalized_states(closed_states(states, config), config)
    }
}

/// Opening a node adds one to the open nodes.
pub proof fn lemma_opened_depth(states: Seq<ItemWriterState>, style: ItemStyle, content: Seq<char>)
    ensures
        opened_states(states, style, content).len() == states.len() + 1,
{
    lemma_item_states_settled(pushed_states(states, style), lines_of(content));
}

/// Closing a node takes one away from the open nodes.
pub proof fn lemma_closed_depth(states: Seq<ItemWriterState>, config: TreeConfig)
    requires
        states.len() > 0,
    ensures
        closed_states(states, config).len() == states.len() - 1,
{
}

/// Calls that are nested in balance never close a node that is not open, whatever state the
/// printer is in, and `finalize` after them leaves no node open.
pub proof fn lemma_balanced_calls(states: Seq<ItemWriterState>, config: TreeConfig, calls: Seq<Call>)
    requires
        well_nested(states.len(), calls),
    ensures
        states_after(states, config, calls) is Some,
        finalized_states(states_after(states, config, calls)->0, config).len() == 0,
    decreases calls.len(),
{
    if calls.len() == 0 {
        lemma_finalize_closes_all(states, config);
    } else {
        match calls[0] {
            Call::Open(style, content) => {
                lemma_opened_depth(states, style, content);
                lemma_balanced_calls(
                    opened_states(states, style, content),
                    config,
                    calls.drop_first(),
                );
            },
            Call::Close => {
                lemma_closed_depth(states, config);
                lemma_balanced_calls(closed_states(states, config), config, calls.drop_first());
            },
        }
    }
}

/// `finalize` leaves no node open.
pub proof fn lemma_finalize_closes_all(states: Seq<ItemWriterState>, config: TreeConfig)
    ensures
        finalized_states(states, config).len() == 0,
    decreases states.len(),
{
    if states.len() > 0 {
        lemma_finalize_closes_all(closed_states(states, config), config);
    }
}

/// A printer whose writes succeed keeps its depths settled, and their edges well-formed.
pub proof fn lemma_printer_settled(
    states: Seq<ItemWriterState>,
    config: TreeConfig,
    style: ItemStyle,
    content: Seq<char>,
)
    requires
        settled(states),
    ensures
        settled(opened_states(states, style, content)),
        states.len() > 0 ==> settled(closed_states(states, config)),
        edges_wf(states) && style.edge.wf() ==> edges_wf(opened_states(states, style, content)),
        edges_wf(states) && states.len() > 0 ==> edges_wf(closed_states(states, config)),
{
    lemma_fresh_line_settled(states, config.emit_trailing_whitespace);
    let pushed = pushed_states(states, style);
    assert(all_at(pushed, LineEdgeStatus::LineStart));
    lemma_item_states_settled(pushed, lines_of(content));
    let fresh = fresh_line_states(states);
    if states.len() > 0 {
        let closed = closed_states(states, config);
        assert forall|i: int| 0 <= i < closed.len() implies (#[trigger] closed[i]).edge_status == (
        if config.emit_trailing_newline {
            fresh[i].edge_status
        } else {
            states[i].edge_status
        }) && (edges_wf(states) ==> closed[i].edge.wf()) by {
            if config.emit_trailing_newline {
                assert(closed[i] == fresh[i]);
            } else {
                assert(closed[i] == states[i]);
            }
        }
    }
}

/// What a printer with settled depths writes for a node, from `open_node` to the
/// `close_node` that follows it, ends in one line feed and no more, whether the node's text
/// ends in a line feed or not, where the printer ends each node with a newline.
pub proof fn lemma_node_ends_in_one_newline(
    states: Seq<ItemWriterState>,
    config: TreeConfig,
    style: ItemStyle,
    content: Seq<char>,
)
    requires
        settled(states),
        edges_wf(states),
        style.edge.wf(),
        config.emit_trailing_newline,
        content.len() > 0,
        ends_without_newline(content) || ends_in_one_newline(content),
    ensures
        ends_in_one_newline(
            opened_text(states, config, style, content) + closed_text(
                opened_states(states, style, content),
                config,
            ),
        ),
{
    let whitespace = config.emit_trailing_whitespace;
    let fresh = fresh_line_text(states, whitespace);
    let pushed = pushed_states(states, style);
    let lines = lines_of(content);
    let text = item_text(pushed, whitespace, lines);
    let after = opened_states(states, style, content);
    let closing = closed_text(after, config);
    let block = opened_text(states, config, style, content) + closing;
    lemma_fresh_line_settled(states, whitespace);
    assert(all_at(pushed, LineEdgeStatus::LineStart));
    assert(edges_wf(pushed));
    lemma_item_text_ending(pushed, whitespace, content);
    lemma_item_states_settled(pushed, lines);
    lemma_split_lines_pieces(content);
    lemma_last_line_empty(content);
    if ends_without_newline(content) {
        lemma_item_text_last_line(pushed, whitespace, lines);
        assert(all_at(after, LineEdgeStatus::PaddingEmitted));
        lemma_fresh_line_settled(after, whitespace);
        assert(after.last().edge_status == LineEdgeStatus::PaddingEmitted);
        assert(closing == seq!['\n']);
        assert(block.drop_last() == fresh + text);
    } else {
        lemma_item_text_fed(pushed, whitespace, lines);
        assert(all_at(after, LineEdgeStatus::LineStart));
        lemma_fresh_line_settled(after, whitespace);
        assert(after.last().edge_status == LineEdgeStatus::LineStart);
        assert(closing == Seq::<char>::empty());
        assert(block == fresh + text);
        assert(block.drop_last() == fresh + text.drop_last());
        if text.drop_last().len() == 0 {
            // The text is a line feed alone: the edge of the node itself stands before it.
            assert(lines.len() == 2 && lines[0].len() == 0);
            lemma_first_line_decorated(pushed, whitespace);
        }
    }
}

/// Before the first line of the innermost node its edge is drawn, whatever the line holds.
pub proof fn lemma_first_line_decorated(states: Seq<ItemWriterState>, pad_last: bool)
    requires
        states.len() > 0,
        states.last().at_first_line,
        states.last().edge_status == LineEdgeStatus::LineStart,
    ensures
        line_decoration(states, pad_last).len() > 0,
{
    lemma_visible_depths(states);
    let n = states.len();
    assert(decoration_upto(states, pad_last, n) == decoration_upto(
        states,
        pad_last,
        (n - 1) as nat,
    ) + pending_at(states, pad_last, n - 1));
    assert(states.last().prefix().len() > 0);
}

} // verus!
