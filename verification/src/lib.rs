//! Tree printer.
//!
//! Renders a tree of text nodes as lines of text decorated with ASCII or Unicode ruled lines, in
//! the style of the `tree` command.
//!
//! # How to use
//!
//! 1.  Prepare a writer which implements [`Sink`]; `String` does.
//! 2.  Prepare a [`TreeConfig`] using [`TreeConfigBuilder`], or use the default value.
//! 3.  Create a [`TreePrinter`].
//! 4.  Open a new node or close a node as you need.
//!     Specify [`ItemStyle`] for each node to control the visual styles.
//! 5.  Finally, [`TreePrinter::finalize()`] will finalize the tree printing.
//!     You get the inner writer as the return value.
//!
//! Every node is written to the sink as soon as it is opened. What is written is specified
//! character by character: the contract of each function names the exact text that the call
//! appends to the sink and the exact stack of open nodes that it leaves.
//!
//! ```text
//! .
//! |-- foo
//! |   |-- bar
//! |   |   `-- baz
//! |   |
//! |   |       multiline support!
//! |   `-- qux
//! |       `-- quux
//! |-- corge
//! `-- grault
//! ```

pub mod config;
pub mod item_writer;
pub mod lines;
pub mod sink;
pub mod tree_printer;

pub use self::config::unicode;
pub use self::config::{EdgeConfig, ItemStyle, TreeConfig, TreeConfigBuilder};
pub use self::item_writer::{ItemWriter, ItemWriterOptions, ItemWriterState};
pub use self::sink::{BoundedString, Sink};
pub use self::tree_printer::{Error, TreePrinter};
