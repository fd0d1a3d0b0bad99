//! Markdown to HTML, with emoji shortcodes replaced in running text and code
//! blocks emitted as raw HTML that carries the fence's language as a class.
//!
//! The heart of the crate is [`rewriter`]: a small state machine over
//! [`event::MarkdownEvent`]s whose behaviour is pinned down by the spec
//! functions next to it and by the laws in [`laws`]. [`pipeline`] puts it
//! between the parser and the serializer, which [`markdown`] wraps.

pub mod emoji;
pub mod event;
pub mod laws;
pub mod markdown;
pub mod pipeline;
pub mod report;
pub mod rewriter;

pub use crate::event::{CodeBlockKind, MarkdownEvent};
pub use crate::pipeline::{perform_dry_run, print_events, process_input, render};
pub use crate::report::{dump_events, report_dry_run, to_decimal, EventSpan};
pub use crate::rewriter::{render_code_block, rewrite, Rewriter};
