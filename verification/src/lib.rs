//! Moves image files whose names end in chosen numbers from one tree into
//! another without duplicating content.
//!
//! The crate holds the decisions of such a run and proves them: how the
//! suffix text is read, which files are selected, where each file goes, when
//! a file counts as a duplicate and how a name collision is resolved. Files
//! and directories are never touched from here. A caller performs the
//! requests that the state machines in [`mover`] and [`engine`] hand out and
//! reports back what happened.

pub mod engine;
pub mod hasher;
pub mod index;
pub mod mover;
pub mod paths;
pub mod scanner;
pub mod suffix_parser;
pub mod text;
