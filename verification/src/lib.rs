//! A small note manager: notes of two kinds (short and long) arranged as a
//! tree, browsed and edited through a menu-driven state machine, and persisted
//! as a whole between runs.
//!
//! Every screen transition, every mutation of the note collection and the
//! whole persistence encoding are stated in contracts and verified. All
//! terminal interaction (prompts, colors, tree drawing, the file itself) is
//! left to the surrounding program, which feeds plain values in and out.

pub mod codec;
pub mod date;
pub mod digits;
pub mod laws;
pub mod note;
pub mod tree;
pub mod view;
