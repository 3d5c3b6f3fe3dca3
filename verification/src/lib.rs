//! The core of a font viewer: a window that lists the font families of the
//! system and draws a sample text in each.
//!
//! The library holds what such a window decides. It builds the registry of
//! families from what the font engine reports, splits the filter line into
//! its alternatives, keeps the set of pinned families, works out which rows
//! the table shows, and steps the viewer's state from message to message.
//! Drawing the window, reading font files and running the event loop are left
//! to the program around it.
//!
//! Every function is verified against a contract over sequences, sets and
//! plain values. Two things are taken on trust: the call that asks the font
//! engine, of whose answer nothing is assumed, and which weight the toolkit
//! takes for its default.

mod engine;
pub mod filter;
pub mod font_manager;
pub mod pinned;
pub mod seqs;
pub mod shown;
pub mod text;
pub mod viewer;
pub mod weight;
