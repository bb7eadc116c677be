//! Pagination and text layout for rendering plain-text files as paged documents.
//!
//! A file's text is normalised (tabs become spaces), split into logical lines,
//! word-wrapped to a fixed column width and packed onto pages of a fixed number
//! of body lines.  The result is a sequence of page events, which a second step
//! turns into the drawing operations a document builder has to perform.

pub mod config;
pub mod event;
pub mod laws;
pub mod layout;
pub mod packing;
pub mod paginate;
pub mod render;
pub mod text;
pub mod unit;
pub mod wrap;
