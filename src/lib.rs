//! A fixed-size character console driven by a host application loop.
//!
//! The library holds the console grid with its drawing operations, the
//! colour-markup text printer, the pixel-to-cell mapping, the font-atlas
//! loading state machine, and the decisions of the run loop that joins the
//! console to a host scheduler.
pub mod bridge;
pub mod color;
pub mod console;
pub mod coords;
pub mod font;
pub mod input;
pub mod text;
