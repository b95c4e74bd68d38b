//! Rendering core of a small "now playing" display.
//!
//! The display shows the cover of the track that plays, its title and
//! artists, and a progress bar. Each redraw is handed back as a batch of
//! colours for one rectangle of the screen; whoever owns the display writes
//! the batches out in the order given.
pub mod color;
pub mod cover;
pub mod engine;
pub mod graphics;
pub mod katakana;
pub mod producer;
pub mod raster;
pub mod surface;
pub mod track;
