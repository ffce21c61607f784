//! Decorates streams of text: every line gets a prefix (optionally led by
//! a timestamp) and, when a line width is known, long lines are wrapped so
//! that no decorated line is wider than that width.  With a timestamp this
//! holds as long as the stamp is no longer than when the decorator was built,
//! which is the case for every date in the years 1000 to 9999.

pub mod cli;
pub mod clock;
pub mod decor;
pub mod decor_async;
pub mod runner;
pub mod writer_async;
