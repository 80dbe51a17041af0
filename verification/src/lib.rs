//! The logic of a live power graph for a P1 smart meter: what each fetch changes, which samples
//! are kept, and what the window and the terminal show of them.
pub mod chart;
pub mod meter;
pub mod session;
pub mod status;
pub mod terminal;
pub mod text;
pub mod watts;
pub mod window;
