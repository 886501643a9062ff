//! The look of the terminal interface.
pub mod steelbore;
