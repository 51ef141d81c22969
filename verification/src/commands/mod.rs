//! The commands of the user: what they mean and what they show.
pub mod assign;
pub mod break_laws;
pub mod breaks;
pub mod code;
pub mod leak_laws;
pub mod line;
pub mod line_laws;
pub mod location;
pub mod variables;
pub mod walk;
pub mod show;
pub mod show_laws;
pub mod value;
pub mod value_laws;
