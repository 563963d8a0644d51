//! Struct-described UI components: the decisions of the component derive,
//! and the style value that rendered components merge with their defaults.

pub mod style;
pub mod text;
pub mod component;
