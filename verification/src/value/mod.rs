//! Values in the text format Arma passes to and expects from extensions.

pub mod number;
pub mod from_arma;
pub mod loadout;
