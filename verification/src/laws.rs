//! What holds of every word and every root.

pub mod begins;
pub mod endings;
pub mod equality;
pub mod found;
pub mod keeps;
pub mod round_trip;
pub mod tables;
