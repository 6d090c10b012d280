//! Package managers driven by plain commands, with little inspection of
//! their state beforehand.
pub mod flatpak;
