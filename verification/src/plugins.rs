//! The concrete plugins the bot registers.

pub mod currency;
pub mod h;
pub mod lastfm;
pub mod probe;
pub mod seen;
pub mod tangorin;
pub mod url;
