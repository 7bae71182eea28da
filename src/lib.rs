//! Verified core of a command-line tool that creates and updates blog post
//! files: text normalisation, the post header codec, the post entity and the
//! reconciliation of modify requests.

pub mod codec;
pub mod config;
pub mod date;
pub mod errors;
pub mod lifecycle;
pub mod modify;
pub mod post;
pub mod round_trip;
pub mod text;
pub mod validators;
