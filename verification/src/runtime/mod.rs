//! What programs compute with, and how they are evaluated.
//!
//! - [`number`] and [`value`] are the values and the operators on them;
//!   [`render`] writes them as text.
//! - [`environment`] holds the scopes and the functions of a session.
//! - [`semantics`] says what every tree means; [`interpret`] computes it.
//! - [`fold`] and [`whole`] state what follows for arithmetic on its own and
//!   for the environment.

pub mod environment;
pub mod fold;
pub mod interpret;
pub mod number;
pub mod render;
pub mod semantics;
pub mod value;
pub mod whole;
