//! L-system expansion driving a turtle-graphics interpreter.
//!
//! [`lsys::Lsys`] rewrites an axiom lazily, one terminal symbol per pull, under a
//! grammar held in a [`grammar::Grammar`]. [`turtle::Turtle`] interprets symbols as
//! moves of a pen and keeps a stack of saved poses.
pub mod grammar;
pub mod lsys;
pub mod turtle;
