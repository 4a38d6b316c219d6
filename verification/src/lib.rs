//! Core simulation of a short-session arcade cooking game.
//!
//! A customer with a randomly generated palate arrives; the player drags
//! foods from a shelf into the customer's mouth or into a pan. Eaten and
//! cooked foods spawn per-taste objective tokens that drift toward the
//! stomach or pan zone; a periodic pan smash scores the pan tokens against
//! the customer's palate and adjusts a difficulty threshold. This crate
//! holds the verified simulation core: the phase state machine, the hand,
//! shelf, flavor and scoring subsystems, and the tick pipeline that drives
//! them. Rendering, audio and input capture are left to the embedding
//! program, which feeds plain values in and reads plain values out.

pub mod geom;
pub mod taste;
pub mod flavor;
pub mod rng;
pub mod timer;
pub mod catalog;
pub mod state;
pub mod hand;
pub mod shelf;
pub mod objectives;
pub mod dude;
pub mod round;
pub mod tick;
