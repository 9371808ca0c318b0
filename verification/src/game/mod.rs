pub mod combat;
pub mod levels;
pub mod phase;
pub mod state;
pub mod ufo;
