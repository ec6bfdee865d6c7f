pub mod game;
pub mod motion;
pub mod object;
pub mod plane;
