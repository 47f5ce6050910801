pub mod celestial;
pub mod draw;
pub mod game;
pub mod insect;
pub mod map;
pub mod physics;
pub mod rocket;
pub mod pos;
pub mod spaceship;
pub mod tileset;
mod random;
