use vstd::prelude::*;

pub mod app;
pub mod camera;

pub mod direction;
pub mod fixture;
pub mod game;
pub mod grid;
pub mod level;
pub mod position;
pub mod render;
pub mod scenario;
pub mod text;
