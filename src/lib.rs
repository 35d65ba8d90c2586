//! A genetic-algorithm trainer for a feed-forward network that plays snake:
//! the game rules, the snake's sensors, the network's shape and forward pass,
//! and the population's genetic operators.

pub mod grid;
pub mod snake;
pub mod sensors;
pub mod spawn;
pub mod game;
pub mod network;
pub mod genetic;
pub mod trainer;
pub mod replay;
