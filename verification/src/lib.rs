pub mod creature;
pub mod rng;
pub mod world;
