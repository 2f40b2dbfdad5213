pub mod space;
pub mod terrain;
pub mod time;
