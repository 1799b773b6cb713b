//! What holds of the library as a whole.

pub mod entries;
pub mod lists;
pub mod matches;
pub mod names;
pub mod numbers;
pub mod periods;
pub mod players;
pub mod requests;
pub mod tables;
pub mod texts;
pub mod timer;
pub mod uploads;
