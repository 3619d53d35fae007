//! What holds of the library as a whole.
pub mod addresses;
pub mod course;
pub mod decisions;
pub mod entries;
pub mod extraction;
pub mod lines;
pub mod sizes;
pub mod stages;
pub mod texts;
pub mod variants;
pub mod views;
pub mod window;
