pub mod contributor;
pub mod error;
pub mod license;
pub mod pyproject;
pub mod render;
pub mod split;
