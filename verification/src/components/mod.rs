pub mod navigation;
pub mod render;
