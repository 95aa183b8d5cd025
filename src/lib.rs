pub mod camera;
pub mod frame;
pub mod geometry;
pub mod labels;
pub mod marker;
pub mod placement;
pub mod timeline;
