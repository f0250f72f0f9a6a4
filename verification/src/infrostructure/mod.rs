pub mod camera;
