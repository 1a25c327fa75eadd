//! A ray-tracing core on fixed-point arithmetic: colours, rays and intersections,
//! screen iteration, scene buffers with compositing and median filtering, and the
//! renderers that turn a view of a world into pixels.

pub mod fixed;
pub mod numeric;
pub mod complex;
pub mod color;
pub mod defs;
pub mod ray;
pub mod material;
pub mod intersection;
pub mod model;
pub mod intersector;
pub mod light;
pub mod illuminator;
pub mod shading;
pub mod screen;
pub mod view;
pub mod world;
pub mod renderer;
pub mod scene_buffer;
pub mod task;
pub mod global_illumination;
pub mod median;
pub mod median_filter;
pub mod linalg;
pub mod image_output;
