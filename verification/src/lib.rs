//! The discrete core of a ray tracer.
//!
//! A ray tracer is mostly arithmetic on real numbers, and some decisions. This
//! library holds the decisions, and the arithmetic is the caller's. Every
//! number is a binary32 value carried as its bit pattern: the library stores
//! numbers, hands them on, compares them and tells what kind of number a
//! pattern is, and never computes with them.
//!
//! - [`scalar`] and [`value`]: the numbers, their order, and what they are
//!   worth.
//! - [`tuple`], [`color`] and [`rays`]: points, vectors, colours and rays, and
//!   which tuples may form a ray.
//! - [`intersections`]: the places where a ray meets a shape, which of them is
//!   seen, and their order.
//! - [`shapes`] and [`patterns`]: what is made of the numbers once a ray has
//!   been met with a sphere or a plane, and which part of a pattern owns a
//!   point.
//! - [`world`] and [`lighting`]: the scene, what it reports for a ray,
//!   whether something stands between a point and a light, and which parts of
//!   the light reach the eye.
//! - [`camera`]: the order in which the pixels of an image are rendered, and
//!   the side of the image that spans the view.
//! - [`canvas`]: the finished image, as plain PPM text and as a PNG stream.
//! - [`perlin`]: the hashing behind gradient noise.
pub mod camera;
pub mod canvas;
pub mod color;
pub mod intersections;
pub mod lighting;
pub mod patterns;
pub mod perlin;
pub mod rays;
pub mod scalar;
pub mod shapes;
pub mod tuple;
pub mod value;
pub mod world;
