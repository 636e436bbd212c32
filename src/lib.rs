//! Discrete core of a Monte Carlo path tracer: the order in which pixels are
//! produced and stored, the bounded bounce control of the path integrator, and
//! the ASCII PPM encoding of the finished image.

pub mod frame;
pub mod path;
pub mod ppm;
