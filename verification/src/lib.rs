//! Position of a transmitter in the plane, estimated from the strength of
//! its signal at three fixed stations.
//!
//! A reading becomes a distance by a linear calibration ([`distance`]). The
//! stations are moved into a frame anchored at the first of them ([`frame`]).
//! Newton's method intersects the circles about the first two stations
//! ([`solver`]); the distance to the third station decides between the point
//! found and its mirror image ([`select`]). [`pipeline`] runs the three stages
//! in turn; [`station`] holds a deployment's stations, and [`defaults`] the
//! stations and settings that are used where nothing else is configured.
//!
//! Every number is a [`fixed::Fixed`]: a signed decimal with six fractional
//! digits. Sums and products are exact; a quotient, or a product stored back,
//! is rounded down once. Contracts speak of the raw value of a number, an
//! `int` that counts millionths. Whatever can fail returns an
//! [`error::EstimateError`]; no function panics.

pub mod defaults;
pub mod distance;
pub mod error;
pub mod fixed;
pub mod frame;
pub mod pipeline;
pub mod select;
pub mod solver;
pub mod station;
