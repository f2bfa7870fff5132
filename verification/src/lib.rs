//! Setpoint optimisation by simulated annealing.
//!
//! The crate searches for a near-optimal setpoint for one or more controllable
//! environmental parameters (a thermostat's target temperature, a humidity
//! level) by balancing the cost of changing a parameter against the user's
//! satisfaction with the resulting value.  All quantities are fixed-point
//! numbers measured in millionths of a unit (see [`fixed`]), so every formula
//! in the crate is exact integer arithmetic with stated rounding.

pub mod acceptance;
pub mod annealing;
pub mod energia;
pub mod errors;
pub mod fixed;
pub mod normalizacion;
pub mod practicas;
pub mod rng;
pub mod satisfaccion;
pub mod satisfaccion_mult_categorias;
pub mod simulated_annealing;
pub mod val_satisfaccion_individual;
