//! A small entity-component-system runtime: a store of entities, components
//! and resources, a query resolver, timers, and a scheduler that runs a fixed
//! set of systems once per frame and at fixed time steps.
//!
//! Every length of time is a whole number of nanoseconds.

pub mod app;
pub mod commands;
pub mod component;
pub mod error;
mod math;
pub mod query;
pub mod resource;
pub mod schedule;
pub mod systems;
pub mod timer;
pub mod world;
