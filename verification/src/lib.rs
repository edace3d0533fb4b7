//! Measures how far a downstream fork has drifted from its upstream branch —
//! in commits and line churn — on a recurring daily schedule, persists the
//! measurements as a per-repository time series, and makes them queryable.

pub mod calendar;
pub mod chronos;
pub mod config;
pub mod database;
pub mod delays;
pub mod repo;
pub mod routes;
